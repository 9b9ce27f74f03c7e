//! The service: a pool, its event log and its snapshots behind a command interface.
//!
//! A command that takes work outside of these books is split there: [`Service::handle_command`] says what is
//! to be done, and the function for its outcome gives the reply.

use vstd::prelude::*;

use crate::events::{self, EventLog, EventPayload, LogEntry, ServiceState, VmState};
use crate::images::{self, ImageRef};
use crate::path::{self, FilePath};
use crate::pool::{self, NoRuntime, Pool, PoolConfig, PoolError, VmEntry};
use crate::protocol::{
    AppProtocol, LogLine, LogStream, NullProtocol, ServiceCommand, ServiceEvent, VmCommand, VmConfig,
    VmEvent, VmId,
};
use crate::snapshot::{SnapshotError, SnapshotMetadata, SnapshotStore};
use crate::text;
use crate::transport::LineInput;
use tokio::sync::mpsc;

verus! {

/// `dirs::state_dir` gives the directory for the state of programs, where the platform has one; here as the
/// bytes of its path. It depends on the environment, so nothing is claimed of it.
#[verifier::external_body]
fn state_dir() -> (dir: Option<Vec<u8>>) {
    dirs::state_dir().map(|path| path.into_os_string().into_encoded_bytes())
}

/// `dirs::data_local_dir` gives the directory for the local data of programs, where there is a home
/// directory; here as the bytes of its path. It depends on the environment, so nothing is claimed of it.
#[verifier::external_body]
fn data_local_dir() -> (dir: Option<Vec<u8>>) {
    dirs::data_local_dir().map(|path| path.into_os_string().into_encoded_bytes())
}

/// Configuration for the vm-pool service.
#[derive(Debug, PartialEq, Eq)]
pub struct ServiceConfig {
    /// Path for the Unix socket.
    pub socket_path: FilePath,
    /// Directory for snapshot storage.
    pub snapshot_dir: FilePath,
    /// Pool configuration.
    pub pool: PoolConfig,
}

impl Clone for ServiceConfig {
    fn clone(&self) -> (config: ServiceConfig)
        ensures
            config.socket_path@ == self.socket_path@,
            config.snapshot_dir@ == self.snapshot_dir@,
            config.pool == self.pool,
    {
        ServiceConfig {
            socket_path: self.socket_path.clone(),
            snapshot_dir: self.snapshot_dir.clone(),
            pool: self.pool,
        }
    }
}

/// Whether a configuration is the default one for a directory of program state.
pub open spec fn is_default_config(config: ServiceConfig, base: Seq<u8>) -> bool {
    &&& config.socket_path@ == path::utf8("/tmp/vm-pool.sock"@)
    &&& config.snapshot_dir@ == path::joined(
        path::joined(base, path::utf8("vm-pool"@)),
        path::utf8("snapshots"@),
    )
    &&& config.pool.max_vms == 6
    &&& config.pool.health_check_interval == 30
    &&& config.pool.vm_timeout == 7200
}

impl ServiceConfig {
    /// The default configuration, given the directories for the state and for the local data of programs, as
    /// the bytes of their paths: the first of them that there is, else the directory of temporary files.
    pub fn default_in(state_dir: Option<Vec<u8>>, data_local_dir: Option<Vec<u8>>) -> (config: ServiceConfig)
        ensures
            is_default_config(
                config,
                match (state_dir, data_local_dir) {
                    (Some(dir), _) => dir@,
                    (None, Some(dir)) => dir@,
                    (None, None) => path::utf8("/tmp"@),
                },
            ),
    {
        let base = match state_dir {
            Some(dir) => FilePath::from_bytes(dir),
            None => match data_local_dir {
                Some(dir) => FilePath::from_bytes(dir),
                None => FilePath::new("/tmp"),
            },
        };
        ServiceConfig {
            socket_path: FilePath::new("/tmp/vm-pool.sock"),
            snapshot_dir: base.join("vm-pool").join("snapshots"),
            pool: PoolConfig::default(),
        }
    }
}

impl Default for ServiceConfig {
    fn default() -> (config: ServiceConfig)
        ensures
            exists|base: Seq<u8>| #[trigger] is_default_config(config, base),
    {
        ServiceConfig::default_in(state_dir(), data_local_dir())
    }
}

/// What is to be done about a command.
#[verifier::reject_recursive_types(P)]
pub enum Step<P: AppProtocol = NullProtocol> {
    /// Reply.
    Reply { event: ServiceEvent<P> },
    /// Ask the backend to start a VM, and go on with [`Service::allocated`].
    Start { vm_id: VmId, image_ref: ImageRef, config: VmConfig, image: String },
    /// Ask the backend to stop a VM, drop its entry, and go on with [`Service::deallocated`].
    Stop { vm_id: VmId, entry: VmEntry<P> },
    /// Send a message on the command channel of a VM, and go on with [`Service::delivered`].
    Deliver { vm_id: VmId, message: VmCommand<P> },
    /// Save a snapshot of a VM, and go on with [`Service::snapshot_saved`].
    Save { vm_id: VmId, name: String, image: String },
    /// Restore a VM from a snapshot, and go on with [`Service::restored`].
    Restore { vm_id: VmId, snapshot: String },
}

impl<P: AppProtocol> Step<P> {
    /// Whether this is to reply with an error that has a message.
    pub open spec fn refuses(self, message: Seq<char>) -> bool {
        self matches Step::Reply { event } && says_error(event, message)
    }
}

/// Whether an event is an error with a message.
pub open spec fn says_error<P: AppProtocol>(event: ServiceEvent<P>, message: Seq<char>) -> bool {
    event matches ServiceEvent::Error { message: text } && text@ == message
}

/// Whether an event is a reply that a command can get: the one that fits it, or an error.
pub open spec fn is_reply_to<P: AppProtocol>(event: ServiceEvent<P>, command: ServiceCommand<P>) -> bool {
    event is Error || match command {
        ServiceCommand::Allocate { image, .. } => event matches ServiceEvent::VmAllocated {
            image: allocated,
            ..
        } && allocated == image,
        ServiceCommand::Deallocate { vm_id } => event == (ServiceEvent::<P>::VmStopped { vm_id }),
        ServiceCommand::Send { vm_id, .. } => event == (ServiceEvent::<P>::CommandSent { vm_id }),
        ServiceCommand::Snapshot { vm_id, .. } => event == (ServiceEvent::<P>::VmStopped { vm_id }),
        ServiceCommand::Restore { vm_id, .. } => event == (ServiceEvent::<P>::VmReady { vm_id }),
        ServiceCommand::Status => event is PoolStatus,
        ServiceCommand::TailLogs { vm_id, .. } => event matches ServiceEvent::LogTail {
            vm_id: tail_id,
            ..
        } && tail_id == vm_id,
        ServiceCommand::SubscribeLogs { vm_id } => event == (ServiceEvent::<P>::LogsSubscribed { vm_id }),
        ServiceCommand::UnsubscribeLogs => event == (ServiceEvent::<P>::LogsSubscribed { vm_id: None }),
    }
}

/// The image that a request for one means: without a version, or where it is no reference, the latest of
/// that name.
pub open spec fn requested_image(image: Seq<char>) -> (Seq<char>, Seq<char>) {
    match images::parsed_ref(image) {
        Some(parts) => parts,
        None => (image, "latest"@),
    }
}

/// Log entries as they are sent to clients.
pub open spec fn log_lines(entries: Seq<LogEntry>) -> Seq<LogLine> {
    entries.map_values(|e: LogEntry| LogLine { stream: e.0, line: e.1, timestamp: e.2 })
}

fn to_log_lines(entries: Vec<LogEntry>) -> (lines: Vec<LogLine>)
    ensures
        lines@ == log_lines(entries@),
{
    let mut lines: Vec<LogLine> = Vec::new();
    let ghost all = entries@;
    for entry in it: entries
        invariant
            it.seq() == all,
            lines@ == log_lines(all.take(it.index() as int)),
    {
        lines.push(LogLine { stream: entry.0, line: entry.1, timestamp: entry.2 });
        assert(lines@ =~= log_lines(all.take(it.index() + 1)));
    }
    assert(all.take(all.len() as int) =~= all);
    lines
}

fn error_event<P: AppProtocol>(prefix: &str, message: &str) -> (event: ServiceEvent<P>)
    ensures
        says_error(event, prefix@ + message@),
{
    ServiceEvent::Error { message: text::concat(prefix, message) }
}

/// The books of the service.
#[verifier::reject_recursive_types(P)]
pub struct Service<R = NoRuntime, P: AppProtocol = NullProtocol> {
    pub pool: Pool<R, P>,
    pub events: EventLog<P>,
    pub snapshots: SnapshotStore,
    pub config: ServiceConfig,
}

impl<P: AppProtocol> Service<NoRuntime, P> {
    /// Create a new service with the given configuration (no VM runtime backend). The snapshot directory
    /// has to be there.
    pub fn new(config: ServiceConfig) -> (service: Service<NoRuntime, P>)
        ensures
            service.wf(),
            service.config == config,
            service.pool@ == pool::Vms::<P>::empty(),
            service.events@ == events::LogModel::<P>::empty(),
    {
        Service::with_runtime(config, NoRuntime)
    }
}

impl<R, P: AppProtocol> Service<R, P> {
    /// The books are in order, and kept as the configuration says.
    pub open spec fn wf(&self) -> bool {
        &&& self.pool.wf()
        &&& self.events.wf()
        &&& self.pool.config() == self.config.pool
        &&& self.snapshots@ == self.config.snapshot_dir@
    }

    /// Whether the configuration, the backend and the snapshot store are those of an earlier state, and the
    /// event log still reaches its subscribers.
    pub open spec fn kept(&self, before: &Service<R, P>) -> bool {
        &&& self.config == before.config
        &&& self.snapshots == before.snapshots
        &&& self.pool.spec_runtime() == before.pool.spec_runtime()
        &&& self.events.keeps_subscribers(&before.events)
    }

    /// Whether pool and event log are those of another state.
    pub open spec fn same_books(&self, before: &Service<R, P>) -> bool {
        &&& self.pool@ == before.pool@
        &&& self.events@ == before.events@
    }

    /// Create a new service with a specific runtime backend. The snapshot directory has to be there.
    pub fn with_runtime(config: ServiceConfig, runtime: R) -> (service: Service<R, P>)
        ensures
            service.wf(),
            service.config == config,
            service.pool.spec_runtime() == runtime,
            service.pool@ == pool::Vms::<P>::empty(),
            service.events@ == events::LogModel::<P>::empty(),
    {
        Service {
            pool: Pool::with_runtime(config.pool, runtime),
            events: EventLog::new(),
            snapshots: SnapshotStore::new(config.snapshot_dir.clone()),
            config,
        }
    }

    /// Records a state that the service has come to: Starting before it binds its socket, Ready after.
    pub fn record_state(&mut self, state: ServiceState, now: u64)
        requires
            old(self).wf(),
        ensures
            final(self).wf(),
            final(self).kept(old(self)),
            final(self).pool@ == old(self).pool@,
            final(self).events@ == old(self).events@.appended(EventPayload::Service { state }, now),
    {
        let _ = self.events.append_at(EventPayload::Service { state }, now);
    }

    /// Handle a single command: the reply, or what is to be done first.
    pub fn handle_command(
        &mut self,
        command: ServiceCommand<P>,
        count: &mut u64,
        now_us: u64,
        now: u64,
    ) -> (step: Step<P>)
        requires
            old(self).wf(),
        ensures
            final(self).wf(),
            final(self).kept(old(self)),
            step matches Step::Reply { event } ==> is_reply_to(event, command),
            pool::counted_below(old(self).pool@, *old(count)) && *old(count) < u64::MAX
                ==> pool::counted_below(final(self).pool@, *final(count)),
            match command {
                ServiceCommand::Status => {
                    &&& final(self).same_books(old(self))
                    &&& *final(count) == *old(count)
                    &&& step matches Step::Reply {
                        event: ServiceEvent::PoolStatus { total, available, allocated },
                    }
                    &&& total == old(self).config.pool.max_vms
                    &&& allocated == old(self).pool@.dom().len()
                    &&& available + allocated == total
                },
                ServiceCommand::Allocate { image, config } => if old(self).pool.full() {
                    &&& final(self).same_books(old(self))
                    &&& *final(count) == *old(count)
                    &&& step.refuses(
                        "allocate failed: "@ + (PoolError::Exhausted {
                            available: 0,
                            requested: 1,
                        }).message(),
                    )
                } else {
                    &&& step matches Step::Start {
                        vm_id,
                        image_ref,
                        config: start_config,
                        image: start_image,
                    }
                    &&& vm_id@ == pool::vm_id_text(now_us as nat, *old(count) as nat)
                    &&& pool::counted_below(old(self).pool@, *old(count))
                        ==> !old(self).pool@.dom().contains(vm_id@)
                    &&& image_ref@ == requested_image(image@)
                    &&& start_config == config
                    &&& start_image == image
                    &&& *final(count) == pool::next_count(*old(count))
                    &&& final(self).pool@ == old(self).pool@
                    &&& final(self).events@ == old(self).events@.with_buffer(vm_id@).appended(
                        pool::lifecycle(vm_id, VmState::Allocating),
                        now,
                    )
                },
                ServiceCommand::Deallocate { vm_id } => {
                    &&& *final(count) == *old(count)
                    &&& if old(self).pool@.dom().contains(vm_id@) {
                        &&& step matches Step::Stop { vm_id: stop_id, entry }
                        &&& stop_id == vm_id
                        &&& entry == old(self).pool@[vm_id@]
                        &&& final(self).pool@ == old(self).pool@.remove(vm_id@)
                        &&& final(self).events@ == old(self).events@.appended(
                            pool::lifecycle(vm_id, VmState::Stopping),
                            now,
                        )
                    } else {
                        &&& final(self).same_books(old(self))
                        &&& step.refuses(
                            "deallocate failed: "@ + PoolError::VmNotFound(vm_id).message(),
                        )
                    }
                },
                ServiceCommand::Send { vm_id, command } => {
                    &&& final(self).same_books(old(self))
                    &&& *final(count) == *old(count)
                    &&& if old(self).pool@.dom().contains(vm_id@) {
                        step == (Step::Deliver {
                            vm_id,
                            message: VmCommand::<P>::App { payload: command },
                        })
                    } else {
                        step.refuses("send failed: "@ + PoolError::VmNotFound(vm_id).message())
                    }
                },
                ServiceCommand::Snapshot { vm_id, name } => {
                    &&& final(self).same_books(old(self))
                    &&& *final(count) == *old(count)
                    &&& if old(self).pool@.dom().contains(vm_id@) {
                        &&& step matches Step::Save { vm_id: save_id, name: save_name, image }
                        &&& save_id == vm_id
                        &&& save_name == name
                        &&& image@ == "unknown"@
                    } else {
                        step.refuses("VM not found: "@ + vm_id@)
                    }
                },
                ServiceCommand::Restore { vm_id, snapshot } => {
                    &&& final(self).same_books(old(self))
                    &&& *final(count) == *old(count)
                    &&& step == (Step::<P>::Restore { vm_id, snapshot })
                },
                ServiceCommand::TailLogs { vm_id, lines } => {
                    &&& final(self).same_books(old(self))
                    &&& *final(count) == *old(count)
                    &&& step matches Step::Reply {
                        event: ServiceEvent::LogTail { vm_id: tail_id, lines: tail },
                    }
                    &&& tail_id == vm_id
                    &&& tail@ == log_lines(
                        events::last_of(old(self).events@.lines_of(vm_id@), lines as nat),
                    )
                },
                ServiceCommand::SubscribeLogs { vm_id } => {
                    &&& final(self).same_books(old(self))
                    &&& *final(count) == *old(count)
                    &&& step == (Step::<P>::Reply { event: ServiceEvent::LogsSubscribed { vm_id } })
                },
                ServiceCommand::UnsubscribeLogs => {
                    &&& final(self).same_books(old(self))
                    &&& *final(count) == *old(count)
                    &&& step == (Step::<P>::Reply {
                        event: ServiceEvent::LogsSubscribed { vm_id: None },
                    })
                },
            },
    {
        match command {
            ServiceCommand::Status => {
                let status = self.pool.status();
                Step::Reply {
                    event: ServiceEvent::PoolStatus {
                        total: status.total,
                        available: status.available,
                        allocated: status.allocated,
                    },
                }
            },
            ServiceCommand::Allocate { image, config } => {
                let image_ref = match ImageRef::parse(image.as_str()) {
                    Some(image_ref) => image_ref,
                    None => ImageRef::new(image.as_str(), "latest"),
                };
                match self.pool.allocate(&mut self.events, count, now_us, now) {
                    Ok(vm_id) => Step::Start { vm_id, image_ref, config, image },
                    Err(error) => Step::Reply {
                        event: error_event("allocate failed: ", error.to_string().as_str()),
                    },
                }
            },
            ServiceCommand::Deallocate { vm_id } => match self.pool.deallocate(
                &mut self.events,
                &vm_id,
                now,
            ) {
                Ok(entry) => Step::Stop { vm_id, entry },
                Err(error) => {
                    assert(self.pool@ =~= old(self).pool@);
                    Step::Reply {
                        event: error_event("deallocate failed: ", error.to_string().as_str()),
                    }
                },
            },
            ServiceCommand::Send { vm_id, command } => match self.pool.send_to_vm(&vm_id, command) {
                Ok((_, message)) => Step::Deliver { vm_id, message },
                Err(error) => Step::Reply {
                    event: error_event("send failed: ", error.to_string().as_str()),
                },
            },
            ServiceCommand::Snapshot { vm_id, name } => match self.pool.get(&vm_id) {
                Some(_) => Step::Save { vm_id, name, image: "unknown".to_owned() },
                None => Step::Reply { event: error_event("VM not found: ", vm_id.as_str()) },
            },
            ServiceCommand::Restore { vm_id, snapshot } => Step::Restore { vm_id, snapshot },
            ServiceCommand::TailLogs { vm_id, lines } => {
                let lines = to_log_lines(self.events.tail_vm_logs(&vm_id, lines));
                Step::Reply { event: ServiceEvent::LogTail { vm_id, lines } }
            },
            ServiceCommand::SubscribeLogs { vm_id } => Step::Reply {
                event: ServiceEvent::LogsSubscribed { vm_id },
            },
            ServiceCommand::UnsubscribeLogs => Step::Reply {
                event: ServiceEvent::LogsSubscribed { vm_id: None },
            },
        }
    }

    /// The reply to a request for a VM, given what the backend answered when it was asked to start one.
    pub fn allocated(
        &mut self,
        vm_id: VmId,
        image_ref: ImageRef,
        config: VmConfig,
        image: String,
        started: Result<mpsc::Sender<VmCommand<P>>, PoolError>,
        now: u64,
    ) -> (event: ServiceEvent<P>)
        requires
            old(self).wf(),
            !old(self).pool.full(),
        ensures
            final(self).wf(),
            final(self).kept(old(self)),
            forall|count: u64|
                pool::made_below(vm_id@, count) && #[trigger] pool::counted_below(old(self).pool@, count)
                    ==> pool::counted_below(final(self).pool@, count),
            forall|asked: VmConfig|
                #[trigger] is_reply_to(event, ServiceCommand::<P>::Allocate { image, config: asked }),
            match started {
                Ok(command_tx) => {
                    &&& event == (ServiceEvent::<P>::VmAllocated { vm_id, image })
                    &&& final(self).pool@ == old(self).pool@.insert(
                        vm_id@,
                        pool::started_entry(vm_id, image_ref, config, now, command_tx),
                    )
                    &&& final(self).events@ == old(self).events@.appended(
                        pool::lifecycle(vm_id, VmState::Ready),
                        now,
                    )
                },
                Err(error) => {
                    &&& says_error(event, "allocate failed: "@ + error.message())
                    &&& final(self).pool@ == old(self).pool@
                    &&& final(self).events@ == old(self).events@.appended(
                        pool::lifecycle(vm_id, VmState::Crashed),
                        now,
                    )
                },
            },
    {
        match self.pool.finish_allocate(&mut self.events, vm_id, image_ref, config, started, now) {
            Ok(vm_id) => ServiceEvent::VmAllocated { vm_id, image },
            Err(error) => error_event("allocate failed: ", error.to_string().as_str()),
        }
    }

    /// The reply to a request to give up a VM, once the backend was asked to stop it.
    pub fn deallocated(&mut self, vm_id: VmId, now: u64) -> (event: ServiceEvent<P>)
        requires
            old(self).wf(),
        ensures
            final(self).wf(),
            final(self).kept(old(self)),
            event == (ServiceEvent::<P>::VmStopped { vm_id }),
            is_reply_to(event, ServiceCommand::<P>::Deallocate { vm_id }),
            final(self).pool@ == old(self).pool@,
            final(self).events@ == old(self).events@.appended(
                pool::lifecycle(vm_id, VmState::Stopped),
                now,
            ).without_buffer(vm_id@),
    {
        Pool::<R, P>::finish_deallocate(&mut self.events, &vm_id, now);
        ServiceEvent::VmStopped { vm_id }
    }

    /// The reply to a command for a VM, given whether the VM's command channel took the message. What the
    /// VM answers comes later, as events.
    pub fn delivered(vm_id: VmId, taken: bool) -> (event: ServiceEvent<P>)
        ensures
            forall|command: P::Command|
                #[trigger] is_reply_to(event, ServiceCommand::<P>::Send { vm_id, command }),
            if taken {
                event == (ServiceEvent::<P>::CommandSent { vm_id })
            } else {
                says_error(
                    event,
                    "send failed: "@ + ("runtime error: "@ + ("VM "@ + vm_id@
                        + " command channel closed"@)),
                )
            },
    {
        match Pool::<R, P>::finish_send(&vm_id, taken) {
            Ok(()) => ServiceEvent::CommandSent { vm_id },
            Err(error) => error_event("send failed: ", error.to_string().as_str()),
        }
    }

    /// The reply to a request to save a snapshot, given what came of it.
    pub fn snapshot_saved(vm_id: VmId, saved: Result<SnapshotMetadata, SnapshotError>) -> (event:
        ServiceEvent<P>)
        ensures
            forall|name: String|
                #[trigger] is_reply_to(event, ServiceCommand::<P>::Snapshot { vm_id, name }),
            match saved {
                Ok(_) => event == (ServiceEvent::<P>::VmStopped { vm_id }),
                Err(error) => says_error(event, "snapshot failed: "@ + error.message()),
            },
    {
        match saved {
            Ok(_) => ServiceEvent::VmStopped { vm_id },
            Err(error) => error_event("snapshot failed: ", error.to_string().as_str()),
        }
    }

    /// The reply to a request to restore a VM from a snapshot, given what came of it.
    pub fn restored(vm_id: VmId, restored: Result<FilePath, SnapshotError>) -> (event: ServiceEvent<P>)
        ensures
            forall|snapshot: String|
                #[trigger] is_reply_to(event, ServiceCommand::<P>::Restore { vm_id, snapshot }),
            match restored {
                Ok(_) => event == (ServiceEvent::<P>::VmReady { vm_id }),
                Err(error) => says_error(event, "restore failed: "@ + error.message()),
            },
    {
        match restored {
            Ok(_) => ServiceEvent::VmReady { vm_id },
            Err(error) => error_event("restore failed: ", error.to_string().as_str()),
        }
    }
}

/// What is to be done about a line from a client.
#[derive(Debug, Clone, PartialEq)]
pub enum ConnectionStep<P: AppProtocol = NullProtocol> {
    /// Handle a command, send the reply and read on.
    Handle { command: ServiceCommand<P> },
    /// Send a reply and read on.
    Reply { event: ServiceEvent<P> },
    /// Stop reading.
    Close,
}

/// Whether a step is what is to be done about a line from a client.
pub open spec fn is_connection_step<P: AppProtocol>(
    input: LineInput<ServiceCommand<P>>,
    step: ConnectionStep<P>,
) -> bool {
    match input {
        LineInput::Parsed(command) => step == (ConnectionStep::<P>::Handle { command }),
        LineInput::Malformed(reason) => step matches ConnectionStep::Reply { event } && says_error(
            event,
            "invalid command: "@ + reason@,
        ),
        LineInput::End => step is Close,
        LineInput::Failed(_) => step is Close,
    }
}

/// Decides what to do about a line from a client: a line that is no command is answered with an error and
/// does not end the connection.
pub fn connection_step<P: AppProtocol>(input: LineInput<ServiceCommand<P>>) -> (step: ConnectionStep<P>)
    ensures
        is_connection_step(input, step),
{
    match input {
        LineInput::Parsed(command) => ConnectionStep::Handle { command },
        LineInput::Malformed(reason) => ConnectionStep::Reply {
            event: error_event("invalid command: ", reason.as_str()),
        },
        LineInput::End => ConnectionStep::Close,
        LineInput::Failed(_) => ConnectionStep::Close,
    }
}

/// What a client is answered where these steps are taken one after the other, up to the first that closes
/// the connection. `handler` says what the command on a line is answered, the lines being counted on from
/// `line`.
pub open spec fn answers<P: AppProtocol>(
    steps: Seq<ConnectionStep<P>>,
    handler: spec_fn(nat, ServiceCommand<P>) -> ServiceEvent<P>,
    line: nat,
) -> Seq<ServiceEvent<P>>
    decreases steps.len(),
{
    if steps.len() == 0 {
        Seq::empty()
    } else {
        let rest = answers(steps.skip(1), handler, line + 1);
        match steps[0] {
            ConnectionStep::Handle { command } => seq![handler(line, command)] + rest,
            ConnectionStep::Reply { event } => seq![event] + rest,
            ConnectionStep::Close => Seq::empty(),
        }
    }
}

/// The number of lines before the connection ends or fails.
pub open spec fn lines_before_end<P: AppProtocol>(inputs: Seq<LineInput<ServiceCommand<P>>>) -> nat
    decreases inputs.len(),
{
    if inputs.len() == 0 || inputs[0] is End || inputs[0] is Failed {
        0
    } else {
        1 + lines_before_end(inputs.skip(1))
    }
}

/// Whether an event answers a line: a command is answered what the handler says, and anything else with an
/// error.
pub open spec fn answers_line<P: AppProtocol>(
    input: LineInput<ServiceCommand<P>>,
    handler: spec_fn(nat, ServiceCommand<P>) -> ServiceEvent<P>,
    line: nat,
    event: ServiceEvent<P>,
) -> bool {
    match input {
        LineInput::Parsed(command) => event == handler(line, command),
        LineInput::Malformed(reason) => says_error(event, "invalid command: "@ + reason@),
        _ => false,
    }
}

/// A client gets one answer for each line that it sends, in order, up to the end of the connection, and none
/// after it.
pub proof fn lemma_every_line_is_answered<P: AppProtocol>(
    inputs: Seq<LineInput<ServiceCommand<P>>>,
    steps: Seq<ConnectionStep<P>>,
    handler: spec_fn(nat, ServiceCommand<P>) -> ServiceEvent<P>,
    line: nat,
)
    requires
        inputs.len() == steps.len(),
        forall|i: int| 0 <= i < inputs.len() ==> #[trigger] is_connection_step(inputs[i], steps[i]),
    ensures
        ({
            let n = lines_before_end(inputs);
            let answered = answers(steps, handler, line);
            &&& answered.len() == n <= inputs.len()
            &&& n < inputs.len() ==> inputs[n as int] is End || inputs[n as int] is Failed
            &&& forall|i: int|
                0 <= i < n ==> answers_line(
                    inputs[i],
                    handler,
                    (line + i) as nat,
                    #[trigger] answered[i],
                )
        }),
    decreases inputs.len(),
{
    if inputs.len() > 0 {
        let answered = answers(steps, handler, line);
        assert(is_connection_step(inputs[0], steps[0]));
        if !(inputs[0] is End || inputs[0] is Failed) {
            let later = inputs.skip(1);
            let steps_later = steps.skip(1);
            assert forall|i: int| 0 <= i < later.len() implies #[trigger] is_connection_step(
                later[i],
                steps_later[i],
            ) by {
                assert(is_connection_step(inputs[i + 1], steps[i + 1]));
            }
            lemma_every_line_is_answered(later, steps_later, handler, line + 1);
            let rest = answers(steps_later, handler, line + 1);
            assert forall|i: int| 0 <= i < lines_before_end(inputs) implies answers_line(
                inputs[i],
                handler,
                (line + i) as nat,
                #[trigger] answered[i],
            ) by {
                if i > 0 {
                    assert(answered[i] == rest[i - 1]);
                    assert(later[i - 1] == inputs[i]);
                }
            }
        }
    }
}

/// Where every command gets a reply that fits it, a client is answered on each line with a reply that fits
/// the command on it, or with an error.
pub proof fn lemma_answers_fit<P: AppProtocol>(
    inputs: Seq<LineInput<ServiceCommand<P>>>,
    steps: Seq<ConnectionStep<P>>,
    handler: spec_fn(nat, ServiceCommand<P>) -> ServiceEvent<P>,
)
    requires
        inputs.len() == steps.len(),
        forall|i: int| 0 <= i < inputs.len() ==> #[trigger] is_connection_step(inputs[i], steps[i]),
        forall|line: nat, command: ServiceCommand<P>|
            is_reply_to(#[trigger] handler(line, command), command),
    ensures
        forall|i: int|
            0 <= i < answers(steps, handler, 0).len() ==> match inputs[i] {
                LineInput::Parsed(command) => is_reply_to(
                    #[trigger] answers(steps, handler, 0)[i],
                    command,
                ),
                _ => answers(steps, handler, 0)[i] is Error,
            },
{
    lemma_every_line_is_answered(inputs, steps, handler, 0);
    let answered = answers(steps, handler, 0);
    assert forall|i: int| 0 <= i < answered.len() implies match inputs[i] {
        LineInput::Parsed(command) => is_reply_to(#[trigger] answered[i], command),
        _ => answered[i] is Error,
    } by {
        assert(answers_line(inputs[i], handler, i as nat, answered[i]));
    }
}

/// What clients are sent of an event: application events of VMs, and nothing else.
pub open spec fn forwarded<P: AppProtocol>(payload: EventPayload<P>) -> Option<ServiceEvent<P>> {
    match payload {
        EventPayload::VmApp { vm_id, event } => Some(ServiceEvent::VmApp { vm_id, event }),
        _ => None,
    }
}

/// Decides what clients are sent of an event.
pub fn forward_event<P: AppProtocol>(payload: EventPayload<P>) -> (event: Option<ServiceEvent<P>>)
    ensures
        event == forwarded(payload),
{
    match payload {
        EventPayload::VmApp { vm_id, event } => Some(ServiceEvent::VmApp { vm_id, event }),
        _ => None,
    }
}

/// What clients are sent of a run of events.
pub open spec fn forwarded_all<P: AppProtocol>(payloads: Seq<EventPayload<P>>) -> Seq<ServiceEvent<P>>
    decreases payloads.len(),
{
    if payloads.len() == 0 {
        Seq::empty()
    } else {
        match forwarded(payloads.last()) {
            Some(event) => forwarded_all(payloads.drop_last()).push(event),
            None => forwarded_all(payloads.drop_last()),
        }
    }
}

/// The application events among what VMs emitted, each under the VM that it is from.
pub open spec fn app_events_among<P: AppProtocol>(emitted: Seq<(VmId, VmEvent<P>)>) -> Seq<ServiceEvent<P>>
    decreases emitted.len(),
{
    if emitted.len() == 0 {
        Seq::empty()
    } else {
        let before = app_events_among(emitted.drop_last());
        match emitted.last().1 {
            VmEvent::App { payload } => before.push(
                ServiceEvent::VmApp { vm_id: emitted.last().0, event: payload },
            ),
            _ => before,
        }
    }
}

/// Of what VMs emit, clients get the application events, all of them, in their order, each under the VM
/// that it is from, and nothing else.
pub proof fn lemma_clients_get_app_events<P: AppProtocol>(emitted: Seq<(VmId, VmEvent<P>)>)
    ensures
        forwarded_all(
            emitted.map_values(|e: (VmId, VmEvent<P>)| pool::vm_record(e.0, e.1)),
        ) == app_events_among(emitted),
    decreases emitted.len(),
{
    let records = emitted.map_values(|e: (VmId, VmEvent<P>)| pool::vm_record(e.0, e.1));
    if emitted.len() > 0 {
        let rest = emitted.drop_last();
        lemma_clients_get_app_events(rest);
        assert(records.drop_last() =~= rest.map_values(
            |e: (VmId, VmEvent<P>)| pool::vm_record(e.0, e.1),
        ));
        assert(records.last() == pool::vm_record(emitted.last().0, emitted.last().1));
    }
}

/// The reply to a request for the end of a VM's log names this VM and has as many lines as the log has, but
/// no more than were asked for: the last ones, in their order, each with the stream, the text and the time
/// of its entry in the log.
pub proof fn lemma_tail_reply_keeps_entries<R, P: AppProtocol>(
    service: &mut Service<R, P>,
    vm_id: VmId,
    lines: usize,
    count: &mut u64,
    now_us: u64,
    now: u64,
    step: Step<P>,
)
    requires
        old(service).wf(),
        call_ensures(
            Service::<R, P>::handle_command,
            (service, ServiceCommand::TailLogs { vm_id, lines }, count, now_us, now),
            step,
        ),
    ensures
        step matches Step::Reply { event: ServiceEvent::LogTail { vm_id: of, lines: tail } } && {
            let log = old(service).events@.lines_of(vm_id@);
            let skipped = log.len() - tail@.len();
            &&& of@ == vm_id@
            &&& tail@.len() <= lines
            &&& tail@.len() <= log.len()
            &&& tail@.len() == lines || tail@.len() == log.len()
            &&& forall|i: int|
                0 <= i < tail@.len() ==> {
                    &&& (#[trigger] tail@[i]).stream == log[skipped + i].0
                    &&& tail@[i].line@ == log[skipped + i].1@
                    &&& tail@[i].timestamp == log[skipped + i].2
                }
        },
{
}

/// A line that a VM logs is the last of the lines that a request for the end of its log is answered with,
/// as it was logged, and before it stand those that were kept of the VM's log before.
pub proof fn lemma_logged_line_is_sent<P: AppProtocol>(
    log: events::LogModel<P>,
    vm_id: VmId,
    stream: LogStream,
    line: String,
    timestamp: u64,
    n: nat,
)
    requires
        0 < n,
    ensures
        ({
            let after = log.appended(EventPayload::VmLog { vm_id, stream, line }, timestamp);
            let sent = log_lines(events::last_of(after.lines_of(vm_id@), n));
            &&& sent.len() > 0
            &&& sent.last().stream == stream
            &&& sent.last().line@ == line@
            &&& sent.last().timestamp == timestamp
            &&& sent.drop_last() == log_lines(
                events::last_of(
                    log.lines_of(vm_id@),
                    if n <= events::LOG_LINES {
                        (n - 1) as nat
                    } else {
                        (events::LOG_LINES - 1) as nat
                    },
                ),
            )
        }),
{
    let after = log.appended(EventPayload::VmLog { vm_id, stream, line }, timestamp);
    let sent = log_lines(events::last_of(after.lines_of(vm_id@), n));
    assert(sent.drop_last() =~= log_lines(
        events::last_of(
            log.lines_of(vm_id@),
            if n <= events::LOG_LINES {
                (n - 1) as nat
            } else {
                (events::LOG_LINES - 1) as nat
            },
        ),
    ));
}

/// A request for a VM starts one of the image that is named: by a name without a colon and a version behind
/// a colon, both of them not empty, or else the latest of what is named, taken as it stands. The
/// configuration and the text of the request go along unchanged.
pub proof fn lemma_requested_image_is_started<R, P: AppProtocol>(
    service: &mut Service<R, P>,
    image: String,
    config: VmConfig,
    count: &mut u64,
    now_us: u64,
    now: u64,
    step: Step<P>,
    name: Seq<char>,
    version: Seq<char>,
)
    requires
        old(service).wf(),
        call_ensures(
            Service::<R, P>::handle_command,
            (service, ServiceCommand::Allocate { image, config }, count, now_us, now),
            step,
        ),
        name.len() > 0,
        version.len() > 0,
        !name.contains(':'),
    ensures
        step is Start <==> old(service).pool@.dom().len() < old(service).pool.config().max_vms,
        step is Start || (step matches Step::Reply { event } && event is Error),
        step matches Step::Start { image_ref, config: asked, image: text, .. } ==> {
            &&& asked == config
            &&& text@ == image@
            &&& image@ == name + seq![':'] + version ==> image_ref.name@ == name && image_ref.version@
                == version
            &&& !image@.contains(':') || image@[0] == ':' ==> image_ref.name@ == image@
                && image_ref.version@ == "latest"@
            &&& image@ == name + seq![':'] ==> image_ref.name@ == image@ && image_ref.version@
                == "latest"@
            &&& image_ref.name@ + seq![':'] + image_ref.version@ == image@ || (image_ref.name@ == image@
                && image_ref.version@ == "latest"@)
        },
{
    if let Step::Start { image_ref, .. } = step {
        let s = image@;
        text::lemma_first_of(s, ':');
        images::lemma_parsed_ref_text(s);
        images::lemma_ref_text_parses(name, version);
        assert(name + seq![':'] + version =~= images::ref_text(name, version));
        assert(image_ref.name@ + seq![':'] + image_ref.version@ =~= images::ref_text(
            image_ref.name@,
            image_ref.version@,
        ));
        let at = text::first_of(s, ':');
        if s == name + seq![':'] {
            if at < name.len() {
                assert(name[at] == ':');
            }
            assert(s[name.len() as int] == ':');
            assert(at == s.len() - 1);
        }
        if !s.contains(':') && at < s.len() {
            assert(s[at] == ':');
        }
        if s.len() > 0 && s[0] == ':' {
            assert(at == 0);
        }
    }
}

/// Of a payload clients are sent something exactly where it is an event of an application, and then this
/// event with the VM that it is from.
pub proof fn lemma_only_app_events_are_forwarded<P: AppProtocol>(
    payload: EventPayload<P>,
    event: Option<ServiceEvent<P>>,
)
    requires
        call_ensures(forward_event::<P>, (payload,), event),
    ensures
        event is Some <==> payload is VmApp,
        payload matches EventPayload::VmApp { vm_id, event: emitted } ==> (event matches Some(
            ServiceEvent::VmApp { vm_id: from, event: sent },
        ) && from@ == vm_id@ && sent == emitted),
{
}

/// The status that a client is told counts the VMs of the pool: those that it holds and those that it can
/// still take make up its limit.
pub proof fn lemma_status_counts_vms<R, P: AppProtocol>(
    service: &mut Service<R, P>,
    count: &mut u64,
    now_us: u64,
    now: u64,
    step: Step<P>,
)
    requires
        old(service).wf(),
        call_ensures(
            Service::<R, P>::handle_command,
            (service, ServiceCommand::Status, count, now_us, now),
            step,
        ),
    ensures
        step matches Step::Reply { event: ServiceEvent::PoolStatus { total, available, allocated } } && {
            &&& total == old(service).pool.config().max_vms
            &&& allocated == old(service).pool@.dom().len()
            &&& available == total - allocated
        },
        final(service).pool@ == old(service).pool@,
        final(service).events@ == old(service).events@,
{
}

/// A command about a VM that the pool does not hold is refused with an error that ends in the VM's
/// identifier, and changes nothing; one about a VM that it holds goes to that VM.
pub proof fn lemma_unknown_vms_are_refused<R, P: AppProtocol>(
    service: &mut Service<R, P>,
    command: ServiceCommand<P>,
    vm_id: VmId,
    count: &mut u64,
    now_us: u64,
    now: u64,
    step: Step<P>,
)
    requires
        old(service).wf(),
        call_ensures(
            Service::<R, P>::handle_command,
            (service, command, count, now_us, now),
            step,
        ),
        match command {
            ServiceCommand::Deallocate { vm_id: id } => id == vm_id,
            ServiceCommand::Send { vm_id: id, .. } => id == vm_id,
            ServiceCommand::Snapshot { vm_id: id, .. } => id == vm_id,
            _ => false,
        },
    ensures
        !old(service).pool@.dom().contains(vm_id@) ==> {
            &&& step matches Step::Reply { event: ServiceEvent::Error { message } }
            &&& message@.len() >= vm_id@.len()
            &&& message@.skip(message@.len() - vm_id@.len()) == vm_id@
            &&& final(service).pool@ == old(service).pool@
            &&& final(service).events@ == old(service).events@
        },
        old(service).pool@.dom().contains(vm_id@) ==> match command {
            ServiceCommand::Send { command: payload, .. } => step matches Step::Deliver {
                vm_id: to,
                message: VmCommand::App { payload: sent },
            } && to@ == vm_id@ && sent == payload,
            ServiceCommand::Snapshot { name, .. } => step matches Step::Save {
                vm_id: of,
                name: under,
                image,
            } && of@ == vm_id@ && under@ == name@ && image@ == "unknown"@,
            _ => step matches Step::Stop { vm_id: of, entry } && of@ == vm_id@ && entry
                == old(service).pool@[vm_id@] && !final(service).pool@.dom().contains(vm_id@),
        },
{
    if let Step::Reply { event: ServiceEvent::Error { message } } = step {
        if !old(service).pool@.dom().contains(vm_id@) {
            let message = message@;
            assert(message.skip(message.len() - vm_id@.len()) =~= vm_id@);
        }
    }
}

/// The default directory of snapshots stands below the directory that is given for the state of programs,
/// else below that for their local data, else below that of temporary files, under one name for all.
pub proof fn lemma_default_snapshots_stand_in_base(
    state_dir: Option<Vec<u8>>,
    data_local_dir: Option<Vec<u8>>,
    config: ServiceConfig,
    base: Seq<u8>,
)
    requires
        call_ensures(ServiceConfig::default_in, (state_dir, data_local_dir), config),
        match (state_dir, data_local_dir) {
            (Some(dir), _) => base == dir@,
            (None, Some(dir)) => base == dir@,
            (None, None) => base == path::utf8("/tmp"@),
        },
    ensures
        config.snapshot_dir@ == path::joined(base, path::utf8("vm-pool/snapshots"@)),
        base.is_prefix_of(config.snapshot_dir@),
        path::utf8("vm-pool/snapshots"@).is_suffix_of(config.snapshot_dir@),
{
    let a = path::utf8("vm-pool"@);
    let b = path::utf8("snapshots"@);
    let whole = path::utf8("vm-pool/snapshots"@);
    reveal_strlit("vm-pool");
    reveal_strlit("snapshots");
    reveal_strlit("vm-pool/snapshots");
    reveal_strlit("/");
    assert("vm-pool/snapshots"@ =~= "vm-pool"@ + "/"@ + "snapshots"@);
    path::lemma_utf8_concat("vm-pool"@ + "/"@, "snapshots"@);
    path::lemma_utf8_concat("vm-pool"@, "/"@);
    path::lemma_absolute_text("vm-pool"@);
    path::lemma_absolute_text("snapshots"@);
    path::lemma_absolute_text("vm-pool/snapshots"@);
    path::lemma_last_byte("vm-pool"@);
    path::lemma_slash();
    assert("/"@ =~= seq!['/']);
    assert('l' as u32 != 0x2f);
    assert(a.last() != path::SLASH);
    path::lemma_join_is_associative(base, a, b);
    assert(path::joined(a, b) =~= a.push(path::SLASH) + b);
    assert(whole =~= path::joined(a, b));
    let dir = config.snapshot_dir@;
    assert(dir == path::joined(base, whole));
    assert(base =~= dir.subrange(0, base.len() as int));
    assert(whole =~= dir.subrange(dir.len() - whole.len(), dir.len() as int));
}

/// What came of a command is told to the client under the VM that it was for: a success as the event that
/// fits the command, a failure as an error that ends in the reason.
pub proof fn lemma_outcomes_are_told<R, P: AppProtocol>(
    vm_id: VmId,
    taken: bool,
    sent: ServiceEvent<P>,
    saved: Result<SnapshotMetadata, SnapshotError>,
    saved_event: ServiceEvent<P>,
    restored: Result<FilePath, SnapshotError>,
    restored_event: ServiceEvent<P>,
)
    requires
        call_ensures(Service::<R, P>::delivered, (vm_id, taken), sent),
        call_ensures(Service::<R, P>::snapshot_saved, (vm_id, saved), saved_event),
        call_ensures(Service::<R, P>::restored, (vm_id, restored), restored_event),
    ensures
        taken ==> (sent matches ServiceEvent::CommandSent { vm_id: to } && to@ == vm_id@),
        !taken ==> sent is Error,
        saved is Ok ==> (saved_event matches ServiceEvent::VmStopped { vm_id: of } && of@ == vm_id@),
        saved matches Err(error) ==> (saved_event matches ServiceEvent::Error { message } && message@.len()
            >= error.message().len() && message@.skip(message@.len() - error.message().len())
            == error.message()),
        restored is Ok ==> (restored_event matches ServiceEvent::VmReady { vm_id: of } && of@ == vm_id@),
        restored matches Err(error) ==> (restored_event matches ServiceEvent::Error { message }
            && message@.len() >= error.message().len() && message@.skip(
            message@.len() - error.message().len(),
        ) == error.message()),
{
    if let Err(error) = saved {
        let said = "snapshot failed: "@ + error.message();
        assert(said.skip(said.len() - error.message().len()) =~= error.message());
    }
    if let Err(error) = restored {
        let said = "restore failed: "@ + error.message();
        assert(said.skip(said.len() - error.message().len()) =~= error.message());
    }
}

/// Where the backend started a VM, the client is told its identifier and the image that it asked for, and the
/// pool holds the VM as it was started; where it did not, the client gets an error that ends in the reason,
/// and the pool holds what it held.
pub proof fn lemma_allocation_is_told<R, P: AppProtocol>(
    service: &mut Service<R, P>,
    vm_id: VmId,
    image_ref: ImageRef,
    config: VmConfig,
    image: String,
    started: Result<mpsc::Sender<VmCommand<P>>, PoolError>,
    now: u64,
    event: ServiceEvent<P>,
)
    requires
        old(service).wf(),
        !old(service).pool.full(),
        call_ensures(
            Service::<R, P>::allocated,
            (service, vm_id, image_ref, config, image, started, now),
            event,
        ),
    ensures
        started matches Ok(tx) ==> {
            &&& event matches ServiceEvent::VmAllocated { vm_id: id, image: asked }
            &&& id@ == vm_id@ && asked@ == image@
            &&& final(service).pool@.dom().contains(vm_id@)
            &&& final(service).pool@[vm_id@].image == image_ref
            &&& final(service).pool@[vm_id@].config == config
            &&& final(service).pool@[vm_id@].started_at == now
            &&& final(service).pool@[vm_id@].command_tx == Some(tx)
        },
        started matches Err(error) ==> {
            &&& event matches ServiceEvent::Error { message }
            &&& message@.len() >= error.message().len()
            &&& message@.skip(message@.len() - error.message().len()) == error.message()
            &&& final(service).pool@ == old(service).pool@
        },
{
    if let Err(error) = started {
        let said = "allocate failed: "@ + error.message();
        assert(said.skip(said.len() - error.message().len()) =~= error.message());
    }
}

/// When a VM was given up, the client is told so under this VM, which is recorded as stopped and has no log
/// any more; the pool stays as it is.
pub proof fn lemma_deallocation_is_told<R, P: AppProtocol>(
    service: &mut Service<R, P>,
    vm_id: VmId,
    now: u64,
    event: ServiceEvent<P>,
)
    requires
        old(service).wf(),
        call_ensures(Service::<R, P>::deallocated, (service, vm_id, now), event),
    ensures
        event matches ServiceEvent::VmStopped { vm_id: of } && of@ == vm_id@,
        final(service).pool@ == old(service).pool@,
        final(service).events@.lines_of(vm_id@).len() == 0,
        final(service).events@.events.len() == old(service).events@.events.len() + 1,
        final(service).events@.events.last().payload matches EventPayload::VmLifecycle { vm_id: of, state }
            && of@ == vm_id@ && state is Stopped,
        final(service).events@.events.last().timestamp == now,
{
}

/// A request to restore a VM or about a log subscription changes nothing; what it names comes back in what
/// is to be done about it.
pub proof fn lemma_named_vms_come_back<R, P: AppProtocol>(
    service: &mut Service<R, P>,
    command: ServiceCommand<P>,
    count: &mut u64,
    now_us: u64,
    now: u64,
    step: Step<P>,
)
    requires
        old(service).wf(),
        call_ensures(Service::<R, P>::handle_command, (service, command, count, now_us, now), step),
        command is Restore || command is SubscribeLogs || command is UnsubscribeLogs,
    ensures
        command matches ServiceCommand::Restore { vm_id, snapshot } ==> (step matches Step::Restore {
            vm_id: of,
            snapshot: from,
        } && of@ == vm_id@ && from@ == snapshot@),
        command matches ServiceCommand::SubscribeLogs { vm_id } ==> (step matches Step::Reply {
            event: ServiceEvent::LogsSubscribed { vm_id: of },
        } && of == vm_id),
        command is UnsubscribeLogs ==> (step matches Step::Reply {
            event: ServiceEvent::LogsSubscribed { vm_id: of },
        } && of is None),
        final(service).pool@ == old(service).pool@,
        final(service).events@ == old(service).events@,
        *final(count) == *old(count),
{
}

/// A line from a client is handled as a command exactly where it holds one, and then as that one. A line
/// that holds none is answered with an error that ends in the reason, behind the same words for all, and the
/// connection is closed exactly at its end and at a failure.
pub proof fn lemma_connection_steps_fit_lines<P: AppProtocol>(
    input: LineInput<ServiceCommand<P>>,
    step: ConnectionStep<P>,
    other: LineInput<ServiceCommand<P>>,
    other_step: ConnectionStep<P>,
)
    requires
        call_ensures(connection_step::<P>, (input,), step),
        call_ensures(connection_step::<P>, (other,), other_step),
    ensures
        step is Handle <==> input is Parsed,
        step matches ConnectionStep::Handle { command } ==> input == LineInput::Parsed(command),
        step is Close <==> input is End || input is Failed,
        input matches LineInput::Malformed(a) ==> (step matches ConnectionStep::Reply {
            event: ServiceEvent::Error { message: x },
        } && (other matches LineInput::Malformed(b) ==> (other_step matches ConnectionStep::Reply {
            event: ServiceEvent::Error { message: y },
        } && text::led_alike(x@, a@, y@, b@)))),
{
    let lead = "invalid command: "@;
    if let LineInput::Malformed(a) = input {
        assert(step matches ConnectionStep::Reply { event: ServiceEvent::Error { message: x } } && x@ == lead
            + a@);
    }
}

/// A state that the service has come to is recorded as such, with the time, as an event about no VM.
pub proof fn lemma_service_states_are_recorded<R, P: AppProtocol>(
    service: &mut Service<R, P>,
    state: ServiceState,
    now: u64,
)
    requires
        old(service).wf(),
        call_ensures(Service::<R, P>::record_state, (service, state, now), ()),
    ensures
        final(service).pool@ == old(service).pool@,
        final(service).events@.events.drop_last() == old(service).events@.events,
        final(service).events@.events.len() == old(service).events@.events.len() + 1,
        final(service).events@.events.last().payload == (EventPayload::<P>::Service { state }),
        final(service).events@.events.last().timestamp == now,
        final(service).events@.events.last().vm_id is None,
{
    assert(final(service).events@.events.drop_last() =~= old(service).events@.events);
}

} // verus!
