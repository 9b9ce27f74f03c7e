//! VM pool: allocation, limits, health monitoring, lifecycle.
//!
//! An operation that has to wait for the VM backend is split at that point: the first part decides what
//! the backend is asked, the second takes its answer.

use tokio::sync::mpsc;
use vstd::prelude::*;

use crate::channel::{self, VmHandle};
use crate::clock;
use crate::events::{self, Event, EventLog, EventPayload, InfraEvent, LogModel, VmState};
use crate::images::{ImageError, ImageRef};
use crate::protocol::{AppProtocol, NullProtocol, Priority, VmCommand, VmConfig, VmEvent, VmId};
use crate::table::Table;
use crate::text;
use crate::transport::TransportError;

verus! {

#[derive(Debug, Clone, PartialEq, Eq)]
pub enum PoolError {
    Exhausted { available: usize, requested: usize },
    VmNotFound(VmId),
    VmNotReady(VmId),
    Image(ImageError),
    Transport(TransportError),
    Runtime(String),
}

impl PoolError {
    /// The message of this error.
    pub open spec fn message(self) -> Seq<char> {
        match self {
            PoolError::Exhausted { available, requested } => "pool exhausted: "@ + text::decimal(
                available as nat,
            ) + " available, "@ + text::decimal(requested as nat) + " requested"@,
            PoolError::VmNotFound(vm_id) => "VM not found: "@ + vm_id@,
            PoolError::VmNotReady(vm_id) => "VM not ready: "@ + vm_id@,
            PoolError::Image(error) => "image error: "@ + error.message(),
            PoolError::Transport(error) => "transport error: "@ + error.message(),
            PoolError::Runtime(what) => "runtime error: "@ + what@,
        }
    }

    /// The error as text.
    pub fn to_string(&self) -> (message: String)
        ensures
            message@ == self.message(),
    {
        match self {
            PoolError::Exhausted { available, requested } => {
                let mut message = "pool exhausted: ".to_owned();
                text::push_decimal(&mut message, *available as u64);
                message.append(" available, ");
                text::push_decimal(&mut message, *requested as u64);
                message.append(" requested");
                message
            },
            PoolError::VmNotFound(vm_id) => text::concat("VM not found: ", vm_id.as_str()),
            PoolError::VmNotReady(vm_id) => text::concat("VM not ready: ", vm_id.as_str()),
            PoolError::Image(error) => text::concat("image error: ", error.to_string().as_str()),
            PoolError::Transport(error) => text::concat(
                "transport error: ",
                error.to_string().as_str(),
            ),
            PoolError::Runtime(what) => text::concat("runtime error: ", what.as_str()),
        }
    }
}

/// Configuration for the VM pool.
#[derive(Debug, Clone, Copy, PartialEq, Eq)]
pub struct PoolConfig {
    /// The number of VMs that the pool holds at most.
    pub max_vms: usize,
    /// Seconds between two health checks.
    pub health_check_interval: u64,
    /// Seconds after which a VM has run for too long.
    pub vm_timeout: u64,
}

impl Default for PoolConfig {
    fn default() -> (config: PoolConfig)
        ensures
            config.max_vms == 6,
            config.health_check_interval == 30,
            config.vm_timeout == 7200,
    {
        PoolConfig { max_vms: 6, health_check_interval: 30, vm_timeout: 7200 }
    }
}

#[derive(Debug, Clone, Copy, PartialEq, Eq)]
pub struct PoolStatus {
    pub total: usize,
    pub allocated: usize,
    pub available: usize,
}

/// State of a VM in the pool.
#[verifier::reject_recursive_types(P)]
pub struct VmEntry<P: AppProtocol = NullProtocol> {
    pub id: VmId,
    pub image: ImageRef,
    pub config: VmConfig,
    pub state: VmState,
    pub started_at: u64,
    pub command_tx: Option<mpsc::Sender<VmCommand<P>>>,
}

impl<P: AppProtocol> VmEntry<P> {
    /// The milliseconds that the VM has run for; 0 where the clock was set back since it started.
    pub open spec fn age(self, now: u64) -> int {
        if now >= self.started_at {
            now - self.started_at
        } else {
            0
        }
    }

    /// Whether the VM has run for a number of seconds or longer.
    pub open spec fn timed_out(self, now: u64, timeout: u64) -> bool {
        self.age(now) >= timeout * 1000
    }

    /// Whether the VM is evicted before another one: because its priority is lower, or because it is the
    /// same and the VM was not started later.
    pub open spec fn goes_before(self, other: VmEntry<P>) -> bool {
        let rank = self.config.priority.spec_rank();
        let other_rank = other.config.priority.spec_rank();
        rank < other_rank || (rank == other_rank && self.started_at <= other.started_at)
    }
}

/// The VMs of a pool, by identifier.
pub type Vms<P> = Map<Seq<char>, VmEntry<P>>;

/// Marker type for pools without a runtime.
#[derive(Debug, Clone, Copy, PartialEq, Eq)]
pub struct NoRuntime;

impl NoRuntime {
    /// Keeps the books only: the VM counts as started, but nothing is behind its channels, so that whatever
    /// is sent to it comes back as an error.
    pub fn start<P: AppProtocol>(&self, _vm_id: &VmId, _image: &ImageRef, _config: &VmConfig) -> (started:
        Result<VmHandle<P>, PoolError>)
        ensures
            started is Ok,
    {
        let (command_tx, _) = channel::open_channel(1);
        let (_, event_rx) = channel::open_channel(1);
        Ok(VmHandle { command_tx, event_rx })
    }

    pub fn stop(&self, _vm_id: &VmId) -> (stopped: Result<(), PoolError>)
        ensures
            stopped is Ok,
    {
        Ok(())
    }
}

/// The VM pool manager, generic over runtime backend and application protocol.
#[verifier::reject_recursive_types(P)]
pub struct Pool<R = NoRuntime, P: AppProtocol = NullProtocol> {
    config: PoolConfig,
    vms: Table<VmEntry<P>>,
    runtime: R,
}

impl<R, P: AppProtocol> View for Pool<R, P> {
    type V = Vms<P>;

    closed spec fn view(&self) -> Vms<P> {
        self.vms@
    }
}

impl<P: AppProtocol> Pool<NoRuntime, P> {
    /// Create a pool without a runtime (commands to VMs fail, as nothing is behind their channels).
    pub fn new(config: PoolConfig) -> (pool: Pool<NoRuntime, P>)
        ensures
            pool.wf(),
            pool.config() == config,
            pool@ == Vms::<P>::empty(),
    {
        Pool::with_runtime(config, NoRuntime)
    }
}

impl<R, P: AppProtocol> Pool<R, P> {
    pub closed spec fn config(&self) -> PoolConfig {
        self.config
    }

    pub closed spec fn spec_runtime(&self) -> R {
        self.runtime
    }

    /// There are no more VMs than the limit allows. Every VM stands under its own identifier, is ready, and
    /// has a command channel.
    pub open spec fn wf(&self) -> bool {
        &&& self.inner_wf()
        &&& self@.dom().finite()
        &&& self@.dom().len() <= self.config().max_vms
        &&& forall|id: Seq<char>| #[trigger]
            self@.dom().contains(id) ==> {
                &&& self@[id].id@ == id
                &&& self@[id].state == VmState::Ready
                &&& self@[id].command_tx is Some
            }
    }

    pub closed spec fn inner_wf(&self) -> bool {
        self.vms.wf()
    }

    /// Whether the pool holds as many VMs as it may.
    pub open spec fn full(&self) -> bool {
        self@.dom().len() >= self.config().max_vms
    }

    pub fn with_runtime(config: PoolConfig, runtime: R) -> (pool: Pool<R, P>)
        ensures
            pool.wf(),
            pool.config() == config,
            pool.spec_runtime() == runtime,
            pool@ == Vms::<P>::empty(),
    {
        Pool { config, vms: Table::new(), runtime }
    }

    /// The backend of this pool.
    pub fn runtime(&self) -> (runtime: &R)
        ensures
            *runtime == self.spec_runtime(),
    {
        &self.runtime
    }

    pub fn status(&self) -> (status: PoolStatus)
        requires
            self.wf(),
        ensures
            status.total == self.config().max_vms,
            status.allocated == self@.dom().len(),
            status.available + status.allocated == status.total,
    {
        let allocated = self.vms.len();
        PoolStatus { total: self.config.max_vms, allocated, available: self.config.max_vms - allocated }
    }

    pub fn get(&self, vm_id: &VmId) -> (state: Option<VmState>)
        requires
            self.wf(),
        ensures
            match state {
                Some(s) => self@.dom().contains(vm_id@) && s == self@[vm_id@].state,
                None => !self@.dom().contains(vm_id@),
            },
    {
        match self.vms.get(vm_id) {
            Some(entry) => Some(entry.state),
            None => None,
        }
    }

    /// Every VM with its state, in no particular order.
    pub fn list(&self) -> (listed: Vec<(VmId, VmState)>)
        requires
            self.wf(),
        ensures
            listed_ids(listed@).no_duplicates(),
            listed_ids(listed@).to_set() == self@.dom(),
            forall|i: int|
                0 <= i < listed@.len() ==> (#[trigger] listed@[i]).1 == self@[listed@[i].0@].state,
    {
        let mut listed: Vec<(VmId, VmState)> = Vec::new();
        let ghost ids = self.vms.ids();
        let n = self.vms.len();
        proof {
            self.vms.lemma_ids();
        }
        let mut i: usize = 0;
        while i < n
            invariant
                self.wf(),
                i <= n,
                n == ids.len(),
                ids == self.vms.ids(),
                listed_ids(listed@) == ids.take(i as int),
                forall|j: int|
                    0 <= j < listed@.len() ==> (#[trigger] listed@[j]).1 == self@[listed@[j].0@].state,
            decreases n - i,
        {
            let (id, entry) = self.vms.row(i);
            let ghost before = listed_ids(listed@);
            listed.push((id.clone(), entry.state));
            proof {
                assert(listed_ids(listed@) =~= before.push(id@));
                assert(ids.take(i + 1) =~= ids.take(i as int).push(id@));
            }
            i += 1;
        }
        assert(ids.take(n as int) =~= ids);
        listed
    }

    /// The command channel of a VM.
    pub fn command_channel(&self, vm_id: &VmId) -> (tx: Option<&mpsc::Sender<VmCommand<P>>>)
        requires
            self.wf(),
        ensures
            match tx {
                Some(tx) => self@.dom().contains(vm_id@) && self@[vm_id@].command_tx == Some(*tx),
                None => !self@.dom().contains(vm_id@),
            },
    {
        match self.vms.get(vm_id) {
            Some(entry) => entry.command_tx.as_ref(),
            None => None,
        }
    }

    /// Decides on an application command for a VM: the channel that it is sent on and the message, or the
    /// error where there is no such VM.
    ///
    /// Infrastructure commands (Ping, Shutdown) are sent internally during lifecycle management; callers
    /// only send application messages.
    pub fn send_to_vm(&self, vm_id: &VmId, command: P::Command) -> (delivery: Result<
        (&mpsc::Sender<VmCommand<P>>, VmCommand<P>),
        PoolError,
    >)
        requires
            self.wf(),
        ensures
            match delivery {
                Ok((tx, message)) => {
                    &&& self@.dom().contains(vm_id@)
                    &&& self@[vm_id@].command_tx == Some(*tx)
                    &&& message == VmCommand::<P>::App { payload: command }
                },
                Err(PoolError::VmNotFound(id)) => !self@.dom().contains(vm_id@) && id == *vm_id,
                Err(_) => false,
            },
    {
        match self.vms.get(vm_id) {
            Some(entry) => match &entry.command_tx {
                Some(tx) => Ok((tx, VmCommand::App { payload: command })),
                None => Err(PoolError::VmNotReady(vm_id.clone())),
            },
            None => Err(PoolError::VmNotFound(vm_id.clone())),
        }
    }

    /// The outcome of sending to a VM, given whether its command channel took the message.
    pub fn finish_send(vm_id: &VmId, taken: bool) -> (sent: Result<(), PoolError>)
        ensures
            match sent {
                Ok(()) => taken,
                Err(PoolError::Runtime(what)) => !taken && what@ == "VM "@ + vm_id@
                    + " command channel closed"@,
                Err(_) => false,
            },
    {
        if taken {
            Ok(())
        } else {
            let mut what = text::concat("VM ", vm_id.as_str());
            what.append(" command channel closed");
            Err(PoolError::Runtime(what))
        }
    }

    /// Starts to allocate a VM: gives it an identifier, for which `count` and the time in microseconds are
    /// used, sets up its log buffer and records that it is being allocated. The backend is then asked to
    /// start it, and [`Pool::finish_allocate`] takes the answer.
    pub fn allocate(&self, events: &mut EventLog<P>, count: &mut u64, now_us: u64, now: u64) -> (begun:
        Result<VmId, PoolError>)
        requires
            self.wf(),
            old(events).wf(),
        ensures
            final(events).wf(),
            final(events).keeps_subscribers(old(events)),
            match begun {
                Ok(vm_id) => {
                    &&& !self.full()
                    &&& vm_id@ == vm_id_text(now_us as nat, *old(count) as nat)
                    &&& *final(count) == next_count(*old(count))
                    &&& counted_below(self@, *old(count)) ==> !self@.dom().contains(vm_id@)
                    &&& counted_below(self@, *old(count)) && *old(count) < u64::MAX ==> {
                        &&& made_below(vm_id@, *final(count))
                        &&& counted_below(self@, *final(count))
                    }
                    &&& final(events)@ == old(events)@.with_buffer(vm_id@).appended(
                        lifecycle(vm_id, VmState::Allocating),
                        now,
                    )
                },
                Err(error) => {
                    &&& self.full()
                    &&& error == (PoolError::Exhausted { available: 0, requested: 1 })
                    &&& *final(count) == *old(count)
                    &&& final(events)@ == old(events)@
                },
            },
    {
        if self.vms.len() >= self.config.max_vms {
            return Err(PoolError::Exhausted { available: 0, requested: 1 });
        }
        let vm_id = vm_id_at(now_us, *count);
        proof {
            lemma_next_id_is_fresh(now_us as nat, *count);
            if *count < u64::MAX {
                lemma_made_below_step(now_us as nat, *count);
                if counted_below(self@, *count) {
                    lemma_counted_below_grows(self@, *count, next_count(*count));
                }
            }
        }
        *count = (*count).wrapping_add(1);
        events.init_vm(&vm_id);
        let _ = events.append_at(
            EventPayload::VmLifecycle { vm_id: vm_id.clone(), state: VmState::Allocating },
            now,
        );
        Ok(vm_id)
    }

    /// Completes the allocation of a VM, given the command channel that the backend answered with, or why
    /// the VM did not start.
    pub fn finish_allocate(
        &mut self,
        events: &mut EventLog<P>,
        vm_id: VmId,
        image: ImageRef,
        config: VmConfig,
        started: Result<mpsc::Sender<VmCommand<P>>, PoolError>,
        now: u64,
    ) -> (allocated: Result<VmId, PoolError>)
        requires
            old(self).wf(),
            old(events).wf(),
            !old(self).full(),
        ensures
            final(self).wf(),
            final(self).config() == old(self).config(),
            final(self).spec_runtime() == old(self).spec_runtime(),
            final(events).wf(),
            final(events).keeps_subscribers(old(events)),
            forall|count: u64|
                made_below(vm_id@, count) && #[trigger] counted_below(old(self)@, count)
                    ==> counted_below(final(self)@, count),
            match (started, allocated) {
                (Ok(command_tx), Ok(id)) => {
                    &&& id == vm_id
                    &&& !old(self)@.dom().contains(vm_id@) ==> final(self)@.dom().len()
                        == old(self)@.dom().len() + 1
                    &&& final(self)@ == old(self)@.insert(
                        vm_id@,
                        started_entry(vm_id, image, config, now, command_tx),
                    )
                    &&& final(events)@ == old(events)@.appended(lifecycle(vm_id, VmState::Ready), now)
                },
                (Err(reason), Err(error)) => {
                    &&& error == reason
                    &&& final(self)@ == old(self)@
                    &&& final(events)@ == old(events)@.appended(
                        lifecycle(vm_id, VmState::Crashed),
                        now,
                    )
                },
                _ => false,
            },
    {
        let command_tx = match started {
            Ok(command_tx) => command_tx,
            Err(reason) => {
                let _ = events.append_at(
                    EventPayload::VmLifecycle { vm_id, state: VmState::Crashed },
                    now,
                );
                return Err(reason);
            },
        };
        let entry = VmEntry {
            id: vm_id.clone(),
            image,
            config,
            state: VmState::Ready,
            started_at: now,
            command_tx: Some(command_tx),
        };
        self.vms.insert(vm_id.clone(), entry);
        let _ = events.append_at(
            EventPayload::VmLifecycle { vm_id: vm_id.clone(), state: VmState::Ready },
            now,
        );
        Ok(vm_id)
    }

    /// Decides how room is made for a VM of a priority: `None` where there is a free slot, else the VM to
    /// deallocate first. That is, of those whose priority is strictly lower, the one of the lowest priority
    /// that was started first. Fails where the pool is full and no VM has a strictly lower priority.
    pub fn allocate_or_evict(&self, priority: Priority) -> (victim: Result<Option<VmId>, PoolError>)
        requires
            self.wf(),
        ensures
            match victim {
                Ok(None) => !self.full(),
                Ok(Some(vm_id)) => self.full() && is_victim(self@, priority, vm_id@),
                Err(error) => {
                    &&& self.full()
                    &&& forall|id: Seq<char>| #[trigger]
                        self@.dom().contains(id) ==> !evictable(self@[id], priority)
                    &&& error == (PoolError::Exhausted { available: 0, requested: 1 })
                },
            },
    {
        if self.vms.len() < self.config.max_vms {
            return Ok(None);
        }
        let mut victim: Option<usize> = None;
        let ghost ids = self.vms.ids();
        let n = self.vms.len();
        proof {
            self.vms.lemma_ids();
        }
        let mut i: usize = 0;
        while i < n
            invariant
                self.wf(),
                i <= n,
                n == ids.len(),
                ids == self.vms.ids(),
                forall|j: int| 0 <= j < ids.len() ==> #[trigger] self@.dom().contains(ids[j]),
                match victim {
                    Some(k) => {
                        &&& k < i
                        &&& evictable(self@[ids[k as int]], priority)
                        &&& forall|j: int|
                            0 <= j < i && evictable(#[trigger] self@[ids[j]], priority)
                                ==> self@[ids[k as int]].goes_before(self@[ids[j]])
                    },
                    None => forall|j: int|
                        0 <= j < i ==> !evictable(#[trigger] self@[ids[j]], priority),
                },
            decreases n - i,
        {
            let (_, entry) = self.vms.row(i);
            if entry.config.priority.rank() < priority.rank() {
                match victim {
                    Some(k) => {
                        let (_, best) = self.vms.row(k);
                        let rank = entry.config.priority.rank();
                        let best_rank = best.config.priority.rank();
                        if rank < best_rank || (rank == best_rank && entry.started_at
                            < best.started_at) {
                            victim = Some(i);
                        }
                    },
                    None => {
                        victim = Some(i);
                    },
                }
            }
            i += 1;
        }
        match victim {
            Some(k) => {
                let (id, _) = self.vms.row(k);
                proof {
                    assert forall|other: Seq<char>| #[trigger]
                        self@.dom().contains(other) && evictable(
                            self@[other],
                            priority,
                        ) implies self@[id@].goes_before(self@[other]) by {
                        assert(ids.contains(other));
                        assert(ids[ids.index_of(other)] == other);
                    }
                }
                Ok(Some(id.clone()))
            },
            None => {
                proof {
                    assert forall|other: Seq<char>| #[trigger]
                        self@.dom().contains(other) implies !evictable(self@[other], priority) by {
                        assert(ids.contains(other));
                        assert(ids[ids.index_of(other)] == other);
                    }
                }
                Err(PoolError::Exhausted { available: 0, requested: 1 })
            },
        }
    }

    /// Takes a VM out of the pool and records that it is stopping. The backend is then asked to stop it, and
    /// [`Pool::finish_deallocate`] is called whether or not it could.
    pub fn deallocate(&mut self, events: &mut EventLog<P>, vm_id: &VmId, now: u64) -> (removed: Result<
        VmEntry<P>,
        PoolError,
    >)
        requires
            old(self).wf(),
            old(events).wf(),
        ensures
            final(self).wf(),
            final(self).config() == old(self).config(),
            final(self).spec_runtime() == old(self).spec_runtime(),
            final(self)@ == old(self)@.remove(vm_id@),
            final(events).wf(),
            final(events).keeps_subscribers(old(events)),
            forall|count: u64| #[trigger]
                counted_below(old(self)@, count) ==> counted_below(final(self)@, count),
            match removed {
                Ok(entry) => {
                    &&& old(self)@.dom().contains(vm_id@)
                    &&& entry == old(self)@[vm_id@]
                    &&& final(events)@ == old(events)@.appended(
                        lifecycle(*vm_id, VmState::Stopping),
                        now,
                    )
                },
                Err(error) => {
                    &&& !old(self)@.dom().contains(vm_id@)
                    &&& error == PoolError::VmNotFound(*vm_id)
                    &&& final(events)@ == old(events)@
                },
            },
    {
        match self.vms.remove(vm_id) {
            Some(entry) => {
                let _ = events.append_at(
                    EventPayload::VmLifecycle { vm_id: vm_id.clone(), state: VmState::Stopping },
                    now,
                );
                Ok(entry)
            },
            None => Err(PoolError::VmNotFound(vm_id.clone())),
        }
    }

    /// Completes the deallocation of a VM: records that it has stopped and removes its log buffer.
    pub fn finish_deallocate(events: &mut EventLog<P>, vm_id: &VmId, now: u64)
        requires
            old(events).wf(),
        ensures
            final(events).wf(),
            final(events)@ == old(events)@.appended(
                lifecycle(*vm_id, VmState::Stopped),
                now,
            ).without_buffer(vm_id@),
            final(events).keeps_subscribers(old(events)),
    {
        let _ = events.append_at(
            EventPayload::VmLifecycle { vm_id: vm_id.clone(), state: VmState::Stopped },
            now,
        );
        events.cleanup_vm(vm_id);
    }

    /// The VMs that have run for too long, in no particular order. Each is then deallocated.
    pub fn health_check(&self, now: u64) -> (timed_out: Vec<VmId>)
        requires
            self.wf(),
            self@.dom().len() > 0 ==> self.config().vm_timeout * 1000 <= u64::MAX,
        ensures
            id_texts(timed_out@).no_duplicates(),
            forall|id: Seq<char>| #[trigger]
                id_texts(timed_out@).contains(id) <==> self@.dom().contains(id)
                    && self@[id].timed_out(now, self.config().vm_timeout),
    {
        let mut timed_out: Vec<VmId> = Vec::new();
        let ghost ids = self.vms.ids();
        let n = self.vms.len();
        proof {
            self.vms.lemma_ids();
            assert(id_texts(timed_out@) =~= Seq::empty());
        }
        let mut i: usize = 0;
        while i < n
            invariant
                self.wf(),
                i <= n,
                n == ids.len(),
                n == self@.dom().len(),
                ids == self.vms.ids(),
                ids.no_duplicates(),
                forall|j: int| 0 <= j < ids.len() ==> #[trigger] self@.dom().contains(ids[j]),
                n > 0 ==> self.config().vm_timeout * 1000 <= u64::MAX,
                id_texts(timed_out@).no_duplicates(),
                forall|id: Seq<char>| #[trigger]
                    id_texts(timed_out@).contains(id) <==> ids.take(
                        i as int,
                    ).contains(id) && self@[id].timed_out(now, self.config().vm_timeout),
            decreases n - i,
        {
            let (id, entry) = self.vms.row(i);
            let ghost done = ids.take(i as int);
            let ghost before = id_texts(timed_out@);
            let age_ms = now.saturating_sub(entry.started_at);
            proof {
                assert(ids.take(i + 1) =~= done.push(id@));
                assert(!done.contains(id@)) by {
                    if done.contains(id@) {
                        assert(ids[done.index_of(id@)] == ids[i as int]);
                    }
                }
                assert(!before.contains(id@));
                lemma_push_contains(done, id@);
            }
            if age_ms >= self.config.vm_timeout * 1000 {
                timed_out.push(id.clone());
                proof {
                    let after = id_texts(timed_out@);
                    assert(after =~= before.push(id@));
                    lemma_push_contains(before, id@);
                }
            }
            i += 1;
        }
        proof {
            assert(ids.take(n as int) =~= ids);
        }
        timed_out
    }
}

/// The texts of the identifiers in a list of VMs.
pub open spec fn listed_ids(listed: Seq<(VmId, VmState)>) -> Seq<Seq<char>> {
    listed.map_values(|row: (VmId, VmState)| row.0@)
}

/// The texts of identifiers.
pub open spec fn id_texts(ids: Seq<VmId>) -> Seq<Seq<char>> {
    ids.map_values(|id: VmId| id@)
}

/// What is in a sequence with one element more.
proof fn lemma_push_contains<T>(s: Seq<T>, x: T)
    ensures
        forall|y: T| #[trigger] s.push(x).contains(y) <==> s.contains(y) || y == x,
{
    assert forall|y: T| #[trigger] s.push(x).contains(y) <==> s.contains(y) || y == x by {
        if s.contains(y) {
            assert(s.push(x)[s.index_of(y)] == y);
        }
        if y == x {
            assert(s.push(x)[s.len() as int] == y);
        }
        if s.push(x).contains(y) && y != x {
            let i = s.push(x).index_of(y);
            assert(s[i] == y);
        }
    }
}

/// The record of a state that a VM has come to.
pub open spec fn lifecycle<P: AppProtocol>(vm_id: VmId, state: VmState) -> EventPayload<P> {
    EventPayload::VmLifecycle { vm_id, state }
}

/// The entry of a VM that has started.
pub open spec fn started_entry<P: AppProtocol>(
    id: VmId,
    image: ImageRef,
    config: VmConfig,
    started_at: u64,
    command_tx: mpsc::Sender<VmCommand<P>>,
) -> VmEntry<P> {
    VmEntry { id, image, config, state: VmState::Ready, started_at, command_tx: Some(command_tx) }
}

/// Whether a VM may be evicted for one of a priority.
pub open spec fn evictable<P: AppProtocol>(entry: VmEntry<P>, priority: Priority) -> bool {
    entry.config.priority.spec_rank() < priority.spec_rank()
}

/// Whether a VM is one to evict for a VM of a priority: it may be, and no other that may be goes before it.
pub open spec fn is_victim<P: AppProtocol>(vms: Vms<P>, priority: Priority, vm_id: Seq<char>) -> bool {
    &&& vms.dom().contains(vm_id)
    &&& evictable(vms[vm_id], priority)
    &&& forall|other: Seq<char>| #[trigger]
        vms.dom().contains(other) && evictable(vms[other], priority) ==> vms[vm_id].goes_before(
            vms[other],
        )
}

/// The identifier of a VM, made of a time in microseconds and a count.
pub open spec fn vm_id_text(us: nat, count: nat) -> Seq<char> {
    ("vm-"@ + text::hex(us)).push('-') + text::hex(count)
}

/// The count that follows another; the highest is followed by 0.
pub open spec fn next_count(count: u64) -> u64 {
    if count == u64::MAX {
        0
    } else {
        (count + 1) as u64
    }
}

/// The identifier of a VM, made of a time in microseconds and a count.
pub fn vm_id_at(us: u64, count: u64) -> (vm_id: VmId)
    ensures
        vm_id@ == vm_id_text(us as nat, count as nat),
{
    proof {
        reveal_strlit("-");
    }
    let mut id = "vm-".to_owned();
    text::push_hex(&mut id, us);
    id.append("-");
    text::push_hex(&mut id, count);
    assert(id@ =~= vm_id_text(us as nat, count as nat));
    VmId::from(id)
}

/// Makes an identifier of a time in microseconds, if the clock gave one, and a running count. `None`, and no
/// change to the count, where it gave none.
pub fn next_vm_id(now_us: Option<u64>, count: &mut u64) -> (vm_id: Option<VmId>)
    ensures
        match now_us {
            Some(us) => {
                &&& vm_id matches Some(id) && id@ == vm_id_text(us as nat, *old(count) as nat)
                &&& *final(count) == next_count(*old(count))
            },
            None => vm_id is None && *final(count) == *old(count),
        },
{
    match now_us {
        Some(us) => {
            let vm_id = vm_id_at(us, *count);
            *count = (*count).wrapping_add(1);
            Some(vm_id)
        },
        None => None,
    }
}

/// Makes an identifier of the current time and a running count. `None`, and no change to the count, where
/// the clock is set to a time before the Unix epoch.
pub fn generate_vm_id(count: &mut u64) -> (vm_id: Option<VmId>)
    ensures
        match vm_id {
            Some(id) => {
                &&& exists|us: u64| id@ == #[trigger] vm_id_text(us as nat, *old(count) as nat)
                &&& *final(count) == next_count(*old(count))
            },
            None => *final(count) == *old(count),
        },
{
    next_vm_id(clock::now_us(), count)
}

/// Identifiers with different counts differ, whatever the times.
pub proof fn lemma_vm_ids_differ(us: nat, count: nat, other_us: nat, other_count: nat)
    requires
        count != other_count,
    ensures
        vm_id_text(us, count) != vm_id_text(other_us, other_count),
{
    if vm_id_text(us, count) == vm_id_text(other_us, other_count) {
        let head = "vm-"@.len() as int;
        let a = text::hex(us).push('-') + text::hex(count);
        let b = text::hex(other_us).push('-') + text::hex(other_count);
        assert(a =~= vm_id_text(us, count).skip(head));
        assert(b =~= vm_id_text(other_us, other_count).skip(head));
        text::lemma_hex_no_hyphen(us);
        text::lemma_hex_no_hyphen(other_us);
        let n = text::hex(us).len() as int;
        let m = text::hex(other_us).len() as int;
        assert(a[n] == '-');
        assert(b[m] == '-');
        if n < m {
            assert(text::hex(other_us)[n] == b[n]);
        } else if m < n {
            assert(text::hex(us)[m] == a[m]);
        }
        assert(a.skip(n + 1) =~= text::hex(count));
        assert(b.skip(m + 1) =~= text::hex(other_count));
        text::lemma_hex_injective(count, other_count);
    }
}

/// Whether an identifier was made with a count below another one.
pub open spec fn made_below(id: Seq<char>, count: u64) -> bool {
    exists|us: nat, earlier: nat| earlier < count && id == #[trigger] vm_id_text(us, earlier)
}

/// Whether every VM has an identifier that was made with a count below the next one. So it is in a pool from
/// the start, and stays so as long as the running count does not wrap around.
pub open spec fn counted_below<P: AppProtocol>(vms: Vms<P>, count: u64) -> bool {
    forall|id: Seq<char>| #[trigger] vms.dom().contains(id) ==> made_below(id, count)
}

/// Whether every VM that a log mentions has an identifier that was made with a count below the next one.
pub open spec fn mentions_below<P: AppProtocol>(log: LogModel<P>, count: u64) -> bool {
    forall|i: int|
        0 <= i < log.events.len() ==> ((#[trigger] log.events[i]).vm_id matches Some(id) ==> made_below(
            id@,
            count,
        ))
}

/// The identifier that is made with the next count differs from all that were made before.
pub proof fn lemma_next_id_is_fresh(us: nat, count: u64)
    ensures
        !made_below(vm_id_text(us, count as nat), count),
{
    let id = vm_id_text(us, count as nat);
    if made_below(id, count) {
        let (other_us, earlier) = choose|other_us: nat, earlier: nat|
            earlier < count && id == #[trigger] vm_id_text(other_us, earlier);
        lemma_vm_ids_differ(us, count as nat, other_us, earlier);
    }
}

/// The identifier that is made with a count is below the count that follows.
proof fn lemma_made_below_step(us: nat, count: u64)
    requires
        count < u64::MAX,
    ensures
        made_below(vm_id_text(us, count as nat), next_count(count)),
{
    let earlier = count as nat;
    assert(earlier < next_count(count) && vm_id_text(us, count as nat) == vm_id_text(us, earlier));
}

/// What was made below a count was made below every higher one.
pub proof fn lemma_counted_below_grows<P: AppProtocol>(vms: Vms<P>, count: u64, later: u64)
    requires
        counted_below(vms, count),
        count <= later,
    ensures
        counted_below(vms, later),
{
    assert forall|id: Seq<char>| #[trigger] vms.dom().contains(id) implies made_below(id, later) by {
        let (us, earlier) = choose|us: nat, earlier: nat|
            earlier < count && id == #[trigger] vm_id_text(us, earlier);
        assert(earlier < later && id == vm_id_text(us, earlier));
    }
}

/// Appending a payload about a VM whose identifier was made below a count, or about none, keeps the log at
/// such VMs.
pub proof fn lemma_mentions_after_append<P: AppProtocol>(
    log: LogModel<P>,
    payload: EventPayload<P>,
    time: u64,
    count: u64,
)
    requires
        mentions_below(log, count),
        payload.source() matches Some(id) ==> made_below(id@, count),
    ensures
        mentions_below(log.appended(payload, time), count),
{
}

/// The record of an event that a VM emitted.
pub open spec fn vm_record<P: AppProtocol>(vm_id: VmId, event: VmEvent<P>) -> EventPayload<P> {
    match event {
        VmEvent::Ready => EventPayload::VmInfra { vm_id, event: InfraEvent::Ready },
        VmEvent::Pong => EventPayload::VmInfra { vm_id, event: InfraEvent::Pong },
        VmEvent::Shutdown => EventPayload::VmInfra { vm_id, event: InfraEvent::Shutdown },
        VmEvent::App { payload } => EventPayload::VmApp { vm_id, event: payload },
    }
}

/// Records an event that a VM emitted in the event log.
pub fn forward_vm_event<P: AppProtocol>(
    events: &mut EventLog<P>,
    vm_id: &VmId,
    event: VmEvent<P>,
    now: u64,
)
    requires
        old(events).wf(),
    ensures
        final(events).wf(),
        final(events)@ == old(events)@.appended(vm_record(*vm_id, event), now),
        final(events).keeps_subscribers(old(events)),
{
    let payload = match event {
        VmEvent::Ready => EventPayload::VmInfra { vm_id: vm_id.clone(), event: InfraEvent::Ready },
        VmEvent::Pong => EventPayload::VmInfra { vm_id: vm_id.clone(), event: InfraEvent::Pong },
        VmEvent::Shutdown => EventPayload::VmInfra {
            vm_id: vm_id.clone(),
            event: InfraEvent::Shutdown,
        },
        VmEvent::App { payload } => EventPayload::VmApp { vm_id: vm_id.clone(), event: payload },
    };
    let _ = events.append_at(payload, now);
}

/// The payloads about a VM among these, in their order.
pub open spec fn records_of<P: AppProtocol>(
    items: Seq<(EventPayload<P>, u64)>,
    vm_id: Seq<char>,
) -> Seq<EventPayload<P>>
    decreases items.len(),
{
    if items.len() == 0 {
        Seq::empty()
    } else {
        let before = records_of(items.drop_last(), vm_id);
        if (items.last().0.source() matches Some(id) && id@ == vm_id) {
            before.push(items.last().0)
        } else {
            before
        }
    }
}

/// The payloads of the events of a VM.
pub open spec fn payloads_for<P: AppProtocol>(log: LogModel<P>, vm_id: Seq<char>) -> Seq<EventPayload<P>> {
    log.events_for(vm_id).map_values(|e: Event<P>| e.payload)
}

/// However the records of several VMs come in between one another, the log holds those of each VM in the
/// order in which they came, behind what it held of this VM before.
pub proof fn lemma_vm_records_stay_in_order<P: AppProtocol>(
    log: LogModel<P>,
    items: Seq<(EventPayload<P>, u64)>,
    vm_id: Seq<char>,
)
    ensures
        payloads_for(events::appended_all(log, items), vm_id) == payloads_for(log, vm_id) + records_of(
            items,
            vm_id,
        ),
    decreases items.len(),
{
    if items.len() == 0 {
        assert(payloads_for(log, vm_id) + records_of(items, vm_id) =~= payloads_for(log, vm_id));
    } else {
        let before = events::appended_all(log, items.drop_last());
        let (payload, time) = items.last();
        lemma_vm_records_stay_in_order(log, items.drop_last(), vm_id);
        events::lemma_for_vm_after_append(before, payload, time, vm_id);
        let after = before.appended(payload, time);
        if before.next_event(payload, time).is_from(vm_id) {
            assert(payloads_for(after, vm_id) =~= payloads_for(before, vm_id).push(payload));
        } else {
            assert(payloads_for(after, vm_id) =~= payloads_for(before, vm_id));
        }
        assert(payloads_for(events::appended_all(log, items), vm_id) =~= payloads_for(log, vm_id) + records_of(
            items,
            vm_id,
        ));
    }
}

/// The states that a VM has come to, as far as they are among these payloads.
pub open spec fn states_in<P: AppProtocol>(payloads: Seq<EventPayload<P>>) -> Seq<VmState>
    decreases payloads.len(),
{
    if payloads.len() == 0 {
        Seq::empty()
    } else {
        match payloads.last() {
            EventPayload::VmLifecycle { state, .. } => states_in(payloads.drop_last()).push(state),
            _ => states_in(payloads.drop_last()),
        }
    }
}

/// The states that a log records of a VM, in their order.
pub open spec fn states_of<P: AppProtocol>(log: LogModel<P>, vm_id: Seq<char>) -> Seq<VmState> {
    states_in(payloads_for(log, vm_id))
}

/// Whether payloads record no state of a VM.
pub open spec fn no_state_of<P: AppProtocol>(items: Seq<(EventPayload<P>, u64)>, vm_id: Seq<char>) -> bool {
    forall|i: int|
        0 <= i < items.len() ==> !((#[trigger] items[i]).0 matches EventPayload::VmLifecycle {
            vm_id: id,
            ..
        } && id@ == vm_id)
}

/// A log records one state more of a VM when that is appended, and no other state of it when anything else
/// is.
proof fn lemma_states_after_append<P: AppProtocol>(
    log: LogModel<P>,
    payload: EventPayload<P>,
    time: u64,
    vm_id: Seq<char>,
)
    ensures
        states_of(log.appended(payload, time), vm_id) == match payload {
            EventPayload::VmLifecycle { vm_id: id, state } => if id@ == vm_id {
                states_of(log, vm_id).push(state)
            } else {
                states_of(log, vm_id)
            },
            _ => states_of(log, vm_id),
        },
{
    events::lemma_for_vm_after_append(log, payload, time, vm_id);
    let before = payloads_for(log, vm_id);
    let after = payloads_for(log.appended(payload, time), vm_id);
    if log.next_event(payload, time).is_from(vm_id) {
        assert(after =~= before.push(payload));
        assert(after.drop_last() =~= before);
    } else {
        assert(after =~= before);
    }
}

/// Appending payloads that record no state of a VM leaves its states as they are.
proof fn lemma_states_unchanged<P: AppProtocol>(
    log: LogModel<P>,
    items: Seq<(EventPayload<P>, u64)>,
    vm_id: Seq<char>,
)
    requires
        no_state_of(items, vm_id),
    ensures
        states_of(events::appended_all(log, items), vm_id) == states_of(log, vm_id),
    decreases items.len(),
{
    if items.len() > 0 {
        let rest = items.drop_last();
        assert(no_state_of(rest, vm_id)) by {
            assert forall|i: int| 0 <= i < rest.len() implies !((#[trigger] rest[i]).0 matches
                EventPayload::VmLifecycle { vm_id: id, .. } && id@ == vm_id) by {
                assert(rest[i] == items[i]);
            }
        }
        lemma_states_unchanged(log, rest, vm_id);
        assert(items.last() == items[items.len() - 1]);
        lemma_states_after_append(
            events::appended_all(log, rest),
            items.last().0,
            items.last().1,
            vm_id,
        );
    }
}

/// A VM that is allocated and later deallocated is recorded as allocating, ready, stopping and stopped, in
/// this order and no further state, whatever else is recorded in between.
pub proof fn lemma_lifecycle_is_recorded<P: AppProtocol>(
    log: LogModel<P>,
    vm_id: VmId,
    times: (u64, u64, u64, u64),
    while_starting: Seq<(EventPayload<P>, u64)>,
    while_ready: Seq<(EventPayload<P>, u64)>,
    while_stopping: Seq<(EventPayload<P>, u64)>,
)
    requires
        no_state_of(while_starting, vm_id@),
        no_state_of(while_ready, vm_id@),
        no_state_of(while_stopping, vm_id@),
    ensures
        ({
            let begun = log.with_buffer(vm_id@).appended(
                lifecycle(vm_id, VmState::Allocating),
                times.0,
            );
            let ready = events::appended_all(begun, while_starting).appended(
                lifecycle(vm_id, VmState::Ready),
                times.1,
            );
            let stopping = events::appended_all(ready, while_ready).appended(
                lifecycle(vm_id, VmState::Stopping),
                times.2,
            );
            let stopped = events::appended_all(stopping, while_stopping).appended(
                lifecycle(vm_id, VmState::Stopped),
                times.3,
            ).without_buffer(vm_id@);
            states_of(stopped, vm_id@) == states_of(log, vm_id@) + seq![
                VmState::Allocating,
                VmState::Ready,
                VmState::Stopping,
                VmState::Stopped,
            ]
        }),
{
    let id = vm_id@;
    let start = log.with_buffer(id);
    let begun = start.appended(lifecycle(vm_id, VmState::Allocating), times.0);
    lemma_states_after_append(start, lifecycle(vm_id, VmState::Allocating), times.0, id);
    let log1 = events::appended_all(begun, while_starting);
    lemma_states_unchanged(begun, while_starting, id);
    let ready = log1.appended(lifecycle(vm_id, VmState::Ready), times.1);
    lemma_states_after_append(log1, lifecycle(vm_id, VmState::Ready), times.1, id);
    let log2 = events::appended_all(ready, while_ready);
    lemma_states_unchanged(ready, while_ready, id);
    let stopping = log2.appended(lifecycle(vm_id, VmState::Stopping), times.2);
    lemma_states_after_append(log2, lifecycle(vm_id, VmState::Stopping), times.2, id);
    let log3 = events::appended_all(stopping, while_stopping);
    lemma_states_unchanged(stopping, while_stopping, id);
    let ended = log3.appended(lifecycle(vm_id, VmState::Stopped), times.3);
    lemma_states_after_append(log3, lifecycle(vm_id, VmState::Stopped), times.3, id);
    assert(start.events == log.events);
    assert(states_of(start, id) == states_of(log, id));
    let stopped = ended.without_buffer(id);
    assert(stopped.events == ended.events);
    assert(states_of(stopped, id) == states_of(ended, id));
    assert(states_of(stopped, id) =~= states_of(log, id) + seq![
        VmState::Allocating,
        VmState::Ready,
        VmState::Stopping,
        VmState::Stopped,
    ]);
}

/// Deallocating a VM undoes its allocation. The identifier that the VM got is new to the pool; with the VM the
/// pool holds one more; and afterwards it holds what it held before, with the slot free again. The states
/// that the log records of the VM are exactly these four, whatever else was recorded in between.
pub proof fn lemma_deallocate_undoes_allocate<P: AppProtocol>(
    vms: Vms<P>,
    log: LogModel<P>,
    us: nat,
    count: u64,
    vm_id: VmId,
    entry: VmEntry<P>,
    times: (u64, u64, u64, u64),
    while_starting: Seq<(EventPayload<P>, u64)>,
    while_ready: Seq<(EventPayload<P>, u64)>,
    while_stopping: Seq<(EventPayload<P>, u64)>,
)
    requires
        vms.dom().finite(),
        counted_below(vms, count),
        mentions_below(log, count),
        vm_id@ == vm_id_text(us, count as nat),
        no_state_of(while_starting, vm_id@),
        no_state_of(while_ready, vm_id@),
        no_state_of(while_stopping, vm_id@),
    ensures
        !vms.dom().contains(vm_id@),
        vms.insert(vm_id@, entry).dom().len() == vms.dom().len() + 1,
        vms.insert(vm_id@, entry).remove(vm_id@) == vms,
        ({
            let begun = log.with_buffer(vm_id@).appended(
                lifecycle(vm_id, VmState::Allocating),
                times.0,
            );
            let ready = events::appended_all(begun, while_starting).appended(
                lifecycle(vm_id, VmState::Ready),
                times.1,
            );
            let stopping = events::appended_all(ready, while_ready).appended(
                lifecycle(vm_id, VmState::Stopping),
                times.2,
            );
            let stopped = events::appended_all(stopping, while_stopping).appended(
                lifecycle(vm_id, VmState::Stopped),
                times.3,
            ).without_buffer(vm_id@);
            states_of(stopped, vm_id@) == seq![
                VmState::Allocating,
                VmState::Ready,
                VmState::Stopping,
                VmState::Stopped,
            ]
        }),
{
    lemma_next_id_is_fresh(us, count);
    assert(vms.insert(vm_id@, entry).dom() =~= vms.dom().insert(vm_id@));
    assert(vms.insert(vm_id@, entry).remove(vm_id@) =~= vms);
    lemma_unmentioned_has_no_events(log, vm_id@, count);
    lemma_lifecycle_is_recorded(log, vm_id, times, while_starting, while_ready, while_stopping);
    let four = seq![VmState::Allocating, VmState::Ready, VmState::Stopping, VmState::Stopped];
    assert(states_of(log, vm_id@) =~= Seq::empty());
    assert(states_of(log, vm_id@) + four =~= four);
}

/// A log holds no events of a VM whose identifier is not among those that it mentions.
proof fn lemma_unmentioned_has_no_events<P: AppProtocol>(log: LogModel<P>, vm_id: Seq<char>, count: u64)
    requires
        mentions_below(log, count),
        !made_below(vm_id, count),
    ensures
        payloads_for(log, vm_id).len() == 0,
{
    let wanted = |e: Event<P>| e.is_from(vm_id);
    let found = log.events.filter(wanted);
    if found.len() > 0 {
        log.events.filter_lemma(wanted);
        assert(found.contains(found[0]));
        assert(wanted(found[0]));
        log.events.lemma_filter_contains_rev(wanted, found[0]);
        let i = log.events.index_of(found[0]);
        assert(log.events[i].vm_id matches Some(id) && id@ == vm_id);
    }
}

/// A pool, its log and the count that the next identifier is made with.
#[verifier::ext_equal]
#[verifier::reject_recursive_types(P)]
pub struct PoolModel<P: AppProtocol> {
    pub vms: Vms<P>,
    pub log: LogModel<P>,
    pub count: u64,
}

/// What can happen to them.
#[verifier::reject_recursive_types(P)]
pub enum PoolChange<P: AppProtocol> {
    /// [`Pool::allocate`] gives a VM an identifier.
    Begin { us: nat, vm_id: VmId, now: u64 },
    /// [`Pool::finish_allocate`] takes a VM that has started.
    Ready { vm_id: VmId, entry: VmEntry<P>, now: u64 },
    /// [`Pool::finish_allocate`] is told that a VM did not start.
    Crashed { vm_id: VmId, now: u64 },
    /// [`Pool::deallocate`] takes a VM out.
    Stop { vm_id: VmId, now: u64 },
    /// [`Pool::finish_deallocate`] records that a VM has stopped.
    Stopped { vm_id: VmId, now: u64 },
    /// Another payload is appended to the log.
    Record { payload: EventPayload<P>, now: u64 },
    /// An identifier is made for another pool.
    Count,
}

impl<P: AppProtocol> PoolModel<P> {
    /// A new pool with a new log.
    pub open spec fn fresh(count: u64) -> PoolModel<P> {
        PoolModel { vms: Map::empty(), log: LogModel::empty(), count }
    }

    /// Whether something can happen: an identifier is made with the next count, which does not wrap around,
    /// and all else is about a VM that got its identifier before, or about none.
    pub open spec fn allows(self, change: PoolChange<P>) -> bool {
        match change {
            PoolChange::Begin { us, vm_id, .. } => self.count < u64::MAX && vm_id@ == vm_id_text(
                us,
                self.count as nat,
            ),
            PoolChange::Ready { vm_id, .. } => made_below(vm_id@, self.count),
            PoolChange::Crashed { vm_id, .. } => made_below(vm_id@, self.count),
            PoolChange::Stop { vm_id, .. } => self.vms.dom().contains(vm_id@),
            PoolChange::Stopped { vm_id, .. } => made_below(vm_id@, self.count),
            PoolChange::Record { payload, .. } => payload.source() matches Some(id) ==> made_below(
                id@,
                self.count,
            ),
            PoolChange::Count => self.count < u64::MAX,
        }
    }

    /// The state after something happened.
    pub open spec fn changed(self, change: PoolChange<P>) -> PoolModel<P> {
        match change {
            PoolChange::Begin { vm_id, now, .. } => PoolModel {
                log: self.log.with_buffer(vm_id@).appended(
                    lifecycle(vm_id, VmState::Allocating),
                    now,
                ),
                count: next_count(self.count),
                ..self
            },
            PoolChange::Ready { vm_id, entry, now } => PoolModel {
                vms: self.vms.insert(vm_id@, entry),
                log: self.log.appended(lifecycle(vm_id, VmState::Ready), now),
                ..self
            },
            PoolChange::Crashed { vm_id, now } => PoolModel {
                log: self.log.appended(lifecycle(vm_id, VmState::Crashed), now),
                ..self
            },
            PoolChange::Stop { vm_id, now } => PoolModel {
                vms: self.vms.remove(vm_id@),
                log: self.log.appended(lifecycle(vm_id, VmState::Stopping), now),
                ..self
            },
            PoolChange::Stopped { vm_id, now } => PoolModel {
                log: self.log.appended(lifecycle(vm_id, VmState::Stopped), now).without_buffer(vm_id@),
                ..self
            },
            PoolChange::Record { payload, now } => PoolModel {
                log: self.log.appended(payload, now),
                ..self
            },
            PoolChange::Count => PoolModel { count: next_count(self.count), ..self },
        }
    }

    /// The state after a run of changes.
    pub open spec fn after(self, changes: Seq<PoolChange<P>>) -> PoolModel<P>
        decreases changes.len(),
    {
        if changes.len() == 0 {
            self
        } else {
            self.after(changes.drop_last()).changed(changes.last())
        }
    }

    /// Whether a run of changes can happen.
    pub open spec fn allows_all(self, changes: Seq<PoolChange<P>>) -> bool
        decreases changes.len(),
    {
        changes.len() > 0 ==> {
            &&& self.allows_all(changes.drop_last())
            &&& self.after(changes.drop_last()).allows(changes.last())
        }
    }
}

/// What was mentioned below a count was mentioned below every higher one.
proof fn lemma_mentions_below_grows<P: AppProtocol>(log: LogModel<P>, count: u64, later: u64)
    requires
        mentions_below(log, count),
        count <= later,
    ensures
        mentions_below(log, later),
{
    assert forall|i: int| 0 <= i < log.events.len() implies ((#[trigger] log.events[i]).vm_id matches Some(
        id,
    ) ==> made_below(id@, later)) by {
        if let Some(id) = log.events[i].vm_id {
            let (us, earlier) = choose|us: nat, earlier: nat|
                earlier < count && id@ == #[trigger] vm_id_text(us, earlier);
            assert(earlier < later && id@ == vm_id_text(us, earlier));
        }
    }
}

/// However a pool, its log and the running count came about, every VM that the pool holds or the log
/// mentions got its identifier with an earlier count.
pub proof fn lemma_ids_are_counted<P: AppProtocol>(start: u64, changes: Seq<PoolChange<P>>)
    requires
        PoolModel::<P>::fresh(start).allows_all(changes),
    ensures
        ({
            let model = PoolModel::<P>::fresh(start).after(changes);
            &&& model.vms.dom().finite()
            &&& counted_below(model.vms, model.count)
            &&& mentions_below(model.log, model.count)
        }),
    decreases changes.len(),
{
    if changes.len() > 0 {
        let rest = changes.drop_last();
        lemma_ids_are_counted(start, rest);
        let before = PoolModel::<P>::fresh(start).after(rest);
        let after = before.changed(changes.last());
        match changes.last() {
            PoolChange::Begin { us, vm_id, now } => {
                lemma_counted_below_grows(before.vms, before.count, after.count);
                lemma_mentions_below_grows(before.log, before.count, after.count);
                lemma_made_below_step(us, before.count);
                let buffered = before.log.with_buffer(vm_id@);
                assert(buffered.events == before.log.events);
                assert(mentions_below(buffered, after.count));
                lemma_mentions_after_append(
                    buffered,
                    lifecycle(vm_id, VmState::Allocating),
                    now,
                    after.count,
                );
            },
            PoolChange::Ready { vm_id, entry, now } => {
                assert(after.vms.dom() =~= before.vms.dom().insert(vm_id@));
                lemma_mentions_after_append(
                    before.log,
                    lifecycle(vm_id, VmState::Ready),
                    now,
                    before.count,
                );
            },
            PoolChange::Crashed { vm_id, now } => {
                lemma_mentions_after_append(
                    before.log,
                    lifecycle(vm_id, VmState::Crashed),
                    now,
                    before.count,
                );
            },
            PoolChange::Stop { vm_id, now } => {
                assert(after.vms.dom() =~= before.vms.dom().remove(vm_id@));
                lemma_mentions_after_append(
                    before.log,
                    lifecycle(vm_id, VmState::Stopping),
                    now,
                    before.count,
                );
            },
            PoolChange::Stopped { vm_id, now } => {
                let stopped = before.log.appended(lifecycle(vm_id, VmState::Stopped), now);
                lemma_mentions_after_append(
                    before.log,
                    lifecycle(vm_id, VmState::Stopped),
                    now,
                    before.count,
                );
                assert(after.log.events == stopped.events);
            },
            PoolChange::Record { payload, now } => {
                lemma_mentions_after_append(before.log, payload, now, before.count);
            },
            PoolChange::Count => {
                lemma_counted_below_grows(before.vms, before.count, after.count);
                lemma_mentions_below_grows(before.log, before.count, after.count);
            },
        }
    }
}

/// Whatever happened to a pool and its log before, deallocating the next VM undoes its allocation: the
/// identifier that it gets is new, the pool holds one VM more and afterwards what it held before, and the
/// states that the log records of this VM are exactly these four, whatever else is recorded in between.
pub proof fn lemma_next_allocation_is_undone<P: AppProtocol>(
    start: u64,
    changes: Seq<PoolChange<P>>,
    us: nat,
    vm_id: VmId,
    entry: VmEntry<P>,
    times: (u64, u64, u64, u64),
    while_starting: Seq<(EventPayload<P>, u64)>,
    while_ready: Seq<(EventPayload<P>, u64)>,
    while_stopping: Seq<(EventPayload<P>, u64)>,
)
    requires
        PoolModel::<P>::fresh(start).allows_all(changes),
        vm_id@ == vm_id_text(us, PoolModel::<P>::fresh(start).after(changes).count as nat),
        no_state_of(while_starting, vm_id@),
        no_state_of(while_ready, vm_id@),
        no_state_of(while_stopping, vm_id@),
    ensures
        ({
            let before = PoolModel::<P>::fresh(start).after(changes);
            let begun = before.log.with_buffer(vm_id@).appended(
                lifecycle(vm_id, VmState::Allocating),
                times.0,
            );
            let ready = events::appended_all(begun, while_starting).appended(
                lifecycle(vm_id, VmState::Ready),
                times.1,
            );
            let stopping = events::appended_all(ready, while_ready).appended(
                lifecycle(vm_id, VmState::Stopping),
                times.2,
            );
            let stopped = events::appended_all(stopping, while_stopping).appended(
                lifecycle(vm_id, VmState::Stopped),
                times.3,
            ).without_buffer(vm_id@);
            &&& !before.vms.dom().contains(vm_id@)
            &&& before.vms.insert(vm_id@, entry).dom().len() == before.vms.dom().len() + 1
            &&& before.vms.insert(vm_id@, entry).remove(vm_id@) == before.vms
            &&& states_of(stopped, vm_id@) == seq![
                VmState::Allocating,
                VmState::Ready,
                VmState::Stopping,
                VmState::Stopped,
            ]
        }),
{
    lemma_ids_are_counted(start, changes);
    let before = PoolModel::<P>::fresh(start).after(changes);
    lemma_deallocate_undoes_allocate(
        before.vms,
        before.log,
        us,
        before.count,
        vm_id,
        entry,
        times,
        while_starting,
        while_ready,
        while_stopping,
    );
}

/// Evicting a VM makes room for one, and with the new VM the pool holds as many as before. Every VM but the
/// evicted one stays as it is; so all whose priority is not strictly lower than the new one's stay.
pub proof fn lemma_eviction_keeps_others<P: AppProtocol>(
    vms: Vms<P>,
    priority: Priority,
    victim: Seq<char>,
    us: nat,
    count: u64,
    entry: VmEntry<P>,
)
    requires
        vms.dom().finite(),
        counted_below(vms, count),
        is_victim(vms, priority, victim),
    ensures
        ({
            let vm_id = vm_id_text(us, count as nat);
            let after = vms.remove(victim).insert(vm_id, entry);
            &&& vms.remove(victim).dom().len() + 1 == vms.dom().len()
            &&& after.dom().len() == vms.dom().len()
            &&& after.dom().contains(vm_id) && after[vm_id] == entry
            &&& !after.dom().contains(victim)
            &&& forall|id: Seq<char>| #[trigger]
                vms.dom().contains(id) && (id != victim || !evictable(vms[id], priority))
                    ==> after.dom().contains(id) && after[id] == vms[id]
        }),
{
    let vm_id = vm_id_text(us, count as nat);
    lemma_next_id_is_fresh(us, count);
    let after = vms.remove(victim).insert(vm_id, entry);
    assert(vms.remove(victim).dom() =~= vms.dom().remove(victim));
    assert(after.dom() =~= vms.dom().remove(victim).insert(vm_id));
}

/// A VM of the lowest priority evicts none, and none of the highest is ever evicted.
pub proof fn lemma_eviction_bounds<P: AppProtocol>(entry: VmEntry<P>, priority: Priority)
    ensures
        !evictable(entry, Priority::Low),
        entry.config.priority == Priority::Critical ==> !evictable(entry, priority),
        entry.config.priority == priority ==> !evictable(entry, priority),
{
}

/// After the VMs that a health check names are deallocated, no VM in the pool has run for too long, and
/// every other VM stays as it is.
pub proof fn lemma_health_check_leaves_none_timed_out<P: AppProtocol>(
    vms: Vms<P>,
    named: Set<Seq<char>>,
    now: u64,
    timeout: u64,
)
    requires
        forall|id: Seq<char>| #[trigger]
            named.contains(id) <==> vms.dom().contains(id) && vms[id].timed_out(now, timeout),
    ensures
        forall|id: Seq<char>| #[trigger]
            vms.remove_keys(named).dom().contains(id) ==> !vms.remove_keys(named)[id].timed_out(
                now,
                timeout,
            ),
        forall|id: Seq<char>| #[trigger]
            vms.dom().contains(id) && !vms[id].timed_out(now, timeout) ==> vms.remove_keys(
                named,
            ).dom().contains(id) && vms.remove_keys(named)[id] == vms[id],
{
    let after = vms.remove_keys(named);
    assert forall|id: Seq<char>| #[trigger] after.dom().contains(id) implies !after[id].timed_out(
        now,
        timeout,
    ) by {
        assert(!named.contains(id));
    }
    assert forall|id: Seq<char>| #[trigger] vms.dom().contains(id) && !vms[id].timed_out(
        now,
        timeout,
    ) implies after.dom().contains(id) && after[id] == vms[id] by {
        assert(!named.contains(id));
    }
}

/// A VM never counts as timed out before its time, and once it does it goes on to.
pub proof fn lemma_timeout_is_monotonic<P: AppProtocol>(entry: VmEntry<P>, now: u64, later: u64, timeout: u64)
    requires
        now <= later,
        entry.timed_out(now, timeout),
    ensures
        entry.timed_out(later, timeout),
        timeout > 0 ==> now >= entry.started_at + timeout * 1000,
{
}

/// A VM may be evicted for another exactly where its priority stands below the other's in the order Low,
/// Normal, High, Critical. Of two different priorities the lower may always be evicted for the higher, and
/// never the higher for the lower.
pub proof fn lemma_eviction_follows_levels<P: AppProtocol>(entry: VmEntry<P>, priority: Priority)
    ensures
        evictable(entry, priority) <==> match (entry.config.priority, priority) {
            (Priority::Low, Priority::Normal) => true,
            (Priority::Low, Priority::High) => true,
            (Priority::Low, Priority::Critical) => true,
            (Priority::Normal, Priority::High) => true,
            (Priority::Normal, Priority::Critical) => true,
            (Priority::High, Priority::Critical) => true,
            _ => false,
        },
        forall|other: VmEntry<P>|
            #![trigger other.config]
            other.config.priority != entry.config.priority ==> (evictable(
                other,
                entry.config.priority,
            ) <==> !evictable(entry, other.config.priority)),
{
}

/// A full pool refuses a VM only where every VM in it has the requested priority or a higher one. In
/// particular, a full pool with a VM of low priority refuses none above, one with a VM of normal priority
/// none above that, and one with a VM of high priority none that is critical.
pub proof fn lemma_refusal_means_no_lower_priority<R, P: AppProtocol>(
    pool: &Pool<R, P>,
    priority: Priority,
    victim: Result<Option<VmId>, PoolError>,
)
    requires
        pool.wf(),
        call_ensures(Pool::<R, P>::allocate_or_evict, (pool, priority), victim),
    ensures
        victim is Err <==> {
            &&& pool@.dom().len() >= pool.config().max_vms
            &&& forall|id: Seq<char>| #[trigger]
                pool@.dom().contains(id) ==> match priority {
                    Priority::Low => true,
                    Priority::Normal => pool@[id].config.priority !is Low,
                    Priority::High => pool@[id].config.priority is High
                        || pool@[id].config.priority is Critical,
                    Priority::Critical => pool@[id].config.priority is Critical,
                }
        },
        victim == Ok::<Option<VmId>, PoolError>(None) <==> pool@.dom().len() < pool.config().max_vms,
        victim matches Err(error) ==> error == (PoolError::Exhausted { available: 0, requested: 1 }),
{
}

/// The VM that is evicted for another is in the pool, stands below the other in the order Low, Normal,
/// High, Critical, and no VM in the pool stands below it. Of those that stand where it does none was
/// started earlier.
pub proof fn lemma_victim_is_lowest_and_oldest<R, P: AppProtocol>(
    pool: &Pool<R, P>,
    priority: Priority,
    vm_id: VmId,
    other: Seq<char>,
)
    requires
        pool.wf(),
        call_ensures(Pool::<R, P>::allocate_or_evict, (pool, priority), Ok(Some(vm_id))),
        pool@.dom().contains(other),
    ensures
        pool@.dom().len() == pool.config().max_vms,
        pool@.dom().contains(vm_id@),
        match pool@[vm_id@].config.priority {
            Priority::Low => priority !is Low,
            Priority::Normal => priority is High || priority is Critical,
            Priority::High => priority is Critical,
            Priority::Critical => false,
        },
        match pool@[other].config.priority {
            Priority::Low => pool@[vm_id@].config.priority is Low,
            Priority::Normal => pool@[vm_id@].config.priority is Low
                || pool@[vm_id@].config.priority is Normal,
            _ => pool@[vm_id@].config.priority !is Critical,
        },
        pool@[other].config.priority == pool@[vm_id@].config.priority ==> pool@[vm_id@].started_at
            <= pool@[other].started_at,
{
    assert(evictable(pool@[vm_id@], priority));
    if evictable(pool@[other], priority) {
        assert(pool@[vm_id@].goes_before(pool@[other]));
    }
}

/// A health check names a VM exactly where it is in the pool and as many milliseconds have passed since it
/// started as the timeout has, at a thousand to the second. It names each once.
pub proof fn lemma_health_check_on_the_clock<R, P: AppProtocol>(
    pool: &Pool<R, P>,
    now: u64,
    named: Vec<VmId>,
    id: Seq<char>,
)
    requires
        pool.wf(),
        call_ensures(Pool::<R, P>::health_check, (pool, now), named),
    ensures
        pool@.dom().contains(id) && now >= pool@[id].started_at + pool.config().vm_timeout * 1000
            ==> exists|i: int| 0 <= i < named@.len() && (#[trigger] named@[i])@ == id,
        forall|i: int|
            0 <= i < named@.len() ==> {
                let vm = (#[trigger] named@[i])@;
                &&& pool@.dom().contains(vm)
                &&& pool.config().vm_timeout > 0 ==> now >= pool@[vm].started_at
                    + pool.config().vm_timeout * 1000
            },
        pool.config().vm_timeout == 0 && pool@.dom().contains(id) ==> exists|i: int|
            0 <= i < named@.len() && (#[trigger] named@[i])@ == id,
        forall|i: int, j: int|
            0 <= i < j < named@.len() ==> (#[trigger] named@[i])@ != (#[trigger] named@[j])@,
{
    let texts = id_texts(named@);
    if texts.contains(id) {
        let i = texts.index_of(id);
        assert(named@[i]@ == texts[i]);
    }
    assert forall|i: int| 0 <= i < named@.len() implies {
        let vm = (#[trigger] named@[i])@;
        &&& pool@.dom().contains(vm)
        &&& pool.config().vm_timeout > 0 ==> now >= pool@[vm].started_at + pool.config().vm_timeout * 1000
    } by {
        assert(texts[i] == named@[i]@);
        assert(texts.contains(named@[i]@));
    }
    assert forall|i: int, j: int| 0 <= i < j < named@.len() implies (#[trigger] named@[i])@ != (
    #[trigger] named@[j])@ by {
        assert(texts[i] == named@[i]@);
        assert(texts[j] == named@[j]@);
    }
}

/// With a timeout above zero, a VM has timed out exactly from the millisecond on that lies the timeout
/// behind its start; with a timeout of zero it always has.
pub proof fn lemma_timeout_is_exact<P: AppProtocol>(entry: VmEntry<P>, now: u64, timeout: u64)
    ensures
        timeout > 0 ==> (entry.timed_out(now, timeout) <==> now >= entry.started_at + timeout * 1000),
        timeout == 0 ==> entry.timed_out(now, timeout),
{
}

/// Identifiers that were made at different times differ too, whatever the counts.
pub proof fn lemma_vm_ids_tell_times_apart(us: u64, count: u64, vm_id: VmId, later: u64, next: u64, other: VmId)
    requires
        call_ensures(vm_id_at, (us, count), vm_id),
        call_ensures(vm_id_at, (later, next), other),
    ensures
        vm_id@ == other@ <==> us == later && count == next,
        vm_id@ == "vm-"@ + text::hex(us as nat) + seq!['-'] + text::hex(count as nat),
{
    if count != next {
        lemma_vm_ids_differ(us as nat, count as nat, later as nat, next as nat);
    } else if vm_id@ == other@ {
        let a = vm_id@;
        let b = other@;
        let head = "vm-"@.len() as int;
        let tail = text::hex(count as nat).len();
        assert(text::hex(us as nat) =~= a.subrange(head, a.len() - tail - 1));
        assert(text::hex(later as nat) =~= b.subrange(head, b.len() - tail - 1));
        text::lemma_hex_injective(us as nat, later as nat);
    }
    assert(vm_id@ =~= "vm-"@ + text::hex(us as nat) + seq!['-'] + text::hex(count as nat));
}

/// Every count is followed by the one above it, but for the highest, which is followed by zero.
pub proof fn lemma_counts_run_through(count: u64)
    ensures
        next_count(count) == (count + 1) % 0x1_0000_0000_0000_0000,
{
}

/// A VM that has started stands in the pool under its identifier, ready, with the image, the configuration,
/// the time and the command channel that it was started with, and no other VM changes. Where it did not
/// start, the pool stays as it is, and the caller is told the backend's reason.
pub proof fn lemma_started_vm_is_held<R, P: AppProtocol>(
    pool: &mut Pool<R, P>,
    log: &mut EventLog<P>,
    vm_id: VmId,
    image: ImageRef,
    config: VmConfig,
    started: Result<mpsc::Sender<VmCommand<P>>, PoolError>,
    now: u64,
    allocated: Result<VmId, PoolError>,
    other: Seq<char>,
)
    requires
        old(pool).wf(),
        old(log).wf(),
        !old(pool).full(),
        call_ensures(
            Pool::<R, P>::finish_allocate,
            (pool, log, vm_id, image, config, started, now),
            allocated,
        ),
    ensures
        allocated is Ok <==> started is Ok,
        started matches Ok(tx) ==> {
            &&& allocated matches Ok(id)
            &&& id@ == vm_id@
            &&& final(pool)@.dom().contains(vm_id@)
            &&& final(pool)@[vm_id@].id@ == vm_id@
            &&& final(pool)@[vm_id@].image == image
            &&& final(pool)@[vm_id@].config == config
            &&& final(pool)@[vm_id@].state is Ready
            &&& final(pool)@[vm_id@].started_at == now
            &&& final(pool)@[vm_id@].command_tx == Some(tx)
        },
        started matches Err(reason) ==> allocated == Err::<VmId, PoolError>(reason) && final(pool)@
            == old(pool)@,
        other != vm_id@ ==> {
            &&& final(pool)@.dom().contains(other) <==> old(pool)@.dom().contains(other)
            &&& old(pool)@.dom().contains(other) ==> final(pool)@[other] == old(pool)@[other]
        },
        final(log)@.events.len() == old(log)@.events.len() + 1,
        final(log)@.events.last().timestamp == now,
        final(log)@.events.last().payload matches EventPayload::VmLifecycle { vm_id: of, state } && of@
            == vm_id@ && (if started is Ok {
            state is Ready
        } else {
            state is Crashed
        }),
{
}

/// A VM that is deallocated leaves the pool, and no other does; what is handed out is the entry that it had.
/// Where there is no such VM, nothing changes.
pub proof fn lemma_deallocated_vm_leaves<R, P: AppProtocol>(
    pool: &mut Pool<R, P>,
    log: &mut EventLog<P>,
    vm_id: VmId,
    now: u64,
    removed: Result<VmEntry<P>, PoolError>,
    other: Seq<char>,
)
    requires
        old(pool).wf(),
        old(log).wf(),
        call_ensures(Pool::<R, P>::deallocate, (pool, log, &vm_id, now), removed),
    ensures
        removed is Ok <==> old(pool)@.dom().contains(vm_id@),
        removed matches Ok(entry) ==> entry == old(pool)@[vm_id@],
        removed matches Err(error) ==> error == PoolError::VmNotFound(vm_id) && final(log)@ == old(log)@,
        !final(pool)@.dom().contains(vm_id@),
        other != vm_id@ ==> {
            &&& final(pool)@.dom().contains(other) <==> old(pool)@.dom().contains(other)
            &&& old(pool)@.dom().contains(other) ==> final(pool)@[other] == old(pool)@[other]
        },
        removed is Ok ==> {
            &&& final(log)@.events.len() == old(log)@.events.len() + 1
            &&& final(log)@.events.last().timestamp == now
            &&& final(log)@.events.last().payload matches EventPayload::VmLifecycle { vm_id: of, state }
            &&& of@ == vm_id@ && state is Stopping
        },
{
}

/// What a VM emits is recorded under this VM, and two events that are recorded alike are alike and from the
/// same VM. Only the events of its application are recorded as such, with what they hold.
pub proof fn lemma_vm_events_are_told_apart<P: AppProtocol>(
    vm_id: VmId,
    event: VmEvent<P>,
    other_id: VmId,
    other: VmEvent<P>,
)
    ensures
        vm_record(vm_id, event).source() == Some(vm_id),
        vm_record(vm_id, event) == vm_record(other_id, other) <==> vm_id == other_id && event == other,
        vm_record(vm_id, event) is VmInfra <==> event !is App,
        event matches VmEvent::App { payload } ==> vm_record(vm_id, event) == (EventPayload::<P>::VmApp {
            vm_id,
            event: payload,
        }),
{
}

/// A command for a VM goes to the channel of that VM, as an application command and unchanged, exactly where
/// the pool holds the VM. Sending fails exactly where the channel did not take it.
pub proof fn lemma_commands_reach_their_vm<R, P: AppProtocol>(
    pool: &Pool<R, P>,
    vm_id: VmId,
    command: P::Command,
    delivery: Result<(&mpsc::Sender<VmCommand<P>>, VmCommand<P>), PoolError>,
    taken: bool,
    sent: Result<(), PoolError>,
)
    requires
        pool.wf(),
        call_ensures(Pool::<R, P>::send_to_vm, (pool, &vm_id, command), delivery),
        call_ensures(Pool::<R, P>::finish_send, (&vm_id, taken), sent),
    ensures
        delivery is Ok <==> pool@.dom().contains(vm_id@),
        delivery matches Ok((tx, message)) ==> pool@[vm_id@].command_tx == Some(*tx) && message
            == (VmCommand::<P>::App { payload: command }),
        delivery matches Err(error) ==> error == PoolError::VmNotFound(vm_id),
        sent is Ok <==> taken,
{
}

/// What a pool says of itself fits together: the VMs that it counts as allocated are those that it lists,
/// each once, and those that it finds, with their state; the rest up to its limit is available.
pub proof fn lemma_pool_reports_agree<R, P: AppProtocol>(
    pool: &Pool<R, P>,
    status: PoolStatus,
    listed: Vec<(VmId, VmState)>,
    vm_id: VmId,
    state: Option<VmState>,
)
    requires
        pool.wf(),
        call_ensures(Pool::<R, P>::status, (pool,), status),
        call_ensures(Pool::<R, P>::list, (pool,), listed),
        call_ensures(Pool::<R, P>::get, (pool, &vm_id), state),
    ensures
        status.total == pool.config().max_vms,
        status.allocated == listed@.len(),
        status.available == status.total - status.allocated,
        state is Some <==> exists|i: int| 0 <= i < listed@.len() && (#[trigger] listed@[i]).0@ == vm_id@,
        forall|i: int|
            0 <= i < listed@.len() && (#[trigger] listed@[i]).0@ == vm_id@ ==> state == Some(listed@[i].1),
{
    let ids = listed_ids(listed@);
    ids.unique_seq_to_set();
    assert(ids.len() == listed@.len());
    assert forall|i: int| 0 <= i < listed@.len() && (#[trigger] listed@[i]).0@ == vm_id@ implies state
        == Some(listed@[i].1) by {
        assert(ids[i] == vm_id@);
        assert(ids.contains(vm_id@));
        assert(ids.to_set().contains(vm_id@));
    }
    if state is Some {
        assert(ids.to_set().contains(vm_id@));
        let i = ids.index_of(vm_id@);
        assert(ids[i] == listed@[i].0@);
    }
}

/// The message of an error is made of words that depend on its kind alone, followed by what it is about; that
/// of a pool without room gives the two numbers.
pub proof fn lemma_messages_end_in_the_reason(
    a: VmId,
    b: VmId,
    image: ImageError,
    other_image: ImageError,
    transport: TransportError,
    other_transport: TransportError,
    x: String,
    y: String,
    available: usize,
    requested: usize,
)
    ensures
        text::led_alike(PoolError::VmNotFound(a).message(), a@, PoolError::VmNotFound(b).message(), b@),
        text::led_alike(PoolError::VmNotReady(a).message(), a@, PoolError::VmNotReady(b).message(), b@),
        text::led_alike(
            PoolError::Image(image).message(),
            image.message(),
            PoolError::Image(other_image).message(),
            other_image.message(),
        ),
        text::led_alike(
            PoolError::Transport(transport).message(),
            transport.message(),
            PoolError::Transport(other_transport).message(),
            other_transport.message(),
        ),
        text::led_alike(PoolError::Runtime(x).message(), x@, PoolError::Runtime(y).message(), y@),
        (PoolError::Exhausted { available, requested }).message() == "pool exhausted: "@ + text::decimal(
            available as nat,
        ) + " available, "@ + text::decimal(requested as nat) + " requested"@,
{
    let not_found = "VM not found: "@;
    assert(PoolError::VmNotFound(a).message() == not_found + a@);
    let not_ready = "VM not ready: "@;
    assert(PoolError::VmNotReady(a).message() == not_ready + a@);
    let of_image = "image error: "@;
    assert(PoolError::Image(image).message() == of_image + image.message());
    let of_transport = "transport error: "@;
    assert(PoolError::Transport(transport).message() == of_transport + transport.message());
    let of_runtime = "runtime error: "@;
    assert(PoolError::Runtime(x).message() == of_runtime + x@);
}

/// A VM is given an identifier exactly where the pool is not full. The log then has an empty log buffer for
/// it, and one more event, which records that it is being allocated; the logs of all others stay.
pub proof fn lemma_allocation_begins_where_there_is_room<R, P: AppProtocol>(
    pool: &Pool<R, P>,
    log: &mut EventLog<P>,
    count: &mut u64,
    now_us: u64,
    now: u64,
    begun: Result<VmId, PoolError>,
    other: Seq<char>,
)
    requires
        pool.wf(),
        old(log).wf(),
        call_ensures(Pool::<R, P>::allocate, (pool, log, count, now_us, now), begun),
    ensures
        begun is Ok <==> pool@.dom().len() < pool.config().max_vms,
        begun matches Ok(vm_id) ==> {
            &&& vm_id@ == "vm-"@ + text::hex(now_us as nat) + seq!['-'] + text::hex(*old(count) as nat)
            &&& *final(count) == (*old(count) + 1) % 0x1_0000_0000_0000_0000
            &&& final(log)@.lines_of(vm_id@).len() == 0
            &&& other != vm_id@ ==> final(log)@.lines_of(other) == old(log)@.lines_of(other)
            &&& final(log)@.events.len() == old(log)@.events.len() + 1
            &&& final(log)@.events.last().timestamp == now
            &&& final(log)@.events.last().payload matches EventPayload::VmLifecycle { vm_id: of, state }
            &&& of@ == vm_id@ && state is Allocating
        },
        begun is Err ==> *final(count) == *old(count) && final(log)@ == old(log)@,
{
    if let Ok(vm_id) = begun {
        assert(vm_id@ =~= "vm-"@ + text::hex(now_us as nat) + seq!['-'] + text::hex(*old(count) as nat));
    }
}

/// When a VM has stopped, that is recorded, and its log is gone; the logs of all others stay.
pub proof fn lemma_stopped_vm_is_recorded<R, P: AppProtocol>(
    log: &mut EventLog<P>,
    vm_id: VmId,
    now: u64,
    other: Seq<char>,
)
    requires
        old(log).wf(),
        call_ensures(Pool::<R, P>::finish_deallocate, (log, &vm_id, now), ()),
    ensures
        final(log)@.lines_of(vm_id@).len() == 0,
        other != vm_id@ ==> final(log)@.lines_of(other) == old(log)@.lines_of(other),
        final(log)@.events.len() == old(log)@.events.len() + 1,
        final(log)@.events.last().timestamp == now,
        final(log)@.events.last().payload matches EventPayload::VmLifecycle { vm_id: of, state } && of@
            == vm_id@ && state is Stopped,
{
}

} // verus!
