//! VM backends: what they run, and what counts as a VM that has started.

use vstd::prelude::*;

use crate::images::{self, ImageRef};
use crate::path::FilePath;
use crate::pool::PoolError;
use crate::protocol::{AppProtocol, NullProtocol, VmConfig, VmEvent, VmId};
use crate::table::Table;
use crate::text;
use crate::transport::TransportError;

verus! {

/// The program that runs containers.
pub const CONTAINER_PROGRAM: &'static str = "container";

/// Seconds that a container has to come up.
pub const READY_TIMEOUT: u64 = 60;

/// What a backend gets first from a VM that it has started.
#[derive(Debug, Clone, PartialEq)]
pub enum FirstEvent<P: AppProtocol = NullProtocol> {
    /// Nothing within the time that it has to come up.
    TimedOut,
    /// The VM closed its side.
    Closed,
    /// An event.
    Arrived { event: VmEvent<P> },
}

/// The error of a VM whose first event was not that it is ready, with the event as text.
pub fn not_ready(event: &str) -> (error: PoolError)
    ensures
        error matches PoolError::Runtime(what) && what@ == "expected Ready, got "@ + event@,
{
    PoolError::Runtime(text::concat("expected Ready, got ", event))
}

/// Whether the first event of a VM is that it is ready.
pub open spec fn is_ready<P: AppProtocol>(first: FirstEvent<P>) -> bool {
    first matches FirstEvent::Arrived { event } && event is Ready
}

/// Whether a text is the one that an event is shown as. Of an application event it holds what the `Debug`
/// impl of its payload writes, of which nothing is said.
pub open spec fn shows_event<P: AppProtocol>(event: VmEvent<P>, shown: Seq<char>) -> bool {
    match event {
        VmEvent::Ready => shown == "Ready"@,
        VmEvent::Pong => shown == "Pong"@,
        VmEvent::Shutdown => shown == "Shutdown"@,
        VmEvent::App { .. } => exists|payload: Seq<char>|
            shown == #[trigger] ("App { payload: "@ + payload + " }"@),
    }
}

/// The text that an event is shown as.
pub fn show_event<P: AppProtocol>(event: &VmEvent<P>) -> (shown: String)
    ensures
        shows_event(*event, shown@),
{
    match event {
        VmEvent::Ready => "Ready".to_owned(),
        VmEvent::Pong => "Pong".to_owned(),
        VmEvent::Shutdown => "Shutdown".to_owned(),
        VmEvent::App { payload } => {
            let payload = text::debug_text(payload);
            let mut shown = text::concat("App { payload: ", payload.as_str());
            shown.append(" }");
            shown
        },
    }
}

/// Whether an error is the one for a VM that was spawned and is not ready.
pub open spec fn is_not_ready_error<P: AppProtocol>(first: FirstEvent<P>, error: PoolError) -> bool {
    error matches PoolError::Runtime(what) && match first {
        FirstEvent::TimedOut => what@ == "timeout waiting for supervisor Ready"@,
        FirstEvent::Closed => what@ == "transport closed before Ready"@,
        FirstEvent::Arrived { event } => event !is Ready && exists|shown: Seq<char>|
            shows_event(event, shown) && what@ == #[trigger] ("expected Ready, got "@ + shown),
    }
}

/// Decides whether a VM has started, which takes that its first event is that it is ready.
pub fn check_ready<P: AppProtocol>(first: FirstEvent<P>) -> (checked: Result<(), PoolError>)
    ensures
        match checked {
            Ok(()) => is_ready(first),
            Err(error) => is_not_ready_error(first, error),
        },
{
    match first {
        FirstEvent::TimedOut => Err(
            PoolError::Runtime("timeout waiting for supervisor Ready".to_owned()),
        ),
        FirstEvent::Closed => Err(PoolError::Runtime("transport closed before Ready".to_owned())),
        FirstEvent::Arrived { event } => match event {
            VmEvent::Ready => Ok(()),
            other => {
                let shown = show_event(&other);
                Err(not_ready(shown.as_str()))
            },
        },
    }
}

/// The outcome of starting a VM, given the first event of what was spawned, or why nothing was.
pub open spec fn is_start_outcome<P: AppProtocol>(
    spawn_error: Seq<char>,
    spawned: Result<FirstEvent<P>, TransportError>,
    outcome: Result<(), PoolError>,
) -> bool {
    match (spawned, outcome) {
        (Ok(first), Ok(())) => is_ready(first),
        (Ok(first), Err(error)) => is_not_ready_error(first, error),
        (Err(reason), Err(PoolError::Runtime(what))) => what@ == spawn_error + reason.message(),
        _ => false,
    }
}

fn start_outcome<P: AppProtocol>(spawn_error: &str, spawned: Result<FirstEvent<P>, TransportError>) -> (outcome:
    Result<(), PoolError>)
    ensures
        is_start_outcome(spawn_error@, spawned, outcome),
{
    match spawned {
        Ok(first) => check_ready(first),
        Err(reason) => Err(
            PoolError::Runtime(text::concat(spawn_error, reason.to_string().as_str())),
        ),
    }
}

/// Container runtime using the `container` command line.
///
/// Starts VMs with `container run -i` and talks to the supervisor inside over JSON lines.
pub struct ContainerRuntime {
    /// The VMs that were started and not yet stopped.
    transports: Table<()>,
}

impl View for ContainerRuntime {
    type V = Set<Seq<char>>;

    /// The identifiers of the VMs that were started and not yet stopped.
    closed spec fn view(&self) -> Set<Seq<char>> {
        self.transports@.dom()
    }
}

/// The arguments that set environment variables.
pub open spec fn env_args(env: Seq<(String, String)>) -> Seq<Seq<char>>
    decreases env.len(),
{
    if env.len() == 0 {
        Seq::empty()
    } else {
        env_args(env.drop_last()) + seq!["-e"@, env.last().0@.push('=') + env.last().1@]
    }
}

/// The arguments that `container` is run with to start a VM: two CPUs and 2048 MB where the configuration
/// leaves it open.
pub open spec fn run_args(vm_id: Seq<char>, image: ImageRef, config: VmConfig) -> Seq<Seq<char>> {
    let cpus = text::decimal(config.cpus.unwrap_or(2) as nat);
    let memory = text::decimal(config.memory_mb.unwrap_or(2048) as nat).push('M');
    seq!["run"@, "--rm"@, "-i"@, "--name"@, vm_id, "--cpus"@, cpus, "--memory"@, memory] + env_args(
        config.env@,
    ) + seq![images::ref_text(image.name@, image.version@)]
}

/// The texts of arguments.
pub open spec fn arg_texts(args: Seq<String>) -> Seq<Seq<char>> {
    args.map_values(|arg: String| arg@)
}

fn push_arg(args: &mut Vec<String>, arg: String)
    ensures
        final(args)@ == old(args)@.push(arg),
        arg_texts(final(args)@) == arg_texts(old(args)@).push(arg@),
{
    let ghost before = arg_texts(args@);
    args.push(arg);
    assert(arg_texts(args@) =~= before.push(arg@));
}

impl ContainerRuntime {
    pub closed spec fn wf(&self) -> bool {
        self.transports.wf()
    }

    pub fn new() -> (runtime: ContainerRuntime)
        ensures
            runtime.wf(),
            runtime@ == Set::<Seq<char>>::empty(),
    {
        let runtime = ContainerRuntime { transports: Table::new() };
        assert(runtime@ =~= Set::<Seq<char>>::empty());
        runtime
    }

    /// The arguments that `container` is run with to start a VM.
    pub fn start_args(vm_id: &VmId, image: &ImageRef, config: &VmConfig) -> (args: Vec<String>)
        ensures
            arg_texts(args@) == run_args(vm_id@, *image, *config),
    {
        proof {
            reveal_strlit("M");
            reveal_strlit("=");
        }
        let mut cpus = String::new();
        text::push_decimal(&mut cpus, config.cpus.unwrap_or(2) as u64);
        let mut memory = String::new();
        text::push_decimal(&mut memory, config.memory_mb.unwrap_or(2048) as u64);
        memory.append("M");
        assert(cpus@ =~= text::decimal(config.cpus.unwrap_or(2) as nat));
        assert(memory@ =~= text::decimal(config.memory_mb.unwrap_or(2048) as nat).push('M'));
        let ghost head = seq![
            "run"@,
            "--rm"@,
            "-i"@,
            "--name"@,
            vm_id@,
            "--cpus"@,
            cpus@,
            "--memory"@,
            memory@,
        ];
        let mut args: Vec<String> = Vec::new();
        push_arg(&mut args, "run".to_owned());
        push_arg(&mut args, "--rm".to_owned());
        push_arg(&mut args, "-i".to_owned());
        push_arg(&mut args, "--name".to_owned());
        push_arg(&mut args, vm_id.to_string());
        push_arg(&mut args, "--cpus".to_owned());
        push_arg(&mut args, cpus);
        push_arg(&mut args, "--memory".to_owned());
        push_arg(&mut args, memory);
        assert(arg_texts(args@) =~= head + env_args(config.env@.take(0)));
        let mut i: usize = 0;
        while i < config.env.len()
            invariant
                i <= config.env@.len(),
                "="@ == seq!['='],
                arg_texts(args@) == head + env_args(config.env@.take(i as int)),
            decreases config.env@.len() - i,
        {
            let ghost done = env_args(config.env@.take(i as int));
            let mut setting = config.env[i].0.clone();
            setting.append("=");
            setting.append(config.env[i].1.as_str());
            proof {
                assert(config.env@.take(i + 1).drop_last() =~= config.env@.take(i as int));
                assert(setting@ =~= config.env@[i as int].0@.push('=') + config.env@[i as int].1@);
            }
            push_arg(&mut args, "-e".to_owned());
            push_arg(&mut args, setting);
            i += 1;
            assert(arg_texts(args@) =~= head + env_args(config.env@.take(i as int)));
        }
        assert(config.env@.take(i as int) =~= config.env@);
        push_arg(&mut args, image.to_string());
        assert(arg_texts(args@) =~= run_args(vm_id@, *image, *config));
        args
    }

    /// Decides whether a VM has started, given the first event of the container, or why `container` could
    /// not be spawned. One that has is noted as running.
    pub fn finish_start<P: AppProtocol>(
        &mut self,
        vm_id: &VmId,
        spawned: Result<FirstEvent<P>, TransportError>,
    ) -> (outcome: Result<(), PoolError>)
        requires
            old(self).wf(),
        ensures
            final(self).wf(),
            is_start_outcome("failed to spawn container: "@, spawned, outcome),
            final(self)@ == if outcome is Ok {
                old(self)@.insert(vm_id@)
            } else {
                old(self)@
            },
    {
        let ghost before = self@;
        match start_outcome("failed to spawn container: ", spawned) {
            Ok(()) => {
                self.transports.insert(vm_id.clone(), ());
                assert(self@ =~= before.insert(vm_id@));
                Ok(())
            },
            Err(error) => Err(error),
        }
    }

    /// Notes that a VM is to stop, and gives the arguments that `container` is run with for that. However
    /// that ends, the VM counts as stopped.
    pub fn stop(&mut self, vm_id: &VmId) -> (args: Vec<String>)
        requires
            old(self).wf(),
        ensures
            final(self).wf(),
            final(self)@ == old(self)@.remove(vm_id@),
            arg_texts(args@) == seq!["stop"@, vm_id@],
    {
        let ghost before = self@;
        let _ = self.transports.remove(vm_id);
        assert(self@ =~= before.remove(vm_id@));
        let mut args: Vec<String> = Vec::new();
        push_arg(&mut args, "stop".to_owned());
        push_arg(&mut args, vm_id.to_string());
        assert(arg_texts(args@) =~= seq!["stop"@, vm_id@]);
        args
    }
}

impl Default for ContainerRuntime {
    fn default() -> (runtime: ContainerRuntime)
        ensures
            runtime.wf(),
            runtime@ == Set::<Seq<char>>::empty(),
    {
        ContainerRuntime::new()
    }
}

/// Stopping a VM undoes that it was noted as started.
pub proof fn lemma_stop_undoes_start(running: Set<Seq<char>>, vm_id: Seq<char>)
    requires
        !running.contains(vm_id),
    ensures
        running.insert(vm_id).remove(vm_id) == running,
{
    assert(running.insert(vm_id).remove(vm_id) =~= running);
}

/// A runtime that uses the supervisor binary directly (no container).
/// Useful for testing the full pool flow without needing container images.
#[derive(Debug)]
pub struct SupervisorRuntime {
    supervisor_path: FilePath,
}

impl View for SupervisorRuntime {
    type V = Seq<u8>;

    /// The bytes of the path of the supervisor binary.
    closed spec fn view(&self) -> Seq<u8> {
        self.supervisor_path@
    }
}

impl SupervisorRuntime {
    /// Takes the path of the supervisor binary.
    pub fn new(supervisor_path: FilePath) -> (runtime: SupervisorRuntime)
        ensures
            runtime@ == supervisor_path@,
    {
        SupervisorRuntime { supervisor_path }
    }

    /// The program to spawn, without arguments, to start a VM.
    pub fn program(&self) -> (program: Result<String, PoolError>)
        ensures
            match program {
                Ok(path) => {
                    &&& vstd::utf8::valid_utf8(self@)
                    &&& path@ == vstd::utf8::decode_utf8(self@)
                },
                Err(PoolError::Runtime(what)) => {
                    &&& !vstd::utf8::valid_utf8(self@)
                    &&& what@ == "supervisor path is not valid UTF-8"@
                },
                Err(_) => false,
            },
    {
        match self.supervisor_path.to_text() {
            Some(path) => Ok(path),
            None => Err(PoolError::Runtime("supervisor path is not valid UTF-8".to_owned())),
        }
    }

    /// Decides whether a VM has started, given the first event of the supervisor, or why it could not be
    /// spawned.
    pub fn finish_start<P: AppProtocol>(spawned: Result<FirstEvent<P>, TransportError>) -> (outcome: Result<
        (),
        PoolError,
    >)
        ensures
            is_start_outcome("failed to spawn supervisor: "@, spawned, outcome),
    {
        start_outcome("failed to spawn supervisor: ", spawned)
    }

    /// There is nothing to do: the VM shuts down when its command channel is dropped.
    pub fn stop(&self, _vm_id: &VmId) -> (stopped: Result<(), PoolError>)
        ensures
            stopped is Ok,
    {
        Ok(())
    }
}

/// The arguments of `container` name the VM, and give the number of CPUs and of megabytes that are
/// configured, or 2 and 2048, as decimal numerals. Every environment variable is set by a pair of arguments,
/// in the order of the configuration, and the reference of the image comes last.
pub proof fn lemma_start_args_carry_config(
    vm_id: VmId,
    image: ImageRef,
    config: VmConfig,
    args: Vec<String>,
    i: int,
)
    requires
        call_ensures(ContainerRuntime::start_args, (&vm_id, &image, &config), args),
    ensures
        args@.len() == 10 + 2 * config.env@.len(),
        args@[0]@ == "run"@,
        args@[1]@ == "--rm"@,
        args@[2]@ == "-i"@,
        args@[3]@ == "--name"@,
        args@[4]@ == vm_id@,
        args@[5]@ == "--cpus"@,
        text::numeral_value(args@[6]@, 10) == match config.cpus {
            Some(cpus) => cpus as nat,
            None => 2,
        },
        args@[7]@ == "--memory"@,
        args@[8]@.len() > 0,
        args@[8]@.last() == 'M',
        text::numeral_value(args@[8]@.drop_last(), 10) == match config.memory_mb {
            Some(memory) => memory as nat,
            None => 2048,
        },
        0 <= i < config.env@.len() ==> {
            &&& args@[9 + 2 * i]@ == "-e"@
            &&& args@[10 + 2 * i]@ == config.env@[i].0@ + seq!['='] + config.env@[i].1@
        },
        args@.last()@ == image.name@ + seq![':'] + image.version@,
{
    let texts = arg_texts(args@);
    let cpus = config.cpus.unwrap_or(2) as nat;
    let memory = config.memory_mb.unwrap_or(2048) as nat;
    text::lemma_decimal_denotes(cpus);
    text::lemma_decimal_denotes(memory);
    lemma_env_args(config.env@, i);
    assert(texts.len() == args@.len());
    assert forall|j: int| 0 <= j < args@.len() implies (#[trigger] args@[j])@ == texts[j] by {}
    assert(args@[8]@.drop_last() =~= text::decimal(memory));
    if 0 <= i < config.env@.len() {
        assert(args@[9 + 2 * i]@ == env_args(config.env@)[2 * i]);
        assert(args@[10 + 2 * i]@ == env_args(config.env@)[2 * i + 1]);
    }
    assert(images::ref_text(image.name@, image.version@) =~= image.name@ + seq![':'] + image.version@);
}

proof fn lemma_env_args(env: Seq<(String, String)>, i: int)
    ensures
        env_args(env).len() == 2 * env.len(),
        0 <= i < env.len() ==> {
            &&& env_args(env)[2 * i] == "-e"@
            &&& env_args(env)[2 * i + 1] == env[i].0@ + seq!['='] + env[i].1@
        },
    decreases env.len(),
{
    if env.len() > 0 {
        lemma_env_args(env.drop_last(), i);
        if 0 <= i < env.len() {
            assert(env[i].0@.push('=') + env[i].1@ =~= env[i].0@ + seq!['='] + env[i].1@);
        }
    }
}

/// Whether its first event came and says so decides whether a VM that was spawned has started. One that has
/// is noted as running, and the others stay noted as they were.
pub proof fn lemma_only_ready_vms_start<P: AppProtocol>(
    runtime: &mut ContainerRuntime,
    vm_id: VmId,
    spawned: Result<FirstEvent<P>, TransportError>,
    outcome: Result<(), PoolError>,
    direct: Result<(), PoolError>,
    other: Seq<char>,
)
    requires
        old(runtime).wf(),
        call_ensures(ContainerRuntime::finish_start::<P>, (runtime, &vm_id, spawned), outcome),
        call_ensures(SupervisorRuntime::finish_start::<P>, (spawned,), direct),
    ensures
        outcome is Ok <==> spawned == Ok::<FirstEvent<P>, TransportError>(
            FirstEvent::Arrived { event: VmEvent::Ready },
        ),
        direct is Ok <==> outcome is Ok,
        outcome matches Err(error) ==> error is Runtime,
        direct matches Err(error) ==> error is Runtime,
        final(runtime)@.contains(other) <==> old(runtime)@.contains(other) || (outcome is Ok && other
            == vm_id@),
        spawned matches Err(reason) ==> (outcome matches Err(PoolError::Runtime(what)) && what@.len()
            >= reason.message().len() && what@.skip(what@.len() - reason.message().len())
            == reason.message()),
        spawned matches Err(reason) ==> (direct matches Err(PoolError::Runtime(what)) && what@.len()
            >= reason.message().len() && what@.skip(what@.len() - reason.message().len())
            == reason.message()),
{
    if let Err(reason) = spawned {
        let said = reason.message();
        let a = "failed to spawn container: "@ + said;
        assert(a.skip(a.len() - said.len()) =~= said);
        let b = "failed to spawn supervisor: "@ + said;
        assert(b.skip(b.len() - said.len()) =~= said);
    }
}

/// The error of a VM whose first event was another than that it is ready ends in that event, as it is shown.
pub proof fn lemma_not_ready_shows_event(a: &str, b: &str, error: PoolError, other: PoolError)
    requires
        call_ensures(not_ready, (a,), error),
        call_ensures(not_ready, (b,), other),
    ensures
        error matches PoolError::Runtime(x) && other matches PoolError::Runtime(y) && text::led_alike(
            x@,
            a@,
            y@,
            b@,
        ),
{
    let lead = "expected Ready, got "@;
    assert(error matches PoolError::Runtime(x) && x@ == lead + a@);
}

/// Stopping a container takes its VM, and no other, off those that are noted as running, and asks `container`
/// to stop the one of that name.
pub proof fn lemma_stop_is_for_one_vm(
    runtime: &mut ContainerRuntime,
    vm_id: VmId,
    args: Vec<String>,
    other: Seq<char>,
)
    requires
        old(runtime).wf(),
        call_ensures(ContainerRuntime::stop, (runtime, &vm_id), args),
    ensures
        final(runtime)@.contains(other) <==> old(runtime)@.contains(other) && other != vm_id@,
        args@.len() == 2,
        args@[0]@ == "stop"@,
        args@[1]@ == vm_id@,
{
    let texts = arg_texts(args@);
    assert(texts.len() == 2);
    assert(texts[0] == args@[0]@ && texts[1] == args@[1]@);
}

} // verus!
