//! Host-side communication with VMs: lines of JSON over the standard streams of a process.

use vstd::prelude::*;

use crate::path::{self, FilePath};
use crate::protocol::{AppProtocol, NullProtocol, VmCommand, VmEvent};
use crate::text;

verus! {

#[derive(Debug, Clone, PartialEq, Eq)]
pub enum TransportError {
    Io(String),
    Json(String),
    Closed,
    SendFailed,
}

impl TransportError {
    /// The message of this error.
    pub open spec fn message(self) -> Seq<char> {
        match self {
            TransportError::Io(what) => "IO error: "@ + what@,
            TransportError::Json(what) => "JSON error: "@ + what@,
            TransportError::Closed => "transport closed"@,
            TransportError::SendFailed => "send failed: receiver dropped"@,
        }
    }

    /// The error as text.
    pub fn to_string(&self) -> (message: String)
        ensures
            message@ == self.message(),
    {
        match self {
            TransportError::Io(what) => text::concat("IO error: ", what.as_str()),
            TransportError::Json(what) => text::concat("JSON error: ", what.as_str()),
            TransportError::Closed => "transport closed".to_owned(),
            TransportError::SendFailed => "send failed: receiver dropped".to_owned(),
        }
    }
}

/// What came of reading a line and parsing it.
#[derive(Debug, Clone, PartialEq, Eq)]
pub enum LineInput<T> {
    /// There are no more lines.
    End,
    /// A line that holds a value.
    Parsed(T),
    /// A line that does not, with the reason.
    Malformed(String),
    /// Reading failed, with the reason.
    Failed(String),
}

/// What a reader does next.
#[derive(Debug, Clone, PartialEq, Eq)]
pub enum ReadStep<T> {
    /// Hand the value on, and read the next line where it was taken.
    Deliver(T),
    /// Read the next line.
    Skip,
    /// Stop reading.
    Stop,
}

/// The step of a reader on a line.
pub open spec fn read_step_of<T>(input: LineInput<T>) -> ReadStep<T> {
    match input {
        LineInput::Parsed(value) => ReadStep::Deliver(value),
        LineInput::Malformed(_) => ReadStep::Skip,
        LineInput::End => ReadStep::Stop,
        LineInput::Failed(_) => ReadStep::Stop,
    }
}

/// Decides what a reader does with a line: values are handed on, lines that hold none are skipped, and the
/// end or a failure stops it.
pub fn read_step<T>(input: LineInput<T>) -> (step: ReadStep<T>)
    ensures
        step == read_step_of(input),
{
    match input {
        LineInput::Parsed(value) => ReadStep::Deliver(value),
        LineInput::Malformed(_) => ReadStep::Skip,
        LineInput::End => ReadStep::Stop,
        LineInput::Failed(_) => ReadStep::Stop,
    }
}

/// What a reader hands on of a run of lines, if all of it is taken.
pub open spec fn delivered<T>(inputs: Seq<LineInput<T>>) -> Seq<T>
    decreases inputs.len(),
{
    if inputs.len() == 0 {
        Seq::empty()
    } else {
        match read_step_of(inputs[0]) {
            ReadStep::Deliver(value) => seq![value] + delivered(inputs.skip(1)),
            ReadStep::Skip => delivered(inputs.skip(1)),
            ReadStep::Stop => Seq::empty(),
        }
    }
}

/// A line that cannot be parsed changes nothing of what a reader hands on of the lines around it.
pub proof fn lemma_malformed_line_is_skipped<T>(
    before: Seq<LineInput<T>>,
    reason: String,
    after: Seq<LineInput<T>>,
)
    ensures
        delivered(before.push(LineInput::Malformed(reason)) + after) == delivered(before + after),
    decreases before.len(),
{
    let bad = LineInput::<T>::Malformed(reason);
    let with = before.push(bad) + after;
    let without = before + after;
    if before.len() == 0 {
        assert(with.skip(1) =~= without);
    } else {
        lemma_malformed_line_is_skipped(before.skip(1), reason, after);
        assert(with.skip(1) =~= before.skip(1).push(bad) + after);
        assert(without.skip(1) =~= before.skip(1) + after);
    }
}

/// Values that are sent one to a line are handed on in their order, up to the end.
pub proof fn lemma_values_arrive_in_order<T>(values: Seq<T>)
    ensures
        delivered(values.map_values(|value: T| LineInput::Parsed(value)).push(LineInput::End)) == values,
    decreases values.len(),
{
    let lines = values.map_values(|value: T| LineInput::Parsed(value)).push(LineInput::End);
    if values.len() > 0 {
        let rest = values.skip(1);
        lemma_values_arrive_in_order(rest);
        assert(lines.skip(1) =~= rest.map_values(|value: T| LineInput::Parsed(value)).push(LineInput::End));
        assert(seq![values[0]] + rest =~= values);
    }
}

/// What the task between a VM and the pool is woken up by.
#[derive(Debug, Clone, PartialEq)]
pub enum BridgeInput<P: AppProtocol = NullProtocol> {
    /// The pool sends a command.
    Command { command: VmCommand<P> },
    /// The pool has dropped the command channel.
    CommandsClosed,
    /// The VM emits an event.
    Event { event: VmEvent<P> },
    /// The VM has closed its side.
    EventsClosed,
}

/// What that task does then.
#[derive(Debug, Clone, PartialEq)]
pub enum BridgeAction<P: AppProtocol = NullProtocol> {
    /// Send a command to the VM; `last` where nothing follows it.
    ToVm { command: VmCommand<P>, last: bool },
    /// Hand an event to the pool.
    ToPool { event: VmEvent<P> },
    /// Close the transport.
    Close,
}

/// The action on an input.
pub open spec fn bridge_action<P: AppProtocol>(input: BridgeInput<P>) -> BridgeAction<P> {
    match input {
        BridgeInput::Command { command } => BridgeAction::ToVm { command, last: false },
        BridgeInput::CommandsClosed => BridgeAction::ToVm { command: VmCommand::Shutdown, last: true },
        BridgeInput::Event { event } => BridgeAction::ToPool { event },
        BridgeInput::EventsClosed => BridgeAction::Close,
    }
}

/// Decides what the task between a VM and the pool does: commands and events are passed on as they are, and
/// a dropped command channel shuts the VM down.
pub fn bridge_step<P: AppProtocol>(input: BridgeInput<P>) -> (action: BridgeAction<P>)
    ensures
        action == bridge_action(input),
{
    match input {
        BridgeInput::Command { command } => BridgeAction::ToVm { command, last: false },
        BridgeInput::CommandsClosed => BridgeAction::ToVm { command: VmCommand::Shutdown, last: true },
        BridgeInput::Event { event } => BridgeAction::ToPool { event },
        BridgeInput::EventsClosed => BridgeAction::Close,
    }
}

/// Whether the task goes on after an action that succeeded or failed.
pub open spec fn stays_open<P: AppProtocol>(action: BridgeAction<P>, done: bool) -> bool {
    match action {
        BridgeAction::ToVm { last, .. } => done && !last,
        BridgeAction::ToPool { .. } => done,
        BridgeAction::Close => false,
    }
}

/// Decides whether the task goes on after an action, given whether that succeeded; where it does not, the
/// transport is closed.
pub fn bridge_goes_on<P: AppProtocol>(action: &BridgeAction<P>, done: bool) -> (goes_on: bool)
    ensures
        goes_on == stays_open(*action, done),
{
    match action {
        BridgeAction::ToVm { last, .. } => done && !*last,
        BridgeAction::ToPool { .. } => done,
        BridgeAction::Close => false,
    }
}

/// The traffic of a bridge.
#[verifier::ext_equal]
#[verifier::reject_recursive_types(P)]
pub struct Traffic<P: AppProtocol> {
    /// The commands that were sent to the VM.
    pub to_vm: Seq<VmCommand<P>>,
    /// The events that were handed to the pool.
    pub to_pool: Seq<VmEvent<P>>,
    /// Whether the bridge goes on.
    pub open: bool,
}

/// The traffic of a bridge on which every action succeeds.
pub open spec fn traffic<P: AppProtocol>(inputs: Seq<BridgeInput<P>>) -> Traffic<P>
    decreases inputs.len(),
{
    if inputs.len() == 0 {
        Traffic { to_vm: Seq::empty(), to_pool: Seq::empty(), open: true }
    } else {
        let before = traffic(inputs.drop_last());
        let action = bridge_action(inputs.last());
        if !before.open {
            before
        } else {
            Traffic {
                to_vm: match action {
                    BridgeAction::ToVm { command, .. } => before.to_vm.push(command),
                    _ => before.to_vm,
                },
                to_pool: match action {
                    BridgeAction::ToPool { event } => before.to_pool.push(event),
                    _ => before.to_pool,
                },
                open: stays_open(action, true),
            }
        }
    }
}

/// The commands among inputs, in their order.
pub open spec fn commands_in<P: AppProtocol>(inputs: Seq<BridgeInput<P>>) -> Seq<VmCommand<P>>
    decreases inputs.len(),
{
    if inputs.len() == 0 {
        Seq::empty()
    } else {
        match inputs.last() {
            BridgeInput::Command { command } => commands_in(inputs.drop_last()).push(command),
            _ => commands_in(inputs.drop_last()),
        }
    }
}

/// The events among inputs, in their order.
pub open spec fn events_in<P: AppProtocol>(inputs: Seq<BridgeInput<P>>) -> Seq<VmEvent<P>>
    decreases inputs.len(),
{
    if inputs.len() == 0 {
        Seq::empty()
    } else {
        match inputs.last() {
            BridgeInput::Event { event } => events_in(inputs.drop_last()).push(event),
            _ => events_in(inputs.drop_last()),
        }
    }
}

/// Whether neither side has closed in a run of inputs.
pub open spec fn none_closed<P: AppProtocol>(inputs: Seq<BridgeInput<P>>) -> bool {
    forall|i: int|
        0 <= i < inputs.len() ==> #[trigger] inputs[i] is Command || inputs[i] is Event
}

/// While neither side has closed, commands and events pass the bridge in their order and nothing is added.
/// When the command channel is dropped, the VM is told to shut down, once and last.
pub proof fn lemma_bridge_is_transparent<P: AppProtocol>(inputs: Seq<BridgeInput<P>>)
    requires
        none_closed(inputs),
    ensures
        traffic(inputs) == (Traffic {
            to_vm: commands_in(inputs),
            to_pool: events_in(inputs),
            open: true,
        }),
        traffic(inputs.push(BridgeInput::CommandsClosed)) == (Traffic {
            to_vm: commands_in(inputs).push(VmCommand::Shutdown),
            to_pool: events_in(inputs),
            open: false,
        }),
        traffic(inputs.push(BridgeInput::EventsClosed)) == (Traffic {
            to_vm: commands_in(inputs),
            to_pool: events_in(inputs),
            open: false,
        }),
    decreases inputs.len(),
{
    if inputs.len() > 0 {
        lemma_bridge_is_transparent(inputs.drop_last());
        assert(inputs.last() == inputs[inputs.len() - 1]);
    }
    let plain = Traffic { to_vm: commands_in(inputs), to_pool: events_in(inputs), open: true };
    assert(traffic(inputs) == plain);
    let dropped = inputs.push(BridgeInput::CommandsClosed);
    assert(dropped.drop_last() =~= inputs);
    assert(dropped.last() is CommandsClosed);
    let ended = inputs.push(BridgeInput::EventsClosed);
    assert(ended.drop_last() =~= inputs);
    assert(ended.last() is EventsClosed);
}

/// The places below a directory where the supervisor binary may be: the debug build, then the release
/// build.
pub fn supervisor_candidates(dir: &FilePath) -> (paths: (FilePath, FilePath))
    ensures
        paths.0@ == path::joined(dir@, path::utf8("target/debug/supervisor"@)),
        paths.1@ == path::joined(dir@, path::utf8("target/release/supervisor"@)),
{
    (dir.join("target/debug/supervisor"), dir.join("target/release/supervisor"))
}

/// The path of the supervisor binary, given the current directory, if it is known, and which of the
/// candidates below it exist: the first that does.
pub fn find_supervisor_binary(
    current_dir: Option<&FilePath>,
    debug_exists: bool,
    release_exists: bool,
) -> (found: Option<FilePath>)
    ensures
        match found {
            Some(p) => current_dir matches Some(dir) && if debug_exists {
                p@ == path::joined(dir@, path::utf8("target/debug/supervisor"@))
            } else {
                release_exists && p@ == path::joined(dir@, path::utf8("target/release/supervisor"@))
            },
            None => current_dir is None || (!debug_exists && !release_exists),
        },
{
    match current_dir {
        Some(dir) => {
            let (debug, release) = supervisor_candidates(dir);
            if debug_exists {
                Some(debug)
            } else if release_exists {
                Some(release)
            } else {
                None
            }
        },
        None => None,
    }
}

/// A reader hands on nothing of what follows the end of the lines, or a failure to read them.
pub proof fn lemma_nothing_after_the_end<T>(
    before: Seq<LineInput<T>>,
    reason: String,
    after: Seq<LineInput<T>>,
)
    ensures
        delivered(before.push(LineInput::End) + after) == delivered(before),
        delivered(before.push(LineInput::Failed(reason)) + after) == delivered(before),
    decreases before.len(),
{
    let ended = before.push(LineInput::<T>::End) + after;
    let failed = before.push(LineInput::<T>::Failed(reason)) + after;
    if before.len() > 0 {
        let rest = before.skip(1);
        lemma_nothing_after_the_end(rest, reason, after);
        assert(ended.skip(1) =~= rest.push(LineInput::<T>::End) + after);
        assert(failed.skip(1) =~= rest.push(LineInput::<T>::Failed(reason)) + after);
        assert(ended[0] == before[0]);
        assert(failed[0] == before[0]);
    }
}

/// A reader hands on a value exactly where a line holds one, and then this one. It stops exactly at the end
/// and at a failure.
pub proof fn lemma_read_steps_fit_lines<T>(input: LineInput<T>, step: ReadStep<T>)
    requires
        call_ensures(read_step::<T>, (input,), step),
    ensures
        step is Deliver <==> input is Parsed,
        step matches ReadStep::Deliver(value) ==> input == LineInput::Parsed(value),
        step is Stop <==> input is End || input is Failed,
{
}

/// The task between a VM and the pool goes on exactly where a command or an event came and was passed on. A
/// command goes to the VM and an event to the pool, as they came; a dropped command channel tells the VM to
/// shut down; nothing more is sent once the VM has closed its side.
pub proof fn lemma_bridge_goes_on_while_passing<P: AppProtocol>(
    input: BridgeInput<P>,
    action: BridgeAction<P>,
    done: bool,
    goes_on: bool,
)
    requires
        call_ensures(bridge_step::<P>, (input,), action),
        call_ensures(bridge_goes_on::<P>, (&action, done), goes_on),
    ensures
        goes_on <==> done && (input is Command || input is Event),
        action is ToPool <==> input is Event,
        action is Close <==> input is EventsClosed,
        action matches BridgeAction::ToVm { command, .. } ==> input == (BridgeInput::Command { command }) || (
        input is CommandsClosed && command is Shutdown),
        action matches BridgeAction::ToPool { event } ==> input == (BridgeInput::Event { event }),
{
}

/// Once a bridge is closed, nothing passes it any more.
pub proof fn lemma_closed_bridge_passes_nothing<P: AppProtocol>(
    inputs: Seq<BridgeInput<P>>,
    more: Seq<BridgeInput<P>>,
)
    requires
        !traffic(inputs).open,
    ensures
        traffic(inputs + more) == traffic(inputs),
    decreases more.len(),
{
    if more.len() == 0 {
        assert(inputs + more =~= inputs);
    } else {
        lemma_closed_bridge_passes_nothing(inputs, more.drop_last());
        assert((inputs + more).drop_last() =~= inputs + more.drop_last());
    }
}

/// The message of an error that has a reason is made of words that depend on its kind alone, followed by the
/// reason.
pub proof fn lemma_messages_end_in_the_reason(a: String, b: String)
    ensures
        text::led_alike(TransportError::Io(a).message(), a@, TransportError::Io(b).message(), b@),
        text::led_alike(TransportError::Json(a).message(), a@, TransportError::Json(b).message(), b@),
{
    let io = "IO error: "@;
    assert(TransportError::Io(a).message() == io + a@);
    let json = "JSON error: "@;
    assert(TransportError::Json(a).message() == json + a@);
}

/// The supervisor binary is found exactly where the current directory is known and holds one, and it is the
/// debug build that is taken where there are both. What is found is one of the two candidates.
pub proof fn lemma_debug_build_comes_first(
    dir: &FilePath,
    paths: (FilePath, FilePath),
    debug_exists: bool,
    release_exists: bool,
    found: Option<FilePath>,
    lost: Option<FilePath>,
)
    requires
        call_ensures(supervisor_candidates, (dir,), paths),
        call_ensures(find_supervisor_binary, (Some(dir), debug_exists, release_exists), found),
        call_ensures(find_supervisor_binary, (None::<&FilePath>, debug_exists, release_exists), lost),
    ensures
        found is Some <==> debug_exists || release_exists,
        found matches Some(p) ==> p@ == if debug_exists {
            paths.0@
        } else {
            paths.1@
        },
        lost is None,
{
}

} // verus!
