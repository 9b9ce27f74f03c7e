//! The supervisor inside a VM: answers infrastructure commands (Ping, Shutdown) and hands application
//! commands to a handler.

use vstd::prelude::*;

use crate::protocol::{AppProtocol, NullProtocol, OutputStream, ShellEvent, VmCommand, VmEvent};
use crate::text;
use crate::transport::LineInput;

verus! {

/// What the supervisor does next.
#[derive(Debug, Clone, PartialEq)]
pub enum SupervisorStep<P: AppProtocol = NullProtocol> {
    /// Emit an event; `last` where the supervisor exits then.
    Emit { event: VmEvent<P>, last: bool },
    /// Hand a command to the application and emit the events that it answers with.
    Handle { command: P::Command },
    /// Read the next line.
    Skip,
    /// Exit.
    Exit,
    /// Exit with an error, with the reason.
    Fail { reason: String },
}

/// The step of the supervisor on a line.
pub open spec fn supervisor_step_of<P: AppProtocol>(input: LineInput<VmCommand<P>>) -> SupervisorStep<P> {
    match input {
        LineInput::Parsed(VmCommand::Ping) => SupervisorStep::Emit { event: VmEvent::Pong, last: false },
        LineInput::Parsed(VmCommand::Shutdown) => SupervisorStep::Emit {
            event: VmEvent::Shutdown,
            last: true,
        },
        LineInput::Parsed(VmCommand::App { payload }) => SupervisorStep::Handle { command: payload },
        LineInput::Malformed(_) => SupervisorStep::Skip,
        LineInput::End => SupervisorStep::Exit,
        LineInput::Failed(reason) => SupervisorStep::Fail { reason },
    }
}

/// Decides what the supervisor does with a line: Ping is answered with Pong, Shutdown is confirmed and
/// obeyed, and application commands go to the handler. A line that is no command is skipped.
pub fn supervisor_step<P: AppProtocol>(input: LineInput<VmCommand<P>>) -> (step: SupervisorStep<P>)
    ensures
        step == supervisor_step_of(input),
{
    match input {
        LineInput::Parsed(command) => match command {
            VmCommand::Ping => SupervisorStep::Emit { event: VmEvent::Pong, last: false },
            VmCommand::Shutdown => SupervisorStep::Emit { event: VmEvent::Shutdown, last: true },
            VmCommand::App { payload } => SupervisorStep::Handle { command: payload },
        },
        LineInput::Malformed(_) => SupervisorStep::Skip,
        LineInput::End => SupervisorStep::Exit,
        LineInput::Failed(reason) => SupervisorStep::Fail { reason },
    }
}

/// What the supervisor emits before it reads the first line.
pub fn greeting<P: AppProtocol>() -> (event: VmEvent<P>)
    ensures
        event == VmEvent::<P>::Ready,
{
    VmEvent::Ready
}

/// Application events as the supervisor emits them.
pub open spec fn app_events_of<P: AppProtocol>(events: Seq<P::Event>) -> Seq<VmEvent<P>> {
    events.map_values(|event: P::Event| VmEvent::App { payload: event })
}

/// Wraps the events that the application answered with for emission, in their order.
pub fn app_events<P: AppProtocol>(events: Vec<P::Event>) -> (wrapped: Vec<VmEvent<P>>)
    ensures
        wrapped@ == app_events_of::<P>(events@),
{
    let mut wrapped: Vec<VmEvent<P>> = Vec::new();
    let ghost all = events@;
    for event in it: events
        invariant
            it.seq() == all,
            wrapped@ == app_events_of::<P>(all.take(it.index() as int)),
    {
        wrapped.push(VmEvent::App { payload: event });
        assert(wrapped@ =~= app_events_of::<P>(all.take(it.index() + 1)));
    }
    assert(all.take(all.len() as int) =~= all);
    wrapped
}

/// What the supervisor emits on a run of lines, where the application answers each command as `handler`
/// says.
pub open spec fn replies<P: AppProtocol>(
    inputs: Seq<LineInput<VmCommand<P>>>,
    handler: spec_fn(P::Command) -> Seq<P::Event>,
) -> Seq<VmEvent<P>>
    decreases inputs.len(),
{
    if inputs.len() == 0 {
        Seq::empty()
    } else {
        match supervisor_step_of(inputs[0]) {
            SupervisorStep::Emit { event, last } => if last {
                seq![event]
            } else {
                seq![event] + replies(inputs.skip(1), handler)
            },
            SupervisorStep::Handle { command } => app_events_of::<P>(handler(command)) + replies(
                inputs.skip(1),
                handler,
            ),
            SupervisorStep::Skip => replies(inputs.skip(1), handler),
            SupervisorStep::Exit => Seq::empty(),
            SupervisorStep::Fail { .. } => Seq::empty(),
        }
    }
}

/// Whether the supervisor reads on after every line of a run.
pub open spec fn reads_on<P: AppProtocol>(inputs: Seq<LineInput<VmCommand<P>>>) -> bool {
    forall|i: int|
        0 <= i < inputs.len() ==> match #[trigger] inputs[i] {
            LineInput::Parsed(command) => command !is Shutdown,
            LineInput::Malformed(_) => true,
            _ => false,
        }
}

/// The replies to lines behind a run after which the supervisor reads on follow those to the run.
pub proof fn lemma_replies_follow_in_order<P: AppProtocol>(
    before: Seq<LineInput<VmCommand<P>>>,
    after: Seq<LineInput<VmCommand<P>>>,
    handler: spec_fn(P::Command) -> Seq<P::Event>,
)
    requires
        reads_on(before),
    ensures
        replies(before + after, handler) == replies(before, handler) + replies(after, handler),
    decreases before.len(),
{
    let all = before + after;
    if before.len() == 0 {
        assert(all =~= after);
        assert(replies(before, handler) + replies(after, handler) =~= replies(after, handler));
    } else {
        let rest = before.skip(1);
        assert(reads_on(rest)) by {
            assert forall|i: int| 0 <= i < rest.len() implies match #[trigger] rest[i] {
                LineInput::Parsed(command) => command !is Shutdown,
                LineInput::Malformed(_) => true,
                _ => false,
            } by {
                assert(rest[i] == before[i + 1]);
            }
        }
        lemma_replies_follow_in_order(rest, after, handler);
        assert(all.skip(1) =~= rest + after);
        assert(all[0] == before[0]);
        assert(replies(all, handler) =~= replies(before, handler) + replies(after, handler));
    }
}

/// A Ping gets one Pong, at its place among the replies.
pub proof fn lemma_ping_gets_pong<P: AppProtocol>(
    before: Seq<LineInput<VmCommand<P>>>,
    after: Seq<LineInput<VmCommand<P>>>,
    handler: spec_fn(P::Command) -> Seq<P::Event>,
)
    requires
        reads_on(before),
    ensures
        replies(before.push(LineInput::Parsed(VmCommand::Ping)) + after, handler) == replies(
            before,
            handler,
        ).push(VmEvent::Pong) + replies(after, handler),
{
    let ping = seq![LineInput::Parsed(VmCommand::<P>::Ping)];
    assert(before.push(LineInput::Parsed(VmCommand::Ping)) + after =~= before + (ping + after));
    lemma_replies_follow_in_order(before, ping + after, handler);
    assert((ping + after).skip(1) =~= after);
    assert(replies(ping + after, handler) =~= seq![VmEvent::<P>::Pong] + replies(after, handler));
    assert(replies(before, handler) + replies(ping + after, handler) =~= replies(before, handler).push(
        VmEvent::Pong,
    ) + replies(after, handler));
}

/// A Shutdown is confirmed, and that is the last thing the supervisor emits, whatever lines follow.
pub proof fn lemma_shutdown_is_last<P: AppProtocol>(
    before: Seq<LineInput<VmCommand<P>>>,
    after: Seq<LineInput<VmCommand<P>>>,
    handler: spec_fn(P::Command) -> Seq<P::Event>,
)
    requires
        reads_on(before),
    ensures
        replies(before.push(LineInput::Parsed(VmCommand::Shutdown)) + after, handler) == replies(
            before,
            handler,
        ).push(VmEvent::Shutdown),
{
    let shutdown = seq![LineInput::Parsed(VmCommand::<P>::Shutdown)];
    assert(before.push(LineInput::Parsed(VmCommand::Shutdown)) + after =~= before + (shutdown + after));
    lemma_replies_follow_in_order(before, shutdown + after, handler);
    assert(replies(shutdown + after, handler) =~= seq![VmEvent::<P>::Shutdown]);
    assert(replies(before, handler) + replies(shutdown + after, handler) =~= replies(
        before,
        handler,
    ).push(VmEvent::Shutdown));
}

/// The exit code of a command that has none of its own.
pub const NO_EXIT_CODE: i32 = -1;

/// What came of running a shell command.
#[derive(Debug, Clone, PartialEq, Eq)]
pub enum CommandOutcome {
    /// The shell could not be run, with the reason.
    NotRun(String),
    /// The shell ended: what it wrote to its two streams, and its exit code unless a signal ended it.
    Finished { stdout: Vec<u8>, stderr: Vec<u8>, code: Option<i32> },
}

/// The arguments that `sh` is run with for a command.
pub fn shell_args(command: &str) -> (args: (String, String))
    ensures
        args.0@ == "-c"@,
        args.1@ == command@,
{
    ("-c".to_owned(), command.to_owned())
}

/// The output event of a stream: none where nothing was written.
pub open spec fn output_of(stream: OutputStream, data: String) -> Seq<ShellEvent> {
    if data@.len() == 0 {
        Seq::empty()
    } else {
        seq![ShellEvent::Output { stream, data }]
    }
}

/// The events of a command that ended: what it wrote to each stream, and the exit code, which is -1 where
/// it has none.
pub open spec fn completed(stdout: String, stderr: String, code: Option<i32>) -> Seq<ShellEvent> {
    output_of(OutputStream::Stdout, stdout) + output_of(OutputStream::Stderr, stderr) + seq![
        ShellEvent::CommandCompleted { exit_code: code.unwrap_or(NO_EXIT_CODE) },
    ]
}

/// The events of a command that ended, given what it wrote as text.
pub fn completed_events(stdout: String, stderr: String, code: Option<i32>) -> (events: Vec<ShellEvent>)
    ensures
        events@ == completed(stdout, stderr, code),
{
    let ghost expected = completed(stdout, stderr, code);
    let mut events: Vec<ShellEvent> = Vec::new();
    if !stdout.as_str().is_empty() {
        events.push(ShellEvent::Output { stream: OutputStream::Stdout, data: stdout });
    }
    if !stderr.as_str().is_empty() {
        events.push(ShellEvent::Output { stream: OutputStream::Stderr, data: stderr });
    }
    events.push(ShellEvent::CommandCompleted { exit_code: code.unwrap_or(NO_EXIT_CODE) });
    assert(events@ =~= expected);
    events
}

/// The events of a shell command, given what came of running it. One that could not be run counts as ended
/// with exit code -1, with the reason as what it wrote to its standard error.
pub fn execute_command(outcome: CommandOutcome) -> (events: Vec<ShellEvent>)
    ensures
        match outcome {
            CommandOutcome::NotRun(reason) => {
                &&& events@.len() == 2
                &&& events@[0] matches ShellEvent::Output { stream, data } && stream
                    == OutputStream::Stderr && data@ == ("failed to execute command: "@ + reason@).push(
                    '\n',
                )
                &&& events@[1] == (ShellEvent::CommandCompleted { exit_code: NO_EXIT_CODE })
            },
            CommandOutcome::Finished { stdout, stderr, code } => exists|out: String, err: String|
                {
                    &&& out@ == text::utf8_lossy(stdout@)
                    &&& err@ == text::utf8_lossy(stderr@)
                    &&& vstd::utf8::valid_utf8(stdout@) ==> out@ == vstd::utf8::decode_utf8(stdout@)
                    &&& vstd::utf8::valid_utf8(stderr@) ==> err@ == vstd::utf8::decode_utf8(stderr@)
                    &&& events@ == #[trigger] completed(out, err, code)
                },
        },
{
    match outcome {
        CommandOutcome::NotRun(reason) => {
            proof {
                reveal_strlit("\n");
            }
            let mut data = text::concat("failed to execute command: ", reason.as_str());
            data.append("\n");
            assert(data@ =~= ("failed to execute command: "@ + reason@).push('\n'));
            let mut events: Vec<ShellEvent> = Vec::new();
            events.push(ShellEvent::Output { stream: OutputStream::Stderr, data });
            events.push(ShellEvent::CommandCompleted { exit_code: NO_EXIT_CODE });
            events
        },
        CommandOutcome::Finished { stdout, stderr, code } => {
            let out = text::decode_lossy(stdout.as_slice());
            let err = text::decode_lossy(stderr.as_slice());
            completed_events(out, err, code)
        },
    }
}

/// However a shell command ends, its last event, and no other, is that it has completed.
pub proof fn lemma_completion_is_last(stdout: String, stderr: String, code: Option<i32>)
    ensures
        completed(stdout, stderr, code).last() is CommandCompleted,
        forall|i: int|
            0 <= i < completed(stdout, stderr, code).len() - 1 ==> #[trigger] completed(
                stdout,
                stderr,
                code,
            )[i] is Output,
{
}

/// What a command that ended wrote to a stream comes out as one event for that stream, with all of the text,
/// where there is text, and as none where there is not, whatever it wrote to the other stream and however
/// it ended. Standard output comes before standard error, the completion after both, with the exit code
/// that the command has, or -1 where it has none.
pub proof fn lemma_each_stream_is_reported(
    stdout: String,
    stderr: String,
    code: Option<i32>,
    events: Vec<ShellEvent>,
)
    requires
        call_ensures(completed_events, (stdout, stderr, code), events),
    ensures
        events@.filter(|e: ShellEvent| e matches ShellEvent::Output { stream, .. } && stream is Stdout)
            == if stdout@.len() > 0 {
            seq![ShellEvent::Output { stream: OutputStream::Stdout, data: stdout }]
        } else {
            Seq::empty()
        },
        events@.filter(|e: ShellEvent| e matches ShellEvent::Output { stream, .. } && stream is Stderr)
            == if stderr@.len() > 0 {
            seq![ShellEvent::Output { stream: OutputStream::Stderr, data: stderr }]
        } else {
            Seq::empty()
        },
        events@.filter(|e: ShellEvent| e is CommandCompleted) == seq![events@.last()],
        events@.last() matches ShellEvent::CommandCompleted { exit_code } && match code {
            Some(c) => exit_code == c,
            None => exit_code + 1 == 0,
        },
        forall|i: int, j: int|
            0 <= i < events@.len() && 0 <= j < events@.len() && (#[trigger] events@[i] matches
                ShellEvent::Output { stream: OutputStream::Stdout, .. }) && (#[trigger] events@[j] matches
                ShellEvent::Output { stream: OutputStream::Stderr, .. }) ==> i < j,
{
    reveal_with_fuel(Seq::filter, 4);
    let out = output_of(OutputStream::Stdout, stdout);
    let err = output_of(OutputStream::Stderr, stderr);
    assert(events@.drop_last() =~= out + err);
    if stderr@.len() > 0 {
        assert((out + err).drop_last() =~= out);
    } else {
        assert(out + err =~= out);
    }
    assert(out.drop_last() =~= Seq::empty() || out =~= Seq::empty());
    let is_out = |e: ShellEvent| e matches ShellEvent::Output { stream, .. } && stream is Stdout;
    let is_err = |e: ShellEvent| e matches ShellEvent::Output { stream, .. } && stream is Stderr;
    let is_done = |e: ShellEvent| e is CommandCompleted;
    assert(out.filter(is_out) =~= out);
    assert(out.filter(is_err) =~= Seq::empty());
    assert(out.filter(is_done) =~= Seq::empty());
    assert((out + err).filter(is_out) =~= out);
    assert((out + err).filter(is_err) =~= err);
    assert((out + err).filter(is_done) =~= Seq::empty());
    assert(events@.filter(is_out) =~= out);
    assert(events@.filter(is_err) =~= err);
    assert(events@.filter(is_done) =~= seq![events@.last()]);
}

/// The texts that events report of a stream, in their order.
pub open spec fn reported_on(events: Seq<ShellEvent>, stream: OutputStream) -> Seq<Seq<char>>
    decreases events.len(),
{
    if events.len() == 0 {
        Seq::empty()
    } else {
        let before = reported_on(events.drop_last(), stream);
        match events.last() {
            ShellEvent::Output { stream: on, data } => if on == stream {
                before.push(data@)
            } else {
                before
            },
            ShellEvent::CommandCompleted { .. } => before,
        }
    }
}

/// What is reported of a stream on which a text was written: that text, or nothing where it is empty.
pub open spec fn all_of(text: Seq<char>) -> Seq<Seq<char>> {
    if text.len() == 0 {
        Seq::empty()
    } else {
        seq![text]
    }
}

proof fn lemma_reported_on_completed(stdout: String, stderr: String, code: Option<i32>)
    ensures
        reported_on(completed(stdout, stderr, code), OutputStream::Stdout) == all_of(stdout@),
        reported_on(completed(stdout, stderr, code), OutputStream::Stderr) == all_of(stderr@),
{
    reveal_with_fuel(reported_on, 4);
    let out = output_of(OutputStream::Stdout, stdout);
    let err = output_of(OutputStream::Stderr, stderr);
    let events = completed(stdout, stderr, code);
    assert(events.drop_last() =~= out + err);
    if stderr@.len() > 0 {
        assert((out + err).drop_last() =~= out);
    } else {
        assert(out + err =~= out);
    }
    if stdout@.len() > 0 {
        assert(out.drop_last() =~= Seq::empty());
    }
    assert(reported_on(events, OutputStream::Stdout) =~= all_of(stdout@));
    assert(reported_on(events, OutputStream::Stderr) =~= all_of(stderr@));
}

/// Of a shell command that ended, each stream is reported with all that was written on it, where that is
/// valid UTF-8, whatever was written on the other; of one that could not be run, the reason is reported as
/// standard error. The last event, and no other, is the completion, with the exit code of the command, or -1
/// where it has none.
pub proof fn lemma_execution_is_reported(outcome: CommandOutcome, events: Vec<ShellEvent>)
    requires
        call_ensures(execute_command, (outcome,), events),
    ensures
        events@.len() > 0,
        events@.last() matches ShellEvent::CommandCompleted { exit_code } && match outcome {
            CommandOutcome::Finished { code: Some(c), .. } => exit_code == c,
            _ => exit_code + 1 == 0,
        },
        forall|i: int| 0 <= i < events@.len() - 1 ==> #[trigger] events@[i] is Output,
        match outcome {
            CommandOutcome::NotRun(reason) => {
                &&& reported_on(events@, OutputStream::Stdout).len() == 0
                &&& reported_on(events@, OutputStream::Stderr) == seq![
                    ("failed to execute command: "@ + reason@).push('\n'),
                ]
            },
            CommandOutcome::Finished { stdout, stderr, .. } => {
                &&& vstd::utf8::valid_utf8(stdout@) ==> reported_on(events@, OutputStream::Stdout)
                    == all_of(vstd::utf8::decode_utf8(stdout@))
                &&& vstd::utf8::valid_utf8(stderr@) ==> reported_on(events@, OutputStream::Stderr)
                    == all_of(vstd::utf8::decode_utf8(stderr@))
            },
        },
{
    match outcome {
        CommandOutcome::NotRun(reason) => {
            reveal_with_fuel(reported_on, 3);
            assert(events@.drop_last().drop_last() =~= Seq::empty());
            assert(reported_on(events@, OutputStream::Stderr) =~= seq![
                ("failed to execute command: "@ + reason@).push('\n'),
            ]);
        },
        CommandOutcome::Finished { stdout, stderr, code } => {
            let (out, err) = choose|out: String, err: String|
                {
                    &&& out@ == text::utf8_lossy(stdout@)
                    &&& err@ == text::utf8_lossy(stderr@)
                    &&& vstd::utf8::valid_utf8(stdout@) ==> out@ == vstd::utf8::decode_utf8(stdout@)
                    &&& vstd::utf8::valid_utf8(stderr@) ==> err@ == vstd::utf8::decode_utf8(stderr@)
                    &&& events@ == #[trigger] completed(out, err, code)
                };
            lemma_reported_on_completed(out, err, code);
            lemma_completion_is_last(out, err, code);
        },
    }
}

/// A line that is no command gets no reply and keeps none from those around it. Nothing is emitted for what
/// follows the end of the lines, or a failure to read them.
pub proof fn lemma_only_commands_get_replies<P: AppProtocol>(
    before: Seq<LineInput<VmCommand<P>>>,
    reason: String,
    after: Seq<LineInput<VmCommand<P>>>,
    handler: spec_fn(P::Command) -> Seq<P::Event>,
)
    requires
        reads_on(before),
    ensures
        replies(before.push(LineInput::Malformed(reason)) + after, handler) == replies(before, handler)
            + replies(after, handler),
        replies(before.push(LineInput::End) + after, handler) == replies(before, handler),
        replies(before.push(LineInput::Failed(reason)) + after, handler) == replies(before, handler),
{
    let bad = seq![LineInput::<VmCommand<P>>::Malformed(reason)];
    assert(before.push(bad[0]) + after =~= before + (bad + after));
    lemma_replies_follow_in_order(before, bad + after, handler);
    assert((bad + after).skip(1) =~= after);
    let end = seq![LineInput::<VmCommand<P>>::End];
    assert(before.push(end[0]) + after =~= before + (end + after));
    lemma_replies_follow_in_order(before, end + after, handler);
    assert(replies(before, handler) + Seq::empty() =~= replies(before, handler));
    let failed = seq![LineInput::<VmCommand<P>>::Failed(reason)];
    assert(before.push(failed[0]) + after =~= before + (failed + after));
    lemma_replies_follow_in_order(before, failed + after, handler);
}

/// The supervisor goes on after a line unless that is a Shutdown, the end or a failure, and it hands the
/// application just the commands that are for it.
pub proof fn lemma_steps_fit_lines<P: AppProtocol>(input: LineInput<VmCommand<P>>, step: SupervisorStep<P>)
    requires
        call_ensures(supervisor_step::<P>, (input,), step),
    ensures
        step is Handle <==> (input matches LineInput::Parsed(command) && command is App),
        step matches SupervisorStep::Handle { command } ==> input == LineInput::Parsed(
            VmCommand::<P>::App { payload: command },
        ),
        step is Skip <==> input is Malformed,
        step is Exit <==> input is End,
        step is Fail <==> input is Failed,
        step matches SupervisorStep::Fail { reason } ==> input == LineInput::<VmCommand<P>>::Failed(reason),
        step matches SupervisorStep::Emit { event, last } ==> {
            &&& event is Pong || event is Shutdown
            &&& event is Pong <==> input == LineInput::Parsed(VmCommand::<P>::Ping)
            &&& event is Shutdown <==> input == LineInput::Parsed(VmCommand::<P>::Shutdown)
            &&& last <==> event is Shutdown
        },
{
}

/// Wrapping application events for emission keeps their number, their order and each of them.
pub proof fn lemma_wrapping_keeps_events<P: AppProtocol>(events: Vec<P::Event>, wrapped: Vec<VmEvent<P>>)
    requires
        call_ensures(app_events::<P>, (events,), wrapped),
    ensures
        wrapped@.len() == events@.len(),
        forall|i: int|
            0 <= i < events@.len() ==> (#[trigger] wrapped@[i]) == (VmEvent::<P>::App {
                payload: events@[i],
            }),
{
}

/// The events that the application answers a command with are emitted at the place of the command among the
/// replies, all of them, in their order and unchanged.
pub proof fn lemma_commands_are_answered_in_place<P: AppProtocol>(
    before: Seq<LineInput<VmCommand<P>>>,
    command: P::Command,
    after: Seq<LineInput<VmCommand<P>>>,
    handler: spec_fn(P::Command) -> Seq<P::Event>,
)
    requires
        reads_on(before),
    ensures
        replies(before.push(LineInput::Parsed(VmCommand::App { payload: command })) + after, handler)
            == replies(before, handler) + handler(command).map_values(
            |event: P::Event| VmEvent::<P>::App { payload: event },
        ) + replies(after, handler),
{
    let line = LineInput::Parsed(VmCommand::<P>::App { payload: command });
    let one = seq![line];
    assert(before.push(line) + after =~= before + (one + after));
    lemma_replies_follow_in_order(before, one + after, handler);
    assert((one + after).skip(1) =~= after);
    let answer = app_events_of::<P>(handler(command));
    assert(replies(before, handler) + (answer + replies(after, handler)) =~= replies(before, handler)
        + answer + replies(after, handler));
}

} // verus!
