use vm_pool::protocol::{
    OutputStream, ShellCommand, ShellEvent, ShellProtocol, VmCommand, VmEvent,
};
use vm_pool::supervisor::{
    app_events, completed_events, execute_command, greeting, shell_args, supervisor_step,
    CommandOutcome, SupervisorStep,
};
use vm_pool::transport::LineInput;

type Input = LineInput<VmCommand<ShellProtocol>>;

/// What the supervisor emits on lines, with a shell whose outcome for every command is given.
fn converse(inputs: Vec<Input>, outcome: CommandOutcome) -> (Vec<VmEvent<ShellProtocol>>, bool) {
    let mut emitted = vec![greeting()];
    for input in inputs {
        match supervisor_step(input) {
            SupervisorStep::Emit { event, last } => {
                emitted.push(event);
                if last {
                    return (emitted, true);
                }
            }
            SupervisorStep::Handle { command: ShellCommand::Execute { .. } } => {
                emitted.extend(app_events::<ShellProtocol>(execute_command(outcome.clone())));
            }
            SupervisorStep::Skip => {}
            SupervisorStep::Exit => return (emitted, true),
            SupervisorStep::Fail { .. } => return (emitted, false),
        }
    }
    (emitted, false)
}

fn finished(stdout: &[u8], stderr: &[u8], code: Option<i32>) -> CommandOutcome {
    CommandOutcome::Finished { stdout: stdout.to_vec(), stderr: stderr.to_vec(), code }
}

fn execute(command: &str) -> Input {
    LineInput::Parsed(VmCommand::App {
        payload: ShellCommand::Execute { command: command.to_string() },
    })
}

fn output(stream: OutputStream, data: &str) -> ShellEvent {
    ShellEvent::Output { stream, data: data.to_string() }
}

#[test]
fn supervisor_ping_pong() {
    let inputs = vec![
        LineInput::Parsed(VmCommand::Ping),
        LineInput::Parsed(VmCommand::Shutdown),
        LineInput::Parsed(VmCommand::Ping),
    ];
    let (emitted, exited) = converse(inputs, finished(b"", b"", Some(0)));
    assert_eq!(emitted, vec![VmEvent::Ready, VmEvent::Pong, VmEvent::Shutdown]);
    assert!(exited);
}

#[test]
fn supervisor_execute_with_output() {
    let inputs = vec![execute("echo hello world"), LineInput::Parsed(VmCommand::Shutdown)];
    let (emitted, _) = converse(inputs, finished(b"hello world\n", b"", Some(0)));
    assert_eq!(emitted[0], VmEvent::Ready);
    match &emitted[1] {
        VmEvent::App { payload: ShellEvent::Output { stream, data } } => {
            assert_eq!(*stream, OutputStream::Stdout);
            assert_eq!(data.trim(), "hello world");
        }
        other => panic!("expected App(Output), got {:?}", other),
    }
    match &emitted[2] {
        VmEvent::App { payload: ShellEvent::CommandCompleted { exit_code } } => {
            assert_eq!(*exit_code, 0)
        }
        other => panic!("expected App(CommandCompleted), got {:?}", other),
    }
    assert_eq!(emitted[3], VmEvent::Shutdown);
    assert_eq!(emitted.len(), 4);
}

#[test]
fn supervisor_execute_nonzero_exit() {
    let inputs = vec![execute("exit 42"), LineInput::Parsed(VmCommand::Shutdown)];
    let (emitted, _) = converse(inputs, finished(b"", b"", Some(42)));
    assert_eq!(
        emitted,
        vec![
            VmEvent::Ready,
            VmEvent::App { payload: ShellEvent::CommandCompleted { exit_code: 42 } },
            VmEvent::Shutdown,
        ]
    );
}

#[test]
fn supervisor_skips_what_is_no_command() {
    let inputs = vec![LineInput::Malformed("eof".into()), LineInput::Parsed(VmCommand::Ping)];
    let (emitted, exited) = converse(inputs, finished(b"", b"", None));
    assert_eq!(emitted, vec![VmEvent::Ready, VmEvent::Pong]);
    assert!(!exited);
}

#[test]
fn supervisor_ends() {
    assert_eq!(supervisor_step::<ShellProtocol>(LineInput::End), SupervisorStep::Exit);
    assert_eq!(
        supervisor_step::<ShellProtocol>(LineInput::Failed("broken".into())),
        SupervisorStep::Fail { reason: "broken".into() }
    );
}

#[test]
fn command_outcomes() {
    assert_eq!(
        execute_command(finished(b"out", b"err", None)),
        vec![
            output(OutputStream::Stdout, "out"),
            output(OutputStream::Stderr, "err"),
            ShellEvent::CommandCompleted { exit_code: -1 },
        ]
    );
    assert_eq!(
        execute_command(finished(&[b'a', 0xc3, 0x28], b"", Some(1))),
        vec![
            output(OutputStream::Stdout, "a\u{fffd}("),
            ShellEvent::CommandCompleted { exit_code: 1 },
        ]
    );
    assert_eq!(
        execute_command(CommandOutcome::NotRun("no shell".into())),
        vec![
            output(OutputStream::Stderr, "failed to execute command: no shell\n"),
            ShellEvent::CommandCompleted { exit_code: -1 },
        ]
    );
    assert_eq!(
        completed_events(String::new(), String::new(), Some(7)),
        vec![ShellEvent::CommandCompleted { exit_code: 7 }]
    );
}

#[test]
fn commands_go_to_the_shell() {
    assert_eq!(shell_args("ls -la"), ("-c".to_string(), "ls -la".to_string()));
}
