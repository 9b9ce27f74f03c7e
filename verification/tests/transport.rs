use vm_pool::images::ImageRef;
use vm_pool::path::FilePath;
use vm_pool::pool::PoolError;
use vm_pool::protocol::{
    Priority, ShellCommand, ShellEvent, ShellProtocol, VmCommand, VmConfig, VmEvent, VmId,
};
use vm_pool::runtime::{
    check_ready, not_ready, show_event, ContainerRuntime, FirstEvent, SupervisorRuntime, READY_TIMEOUT,
};
use vm_pool::transport::{
    bridge_goes_on, bridge_step, find_supervisor_binary, read_step, supervisor_candidates,
    BridgeAction, BridgeInput, LineInput, ReadStep, TransportError,
};

#[test]
fn readers_skip_malformed_lines_and_stop_at_the_end() {
    let lines = vec![
        LineInput::Parsed(1),
        LineInput::Malformed("bad".into()),
        LineInput::Parsed(2),
        LineInput::End,
        LineInput::Parsed(3),
    ];
    let mut delivered = Vec::new();
    for line in lines {
        match read_step(line) {
            ReadStep::Deliver(n) => delivered.push(n),
            ReadStep::Skip => {}
            ReadStep::Stop => break,
        }
    }
    assert_eq!(delivered, vec![1, 2]);
    assert_eq!(read_step::<u8>(LineInput::Failed("reset".into())), ReadStep::Stop);
}

#[test]
fn bridge_passes_commands_and_events_on() {
    let command: VmCommand<ShellProtocol> =
        VmCommand::App { payload: ShellCommand::Execute { command: "ls".into() } };
    let action = bridge_step(BridgeInput::Command { command: command.clone() });
    assert_eq!(action, BridgeAction::ToVm { command, last: false });
    assert!(bridge_goes_on(&action, true));
    assert!(!bridge_goes_on(&action, false));

    let action = bridge_step::<ShellProtocol>(BridgeInput::Event { event: VmEvent::Pong });
    assert_eq!(action, BridgeAction::ToPool { event: VmEvent::Pong });
    assert!(bridge_goes_on(&action, true));
    assert!(!bridge_goes_on(&action, false));
}

#[test]
fn bridge_shuts_the_vm_down_last() {
    let action = bridge_step::<ShellProtocol>(BridgeInput::CommandsClosed);
    assert_eq!(action, BridgeAction::ToVm { command: VmCommand::Shutdown, last: true });
    assert!(!bridge_goes_on(&action, true));
    let action = bridge_step::<ShellProtocol>(BridgeInput::EventsClosed);
    assert_eq!(action, BridgeAction::Close);
    assert!(!bridge_goes_on(&action, true));
}

#[test]
fn transport_error_texts() {
    assert_eq!(TransportError::Io("x".into()).to_string(), "IO error: x");
    assert_eq!(TransportError::Json("x".into()).to_string(), "JSON error: x");
    assert_eq!(TransportError::Closed.to_string(), "transport closed");
    assert_eq!(TransportError::SendFailed.to_string(), "send failed: receiver dropped");
}

#[test]
fn supervisor_binary_is_looked_for_in_two_places() {
    let dir = FilePath::new("/src");
    let (debug, release) = supervisor_candidates(&dir);
    assert_eq!(debug, "/src/target/debug/supervisor".into());
    assert_eq!(release, "/src/target/release/supervisor".into());
    assert_eq!(find_supervisor_binary(Some(&dir), true, true), Some(debug));
    assert_eq!(find_supervisor_binary(Some(&dir), false, true), Some(release));
    assert_eq!(find_supervisor_binary(Some(&dir), false, false), None);
    assert_eq!(find_supervisor_binary(None, true, true), None);
}

#[test]
fn container_arguments() {
    let vm_id = VmId::new("vm-1");
    let image = ImageRef::new("agent", "v1");
    assert_eq!(
        ContainerRuntime::start_args(&vm_id, &image, &VmConfig::default()),
        vec![
            "run", "--rm", "-i", "--name", "vm-1", "--cpus", "2", "--memory", "2048M", "agent:v1"
        ]
    );
    let config = VmConfig {
        cpus: Some(4),
        memory_mb: Some(512),
        priority: Priority::Low,
        env: vec![("A".into(), "1".into()), ("B".into(), "x=y".into())],
    };
    assert_eq!(
        ContainerRuntime::start_args(&vm_id, &image, &config),
        vec![
            "run", "--rm", "-i", "--name", "vm-1", "--cpus", "4", "--memory", "512M", "-e", "A=1",
            "-e", "B=x=y", "agent:v1"
        ]
    );
    let mut runtime = ContainerRuntime::default();
    assert_eq!(runtime.stop(&vm_id), vec!["stop", "vm-1"]);
    assert_eq!(runtime.stop(&vm_id), vec!["stop", "vm-1"]);
}

#[test]
fn vms_have_to_report_ready_first() {
    assert_eq!(READY_TIMEOUT, 60);
    let arrived = |event| check_ready::<ShellProtocol>(FirstEvent::Arrived { event });
    assert_eq!(arrived(VmEvent::Ready), Ok(()));
    assert_eq!(arrived(VmEvent::Pong), Err(not_ready("Pong")));
    assert_eq!(arrived(VmEvent::Shutdown), Err(not_ready("Shutdown")));
    let event = VmEvent::<ShellProtocol>::App {
        payload: ShellEvent::CommandCompleted { exit_code: 3 },
    };
    assert_eq!(show_event(&event), format!("{:?}", event));
    let payload = ShellEvent::CommandCompleted { exit_code: 0 };
    assert_eq!(
        arrived(VmEvent::App { payload }),
        Err(PoolError::Runtime(
            "expected Ready, got App { payload: CommandCompleted { exit_code: 0 } }".into()
        ))
    );
    assert_eq!(
        check_ready::<ShellProtocol>(FirstEvent::TimedOut),
        Err(PoolError::Runtime("timeout waiting for supervisor Ready".into()))
    );
    assert_eq!(
        check_ready::<ShellProtocol>(FirstEvent::Closed),
        Err(PoolError::Runtime("transport closed before Ready".into()))
    );
}

#[test]
fn starts_succeed_and_fail() {
    let vm_id = VmId::new("vm-1");
    let ready = || Ok(FirstEvent::<ShellProtocol>::Arrived { event: VmEvent::Ready });
    let closed = || Ok(FirstEvent::<ShellProtocol>::Closed);
    let failed =
        || Err::<FirstEvent<ShellProtocol>, _>(TransportError::Io("not found".to_string()));
    let mut containers = ContainerRuntime::new();
    assert_eq!(containers.finish_start(&vm_id, ready()), Ok(()));
    assert_eq!(
        containers.finish_start(&vm_id, closed()),
        Err(PoolError::Runtime("transport closed before Ready".into()))
    );
    assert_eq!(
        containers.finish_start(&vm_id, failed()).unwrap_err().to_string(),
        "runtime error: failed to spawn container: IO error: not found"
    );
    assert_eq!(SupervisorRuntime::finish_start(ready()), Ok(()));
    assert!(SupervisorRuntime::finish_start(closed()).is_err());
    assert_eq!(
        SupervisorRuntime::finish_start(failed()).unwrap_err().to_string(),
        "runtime error: failed to spawn supervisor: IO error: not found"
    );
}

#[test]
fn supervisor_path_has_to_be_utf8() {
    let runtime = SupervisorRuntime::new("/b\u{fc}/supervisor".into());
    assert_eq!(runtime.program(), Ok("/b\u{fc}/supervisor".to_string()));
    assert_eq!(runtime.stop(&VmId::new("vm-1")), Ok(()));
    let runtime = SupervisorRuntime::new(FilePath::from_bytes(vec![b'/', 0xff]));
    assert_eq!(
        runtime.program(),
        Err(PoolError::Runtime("supervisor path is not valid UTF-8".into()))
    );
}
