use vm_pool::events::{EventPayload, InfraEvent, ServiceState, VmState};
use vm_pool::images::ImageRef;
use vm_pool::pool::{NoRuntime, PoolConfig, PoolError};
use vm_pool::protocol::{
    LogLine, LogStream, ServiceCommand, ServiceEvent, ShellCommand, ShellEvent, ShellProtocol, VmConfig,
    VmId,
};
use vm_pool::service::{
    connection_step, forward_event, ConnectionStep, Service, ServiceConfig, Step,
};
use vm_pool::snapshot::SnapshotError;
use vm_pool::transport::LineInput;

type ShellService = Service<NoRuntime, ShellProtocol>;

fn config(max_vms: usize) -> ServiceConfig {
    ServiceConfig {
        socket_path: "/run/test.sock".into(),
        snapshot_dir: "/run/snapshots".into(),
        pool: PoolConfig { max_vms, health_check_interval: 30, vm_timeout: 7200 },
    }
}

struct Driver {
    svc: ShellService,
    count: u64,
}

impl Driver {
    fn new(max_vms: usize) -> Driver {
        Driver { svc: Service::new(config(max_vms)), count: 0 }
    }

    fn step(&mut self, command: ServiceCommand<ShellProtocol>) -> Step<ShellProtocol> {
        self.svc.handle_command(command, &mut self.count, 7, 5)
    }

    /// Handles a command, with a backend that starts and stops whatever it is asked to.
    fn handle_command(
        &mut self,
        command: ServiceCommand<ShellProtocol>,
    ) -> ServiceEvent<ShellProtocol> {
        match self.step(command) {
            Step::Reply { event } => event,
            Step::Start { vm_id, image_ref, config, image } => {
                let handle = NoRuntime.start(&vm_id, &image_ref, &config).unwrap();
                self.svc.allocated(vm_id, image_ref, config, image, Ok(handle.command_tx), 6)
            }
            Step::Stop { vm_id, entry } => {
                drop(entry);
                self.svc.deallocated(vm_id, 6)
            }
            Step::Deliver { vm_id, message } => {
                let taken =
                    self.svc.pool.command_channel(&vm_id).unwrap().try_send(message).is_ok();
                ShellService::delivered(vm_id, taken)
            }
            Step::Save { vm_id, name, image } => {
                let saved = self.svc.snapshots.save(&vm_id, &name, &image, Ok(None), 6);
                ShellService::snapshot_saved(vm_id, saved)
            }
            Step::Restore { vm_id, snapshot } => {
                let read = vm_pool::catalog::FileRead::Missing;
                let restored = self.svc.snapshots.restore(&snapshot, read, false);
                ShellService::restored(vm_id, restored)
            }
        }
    }

    fn allocate(&mut self, image: &str) -> ServiceEvent<ShellProtocol> {
        self.handle_command(ServiceCommand::Allocate {
            image: image.into(),
            config: VmConfig::default(),
        })
    }

    fn allocate_id(&mut self, image: &str) -> VmId {
        match self.allocate(image) {
            ServiceEvent::VmAllocated { vm_id, .. } => vm_id,
            other => panic!("expected VmAllocated, got {:?}", other),
        }
    }
}

fn error_text(event: ServiceEvent<ShellProtocol>) -> String {
    match event {
        ServiceEvent::Error { message } => message,
        other => panic!("expected Error, got {:?}", other),
    }
}

fn execute() -> ShellCommand {
    ShellCommand::Execute { command: "test".into() }
}

#[test]
fn handle_status() {
    let mut svc = Driver::new(3);
    let resp = svc.handle_command(ServiceCommand::Status);
    assert_eq!(resp, ServiceEvent::PoolStatus { total: 3, available: 3, allocated: 0 });
}

#[test]
fn handle_allocate_and_deallocate() {
    let mut svc = Driver::new(3);
    let resp = svc.allocate("agent:v1");
    let vm_id = match &resp {
        ServiceEvent::VmAllocated { vm_id, image } => {
            assert_eq!(image, "agent:v1");
            vm_id.clone()
        }
        other => panic!("expected VmAllocated, got {:?}", other),
    };

    let resp = svc.handle_command(ServiceCommand::Status);
    assert_eq!(resp, ServiceEvent::PoolStatus { total: 3, available: 2, allocated: 1 });

    let resp = svc.handle_command(ServiceCommand::Deallocate { vm_id: vm_id.clone() });
    assert_eq!(resp, ServiceEvent::VmStopped { vm_id });

    let resp = svc.handle_command(ServiceCommand::Status);
    assert_eq!(resp, ServiceEvent::PoolStatus { total: 3, available: 3, allocated: 0 });
}

#[test]
fn handle_allocate_exhausted() {
    let mut svc = Driver::new(1);
    svc.allocate("agent:v1");
    let message = error_text(svc.allocate("agent:v1"));
    assert!(message.contains("exhausted"), "got: {message}");
    assert_eq!(message, "allocate failed: pool exhausted: 0 available, 1 requested");
}

#[test]
fn handle_allocate_reads_the_image() {
    let mut svc = Driver::new(2);
    for (image, expected) in
        [("agent:v1", ImageRef::new("agent", "v1")), ("agent:", ImageRef::new("agent:", "latest"))]
    {
        let command =
            ServiceCommand::Allocate { image: image.into(), config: VmConfig::default() };
        match svc.step(command) {
            Step::Start { image_ref, image: asked, .. } => {
                assert_eq!(image_ref, expected);
                assert_eq!(asked, image);
            }
            _ => panic!("expected Start"),
        }
    }
}

#[test]
fn handle_allocate_of_a_vm_that_does_not_start() {
    let mut svc = Driver::new(1);
    let command = ServiceCommand::Allocate { image: "a:b".into(), config: VmConfig::default() };
    match svc.step(command) {
        Step::Start { vm_id, image_ref, config, image } => {
            let id = vm_id.clone();
            let reason = PoolError::Runtime("boom".into());
            let event = svc.svc.allocated(vm_id, image_ref, config, image, Err(reason), 6);
            assert_eq!(error_text(event), "allocate failed: runtime error: boom");
            let states: Vec<&EventPayload<ShellProtocol>> =
                svc.svc.events.for_vm(&id).iter().map(|e| &e.payload).collect();
            assert_eq!(
                states[1],
                &EventPayload::VmLifecycle { vm_id: id.clone(), state: VmState::Crashed }
            );
        }
        _ => panic!("expected Start"),
    }
    let resp = svc.handle_command(ServiceCommand::Status);
    assert_eq!(resp, ServiceEvent::PoolStatus { total: 1, available: 1, allocated: 0 });
}

#[test]
fn handle_deallocate_not_found() {
    let mut svc = Driver::new(3);
    let resp =
        svc.handle_command(ServiceCommand::Deallocate { vm_id: VmId::new("vm-nonexistent") });
    let message = error_text(resp);
    assert!(message.contains("not found"), "got: {message}");
    assert_eq!(message, "deallocate failed: VM not found: vm-nonexistent");
}

#[test]
fn handle_send_vm_not_found() {
    let mut svc = Driver::new(3);
    let resp = svc
        .handle_command(ServiceCommand::Send { vm_id: VmId::new("vm-nope"), command: execute() });
    let message = error_text(resp);
    assert!(message.contains("not found"), "got: {message}");
    assert_eq!(message, "send failed: VM not found: vm-nope");
}

#[test]
fn handle_send() {
    let mut svc = Driver::new(3);
    let vm_id = svc.allocate_id("agent:v1");
    let resp =
        svc.handle_command(ServiceCommand::Send { vm_id: vm_id.clone(), command: execute() });
    assert_eq!(
        error_text(resp),
        format!("send failed: runtime error: VM {} command channel closed", vm_id.as_str())
    );
    assert_eq!(
        ShellService::delivered(vm_id.clone(), true),
        ServiceEvent::CommandSent { vm_id }
    );
}

#[test]
fn handle_snapshot_vm_not_found() {
    let mut svc = Driver::new(3);
    let resp = svc.handle_command(ServiceCommand::Snapshot {
        vm_id: VmId::new("vm-nope"),
        name: "snap".into(),
    });
    let message = error_text(resp);
    assert!(message.contains("not found"), "got: {message}");
    assert_eq!(message, "VM not found: vm-nope");
}

#[test]
fn handle_snapshot_and_restore() {
    let mut svc = Driver::new(3);
    let vm_id = svc.allocate_id("agent:v1");
    let command = ServiceCommand::Snapshot { vm_id: vm_id.clone(), name: "snap".into() };
    assert_eq!(
        svc.handle_command(command),
        ServiceEvent::VmStopped { vm_id: vm_id.clone() }
    );
    assert_eq!(
        error_text(ShellService::snapshot_saved(
            vm_id.clone(),
            Err(SnapshotError::Io("full".into()))
        )),
        "snapshot failed: IO error: full"
    );
    let command = ServiceCommand::Restore { vm_id: vm_id.clone(), snapshot: "snap".into() };
    assert_eq!(
        error_text(svc.handle_command(command)),
        "restore failed: snapshot not found: snap"
    );
    assert_eq!(
        ShellService::restored(vm_id.clone(), Ok("/run/snapshots/snap.vmstate".into())),
        ServiceEvent::VmReady { vm_id }
    );
}

#[test]
fn handle_tail_logs_empty() {
    let mut svc = Driver::new(3);
    let resp =
        svc.handle_command(ServiceCommand::TailLogs { vm_id: VmId::new("vm-1"), lines: 10 });
    match resp {
        ServiceEvent::LogTail { lines, .. } => {
            assert!(lines.is_empty());
        }
        other => panic!("expected LogTail, got {:?}", other),
    }
}

#[test]
fn handle_tail_logs() {
    let mut svc = Driver::new(3);
    let vm_id = svc.allocate_id("agent:v1");
    for line in ["one", "two", "three"] {
        let payload = EventPayload::VmLog {
            vm_id: vm_id.clone(),
            stream: LogStream::Stderr,
            line: line.into(),
        };
        svc.svc.events.append_at(payload, 9);
    }
    let resp =
        svc.handle_command(ServiceCommand::TailLogs { vm_id: vm_id.clone(), lines: 2 });
    let line = |text: &str| LogLine { stream: LogStream::Stderr, line: text.into(), timestamp: 9 };
    assert_eq!(
        resp,
        ServiceEvent::LogTail { vm_id, lines: vec![line("two"), line("three")] }
    );
}

#[test]
fn handle_subscribe_unsubscribe() {
    let mut svc = Driver::new(3);
    let resp =
        svc.handle_command(ServiceCommand::SubscribeLogs { vm_id: Some(VmId::new("vm-1")) });
    assert_eq!(resp, ServiceEvent::LogsSubscribed { vm_id: Some(VmId::new("vm-1")) });

    let resp = svc.handle_command(ServiceCommand::UnsubscribeLogs);
    assert_eq!(resp, ServiceEvent::LogsSubscribed { vm_id: None });
}

#[test]
fn states_of_the_service_are_recorded() {
    let mut svc = Driver::new(1);
    svc.svc.record_state(ServiceState::Starting, 1);
    svc.svc.record_state(ServiceState::Ready, 2);
    let events = svc.svc.events.since(0);
    assert_eq!(events[0].payload, EventPayload::Service { state: ServiceState::Starting });
    assert_eq!(events[1].payload, EventPayload::Service { state: ServiceState::Ready });
    assert_eq!(events[1].timestamp, 2);
}

#[test]
fn connection_answers_every_line() {
    let handled = connection_step::<ShellProtocol>(LineInput::Parsed(ServiceCommand::Status));
    assert_eq!(handled, ConnectionStep::Handle { command: ServiceCommand::Status });
    let refused = connection_step::<ShellProtocol>(LineInput::Malformed("expected value".into()));
    assert_eq!(
        refused,
        ConnectionStep::Reply {
            event: ServiceEvent::Error { message: "invalid command: expected value".into() }
        }
    );
    assert_eq!(connection_step::<ShellProtocol>(LineInput::End), ConnectionStep::Close);
    let failed = connection_step::<ShellProtocol>(LineInput::Failed("reset".into()));
    assert_eq!(failed, ConnectionStep::Close);
}

#[test]
fn connection_answers_lines_in_order() {
    let mut svc = Driver::new(1);
    let lines = vec![
        LineInput::Parsed(ServiceCommand::Status),
        LineInput::Malformed("bad".into()),
        LineInput::Parsed(ServiceCommand::UnsubscribeLogs),
        LineInput::End,
        LineInput::Parsed(ServiceCommand::Status),
    ];
    let mut answers = Vec::new();
    for line in lines {
        match connection_step(line) {
            ConnectionStep::Handle { command } => answers.push(svc.handle_command(command)),
            ConnectionStep::Reply { event } => answers.push(event),
            ConnectionStep::Close => break,
        }
    }
    assert_eq!(
        answers,
        vec![
            ServiceEvent::PoolStatus { total: 1, available: 1, allocated: 0 },
            ServiceEvent::Error { message: "invalid command: bad".into() },
            ServiceEvent::LogsSubscribed { vm_id: None },
        ]
    );
}

#[test]
fn clients_get_application_events_only() {
    let vm_id = VmId::new("vm-1");
    let event = ShellEvent::CommandCompleted { exit_code: 3 };
    let app: EventPayload<ShellProtocol> =
        EventPayload::VmApp { vm_id: vm_id.clone(), event: event.clone() };
    assert_eq!(forward_event(app), Some(ServiceEvent::VmApp { vm_id: vm_id.clone(), event }));
    let infra: EventPayload<ShellProtocol> =
        EventPayload::VmInfra { vm_id, event: InfraEvent::Pong };
    assert_eq!(forward_event(infra), None);
}

#[test]
fn service_config_defaults() {
    let config = ServiceConfig::default_in(Some("/home/a/.local/state".into()), Some("/b".into()));
    assert_eq!(config.socket_path, "/tmp/vm-pool.sock".into());
    assert_eq!(config.snapshot_dir, "/home/a/.local/state/vm-pool/snapshots".into());
    assert_eq!(config.pool, PoolConfig::default());
    let config = ServiceConfig::default_in(None, Some("/b".into()));
    assert_eq!(config.snapshot_dir, "/b/vm-pool/snapshots".into());
    let config = ServiceConfig::default_in(Some(b"/\xff".to_vec()), Some("/b".into()));
    assert_eq!(config.snapshot_dir.as_bytes(), b"/\xff/vm-pool/snapshots");
    assert_eq!(config.clone(), config);
    let config = ServiceConfig::default_in(None, None);
    assert_eq!(config.snapshot_dir, "/tmp/vm-pool/snapshots".into());
    let config = ServiceConfig::default();
    assert!(config.snapshot_dir.as_bytes().ends_with(b"/vm-pool/snapshots"));
    let base = dirs::state_dir().or_else(dirs::data_local_dir);
    let base = base.map(|path| path.into_os_string().into_encoded_bytes());
    assert_eq!(config, ServiceConfig::default_in(base, None));
}
