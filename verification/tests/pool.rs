use std::collections::HashSet;

use tokio::sync::mpsc;
use vm_pool::channel::VmHandle;
use vm_pool::events::{EventLog, EventPayload, InfraEvent, VmState};
use vm_pool::images::{ImageError, ImageRef};
use vm_pool::pool::{
    forward_vm_event, generate_vm_id, next_vm_id, vm_id_at, NoRuntime, Pool, PoolConfig, PoolError, PoolStatus,
};
use vm_pool::protocol::{
    Priority, ShellCommand, ShellEvent, ShellProtocol, VmCommand, VmConfig, VmEvent, VmId,
};
use vm_pool::runtime::SupervisorRuntime;
use vm_pool::supervisor::{
    app_events, execute_command, greeting, supervisor_step, CommandOutcome, SupervisorStep,
};
use vm_pool::transport::{LineInput, TransportError};

type ShellLog = EventLog<ShellProtocol>;

fn pool_config(max_vms: usize) -> PoolConfig {
    PoolConfig { max_vms, health_check_interval: 30, vm_timeout: 7200 }
}

/// A pool with its log, whose backend is driven by hand.
struct Books<R> {
    pool: Pool<R, ShellProtocol>,
    log: ShellLog,
    count: u64,
    now: u64,
}

impl<R> Books<R> {
    fn with_runtime(config: PoolConfig, runtime: R) -> Books<R> {
        Books { pool: Pool::with_runtime(config, runtime), log: EventLog::new(), count: 0, now: 1_000 }
    }

    fn allocate(
        &mut self,
        image: ImageRef,
        config: VmConfig,
        start: impl FnOnce(&VmId) -> Result<mpsc::Sender<VmCommand<ShellProtocol>>, PoolError>,
    ) -> Result<VmId, PoolError> {
        self.now += 1;
        let vm_id = self.pool.allocate(&mut self.log, &mut self.count, 16, self.now)?;
        let started = start(&vm_id);
        self.now += 1;
        self.pool.finish_allocate(&mut self.log, vm_id, image, config, started, self.now)
    }

    fn deallocate(&mut self, vm_id: &VmId) -> Result<(), PoolError> {
        self.now += 1;
        let entry = self.pool.deallocate(&mut self.log, vm_id, self.now)?;
        drop(entry);
        Pool::<R, ShellProtocol>::finish_deallocate(&mut self.log, vm_id, self.now);
        Ok(())
    }

    fn send(&mut self, vm_id: &VmId, command: ShellCommand) -> Result<(), PoolError> {
        let (tx, message) = self.pool.send_to_vm(vm_id, command)?;
        let taken = tx.try_send(message).is_ok();
        Pool::<R, ShellProtocol>::finish_send(vm_id, taken)
    }

    fn states(&self, vm_id: &VmId) -> Vec<VmState> {
        self.log
            .for_vm(vm_id)
            .iter()
            .filter_map(|e| match &e.payload {
                EventPayload::VmLifecycle { state, .. } => Some(*state),
                _ => None,
            })
            .collect()
    }

    fn app_events(&self, vm_id: &VmId) -> Vec<ShellEvent> {
        self.log
            .for_vm(vm_id)
            .iter()
            .filter_map(|e| match &e.payload {
                EventPayload::VmApp { event, .. } => Some(event.clone()),
                _ => None,
            })
            .collect()
    }
}

fn test_pool(max_vms: usize) -> Books<NoRuntime> {
    Books::with_runtime(pool_config(max_vms), NoRuntime)
}

impl Books<NoRuntime> {
    fn start(&mut self, image: &str, config: VmConfig) -> Result<VmId, PoolError> {
        self.allocate(ImageRef::new(image, "v1"), config, |vm_id| {
            let handle: VmHandle<ShellProtocol> =
                NoRuntime.start(vm_id, &ImageRef::new("agent", "v1"), &VmConfig::default())?;
            Ok(handle.command_tx)
        })
    }
}

/// A supervisor with a shell that knows `echo` and `exit`.
struct Supervisor {
    commands: mpsc::Receiver<VmCommand<ShellProtocol>>,
}

fn shell(command: &str) -> CommandOutcome {
    if let Some(rest) = command.strip_prefix("echo ") {
        let stdout = format!("{}\n", rest).into_bytes();
        CommandOutcome::Finished { stdout, stderr: Vec::new(), code: Some(0) }
    } else if let Some(rest) = command.strip_prefix("exit ") {
        let code = rest.parse().unwrap();
        CommandOutcome::Finished { stdout: Vec::new(), stderr: Vec::new(), code: Some(code) }
    } else {
        CommandOutcome::NotRun("no such command".to_string())
    }
}

impl Supervisor {
    fn connect() -> (mpsc::Sender<VmCommand<ShellProtocol>>, Supervisor) {
        let (tx, commands) = mpsc::channel(64);
        (tx, Supervisor { commands })
    }

    /// Answers all commands that have come in.
    fn run(&mut self) -> Vec<VmEvent<ShellProtocol>> {
        let mut emitted = vec![greeting()];
        while let Ok(command) = self.commands.try_recv() {
            match supervisor_step(LineInput::Parsed(command)) {
                SupervisorStep::Emit { event, .. } => emitted.push(event),
                SupervisorStep::Handle { command: ShellCommand::Execute { command } } => {
                    emitted.extend(app_events::<ShellProtocol>(execute_command(shell(&command))));
                }
                other => panic!("unexpected step {:?}", other),
            }
        }
        emitted
    }
}

fn supervisor_pool(max_vms: usize) -> Books<SupervisorRuntime> {
    Books::with_runtime(pool_config(max_vms), SupervisorRuntime::new("/bin/supervisor".into()))
}

impl Books<SupervisorRuntime> {
    fn start(&mut self, config: VmConfig) -> (VmId, Supervisor) {
        let (tx, supervisor) = Supervisor::connect();
        let vm_id = self.allocate(ImageRef::new("agent", "v1"), config, |_| Ok(tx)).unwrap();
        (vm_id, supervisor)
    }

    fn forward(&mut self, vm_id: &VmId, supervisor: &mut Supervisor) {
        for event in supervisor.run() {
            self.now += 1;
            forward_vm_event(&mut self.log, vm_id, event, self.now);
        }
    }
}

fn execute(command: &str) -> ShellCommand {
    ShellCommand::Execute { command: command.to_string() }
}

fn config_with_priority(priority: Priority) -> VmConfig {
    VmConfig { priority, ..Default::default() }
}

#[test]
fn allocate_and_status() {
    let mut books = test_pool(3);
    assert_eq!(books.pool.status().available, 3);

    let vm_id = books.start("agent", VmConfig::default()).unwrap();
    assert!(!vm_id.as_str().is_empty());
    assert_eq!(books.pool.status().allocated, 1);
    assert_eq!(books.pool.status(), PoolStatus { total: 3, allocated: 1, available: 2 });
}

#[test]
fn allocate_until_exhausted() {
    let mut books = test_pool(2);
    books.start("agent", VmConfig::default()).unwrap();
    books.start("agent", VmConfig::default()).unwrap();
    let events = books.log.len();
    let result = books.start("agent", VmConfig::default());
    assert!(matches!(result, Err(PoolError::Exhausted { .. })));
    assert_eq!(
        result.unwrap_err().to_string(),
        "pool exhausted: 0 available, 1 requested"
    );
    assert_eq!(books.log.len(), events);
    assert_eq!(books.count, 2);
}

#[test]
fn deallocate_frees_slot() {
    let mut books = test_pool(1);
    let vm_id = books.start("agent", VmConfig::default()).unwrap();
    assert_eq!(books.pool.status().available, 0);
    books.deallocate(&vm_id).unwrap();
    assert_eq!(books.pool.status().available, 1);
}

#[test]
fn deallocate_not_found() {
    let mut books = test_pool(3);
    assert!(matches!(books.deallocate(&VmId::new("vm-nope")), Err(PoolError::VmNotFound(_))));
    assert!(books.log.is_empty());
}

#[test]
fn get_vm_state() {
    let mut books = test_pool(3);
    let vm_id = books.start("agent", VmConfig::default()).unwrap();
    assert_eq!(books.pool.get(&vm_id), Some(VmState::Ready));
    assert_eq!(books.pool.get(&VmId::new("vm-missing")), None);
    assert!(books.pool.command_channel(&vm_id).is_some());
    assert!(books.pool.command_channel(&VmId::new("vm-missing")).is_none());
}

#[test]
fn list_vms() {
    let mut books = test_pool(3);
    let vm1 = books.start("agent", VmConfig::default()).unwrap();
    let vm2 = books.start("auto", VmConfig::default()).unwrap();
    let list = books.pool.list();
    assert_eq!(list.len(), 2);
    let ids: Vec<&VmId> = list.iter().map(|(id, _)| id).collect();
    assert!(ids.contains(&&vm1));
    assert!(ids.contains(&&vm2));
    assert!(list.iter().all(|(_, state)| *state == VmState::Ready));
}

#[test]
fn health_check_removes_timed_out() {
    let config = PoolConfig { max_vms: 3, health_check_interval: 1, vm_timeout: 0 };
    let mut books = Books::with_runtime(config, NoRuntime);
    books.start("agent", VmConfig::default()).unwrap();
    assert_eq!(books.pool.status().allocated, 1);
    for vm_id in books.pool.health_check(books.now + 10) {
        books.deallocate(&vm_id).unwrap();
    }
    assert_eq!(books.pool.status().allocated, 0);
}

#[test]
fn health_check_names_those_that_ran_too_long() {
    let config = PoolConfig { max_vms: 3, health_check_interval: 1, vm_timeout: 2 };
    let mut books = Books::with_runtime(config, NoRuntime);
    books.now = 9_998;
    let old = books.start("agent", VmConfig::default()).unwrap();
    books.now = 10_998;
    let young = books.start("agent", VmConfig::default()).unwrap();
    // Started at 10000 and at 11000.
    assert!(books.pool.health_check(11_999).is_empty());
    assert_eq!(books.pool.health_check(12_000), vec![old.clone()]);
    let both: HashSet<VmId> = books.pool.health_check(13_000).into_iter().collect();
    assert_eq!(both, HashSet::from([old, young]));
    // The clock was set back.
    assert!(books.pool.health_check(0).is_empty());
}

#[test]
fn unique_vm_ids() {
    let mut books = test_pool(10);
    let mut ids = Vec::new();
    for _ in 0..10 {
        ids.push(books.start("agent", VmConfig::default()).unwrap());
    }
    let unique: HashSet<_> = ids.iter().collect();
    assert_eq!(unique.len(), 10);
}

#[test]
fn vm_ids_are_made_of_time_and_count() {
    assert_eq!(vm_id_at(0xabc, 0x1f).as_str(), "vm-abc-1f");
    let mut count = 7;
    assert_eq!(next_vm_id(None, &mut count), None);
    assert_eq!(count, 7);
    assert_eq!(next_vm_id(Some(0x10), &mut count), Some(VmId::new("vm-10-7")));
    assert_eq!(count, 8);
    let mut count = u64::MAX;
    let last = generate_vm_id(&mut count).unwrap();
    assert!(last.as_str().starts_with("vm-"));
    assert!(last.as_str().ends_with("-ffffffffffffffff"));
    assert_eq!(count, 0);
    let first = generate_vm_id(&mut count).unwrap();
    assert!(first.as_str().ends_with("-0"));
    assert_eq!(count, 1);
}

#[test]
fn send_to_vm_no_runtime_channel_closed() {
    let mut books = test_pool(3);
    let vm_id = books.start("agent", VmConfig::default()).unwrap();
    let err = books.send(&vm_id, execute("test")).unwrap_err();
    assert!(matches!(err, PoolError::Runtime(_)), "expected Runtime, got {err:?}");
    assert_eq!(
        err.to_string(),
        format!("runtime error: VM {} command channel closed", vm_id.as_str())
    );
}

#[test]
fn no_runtime_has_nothing_behind_its_channels() {
    let mut handle: VmHandle<ShellProtocol> =
        NoRuntime.start(&VmId::new("vm-1"), &ImageRef::new("a", "b"), &VmConfig::default()).unwrap();
    assert!(handle.command_tx.is_closed());
    assert!(matches!(handle.event_rx.try_recv(), Err(mpsc::error::TryRecvError::Disconnected)));
    assert_eq!(NoRuntime.stop(&VmId::new("vm-1")), Ok(()));
}

#[test]
fn send_to_vm_not_found() {
    let mut books = test_pool(3);
    assert!(matches!(
        books.send(&VmId::new("vm-nope"), execute("test")),
        Err(PoolError::VmNotFound(_))
    ));
}

#[test]
fn deallocating_undoes_allocating() {
    let mut books = test_pool(3);
    books.start("agent", VmConfig::default()).unwrap();
    let (status, list) = (books.pool.status(), books.pool.list());
    let vm_id = books.start("agent", VmConfig::default()).unwrap();
    assert!(list.iter().all(|(id, _)| *id != vm_id));
    assert_eq!(books.pool.status().allocated, status.allocated + 1);
    books.send(&vm_id, execute("test")).unwrap_err();
    books.deallocate(&vm_id).unwrap();
    assert_eq!(books.pool.status(), status);
    assert_eq!(books.pool.list(), list);
    assert_eq!(
        books.states(&vm_id),
        vec![VmState::Allocating, VmState::Ready, VmState::Stopping, VmState::Stopped]
    );
}

#[test]
fn failed_start_is_recorded_as_a_crash() {
    let mut books = test_pool(1);
    let mut seen = None;
    let result = books.allocate(ImageRef::new("agent", "v1"), VmConfig::default(), |vm_id| {
        seen = Some(vm_id.clone());
        Err(PoolError::Runtime("boom".into()))
    });
    assert_eq!(result, Err(PoolError::Runtime("boom".into())));
    let vm_id = seen.unwrap();
    assert_eq!(books.states(&vm_id), vec![VmState::Allocating, VmState::Crashed]);
    assert_eq!(books.pool.get(&vm_id), None);
    assert_eq!(books.pool.status().available, 1);
}

#[test]
fn supervisor_runtime_allocate_and_send() {
    let mut books = supervisor_pool(3);
    let (vm_id, mut supervisor) = books.start(VmConfig::default());
    books.send(&vm_id, execute("echo hi")).unwrap();
    books.forward(&vm_id, &mut supervisor);
    books.deallocate(&vm_id).unwrap();
    assert_eq!(books.pool.status().allocated, 0);
    assert_eq!(books.pool.runtime().program(), Ok("/bin/supervisor".to_string()));
}

#[test]
fn supervisor_runtime_events_forwarded_to_log() {
    let mut books = supervisor_pool(3);
    let (vm_id, mut supervisor) = books.start(VmConfig::default());
    books.send(&vm_id, execute("echo pool-test")).unwrap();
    books.forward(&vm_id, &mut supervisor);

    let app_events = books.app_events(&vm_id);
    let has_output = app_events
        .iter()
        .any(|e| matches!(e, ShellEvent::Output { data, .. } if data.contains("pool-test")));
    assert!(has_output, "expected ShellEvent::Output with pool-test, got: {app_events:?}");

    books.deallocate(&vm_id).unwrap();
}

#[test]
fn infrastructure_events_are_recorded() {
    let mut log = ShellLog::new();
    let vm_id = VmId::new("vm-1");
    for event in [VmEvent::Ready, VmEvent::Pong, VmEvent::Shutdown] {
        forward_vm_event(&mut log, &vm_id, event, 3);
    }
    let recorded: Vec<InfraEvent> = log
        .for_vm(&vm_id)
        .iter()
        .filter_map(|e| match &e.payload {
            EventPayload::VmInfra { event, .. } => Some(*event),
            _ => None,
        })
        .collect();
    assert_eq!(recorded, vec![InfraEvent::Ready, InfraEvent::Pong, InfraEvent::Shutdown]);
}

#[test]
fn allocate_execute_and_verify_events() {
    let mut books = supervisor_pool(3);
    let (vm_id, mut supervisor) = books.start(VmConfig::default());
    books.send(&vm_id, execute("echo integration-test-output")).unwrap();
    books.forward(&vm_id, &mut supervisor);

    let lifecycle_events = books.states(&vm_id);
    assert!(lifecycle_events.contains(&VmState::Allocating), "missing Allocating event");
    assert!(lifecycle_events.contains(&VmState::Ready), "missing Ready event");

    let app_events = books.app_events(&vm_id);
    assert!(!app_events.is_empty(), "expected app events from Execute command");
    let has_output = app_events.iter().any(|e| match e {
        ShellEvent::Output { data, .. } => data.contains("integration-test-output"),
        _ => false,
    });
    assert!(has_output, "got: {:?}", app_events);
    let has_completed =
        app_events.iter().any(|e| matches!(e, ShellEvent::CommandCompleted { exit_code: 0 }));
    assert!(has_completed, "got: {:?}", app_events);

    books.deallocate(&vm_id).unwrap();
    assert_eq!(books.pool.status().allocated, 0);
}

#[test]
fn priority_eviction() {
    let mut books = supervisor_pool(2);
    let (low1, _s1) = books.start(config_with_priority(Priority::Low));
    let (low2, _s2) = books.start(config_with_priority(Priority::Low));
    assert_eq!(books.pool.status().allocated, 2);
    assert_eq!(books.pool.status().available, 0);

    let evicted = books.pool.allocate_or_evict(Priority::High).unwrap();
    assert!(evicted.is_some(), "expected a VM to be evicted");
    let evicted_id = evicted.unwrap();
    assert!(
        evicted_id == low1 || evicted_id == low2,
        "evicted VM should be one of the low-priority ones"
    );
    books.deallocate(&evicted_id).unwrap();
    let (high_id, _s3) = books.start(config_with_priority(Priority::High));

    assert_eq!(books.pool.status().allocated, 2);
    assert_eq!(books.pool.get(&evicted_id), None);
    assert_eq!(books.pool.get(&high_id), Some(VmState::Ready));

    let evicted_states = books.states(&evicted_id);
    assert!(evicted_states.contains(&VmState::Stopping));
    assert!(evicted_states.contains(&VmState::Stopped));

    books.deallocate(&high_id).unwrap();
    let remaining = if evicted_id == low1 { low2 } else { low1 };
    books.deallocate(&remaining).unwrap();
    assert_eq!(books.pool.status().allocated, 0);
}

#[test]
fn no_eviction_when_all_same_priority() {
    let mut books = supervisor_pool(1);
    let (_id, _s) = books.start(config_with_priority(Priority::Normal));
    let result = books.pool.allocate_or_evict(Priority::Normal);
    assert!(
        matches!(result, Err(PoolError::Exhausted { .. })),
        "should not evict VMs of equal priority"
    );
}

#[test]
fn eviction_takes_the_lowest_and_oldest() {
    let mut books = test_pool(4);
    assert_eq!(books.pool.allocate_or_evict(Priority::Low), Ok(None));
    books.start("agent", config_with_priority(Priority::Normal)).unwrap();
    books.start("agent", config_with_priority(Priority::High)).unwrap();
    let low = books.start("agent", config_with_priority(Priority::Low)).unwrap();
    books.start("agent", config_with_priority(Priority::Low)).unwrap();
    assert_eq!(books.pool.allocate_or_evict(Priority::Critical), Ok(Some(low.clone())));
    assert_eq!(books.pool.allocate_or_evict(Priority::Normal), Ok(Some(low)));
    assert!(books.pool.allocate_or_evict(Priority::Low).is_err());
}

#[test]
fn full_lifecycle_with_multiple_commands() {
    let mut books = supervisor_pool(3);
    let (vm_id, mut supervisor) = books.start(VmConfig::default());
    for i in 0..3 {
        books.send(&vm_id, execute(&format!("echo cmd-{}", i))).unwrap();
    }
    books.send(&vm_id, execute("exit 7")).unwrap();
    books.forward(&vm_id, &mut supervisor);

    let completed: Vec<i32> = books
        .app_events(&vm_id)
        .iter()
        .filter_map(|e| match e {
            ShellEvent::CommandCompleted { exit_code } => Some(*exit_code),
            _ => None,
        })
        .collect();
    assert_eq!(completed.len(), 4, "expected 4 CommandCompleted events, got {:?}", completed);
    assert_eq!(completed[0], 0);
    assert_eq!(completed[1], 0);
    assert_eq!(completed[2], 0);
    assert_eq!(completed[3], 7);

    books.deallocate(&vm_id).unwrap();
    assert_eq!(
        books.states(&vm_id),
        vec![VmState::Allocating, VmState::Ready, VmState::Stopping, VmState::Stopped]
    );
}

#[test]
fn concurrent_vms() {
    let mut books = supervisor_pool(3);
    let mut vms = Vec::new();
    for _ in 0..3 {
        vms.push(books.start(VmConfig::default()));
    }
    assert_eq!(books.pool.status().allocated, 3);

    for (i, (vm_id, _)) in vms.iter().enumerate() {
        books.send(vm_id, execute(&format!("echo vm-{}-output", i))).unwrap();
    }
    for (vm_id, supervisor) in vms.iter_mut() {
        books.forward(vm_id, supervisor);
    }

    for (i, (vm_id, _)) in vms.iter().enumerate() {
        let has_output = books.app_events(vm_id).iter().any(|e| match e {
            ShellEvent::Output { data, .. } => data.contains(&format!("vm-{}-output", i)),
            _ => false,
        });
        assert!(has_output, "VM {} missing its unique output in events", vm_id.as_str());
    }

    for (vm_id, _) in &vms {
        books.deallocate(vm_id).unwrap();
    }
    assert_eq!(books.pool.status().allocated, 0);
}

#[test]
fn pool_error_texts() {
    let id = VmId::new("vm-1");
    assert_eq!(PoolError::VmNotFound(id.clone()).to_string(), "VM not found: vm-1");
    assert_eq!(PoolError::VmNotReady(id).to_string(), "VM not ready: vm-1");
    assert_eq!(
        PoolError::Image(ImageError::NotFound("x".into())).to_string(),
        "image error: image not found: x"
    );
    assert_eq!(
        PoolError::Transport(TransportError::Closed).to_string(),
        "transport error: transport closed"
    );
    assert_eq!(
        PoolError::Exhausted { available: 10, requested: 12 }.to_string(),
        "pool exhausted: 10 available, 12 requested"
    );
}

#[test]
fn pool_config_defaults() {
    let config = PoolConfig::default();
    assert_eq!(config.max_vms, 6);
    assert_eq!(config.health_check_interval, 30);
    assert_eq!(config.vm_timeout, 7200);
}
