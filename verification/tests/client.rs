use vm_pool::client::{Client, ClientError, Exchange, PoolStatus};
use vm_pool::pool::{NoRuntime, PoolConfig};
use vm_pool::protocol::{
    LogLine, LogStream, NullProtocol, ServiceCommand, ServiceEvent, ShellCommand, ShellProtocol, VmConfig,
    VmId,
};
use vm_pool::service::{Service, ServiceConfig, Step};

/// A service that answers at once, with no VMs behind it.
struct Connection {
    svc: Service,
    count: u64,
}

impl Connection {
    fn new(max_vms: usize) -> Connection {
        let config = ServiceConfig {
            socket_path: "/run/test.sock".into(),
            snapshot_dir: "/run/snapshots".into(),
            pool: PoolConfig { max_vms, health_check_interval: 300, vm_timeout: 7200 },
        };
        Connection { svc: Service::new(config), count: 0 }
    }

    fn exchange(&mut self, command: ServiceCommand) -> Exchange {
        let reply = match self.svc.handle_command(command, &mut self.count, 1, 2) {
            Step::Reply { event } => event,
            Step::Start { vm_id, image_ref, config, image } => {
                let handle = NoRuntime.start(&vm_id, &image_ref, &config).unwrap();
                self.svc.allocated(vm_id, image_ref, config, image, Ok(handle.command_tx), 3)
            }
            Step::Stop { vm_id, entry } => {
                drop(entry);
                self.svc.deallocated(vm_id, 3)
            }
            _ => panic!("not for this service"),
        };
        Exchange::Reply(reply)
    }

    fn status(&mut self) -> Result<PoolStatus, ClientError> {
        Client::status(self.exchange(Client::status_request()))
    }

    fn allocate(&mut self, image: &str) -> Result<VmId, ClientError> {
        Client::allocate(self.exchange(Client::allocate_request(image, VmConfig::default())))
    }

    fn deallocate(&mut self, vm_id: &VmId) -> Result<(), ClientError> {
        Client::deallocate(self.exchange(Client::deallocate_request(vm_id)))
    }
}

#[test]
fn client_status() {
    let mut client = Connection::new(3);
    let status = client.status().unwrap();
    assert_eq!(status.total, 3);
    assert_eq!(status.available, 3);
    assert_eq!(status.allocated, 0);
}

#[test]
fn client_allocate_and_deallocate() {
    let mut client = Connection::new(3);
    let vm_id = client.allocate("agent:v1").unwrap();

    let status = client.status().unwrap();
    assert_eq!(status.allocated, 1);

    client.deallocate(&vm_id).unwrap();

    let status = client.status().unwrap();
    assert_eq!(status.allocated, 0);
}

#[test]
fn client_allocate_error() {
    let mut client = Connection::new(0);
    let result = client.allocate("agent:v1");
    assert!(matches!(result, Err(ClientError::Service(_))));
}

#[test]
fn client_tail_logs() {
    let mut client = Connection::new(3);
    let vm_id = VmId::new("vm-nonexistent");
    let logs = Client::tail_logs(client.exchange(Client::tail_logs_request(&vm_id, 10))).unwrap();
    assert!(logs.is_empty());
}

#[test]
fn client_subscribe_unsubscribe() {
    let mut client = Connection::new(3);
    Client::subscribe_logs(client.exchange(Client::subscribe_logs_request(None))).unwrap();
    Client::unsubscribe_logs(client.exchange(Client::unsubscribe_logs_request())).unwrap();
}

#[test]
fn client_full_lifecycle() {
    let mut client = Connection::new(3);
    let status = client.status().unwrap();
    assert_eq!(status.available, 3);

    let vm1 = client.allocate("agent:v1").unwrap();
    let vm2 = client.allocate("automation:v1").unwrap();

    let status = client.status().unwrap();
    assert_eq!(status.allocated, 2);
    assert_eq!(status.available, 1);

    client.deallocate(&vm1).unwrap();

    let status = client.status().unwrap();
    assert_eq!(status.allocated, 1);
    assert_eq!(status.available, 2);

    client.deallocate(&vm2).unwrap();

    let status = client.status().unwrap();
    assert_eq!(status.allocated, 0);
}

#[test]
fn client_commands() {
    let vm_id = VmId::new("vm-1");
    assert_eq!(
        Client::<NullProtocol>::snapshot_request(&vm_id, "clean"),
        ServiceCommand::Snapshot { vm_id: vm_id.clone(), name: "clean".into() }
    );
    assert_eq!(
        Client::<NullProtocol>::restore_request(&vm_id, "clean"),
        ServiceCommand::Restore { vm_id: vm_id.clone(), snapshot: "clean".into() }
    );
    assert_eq!(
        Client::<NullProtocol>::subscribe_logs_request(Some(&vm_id)),
        ServiceCommand::SubscribeLogs { vm_id: Some(vm_id.clone()) }
    );
    let command = ShellCommand::Execute { command: "ls".into() };
    assert_eq!(
        Client::<ShellProtocol>::send_command_request(&vm_id, command.clone()),
        ServiceCommand::Send { vm_id, command }
    );
}

#[test]
fn client_answers() {
    let vm_id = VmId::new("vm-1");
    let stopped: Exchange = Exchange::Reply(ServiceEvent::VmStopped { vm_id: vm_id.clone() });
    assert_eq!(Client::snapshot(stopped.clone()), Ok(()));
    let ready: Exchange = Exchange::Reply(ServiceEvent::VmReady { vm_id: vm_id.clone() });
    assert_eq!(Client::restore(ready), Ok(()));
    let sent: ServiceEvent = ServiceEvent::CommandSent { vm_id: vm_id.clone() };
    assert_eq!(Client::send_command(Exchange::Reply(sent.clone())), Ok(sent));
    let line = LogLine { stream: LogStream::Stdout, line: "x".into(), timestamp: 1 };
    let tail: Exchange =
        Exchange::Reply(ServiceEvent::LogTail { vm_id: vm_id.clone(), lines: vec![line.clone()] });
    assert_eq!(Client::tail_logs(tail), Ok(vec![line]));
    let event = ServiceEvent::VmStopped { vm_id };
    assert_eq!(Client::restore(stopped), Err(ClientError::UnexpectedResponse(event)));
}

#[test]
fn client_errors() {
    assert_eq!(
        Client::<NullProtocol>::status(Exchange::NotEncoded("bad".into())),
        Err(ClientError::Json("bad".into()))
    );
    assert_eq!(Client::<NullProtocol>::status(Exchange::NotSent), Err(ClientError::Closed));
    assert_eq!(Client::<NullProtocol>::status(Exchange::NoReply), Err(ClientError::Closed));
    let refused: Exchange = Exchange::Reply(ServiceEvent::Error { message: "no".into() });
    assert_eq!(Client::deallocate(refused), Err(ClientError::Service("no".into())));

    let text = |error: ClientError| error.to_string();
    assert_eq!(text(ClientError::Connect("refused".into())), "connection failed: refused");
    assert_eq!(text(ClientError::Json("bad".into())), "JSON error: bad");
    assert_eq!(text(ClientError::Closed), "connection closed");
    assert_eq!(text(ClientError::Service("no".into())), "service error: no");
    let event = ServiceEvent::VmReady { vm_id: VmId::new("vm-1") };
    assert_eq!(
        text(ClientError::UnexpectedResponse(event)),
        "unexpected response: VmReady { vm_id: VmId(\"vm-1\") }"
    );
}
