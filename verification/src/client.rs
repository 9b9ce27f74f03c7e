//! The client side of the service: the command of each request, and what its reply means.

use tokio::sync::mpsc;
use vstd::prelude::*;

use crate::protocol::{
    AppProtocol, LogLine, NullProtocol, ServiceCommand, ServiceEvent, VmConfig, VmId,
};
use crate::service;
use crate::text;

verus! {

#[derive(Debug, Clone, PartialEq)]
pub enum ClientError<P: AppProtocol = NullProtocol> {
    Connect(String),
    Json(String),
    Closed,
    Service(String),
    UnexpectedResponse(ServiceEvent<P>),
}

impl<P: AppProtocol> ClientError<P> {
    /// The error as text. That of an unexpected response ends in what the `Debug` impl of the response
    /// writes.
    pub fn to_string(&self) -> (message: String)
        ensures
            match *self {
                ClientError::Connect(what) => message@ == "connection failed: "@ + what@,
                ClientError::Json(what) => message@ == "JSON error: "@ + what@,
                ClientError::Closed => message@ == "connection closed"@,
                ClientError::Service(what) => message@ == "service error: "@ + what@,
                ClientError::UnexpectedResponse(_) => exists|shown: Seq<char>|
                    message@ == #[trigger] ("unexpected response: "@ + shown),
            },
    {
        match self {
            ClientError::Connect(what) => text::concat("connection failed: ", what.as_str()),
            ClientError::Json(what) => text::concat("JSON error: ", what.as_str()),
            ClientError::Closed => "connection closed".to_owned(),
            ClientError::Service(what) => text::concat("service error: ", what.as_str()),
            ClientError::UnexpectedResponse(event) => {
                let shown = text::debug_text(event);
                text::concat("unexpected response: ", shown.as_str())
            },
        }
    }
}

/// Pool status information.
#[derive(Debug, Clone, Copy, PartialEq, Eq)]
pub struct PoolStatus {
    pub total: usize,
    pub available: usize,
    pub allocated: usize,
}

/// What came of sending a command and waiting for the next response.
#[derive(Debug, Clone, PartialEq)]
pub enum Exchange<P: AppProtocol = NullProtocol> {
    /// The command could not be encoded, with the reason.
    NotEncoded(String),
    /// The connection was closed before the command was taken.
    NotSent,
    /// The connection was closed before a response came.
    NoReply,
    /// The response.
    Reply(ServiceEvent<P>),
}

/// What an exchange means before the response is looked at.
pub open spec fn response_of<P: AppProtocol>(exchange: Exchange<P>) -> Result<
    ServiceEvent<P>,
    ClientError<P>,
> {
    match exchange {
        Exchange::NotEncoded(reason) => Err(ClientError::Json(reason)),
        Exchange::NotSent => Err(ClientError::Closed),
        Exchange::NoReply => Err(ClientError::Closed),
        Exchange::Reply(event) => Ok(event),
    }
}

/// What an exchange means where every response but an error will do.
pub open spec fn accepted<P: AppProtocol>(exchange: Exchange<P>) -> Result<
    ServiceEvent<P>,
    ClientError<P>,
> {
    match response_of(exchange) {
        Ok(ServiceEvent::Error { message }) => Err(ClientError::Service(message)),
        other => other,
    }
}

/// What an exchange means as a request for the pool status.
pub open spec fn status_answer<P: AppProtocol>(exchange: Exchange<P>) -> Result<PoolStatus, ClientError<P>> {
    match accepted(exchange) {
        Ok(ServiceEvent::PoolStatus { total, available, allocated }) => Ok(
            PoolStatus { total, available, allocated },
        ),
        Ok(other) => Err(ClientError::UnexpectedResponse(other)),
        Err(error) => Err(error),
    }
}

/// What an exchange means as a request for a VM.
pub open spec fn allocate_answer<P: AppProtocol>(exchange: Exchange<P>) -> Result<VmId, ClientError<P>> {
    match accepted(exchange) {
        Ok(ServiceEvent::VmAllocated { vm_id, .. }) => Ok(vm_id),
        Ok(other) => Err(ClientError::UnexpectedResponse(other)),
        Err(error) => Err(error),
    }
}

/// What an exchange means as a request after which a VM has stopped.
pub open spec fn stopped_answer<P: AppProtocol>(exchange: Exchange<P>) -> Result<(), ClientError<P>> {
    match accepted(exchange) {
        Ok(ServiceEvent::VmStopped { .. }) => Ok(()),
        Ok(other) => Err(ClientError::UnexpectedResponse(other)),
        Err(error) => Err(error),
    }
}

/// What an exchange means as a request after which a VM is ready.
pub open spec fn ready_answer<P: AppProtocol>(exchange: Exchange<P>) -> Result<(), ClientError<P>> {
    match accepted(exchange) {
        Ok(ServiceEvent::VmReady { .. }) => Ok(()),
        Ok(other) => Err(ClientError::UnexpectedResponse(other)),
        Err(error) => Err(error),
    }
}

/// What an exchange means as a request for the end of a log.
pub open spec fn tail_answer<P: AppProtocol>(exchange: Exchange<P>) -> Result<Vec<LogLine>, ClientError<P>> {
    match accepted(exchange) {
        Ok(ServiceEvent::LogTail { lines, .. }) => Ok(lines),
        Ok(other) => Err(ClientError::UnexpectedResponse(other)),
        Err(error) => Err(error),
    }
}

/// What an exchange means as a request about a log subscription.
pub open spec fn subscription_answer<P: AppProtocol>(exchange: Exchange<P>) -> Result<(), ClientError<P>> {
    match accepted(exchange) {
        Ok(ServiceEvent::LogsSubscribed { .. }) => Ok(()),
        Ok(other) => Err(ClientError::UnexpectedResponse(other)),
        Err(error) => Err(error),
    }
}

/// Client for communicating with the vm-pool service.
#[verifier::reject_recursive_types(P)]
pub struct Client<P: AppProtocol = NullProtocol> {
    /// Channel for sending serialized commands to the writer task.
    pub cmd_tx: mpsc::Sender<String>,
    /// Channel for receiving parsed responses from the reader task.
    pub resp_rx: mpsc::Receiver<ServiceEvent<P>>,
}

impl<P: AppProtocol> Client<P> {
    /// The response of an exchange, whatever it says.
    pub fn request(exchange: Exchange<P>) -> (response: Result<ServiceEvent<P>, ClientError<P>>)
        ensures
            response == response_of(exchange),
    {
        match exchange {
            Exchange::NotEncoded(reason) => Err(ClientError::Json(reason)),
            Exchange::NotSent => Err(ClientError::Closed),
            Exchange::NoReply => Err(ClientError::Closed),
            Exchange::Reply(event) => Ok(event),
        }
    }

    /// Convert a ServiceEvent::Error into a ClientError, or return the event.
    pub fn check_error(event: ServiceEvent<P>) -> (checked: Result<ServiceEvent<P>, ClientError<P>>)
        ensures
            match event {
                ServiceEvent::Error { message } => checked == Err::<ServiceEvent<P>, ClientError<P>>(
                    ClientError::Service(message),
                ),
                other => checked == Ok::<ServiceEvent<P>, ClientError<P>>(other),
            },
    {
        match event {
            ServiceEvent::Error { message } => Err(ClientError::Service(message)),
            other => Ok(other),
        }
    }

    fn accept(exchange: Exchange<P>) -> (response: Result<ServiceEvent<P>, ClientError<P>>)
        ensures
            response == accepted(exchange),
    {
        match Self::request(exchange) {
            Ok(event) => Self::check_error(event),
            Err(error) => Err(error),
        }
    }

    /// The command that asks for the pool status.
    pub fn status_request() -> (command: ServiceCommand<P>)
        ensures
            command == ServiceCommand::<P>::Status,
    {
        ServiceCommand::Status
    }

    /// Get pool status.
    pub fn status(exchange: Exchange<P>) -> (status: Result<PoolStatus, ClientError<P>>)
        ensures
            status == status_answer(exchange),
    {
        match Self::accept(exchange) {
            Ok(ServiceEvent::PoolStatus { total, available, allocated }) => Ok(
                PoolStatus { total, available, allocated },
            ),
            Ok(other) => Err(ClientError::UnexpectedResponse(other)),
            Err(error) => Err(error),
        }
    }

    /// The command that asks for a new VM.
    pub fn allocate_request(image: &str, config: VmConfig) -> (command: ServiceCommand<P>)
        ensures
            command matches ServiceCommand::Allocate { image: asked, config: wanted } && asked@ == image@
                && wanted == config,
    {
        ServiceCommand::Allocate { image: image.to_owned(), config }
    }

    /// Allocate a new VM. Returns the VM ID.
    pub fn allocate(exchange: Exchange<P>) -> (vm_id: Result<VmId, ClientError<P>>)
        ensures
            vm_id == allocate_answer(exchange),
    {
        match Self::accept(exchange) {
            Ok(ServiceEvent::VmAllocated { vm_id, .. }) => Ok(vm_id),
            Ok(other) => Err(ClientError::UnexpectedResponse(other)),
            Err(error) => Err(error),
        }
    }

    /// The command that gives up a VM.
    pub fn deallocate_request(vm_id: &VmId) -> (command: ServiceCommand<P>)
        ensures
            command == (ServiceCommand::<P>::Deallocate { vm_id: *vm_id }),
    {
        ServiceCommand::Deallocate { vm_id: vm_id.clone() }
    }

    /// Deallocate a VM.
    pub fn deallocate(exchange: Exchange<P>) -> (done: Result<(), ClientError<P>>)
        ensures
            done == stopped_answer(exchange),
    {
        match Self::accept(exchange) {
            Ok(ServiceEvent::VmStopped { .. }) => Ok(()),
            Ok(other) => Err(ClientError::UnexpectedResponse(other)),
            Err(error) => Err(error),
        }
    }

    /// The command that passes an application command on to a VM.
    pub fn send_command_request(vm_id: &VmId, command: P::Command) -> (request: ServiceCommand<P>)
        ensures
            request == (ServiceCommand::<P>::Send { vm_id: *vm_id, command }),
    {
        ServiceCommand::Send { vm_id: vm_id.clone(), command }
    }

    /// Send a command to a VM.
    pub fn send_command(exchange: Exchange<P>) -> (response: Result<ServiceEvent<P>, ClientError<P>>)
        ensures
            response == accepted(exchange),
    {
        Self::accept(exchange)
    }

    /// The command that saves a snapshot of a VM.
    pub fn snapshot_request(vm_id: &VmId, name: &str) -> (command: ServiceCommand<P>)
        ensures
            command matches ServiceCommand::Snapshot { vm_id: id, name: asked } && id == *vm_id && asked@
                == name@,
    {
        ServiceCommand::Snapshot { vm_id: vm_id.clone(), name: name.to_owned() }
    }

    /// Save a snapshot of a VM.
    pub fn snapshot(exchange: Exchange<P>) -> (done: Result<(), ClientError<P>>)
        ensures
            done == stopped_answer(exchange),
    {
        Self::deallocate(exchange)
    }

    /// The command that restores a VM from a snapshot.
    pub fn restore_request(vm_id: &VmId, snapshot: &str) -> (command: ServiceCommand<P>)
        ensures
            command matches ServiceCommand::Restore { vm_id: id, snapshot: asked } && id == *vm_id
                && asked@ == snapshot@,
    {
        ServiceCommand::Restore { vm_id: vm_id.clone(), snapshot: snapshot.to_owned() }
    }

    /// Restore a VM from a snapshot.
    pub fn restore(exchange: Exchange<P>) -> (done: Result<(), ClientError<P>>)
        ensures
            done == ready_answer(exchange),
    {
        match Self::accept(exchange) {
            Ok(ServiceEvent::VmReady { .. }) => Ok(()),
            Ok(other) => Err(ClientError::UnexpectedResponse(other)),
            Err(error) => Err(error),
        }
    }

    /// The command that asks for the last lines of a VM's log.
    pub fn tail_logs_request(vm_id: &VmId, lines: usize) -> (command: ServiceCommand<P>)
        ensures
            command == (ServiceCommand::<P>::TailLogs { vm_id: *vm_id, lines }),
    {
        ServiceCommand::TailLogs { vm_id: vm_id.clone(), lines }
    }

    /// Tail log lines from a VM.
    pub fn tail_logs(exchange: Exchange<P>) -> (lines: Result<Vec<LogLine>, ClientError<P>>)
        ensures
            lines == tail_answer(exchange),
    {
        match Self::accept(exchange) {
            Ok(ServiceEvent::LogTail { lines, .. }) => Ok(lines),
            Ok(other) => Err(ClientError::UnexpectedResponse(other)),
            Err(error) => Err(error),
        }
    }

    /// The command that subscribes to the log of a VM (or all VMs if None).
    pub fn subscribe_logs_request(vm_id: Option<&VmId>) -> (command: ServiceCommand<P>)
        ensures
            command == (ServiceCommand::<P>::SubscribeLogs {
                vm_id: match vm_id {
                    Some(id) => Some(*id),
                    None => None,
                },
            }),
    {
        ServiceCommand::SubscribeLogs {
            vm_id: match vm_id {
                Some(id) => Some(id.clone()),
                None => None,
            },
        }
    }

    /// Subscribe to logs from a specific VM (or all VMs if None).
    pub fn subscribe_logs(exchange: Exchange<P>) -> (done: Result<(), ClientError<P>>)
        ensures
            done == subscription_answer(exchange),
    {
        match Self::accept(exchange) {
            Ok(ServiceEvent::LogsSubscribed { .. }) => Ok(()),
            Ok(other) => Err(ClientError::UnexpectedResponse(other)),
            Err(error) => Err(error),
        }
    }

    /// The command that ends log streaming.
    pub fn unsubscribe_logs_request() -> (command: ServiceCommand<P>)
        ensures
            command == ServiceCommand::<P>::UnsubscribeLogs,
    {
        ServiceCommand::UnsubscribeLogs
    }

    /// Unsubscribe from log streaming.
    pub fn unsubscribe_logs(exchange: Exchange<P>) -> (done: Result<(), ClientError<P>>)
        ensures
            done == subscription_answer(exchange),
    {
        Self::subscribe_logs(exchange)
    }
}

/// Whether an answer is a success or the service's own error.
pub open spec fn understood<T, P: AppProtocol>(answer: Result<T, ClientError<P>>) -> bool {
    answer matches Err(error) ==> error is Service
}

/// A reply that fits the command, as the service gives it, is understood: it counts as a success, or as
/// the error that the service reports, and never as unexpected.
pub proof fn lemma_replies_are_understood<P: AppProtocol>(event: ServiceEvent<P>, command: ServiceCommand<P>)
    requires
        service::is_reply_to(event, command),
    ensures
        match command {
            ServiceCommand::Status => understood(status_answer(Exchange::Reply(event))),
            ServiceCommand::Allocate { .. } => understood(allocate_answer(Exchange::Reply(event))),
            ServiceCommand::Deallocate { .. } => understood(stopped_answer(Exchange::Reply(event))),
            ServiceCommand::Send { .. } => understood(accepted(Exchange::Reply(event))),
            ServiceCommand::Snapshot { .. } => understood(stopped_answer(Exchange::Reply(event))),
            ServiceCommand::Restore { .. } => understood(ready_answer(Exchange::Reply(event))),
            ServiceCommand::TailLogs { .. } => understood(tail_answer(Exchange::Reply(event))),
            ServiceCommand::SubscribeLogs { .. } => understood(
                subscription_answer(Exchange::Reply(event)),
            ),
            ServiceCommand::UnsubscribeLogs => understood(subscription_answer(Exchange::Reply(event))),
        },
{
}

/// Whatever was asked for, an exchange that ended without a response is an error: the reason where the
/// command could not be encoded, else that the connection was closed. An error that the service reports is
/// handed out with the service's own message.
pub proof fn lemma_failures_are_handed_out<P: AppProtocol>(exchange: Exchange<P>, error: ClientError<P>)
    requires
        match exchange {
            Exchange::NotEncoded(reason) => error == ClientError::<P>::Json(reason),
            Exchange::NotSent => error is Closed,
            Exchange::NoReply => error is Closed,
            Exchange::Reply(ServiceEvent::Error { message }) => error == ClientError::<P>::Service(message),
            _ => false,
        },
    ensures
        status_answer(exchange) == Err::<PoolStatus, ClientError<P>>(error),
        allocate_answer(exchange) == Err::<VmId, ClientError<P>>(error),
        stopped_answer(exchange) == Err::<(), ClientError<P>>(error),
        accepted(exchange) == Err::<ServiceEvent<P>, ClientError<P>>(error),
        ready_answer(exchange) == Err::<(), ClientError<P>>(error),
        tail_answer(exchange) == Err::<Vec<LogLine>, ClientError<P>>(error),
        subscription_answer(exchange) == Err::<(), ClientError<P>>(error),
{
}

/// A response is taken for the answer to a request exactly where it is of the kind that the request asks
/// for, and what it holds is handed out unchanged. Any other response, but for an error, is handed out as
/// unexpected.
pub proof fn lemma_replies_are_handed_out<P: AppProtocol>(
    event: ServiceEvent<P>,
    status: Result<PoolStatus, ClientError<P>>,
    vm_id: Result<VmId, ClientError<P>>,
    deallocated: Result<(), ClientError<P>>,
    sent: Result<ServiceEvent<P>, ClientError<P>>,
    saved: Result<(), ClientError<P>>,
    restored: Result<(), ClientError<P>>,
    tail: Result<Vec<LogLine>, ClientError<P>>,
    subscribed: Result<(), ClientError<P>>,
    unsubscribed: Result<(), ClientError<P>>,
)
    requires
        event !is Error,
        call_ensures(Client::<P>::status, (Exchange::Reply(event),), status),
        call_ensures(Client::<P>::allocate, (Exchange::Reply(event),), vm_id),
        call_ensures(Client::<P>::deallocate, (Exchange::Reply(event),), deallocated),
        call_ensures(Client::<P>::send_command, (Exchange::Reply(event),), sent),
        call_ensures(Client::<P>::snapshot, (Exchange::Reply(event),), saved),
        call_ensures(Client::<P>::restore, (Exchange::Reply(event),), restored),
        call_ensures(Client::<P>::tail_logs, (Exchange::Reply(event),), tail),
        call_ensures(Client::<P>::subscribe_logs, (Exchange::Reply(event),), subscribed),
        call_ensures(Client::<P>::unsubscribe_logs, (Exchange::Reply(event),), unsubscribed),
    ensures
        sent == Ok::<ServiceEvent<P>, ClientError<P>>(event),
        event matches ServiceEvent::PoolStatus { total, available, allocated } ==> (status matches Ok(s)
            && s.total == total && s.available == available && s.allocated == allocated),
        event !is PoolStatus ==> status == Err::<PoolStatus, ClientError<P>>(
            ClientError::UnexpectedResponse(event),
        ),
        event matches ServiceEvent::VmAllocated { vm_id: id, .. } ==> vm_id == Ok::<VmId, ClientError<P>>(id),
        event !is VmAllocated ==> vm_id == Err::<VmId, ClientError<P>>(ClientError::UnexpectedResponse(event)),
        event matches ServiceEvent::LogTail { lines, .. } ==> tail == Ok::<Vec<LogLine>, ClientError<P>>(
            lines,
        ),
        event !is LogTail ==> tail == Err::<Vec<LogLine>, ClientError<P>>(
            ClientError::UnexpectedResponse(event),
        ),
        deallocated == if event is VmStopped {
            Ok::<(), ClientError<P>>(())
        } else {
            Err(ClientError::UnexpectedResponse(event))
        },
        saved == deallocated,
        restored == if event is VmReady {
            Ok::<(), ClientError<P>>(())
        } else {
            Err(ClientError::UnexpectedResponse(event))
        },
        subscribed == if event is LogsSubscribed {
            Ok::<(), ClientError<P>>(())
        } else {
            Err(ClientError::UnexpectedResponse(event))
        },
        unsubscribed == subscribed,
{
}

/// A plain request hands out the response as it came, an error of the service too, and fails exactly where
/// there was none. Checking a response for an error lets every other one through unchanged.
pub proof fn lemma_responses_come_through<P: AppProtocol>(
    exchange: Exchange<P>,
    response: Result<ServiceEvent<P>, ClientError<P>>,
    event: ServiceEvent<P>,
    checked: Result<ServiceEvent<P>, ClientError<P>>,
)
    requires
        call_ensures(Client::<P>::request, (exchange,), response),
        call_ensures(Client::<P>::check_error, (event,), checked),
    ensures
        response is Ok <==> exchange is Reply,
        response matches Ok(got) ==> exchange == Exchange::Reply(got),
        response matches Err(ClientError::Json(reason)) ==> exchange == Exchange::<P>::NotEncoded(reason),
        response matches Err(error) ==> (error is Json <==> exchange is NotEncoded),
        response matches Err(error) ==> (error is Closed <==> exchange !is NotEncoded),
        checked is Ok <==> event !is Error,
        checked matches Ok(got) ==> got == event,
        event matches ServiceEvent::Error { message } ==> checked == Err::<ServiceEvent<P>, ClientError<P>>(
            ClientError::Service(message),
        ),
{
}

/// The command of a request names the VM and carries what was given, unchanged.
pub proof fn lemma_requests_carry_what_was_given<P: AppProtocol>(
    vm_id: VmId,
    text: &str,
    config: VmConfig,
    payload: P::Command,
    lines: usize,
    allocate: ServiceCommand<P>,
    deallocate: ServiceCommand<P>,
    send: ServiceCommand<P>,
    snapshot: ServiceCommand<P>,
    restore: ServiceCommand<P>,
    tail: ServiceCommand<P>,
    subscribe: ServiceCommand<P>,
    subscribe_all: ServiceCommand<P>,
)
    requires
        call_ensures(Client::<P>::allocate_request, (text, config), allocate),
        call_ensures(Client::<P>::deallocate_request, (&vm_id,), deallocate),
        call_ensures(Client::<P>::send_command_request, (&vm_id, payload), send),
        call_ensures(Client::<P>::snapshot_request, (&vm_id, text), snapshot),
        call_ensures(Client::<P>::restore_request, (&vm_id, text), restore),
        call_ensures(Client::<P>::tail_logs_request, (&vm_id, lines), tail),
        call_ensures(Client::<P>::subscribe_logs_request, (Some(&vm_id),), subscribe),
        call_ensures(Client::<P>::subscribe_logs_request, (None::<&VmId>,), subscribe_all),
    ensures
        allocate matches ServiceCommand::Allocate { image, config: wanted } && image@ == text@ && wanted
            == config,
        deallocate matches ServiceCommand::Deallocate { vm_id: id } && id@ == vm_id@,
        send matches ServiceCommand::Send { vm_id: id, command } && id@ == vm_id@ && command == payload,
        snapshot matches ServiceCommand::Snapshot { vm_id: id, name } && id@ == vm_id@ && name@ == text@,
        restore matches ServiceCommand::Restore { vm_id: id, snapshot: from } && id@ == vm_id@ && from@
            == text@,
        tail matches ServiceCommand::TailLogs { vm_id: id, lines: n } && id@ == vm_id@ && n == lines,
        subscribe matches ServiceCommand::SubscribeLogs { vm_id: Some(id) } && id@ == vm_id@,
        subscribe_all == (ServiceCommand::<P>::SubscribeLogs { vm_id: None }),
{
}

} // verus!
