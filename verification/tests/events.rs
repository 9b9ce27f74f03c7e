use vm_pool::events::{
    EventLog, EventPayload, InfraEvent, ServiceState, VmLogBuffer, VmState, LOG_LINES,
};
use vm_pool::protocol::{LogStream, NullProtocol, VmId};

fn lifecycle(vm_id: &VmId, state: VmState) -> EventPayload {
    EventPayload::VmLifecycle { vm_id: vm_id.clone(), state }
}

fn log_line(vm_id: &VmId, line: String) -> EventPayload {
    EventPayload::VmLog { vm_id: vm_id.clone(), stream: LogStream::Stdout, line }
}

#[test]
fn vm_log_buffer_push_and_tail_under_capacity() {
    let mut buf = VmLogBuffer::new(5);
    buf.push(LogStream::Stdout, "line1".into(), 1);
    buf.push(LogStream::Stderr, "line2".into(), 2);
    buf.push(LogStream::Stdout, "line3".into(), 3);

    let tail = buf.tail(2);
    assert_eq!(tail.len(), 2);
    assert_eq!(tail[0].1, "line2");
    assert_eq!(tail[1].1, "line3");
}

#[test]
fn vm_log_buffer_tail_more_than_available() {
    let mut buf = VmLogBuffer::new(5);
    buf.push(LogStream::Stdout, "line1".into(), 1);
    buf.push(LogStream::Stdout, "line2".into(), 2);

    let tail = buf.tail(10);
    assert_eq!(tail.len(), 2);
}

#[test]
fn vm_log_buffer_wraps_around() {
    let mut buf = VmLogBuffer::new(3);
    buf.push(LogStream::Stdout, "a".into(), 1);
    buf.push(LogStream::Stdout, "b".into(), 2);
    buf.push(LogStream::Stdout, "c".into(), 3);
    buf.push(LogStream::Stdout, "d".into(), 4);

    let tail = buf.tail(3);
    assert_eq!(tail.len(), 3);
    assert_eq!(tail[0].1, "b");
    assert_eq!(tail[1].1, "c");
    assert_eq!(tail[2].1, "d");
}

#[test]
fn vm_log_buffer_wraps_multiple_times() {
    let mut buf = VmLogBuffer::new(2);
    for i in 0..10 {
        buf.push(LogStream::Stdout, format!("line{}", i), i as u64);
    }
    let tail = buf.tail(2);
    assert_eq!(tail.len(), 2);
    assert_eq!(tail[0].1, "line8");
    assert_eq!(tail[1].1, "line9");
}

#[test]
fn vm_log_buffer_empty() {
    let buf = VmLogBuffer::new(5);
    assert!(buf.tail(5).is_empty());
    assert!(buf.tail(0).is_empty());
}

#[test]
fn vm_log_buffer_tail_keeps_stream_and_time() {
    let mut buf = VmLogBuffer::new(1);
    buf.push(LogStream::Stdout, "x".into(), 1);
    buf.push(LogStream::Supervisor, "y".into(), 2);
    assert_eq!(buf.tail(7), vec![(LogStream::Supervisor, "y".to_string(), 2)]);
}

#[test]
fn event_log_append_and_query() {
    let mut log = EventLog::<NullProtocol>::new();
    assert!(log.is_empty());
    let vm_id = VmId::new("vm-1");

    let e1 = log.append(lifecycle(&vm_id, VmState::Allocating)).unwrap();
    assert_eq!(e1.seq, 0);
    assert_eq!(e1.vm_id, Some(vm_id.clone()));

    let e2 = log.append(EventPayload::Service { state: ServiceState::Ready }).unwrap();
    assert_eq!(e2.seq, 1);
    assert_eq!(e2.vm_id, None);

    assert_eq!(log.len(), 2);
    assert!(!log.is_empty());
}

#[test]
fn event_log_append_reads_the_clock() {
    let mut log = EventLog::<NullProtocol>::new();
    let event = log.append(EventPayload::Service { state: ServiceState::Starting }).unwrap();
    // Some day in 2020 or later.
    assert!(event.timestamp > 1_577_836_800_000);
}

#[test]
fn event_log_without_a_time_stays_as_it_is() {
    let mut log = EventLog::<NullProtocol>::new();
    let payload = EventPayload::Service { state: ServiceState::Starting };
    assert_eq!(log.append_when(payload.clone(), None), None);
    assert!(log.is_empty());
    assert_eq!(log.append_when(payload.clone(), Some(5)).unwrap().timestamp, 5);
    assert_eq!(log.get(0).unwrap().payload, payload);
}

#[test]
fn event_log_keeps_payload_and_time() {
    let mut log = EventLog::<NullProtocol>::new();
    let payload = EventPayload::PoolState { total: 6, available: 4 };
    let event = log.append_at(payload.clone(), 42).clone();
    assert_eq!(event.timestamp, 42);
    assert_eq!(event.payload, payload);
    assert_eq!(log.get(0), Some(&event));
    assert_eq!(log.get(1), None);
}

#[test]
fn event_log_since() {
    let mut log = EventLog::<NullProtocol>::new();
    let vm_id = VmId::new("vm-1");
    for _ in 0..5 {
        log.append(lifecycle(&vm_id, VmState::Ready)).unwrap();
    }

    let since_3 = log.since(3);
    assert_eq!(since_3.len(), 2);
    assert_eq!(since_3[0].seq, 3);
    assert_eq!(since_3[1].seq, 4);
    assert_eq!(log.since(0).len(), 5);
    assert!(log.since(5).is_empty());
}

#[test]
fn event_log_for_vm() {
    let mut log = EventLog::<NullProtocol>::new();
    let vm1 = VmId::new("vm-1");
    let vm2 = VmId::new("vm-2");
    log.append(lifecycle(&vm1, VmState::Ready)).unwrap();
    log.append(lifecycle(&vm2, VmState::Ready)).unwrap();
    log.append(lifecycle(&vm1, VmState::Stopped)).unwrap();

    let vm1_events = log.for_vm(&vm1);
    assert_eq!(vm1_events.len(), 2);
    assert_eq!(vm1_events[0].seq, 0);
    assert_eq!(vm1_events[1].seq, 2);

    let vm2_events = log.for_vm(&vm2);
    assert_eq!(vm2_events.len(), 1);
}

#[test]
fn event_log_vm_log_tailing() {
    let mut log = EventLog::<NullProtocol>::new();
    let vm_id = VmId::new("vm-1");
    log.init_vm(&vm_id);

    for i in 0..5 {
        log.append(log_line(&vm_id, format!("line {}", i))).unwrap();
    }

    let tail = log.tail_vm_logs(&vm_id, 3);
    assert_eq!(tail.len(), 3);
    assert_eq!(tail[0].1, "line 2");
    assert_eq!(tail[1].1, "line 3");
    assert_eq!(tail[2].1, "line 4");
}

#[test]
fn event_log_keeps_the_last_lines_of_each_vm() {
    let mut log = EventLog::<NullProtocol>::new();
    let vm1 = VmId::new("vm-1");
    let vm2 = VmId::new("vm-2");
    log.init_vm(&vm1);
    for i in 0..LOG_LINES + 2 {
        log.append_at(log_line(&vm1, format!("{}", i)), i as u64);
        log.append_at(log_line(&vm2, "other".into()), 0);
    }
    let tail = log.tail_vm_logs(&vm1, usize::MAX);
    assert_eq!(tail.len(), 1000);
    assert_eq!(tail[0].1, "2");
    assert_eq!(tail[999].1, "1001");
    assert_eq!(log.tail_vm_logs(&vm2, 1), vec![(LogStream::Stdout, "other".to_string(), 0)]);
    log.cleanup_vm(&vm2);
    log.init_vm(&VmId::new("vm-3"));
    assert_eq!(log.tail_vm_logs(&vm1, 1)[0].1, "1001");
    log.append_at(log_line(&vm2, "again".into()), 1);
    assert_eq!(log.tail_vm_logs(&vm2, 9), vec![(LogStream::Stdout, "again".to_string(), 1)]);
    assert_eq!(log.len(), 2005);
}

#[test]
fn event_log_cleanup_vm() {
    let mut log = EventLog::<NullProtocol>::new();
    let vm_id = VmId::new("vm-1");
    log.init_vm(&vm_id);

    log.append(log_line(&vm_id, "hello".into())).unwrap();

    let tail = log.tail_vm_logs(&vm_id, 10);
    assert_eq!(tail.len(), 1);

    log.cleanup_vm(&vm_id);
    let tail = log.tail_vm_logs(&vm_id, 10);
    assert!(tail.is_empty());
    assert_eq!(log.len(), 1);
}

#[test]
fn event_log_subscribe() {
    let mut log = EventLog::<NullProtocol>::new();
    let mut rx = log.subscribe();

    let vm_id = VmId::new("vm-1");
    log.append(lifecycle(&vm_id, VmState::Ready)).unwrap();

    let seq = rx.try_recv().unwrap();
    let event = log.get(seq).unwrap();
    assert_eq!(event.seq, 0);
    assert_eq!(event.vm_id, Some(vm_id));
}

#[test]
fn subscribers_get_each_event_since_once_and_in_order() {
    let mut log = EventLog::<NullProtocol>::new();
    let mut early = log.subscribe();
    let vm_id = VmId::new("vm-1");
    log.append_at(lifecycle(&vm_id, VmState::Allocating), 1);
    let mut late = log.subscribe();
    assert!(late.try_recv().is_err());
    log.init_vm(&vm_id);
    log.append_at(lifecycle(&vm_id, VmState::Ready), 2);
    log.cleanup_vm(&vm_id);
    log.append_at(lifecycle(&vm_id, VmState::Stopped), 3);

    for number in [0, 1, 2] {
        assert_eq!(early.try_recv().unwrap(), number);
    }
    for number in [1, 2] {
        assert_eq!(late.try_recv().unwrap(), number);
    }
    assert!(early.try_recv().is_err());
    assert!(late.try_recv().is_err());
}

#[test]
fn event_log_feed_keeps_the_last_numbers() {
    let mut log = EventLog::<NullProtocol>::new();
    let mut rx = log.subscribe();
    for _ in 0..1025 {
        log.append_at(EventPayload::Service { state: ServiceState::Ready }, 0);
    }
    assert!(rx.try_recv().is_err());
    assert_eq!(rx.try_recv().unwrap(), 1);
    assert_eq!(rx.try_recv().unwrap(), 2);
}

#[test]
fn event_payload_vm_id_extraction() {
    let vm_id = VmId::new("vm-1");

    let payload: EventPayload =
        EventPayload::VmLifecycle { vm_id: vm_id.clone(), state: VmState::Ready };
    assert_eq!(payload.vm_id(), Some(&vm_id));

    let payload: EventPayload =
        EventPayload::VmInfra { vm_id: vm_id.clone(), event: InfraEvent::Ready };
    assert_eq!(payload.vm_id(), Some(&vm_id));

    let payload: EventPayload = EventPayload::Service { state: ServiceState::Ready };
    assert_eq!(payload.vm_id(), None);

    let payload: EventPayload = EventPayload::PoolState { total: 6, available: 4 };
    assert_eq!(payload.vm_id(), None);
}
