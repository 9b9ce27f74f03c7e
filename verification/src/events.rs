//! Append-only event log with a live feed and log tailing.
//!
//! - Events are numbered from 0 and never removed.
//! - The number of each event is announced to the subscribers.
//! - The last lines that each VM logged are kept in a circular buffer.

use tokio::sync::broadcast;
use vstd::prelude::*;

use crate::clock;
use crate::feed;
use crate::protocol::{AppProtocol, LogStream, NullProtocol, VmId};
use crate::table::Table;

verus! {

/// The number of lines that are kept of each VM's log.
pub const LOG_LINES: usize = 1000;

/// The number of events that a subscriber can fall behind.
pub const FEED_CAPACITY: usize = 1024;

/// A line of a VM's log: the stream, the text and the time in Unix ms.
pub type LogEntry = (LogStream, String, u64);

/// The last `n` elements of a sequence, or all of it where it is no longer than that.
pub open spec fn last_of<T>(s: Seq<T>, n: nat) -> Seq<T> {
    if s.len() <= n {
        s
    } else {
        s.skip(s.len() - n)
    }
}

/// Circular buffer for VM logs (for tail functionality).
#[derive(Debug)]
pub struct VmLogBuffer {
    lines: Vec<LogEntry>,
    capacity: usize,
    head: usize,
    len: usize,
}

impl View for VmLogBuffer {
    type V = Seq<LogEntry>;

    /// The lines in the buffer, oldest first.
    closed spec fn view(&self) -> Seq<LogEntry> {
        self.lines@.skip(self.head as int) + self.lines@.take(self.head as int)
    }
}

impl VmLogBuffer {
    /// The oldest line stands at the head, and the head moves only in a full buffer.
    pub closed spec fn wf(&self) -> bool {
        &&& self.len == self.lines@.len()
        &&& self.len <= self.capacity
        &&& self.len < self.capacity ==> self.head == 0
        &&& self.head == 0 || self.head < self.len
    }

    /// The number of lines that the buffer holds at most.
    pub closed spec fn capacity(&self) -> nat {
        self.capacity as nat
    }

    pub fn new(capacity: usize) -> (buffer: VmLogBuffer)
        ensures
            buffer.wf(),
            buffer.capacity() == capacity,
            buffer@ == Seq::<LogEntry>::empty(),
    {
        let buffer = VmLogBuffer { lines: Vec::new(), capacity, head: 0, len: 0 };
        assert(buffer@ =~= Seq::<LogEntry>::empty());
        buffer
    }

    /// Adds a line; a full buffer drops its oldest one.
    pub fn push(&mut self, stream: LogStream, line: String, timestamp: u64)
        requires
            old(self).wf(),
            old(self).capacity() > 0,
        ensures
            final(self).wf(),
            final(self).capacity() == old(self).capacity(),
            final(self)@ == last_of(old(self)@.push((stream, line, timestamp)), old(self).capacity()),
    {
        let ghost entry = (stream, line, timestamp);
        let ghost before = self@;
        if self.len < self.capacity {
            self.lines.push((stream, line, timestamp));
            self.len += 1;
            assert(self@ =~= before.push(entry));
        } else {
            self.lines.set(self.head, (stream, line, timestamp));
            self.head = if self.head + 1 == self.capacity {
                0
            } else {
                self.head + 1
            };
            assert(self@ =~= before.push(entry).skip(1));
        }
    }

    /// The last `n` lines, oldest first.
    pub fn tail(&self, n: usize) -> (lines: Vec<LogEntry>)
        requires
            self.wf(),
        ensures
            lines@ == last_of(self@, n as nat),
    {
        let n: usize = if n < self.len {
            n
        } else {
            self.len
        };
        let mut lines: Vec<LogEntry> = Vec::new();
        let skipped: usize = self.len - n;
        let mut i: usize = 0;
        while i < n
            invariant
                self.wf(),
                i <= n,
                skipped + n == self.len,
                lines@ == self@.subrange(skipped as int, skipped + i),
            decreases n - i,
        {
            let at: usize = if skipped + i < self.len - self.head {
                self.head + skipped + i
            } else {
                skipped + i - (self.len - self.head)
            };
            assert(self.lines@[at as int] == self@[skipped + i]);
            let entry = &self.lines[at];
            lines.push((entry.0, entry.1.clone(), entry.2));
            i += 1;
            assert(lines@ =~= self@.subrange(skipped as int, skipped + i));
        }
        assert(lines@ =~= self@.skip(skipped as int));
        lines
    }
}

/// The lines in a buffer that held `start`, after `entries` were pushed one by one.
pub open spec fn pushed_all(start: Seq<LogEntry>, entries: Seq<LogEntry>, capacity: nat) -> Seq<LogEntry>
    decreases entries.len(),
{
    if entries.len() == 0 {
        start
    } else {
        last_of(pushed_all(start, entries.drop_last(), capacity).push(entries.last()), capacity)
    }
}

/// However many lines are pushed, the buffer holds the last of them, up to its capacity, in the order in
/// which they came.
pub proof fn lemma_buffer_keeps_last(start: Seq<LogEntry>, entries: Seq<LogEntry>, capacity: nat)
    requires
        start.len() <= capacity,
    ensures
        pushed_all(start, entries, capacity) == last_of(start + entries, capacity),
    decreases entries.len(),
{
    if entries.len() == 0 {
        assert(start + entries =~= start);
    } else {
        let rest = entries.drop_last();
        lemma_buffer_keeps_last(start, rest, capacity);
        assert(start + entries =~= (start + rest).push(entries.last()));
        assert(pushed_all(start, entries, capacity) =~= last_of(start + entries, capacity));
    }
}

/// Tailing a tail gives the shorter of the two.
pub proof fn lemma_tail_of_tail<T>(s: Seq<T>, n: nat, m: nat)
    ensures
        last_of(last_of(s, n), m) == last_of(s, if n <= m {
            n
        } else {
            m
        }),
{
    assert(last_of(last_of(s, n), m) =~= last_of(s, if n <= m {
        n
    } else {
        m
    }));
}

/// Infrastructure events that the pool handles internally (non-application).
#[derive(Debug, Clone, Copy, PartialEq, Eq, Structural)]
pub enum InfraEvent {
    Ready,
    Pong,
    Shutdown,
}

#[derive(Debug, Clone, Copy, PartialEq, Eq, Structural)]
pub enum VmState {
    Allocating,
    Starting,
    Ready,
    Stopping,
    Stopped,
    Crashed,
}

#[derive(Debug, Clone, Copy, PartialEq, Eq, Structural)]
pub enum ServiceState {
    Starting,
    Ready,
    ShuttingDown,
}

/// Event payload types.
#[derive(Debug, Clone, PartialEq)]
pub enum EventPayload<P: AppProtocol = NullProtocol> {
    /// VM lifecycle event.
    VmLifecycle { vm_id: VmId, state: VmState },
    /// Log line from a VM.
    VmLog { vm_id: VmId, stream: LogStream, line: String },
    /// VM infrastructure event (Ready, Pong, Shutdown).
    VmInfra { vm_id: VmId, event: InfraEvent },
    /// Application event from a VM.
    VmApp { vm_id: VmId, event: P::Event },
    /// Pool state change.
    PoolState { total: usize, available: usize },
    /// Service lifecycle.
    Service { state: ServiceState },
}

impl<P: AppProtocol> EventPayload<P> {
    /// The VM that this payload is about, if it is about one.
    pub open spec fn source(self) -> Option<VmId> {
        match self {
            EventPayload::VmLifecycle { vm_id, .. } => Some(vm_id),
            EventPayload::VmLog { vm_id, .. } => Some(vm_id),
            EventPayload::VmInfra { vm_id, .. } => Some(vm_id),
            EventPayload::VmApp { vm_id, .. } => Some(vm_id),
            EventPayload::PoolState { .. } => None,
            EventPayload::Service { .. } => None,
        }
    }

    /// Extract the VM ID from this payload, if it has one.
    pub fn vm_id(&self) -> (vm_id: Option<&VmId>)
        ensures
            match vm_id {
                Some(id) => self.source() == Some(*id),
                None => self.source() is None,
            },
    {
        match self {
            EventPayload::VmLifecycle { vm_id, .. } => Some(vm_id),
            EventPayload::VmLog { vm_id, .. } => Some(vm_id),
            EventPayload::VmInfra { vm_id, .. } => Some(vm_id),
            EventPayload::VmApp { vm_id, .. } => Some(vm_id),
            EventPayload::PoolState { .. } => None,
            EventPayload::Service { .. } => None,
        }
    }
}

/// A timestamped, sequenced event.
#[derive(Debug, Clone, PartialEq)]
pub struct Event<P: AppProtocol = NullProtocol> {
    /// Monotonic sequence number.
    pub seq: u64,
    /// Unix timestamp (ms).
    pub timestamp: u64,
    /// Source VM ID (if from a VM).
    pub vm_id: Option<VmId>,
    /// Event payload.
    pub payload: EventPayload<P>,
}

impl<P: AppProtocol> Event<P> {
    /// Whether this event came from a VM.
    pub open spec fn is_from(self, vm_id: Seq<char>) -> bool {
        self.vm_id matches Some(id) && id@ == vm_id
    }
}

/// What an event log holds.
#[verifier::ext_equal]
#[verifier::reject_recursive_types(P)]
pub struct LogModel<P: AppProtocol> {
    /// The events, oldest first.
    pub events: Seq<Event<P>>,
    /// The last log lines of each VM that has a log buffer.
    pub vm_logs: Map<Seq<char>, Seq<LogEntry>>,
    /// The event numbers that were announced to subscribers.
    pub announced: Seq<u64>,
}

impl<P: AppProtocol> LogModel<P> {
    /// A log without events.
    pub open spec fn empty() -> LogModel<P> {
        LogModel { events: Seq::empty(), vm_logs: Map::empty(), announced: Seq::empty() }
    }

    /// The events are numbered from 0 without a gap, each names the VM that its payload is about, and
    /// each was announced once, in order.
    pub open spec fn valid(self) -> bool {
        &&& forall|i: int| 0 <= i < self.events.len() ==> (#[trigger] self.events[i]).seq == i
        &&& forall|i: int|
            0 <= i < self.events.len() ==> (#[trigger] self.events[i]).vm_id
                == self.events[i].payload.source()
        &&& self.announced.len() == self.events.len()
        &&& forall|i: int| 0 <= i < self.announced.len() ==> #[trigger] self.announced[i] == i
        &&& forall|id: Seq<char>| #[trigger]
            self.vm_logs.dom().contains(id) ==> self.vm_logs[id].len() <= LOG_LINES
    }

    /// The event that a payload becomes when it is appended.
    pub open spec fn next_event(self, payload: EventPayload<P>, timestamp: u64) -> Event<P> {
        Event { seq: self.events.len() as u64, timestamp, vm_id: payload.source(), payload }
    }

    /// The log lines that are kept of a VM: none where it has no buffer.
    pub open spec fn lines_of(self, vm_id: Seq<char>) -> Seq<LogEntry> {
        if self.vm_logs.dom().contains(vm_id) {
            self.vm_logs[vm_id]
        } else {
            Seq::empty()
        }
    }

    /// The log after a payload was appended.
    pub open spec fn appended(self, payload: EventPayload<P>, timestamp: u64) -> LogModel<P> {
        LogModel {
            events: self.events.push(self.next_event(payload, timestamp)),
            vm_logs: match payload {
                EventPayload::VmLog { vm_id, stream, line } => self.vm_logs.insert(
                    vm_id@,
                    last_of(self.lines_of(vm_id@).push((stream, line, timestamp)), LOG_LINES as nat),
                ),
                _ => self.vm_logs,
            },
            announced: self.announced.push(self.events.len() as u64),
        }
    }

    /// The log after an empty log buffer was set up for a VM.
    pub open spec fn with_buffer(self, vm_id: Seq<char>) -> LogModel<P> {
        LogModel { vm_logs: self.vm_logs.insert(vm_id, Seq::empty()), ..self }
    }

    /// The log after the log buffer of a VM was removed.
    pub open spec fn without_buffer(self, vm_id: Seq<char>) -> LogModel<P> {
        LogModel { vm_logs: self.vm_logs.remove(vm_id), ..self }
    }

    /// The events from a sequence number on.
    pub open spec fn events_since(self, seq: nat) -> Seq<Event<P>> {
        self.events.filter(|e: Event<P>| e.seq >= seq)
    }

    /// The events that came from a VM.
    pub open spec fn events_for(self, vm_id: Seq<char>) -> Seq<Event<P>> {
        self.events.filter(|e: Event<P>| e.is_from(vm_id))
    }
}

/// Event log with append-only storage and a live feed.
#[verifier::reject_recursive_types(P)]
pub struct EventLog<P: AppProtocol = NullProtocol> {
    events: Vec<Event<P>>,
    next_seq: u64,
    broadcast: broadcast::Sender<u64>,
    vm_logs: Table<VmLogBuffer>,
}

impl<P: AppProtocol> View for EventLog<P> {
    type V = LogModel<P>;

    closed spec fn view(&self) -> LogModel<P> {
        LogModel {
            events: self.events@,
            vm_logs: self.vm_logs@.map_values(|buffer: VmLogBuffer| buffer@),
            announced: feed::announced(self.broadcast),
        }
    }
}

impl<P: AppProtocol> EventLog<P> {
    /// Whether the log is in order.
    pub open spec fn wf(&self) -> bool {
        &&& self@.valid()
        &&& self.inner_wf()
    }

    pub closed spec fn inner_wf(&self) -> bool {
        &&& self.next_seq == self.events@.len()
        &&& feed::depth(self.broadcast) >= FEED_CAPACITY
        &&& self.vm_logs.wf()
        &&& forall|id: Seq<char>| #[trigger]
            self.vm_logs@.dom().contains(id) ==> {
                &&& self.vm_logs@[id].wf()
                &&& self.vm_logs@[id].capacity() == LOG_LINES
            }
    }

    /// Whether what is announced from now on reaches a receiver, which missed no more than the first
    /// announcements of this log.
    pub closed spec fn reaches(&self, receiver: broadcast::Receiver<u64>) -> bool {
        &&& feed::same_feed(self.broadcast, receiver)
        &&& feed::missed(receiver).is_prefix_of(feed::announced(self.broadcast))
    }

    /// Whether this log reaches every receiver that it reached in an earlier state.
    pub open spec fn keeps_subscribers(&self, before: &EventLog<P>) -> bool {
        forall|receiver: broadcast::Receiver<u64>|
            before.reaches(receiver) ==> #[trigger] self.reaches(receiver)
    }

    /// A receiver that a log reaches missed the first announcements of this log.
    pub proof fn lemma_missed_first(&self, receiver: broadcast::Receiver<u64>)
        requires
            self.reaches(receiver),
        ensures
            feed::missed(receiver).is_prefix_of(self@.announced),
    {
    }

    pub fn new() -> (log: EventLog<P>)
        ensures
            log.wf(),
            log@ == LogModel::<P>::empty(),
    {
        let log = EventLog {
            events: Vec::new(),
            next_seq: 0,
            broadcast: feed::open_feed(FEED_CAPACITY),
            vm_logs: Table::new(),
        };
        assert(log@ =~= LogModel::<P>::empty());
        log
    }

    /// Appends an event that happened at a given time, and hands out the stored event.
    pub fn append_at(&mut self, payload: EventPayload<P>, timestamp: u64) -> (event: &Event<P>)
        requires
            old(self).wf(),
        ensures
            final(self).wf(),
            final(self)@ == old(self)@.appended(payload, timestamp),
            final(self).keeps_subscribers(old(self)),
            *event == old(self)@.next_event(payload, timestamp),
    {
        let ghost before = self@;
        let seq = self.next_seq;
        let vm_id = match payload.vm_id() {
            Some(id) => Some(id.clone()),
            None => None,
        };
        if let EventPayload::VmLog { vm_id: log_id, stream, line } = &payload {
            let mut buffer = match self.vm_logs.remove(log_id) {
                Some(buffer) => buffer,
                None => VmLogBuffer::new(LOG_LINES),
            };
            buffer.push(*stream, line.clone(), timestamp);
            self.vm_logs.insert(log_id.clone(), buffer);
        }
        self.events.push(Event { seq, timestamp, vm_id, payload });
        let stored: usize = self.events.len();
        self.next_seq = seq + 1;
        feed::announce(&mut self.broadcast, seq);
        assert(self@ =~= before.appended(payload, timestamp));
        &self.events[stored - 1]
    }

    /// Appends an event that happened at the time that the clock gave. `None`, and no change to the log,
    /// where it gave none.
    pub fn append_when(&mut self, payload: EventPayload<P>, now: Option<u64>) -> (event: Option<&Event<P>>)
        requires
            old(self).wf(),
        ensures
            final(self).wf(),
            match now {
                Some(timestamp) => {
                    &&& event matches Some(e) && *e == old(self)@.next_event(payload, timestamp)
                    &&& final(self)@ == old(self)@.appended(payload, timestamp)
                },
                None => event is None && final(self)@ == old(self)@,
            },
            final(self).keeps_subscribers(old(self)),
    {
        match now {
            Some(timestamp) => Some(self.append_at(payload, timestamp)),
            None => None,
        }
    }

    /// Append an event to the log, with the current time. `None`, and no change to the log, where the
    /// clock is set to a time before the Unix epoch.
    pub fn append(&mut self, payload: EventPayload<P>) -> (event: Option<&Event<P>>)
        requires
            old(self).wf(),
        ensures
            final(self).wf(),
            match event {
                Some(e) => {
                    &&& *e == old(self)@.next_event(payload, e.timestamp)
                    &&& final(self)@ == old(self)@.appended(payload, e.timestamp)
                },
                None => final(self)@ == old(self)@,
            },
            final(self).keeps_subscribers(old(self)),
    {
        self.append_when(payload, clock::now_ms())
    }

    /// Subscribe to the numbers of the events that are appended from now on. The subscriber loses none as
    /// long as it is no more than [`FEED_CAPACITY`] behind.
    pub fn subscribe(&self) -> (receiver: broadcast::Receiver<u64>)
        requires
            self.wf(),
        ensures
            self.reaches(receiver),
            feed::missed(receiver) == self@.announced,
            feed::slack(receiver) >= FEED_CAPACITY,
    {
        feed::listen(&self.broadcast)
    }

    /// The event with a sequence number.
    pub fn get(&self, seq: u64) -> (event: Option<&Event<P>>)
        requires
            self.wf(),
        ensures
            match event {
                Some(e) => seq < self@.events.len() && *e == self@.events[seq as int],
                None => seq >= self@.events.len(),
            },
    {
        if seq < self.events.len() as u64 {
            Some(&self.events[seq as usize])
        } else {
            None
        }
    }

    /// Get events since a sequence number.
    pub fn since(&self, seq: u64) -> (found: Vec<&Event<P>>)
        requires
            self.wf(),
        ensures
            found@.unref() == self@.events_since(seq as nat),
    {
        let mut found: Vec<&Event<P>> = Vec::new();
        let ghost wanted = |e: Event<P>| e.seq >= seq as nat;
        let mut i: usize = 0;
        proof {
            assert(self.events@.take(0).filter(wanted) =~= Seq::empty());
            assert(found@.unref() =~= Seq::empty());
        }
        while i < self.events.len()
            invariant
                i <= self.events@.len(),
                wanted == (|e: Event<P>| e.seq >= seq as nat),
                found@.unref() == self.events@.take(i as int).filter(wanted),
            decreases self.events@.len() - i,
        {
            let event = &self.events[i];
            let ghost kept = found@;
            proof {
                lemma_filter_step(self.events@, i as int, wanted);
            }
            if event.seq >= seq {
                found.push(event);
                assert(found@.unref() =~= kept.unref().push(*event));
            }
            i += 1;
        }
        assert(self.events@.take(i as int) =~= self@.events);
        found
    }

    /// Get events for a specific VM.
    pub fn for_vm(&self, vm_id: &VmId) -> (found: Vec<&Event<P>>)
        requires
            self.wf(),
        ensures
            found@.unref() == self@.events_for(vm_id@),
    {
        let mut found: Vec<&Event<P>> = Vec::new();
        let ghost wanted = |e: Event<P>| e.is_from(vm_id@);
        let mut i: usize = 0;
        proof {
            assert(self.events@.take(0).filter(wanted) =~= Seq::empty());
            assert(found@.unref() =~= Seq::empty());
        }
        while i < self.events.len()
            invariant
                i <= self.events@.len(),
                wanted == (|e: Event<P>| e.is_from(vm_id@)),
                found@.unref() == self.events@.take(i as int).filter(wanted),
            decreases self.events@.len() - i,
        {
            let event = &self.events[i];
            let ghost kept = found@;
            proof {
                lemma_filter_step(self.events@, i as int, wanted);
            }
            if let Some(id) = &event.vm_id {
                if *id == *vm_id {
                    found.push(event);
                    assert(found@.unref() =~= kept.unref().push(*event));
                }
            }
            i += 1;
        }
        assert(self.events@.take(i as int) =~= self@.events);
        found
    }

    /// Tail the last N log lines for a VM.
    pub fn tail_vm_logs(&self, vm_id: &VmId, n: usize) -> (lines: Vec<LogEntry>)
        requires
            self.wf(),
        ensures
            lines@ == last_of(self@.lines_of(vm_id@), n as nat),
    {
        match self.vm_logs.get(vm_id) {
            Some(buffer) => buffer.tail(n),
            None => Vec::new(),
        }
    }

    /// Initialize a log buffer for a new VM.
    pub fn init_vm(&mut self, vm_id: &VmId)
        requires
            old(self).wf(),
        ensures
            final(self).wf(),
            final(self)@ == old(self)@.with_buffer(vm_id@),
            final(self).keeps_subscribers(old(self)),
    {
        let ghost before = self@;
        self.vm_logs.insert(vm_id.clone(), VmLogBuffer::new(LOG_LINES));
        assert(self@ =~= before.with_buffer(vm_id@));
    }

    /// Clean up log buffer when VM is deallocated.
    pub fn cleanup_vm(&mut self, vm_id: &VmId)
        requires
            old(self).wf(),
        ensures
            final(self).wf(),
            final(self)@ == old(self)@.without_buffer(vm_id@),
            final(self).keeps_subscribers(old(self)),
    {
        let ghost before = self@;
        let _ = self.vm_logs.remove(vm_id);
        assert(self@ =~= before.without_buffer(vm_id@));
    }

    /// Total number of events in the log.
    pub fn len(&self) -> (len: usize)
        ensures
            len == self@.events.len(),
    {
        self.events.len()
    }

    /// Whether the event log is empty.
    pub fn is_empty(&self) -> (empty: bool)
        ensures
            empty == (self@.events.len() == 0),
    {
        self.events.is_empty()
    }
}

/// Filtering one element more adds it at the end, or nothing.
proof fn lemma_filter_step<T>(s: Seq<T>, i: int, wanted: spec_fn(T) -> bool)
    requires
        0 <= i < s.len(),
    ensures
        s.take(i + 1).filter(wanted) == if wanted(s[i]) {
            s.take(i).filter(wanted).push(s[i])
        } else {
            s.take(i).filter(wanted)
        },
{
    reveal(Seq::filter);
    assert(s.take(i + 1).drop_last() =~= s.take(i));
}

/// Appending keeps every event that is in the log, at its place, and adds one at the end; a log in order
/// stays in order.
pub proof fn lemma_append_only<P: AppProtocol>(log: LogModel<P>, payload: EventPayload<P>, timestamp: u64)
    requires
        log.valid(),
        log.events.len() < u64::MAX,
    ensures
        log.appended(payload, timestamp).valid(),
        log.appended(payload, timestamp).events.len() == log.events.len() + 1,
        log.events.is_prefix_of(log.appended(payload, timestamp).events),
        log.announced.is_prefix_of(log.appended(payload, timestamp).announced),
{
    let after = log.appended(payload, timestamp);
    assert(log.events =~= after.events.subrange(0, log.events.len() as int));
    assert(log.announced =~= after.announced.subrange(0, log.announced.len() as int));
}

/// Whatever is appended to a log, the numbers that are announced are those of the appended events, each once
/// and in order.
pub proof fn lemma_announcements_follow_log<P: AppProtocol>(
    log: LogModel<P>,
    items: Seq<(EventPayload<P>, u64)>,
)
    requires
        log.valid(),
        log.events.len() + items.len() <= u64::MAX,
    ensures
        appended_all(log, items).valid(),
        appended_all(log, items).announced == log.announced + Seq::new(
            items.len(),
            |i: int| (log.events.len() + i) as u64,
        ),
        appended_all(log, items).events.len() == log.events.len() + items.len(),
    decreases items.len(),
{
    if items.len() == 0 {
        assert(appended_all(log, items).announced =~= log.announced + Seq::new(
            items.len(),
            |i: int| (log.events.len() + i) as u64,
        ));
    } else {
        let rest = items.drop_last();
        lemma_announcements_follow_log(log, rest);
        lemma_append_only(appended_all(log, rest), items.last().0, items.last().1);
        assert(appended_all(log, items).announced =~= log.announced + Seq::new(
            items.len(),
            |i: int| (log.events.len() + i) as u64,
        ));
    }
}

/// The events since a sequence number are the end of the log that starts at that number.
pub proof fn lemma_since_is_suffix<P: AppProtocol>(log: LogModel<P>, seq: nat)
    requires
        log.valid(),
    ensures
        log.events_since(seq) == if seq < log.events.len() {
            log.events.skip(seq as int)
        } else {
            Seq::empty()
        },
{
    lemma_since_prefix(log, seq, log.events.len() as int);
    assert(log.events.take(log.events.len() as int) =~= log.events);
    if seq < log.events.len() {
        assert(log.events.subrange(seq as int, log.events.len() as int) =~= log.events.skip(seq as int));
    }
}

proof fn lemma_since_prefix<P: AppProtocol>(log: LogModel<P>, seq: nat, n: int)
    requires
        log.valid(),
        0 <= n <= log.events.len(),
    ensures
        log.events.take(n).filter(|e: Event<P>| e.seq >= seq) == if seq < n {
            log.events.subrange(seq as int, n)
        } else {
            Seq::empty()
        },
    decreases n,
{
    let wanted = |e: Event<P>| e.seq >= seq;
    if n == 0 {
        reveal(Seq::filter);
    } else {
        lemma_since_prefix(log, seq, n - 1);
        lemma_filter_step(log.events, n - 1, wanted);
        let found = log.events.take(n).filter(wanted);
        if seq < n {
            assert(found =~= log.events.subrange(seq as int, n));
        }
    }
}

/// An appended event shows up at the end of the events of the VM that it came from, and leaves the events
/// of all others as they were.
pub proof fn lemma_for_vm_after_append<P: AppProtocol>(
    log: LogModel<P>,
    payload: EventPayload<P>,
    timestamp: u64,
    vm_id: Seq<char>,
)
    ensures
        log.appended(payload, timestamp).events_for(vm_id) == if log.next_event(
            payload,
            timestamp,
        ).is_from(vm_id) {
            log.events_for(vm_id).push(log.next_event(payload, timestamp))
        } else {
            log.events_for(vm_id)
        },
{
    reveal(Seq::filter);
    let after = log.appended(payload, timestamp);
    assert(after.events.drop_last() =~= log.events);
}

/// The log after payloads, each with its time, were appended one by one.
pub open spec fn appended_all<P: AppProtocol>(
    log: LogModel<P>,
    items: Seq<(EventPayload<P>, u64)>,
) -> LogModel<P>
    decreases items.len(),
{
    if items.len() == 0 {
        log
    } else {
        appended_all(log, items.drop_last()).appended(items.last().0, items.last().1)
    }
}

/// What can happen to an event log.
#[verifier::ext_equal]
#[verifier::reject_recursive_types(P)]
pub enum LogChange<P: AppProtocol> {
    /// A payload is appended.
    Append { payload: EventPayload<P>, timestamp: u64 },
    /// An empty log buffer is set up for a VM.
    Init { vm_id: Seq<char> },
    /// The log buffer of a VM is removed.
    Cleanup { vm_id: Seq<char> },
}

/// The log after a run of changes.
pub open spec fn changed_all<P: AppProtocol>(log: LogModel<P>, changes: Seq<LogChange<P>>) -> LogModel<P>
    decreases changes.len(),
{
    if changes.len() == 0 {
        log
    } else {
        let before = changed_all(log, changes.drop_last());
        match changes.last() {
            LogChange::Append { payload, timestamp } => before.appended(payload, timestamp),
            LogChange::Init { vm_id } => before.with_buffer(vm_id),
            LogChange::Cleanup { vm_id } => before.without_buffer(vm_id),
        }
    }
}

/// Whether a run of changes neither sets up nor removes the log buffer of a VM.
pub open spec fn keeps_buffer<P: AppProtocol>(changes: Seq<LogChange<P>>, vm_id: Seq<char>) -> bool {
    forall|i: int|
        0 <= i < changes.len() ==> match #[trigger] changes[i] {
            LogChange::Append { .. } => true,
            LogChange::Init { vm_id: id } => id != vm_id,
            LogChange::Cleanup { vm_id: id } => id != vm_id,
        }
}

/// The lines that a VM logged in a run of changes.
pub open spec fn logged_lines<P: AppProtocol>(changes: Seq<LogChange<P>>, vm_id: Seq<char>) -> Seq<LogEntry>
    decreases changes.len(),
{
    if changes.len() == 0 {
        Seq::empty()
    } else {
        let before = logged_lines(changes.drop_last(), vm_id);
        match changes.last() {
            LogChange::Append {
                payload: EventPayload::VmLog { vm_id: id, stream, line },
                timestamp,
            } => if id@ == vm_id {
                before.push((stream, line, timestamp))
            } else {
                before
            },
            _ => before,
        }
    }
}

/// Whatever happens to a log, but for setting up or removing the buffer of a VM, this buffer goes on to hold
/// the last lines that the VM logged, in their order, and nothing of other VMs.
pub proof fn lemma_tail_follows_log<P: AppProtocol>(
    log: LogModel<P>,
    changes: Seq<LogChange<P>>,
    vm_id: Seq<char>,
)
    requires
        log.lines_of(vm_id).len() <= LOG_LINES,
        keeps_buffer(changes, vm_id),
    ensures
        changed_all(log, changes).lines_of(vm_id) == last_of(
            log.lines_of(vm_id) + logged_lines(changes, vm_id),
            LOG_LINES as nat,
        ),
    decreases changes.len(),
{
    let start = log.lines_of(vm_id);
    if changes.len() == 0 {
        assert(start + logged_lines(changes, vm_id) =~= start);
    } else {
        let rest = changes.drop_last();
        assert(keeps_buffer(rest, vm_id)) by {
            assert forall|i: int| 0 <= i < rest.len() implies match #[trigger] rest[i] {
                LogChange::Append { .. } => true,
                LogChange::Init { vm_id: id } => id != vm_id,
                LogChange::Cleanup { vm_id: id } => id != vm_id,
            } by {
                assert(rest[i] == changes[i]);
            }
        }
        lemma_tail_follows_log(log, rest, vm_id);
        assert(changes.last() == changes[changes.len() - 1]);
        let before = start + logged_lines(rest, vm_id);
        let after = start + logged_lines(changes, vm_id);
        let kept = changed_all(log, changes).lines_of(vm_id);
        if let LogChange::Append {
            payload: EventPayload::VmLog { vm_id: id, stream, line },
            timestamp,
        } = changes.last() {
            if id@ == vm_id {
                assert(after =~= before.push((stream, line, timestamp)));
                assert(kept =~= last_of(after, LOG_LINES as nat));
            }
        }
    }
}

/// The tail of a VM whose buffer was just set up, was just removed, or was never there, holds the last lines
/// that it logged since, and nothing else.
pub proof fn lemma_tail_of_new_vm<P: AppProtocol>(
    log: LogModel<P>,
    changes: Seq<LogChange<P>>,
    vm_id: Seq<char>,
)
    requires
        keeps_buffer(changes, vm_id),
    ensures
        ({
            let logged = last_of(logged_lines(changes, vm_id), LOG_LINES as nat);
            &&& changed_all(log.with_buffer(vm_id), changes).lines_of(vm_id) == logged
            &&& changed_all(log.without_buffer(vm_id), changes).lines_of(vm_id) == logged
            &&& !log.vm_logs.dom().contains(vm_id) ==> changed_all(log, changes).lines_of(vm_id) == logged
        }),
{
    let logged = logged_lines(changes, vm_id);
    assert(Seq::<LogEntry>::empty() + logged =~= logged);
    lemma_tail_follows_log(log.with_buffer(vm_id), changes, vm_id);
    lemma_tail_follows_log(log.without_buffer(vm_id), changes, vm_id);
    if !log.vm_logs.dom().contains(vm_id) {
        lemma_tail_follows_log(log, changes, vm_id);
    }
}

/// What a receiver that a log reaches is handed from its subscription on: what was announced after what it
/// missed. It loses the oldest of it where it is more than its slack behind.
pub open spec fn handed<P: AppProtocol>(
    log: LogModel<P>,
    receiver: broadcast::Receiver<u64>,
) -> Seq<u64> {
    log.announced.skip(feed::missed(receiver).len() as int)
}

/// A subscriber gets the number of every event that was appended since it subscribed, each once and in
/// order, and of no other, as long as it is no more than its slack behind: what it missed is what was announced before, and what it is handed are the
/// numbers of all events behind those.
pub proof fn lemma_subscriber_gets_each_event_once<P: AppProtocol>(
    log: &EventLog<P>,
    receiver: broadcast::Receiver<u64>,
)
    requires
        log.wf(),
        log.reaches(receiver),
    ensures
        log@.announced == feed::missed(receiver) + handed(log@, receiver),
        handed(log@, receiver) == log@.events.skip(feed::missed(receiver).len() as int).map_values(
            |e: Event<P>| e.seq,
        ),
{
    log.lemma_missed_first(receiver);
    let missed = feed::missed(receiver);
    assert(log@.announced =~= missed + handed(log@, receiver));
    let since = log@.events.skip(missed.len() as int);
    assert forall|i: int| 0 <= i < since.len() implies handed(log@, receiver)[i] == (#[trigger] since[i]).seq by {
        assert(since[i] == log@.events[missed.len() + i]);
        assert(log@.announced[missed.len() + i] == missed.len() + i);
    }
    assert(handed(log@, receiver) =~= since.map_values(|e: Event<P>| e.seq));
}

/// Appending an event hands its number to every subscriber, once, behind all that it was handed before.
pub proof fn lemma_append_reaches_subscribers<P: AppProtocol>(
    before: &EventLog<P>,
    after: &EventLog<P>,
    receiver: broadcast::Receiver<u64>,
    payload: EventPayload<P>,
    timestamp: u64,
)
    requires
        before.wf(),
        before.reaches(receiver),
        after@ == before@.appended(payload, timestamp),
        after.keeps_subscribers(before),
    ensures
        after.reaches(receiver),
        handed(after@, receiver) == handed(before@, receiver).push(
            before@.next_event(payload, timestamp).seq,
        ),
{
    before.lemma_missed_first(receiver);
    assert(handed(after@, receiver) =~= handed(before@, receiver).push(
        before@.next_event(payload, timestamp).seq,
    ));
}

/// After the log buffer of a VM was removed, its tail is empty; the events stay.
pub proof fn lemma_cleanup_empties_tail<P: AppProtocol>(log: LogModel<P>, vm_id: Seq<char>, n: nat)
    ensures
        last_of(log.without_buffer(vm_id).lines_of(vm_id), n) == Seq::<LogEntry>::empty(),
        log.without_buffer(vm_id).events == log.events,
{
}

/// A tail is as long as was asked for, or else all there is, and its lines are the last ones, in order.
pub proof fn lemma_tail_is_the_end(buffer: &VmLogBuffer, n: usize, lines: Vec<LogEntry>)
    requires
        buffer.wf(),
        call_ensures(VmLogBuffer::tail, (buffer, n), lines),
    ensures
        lines@.len() <= n,
        lines@.len() <= buffer@.len(),
        lines@.len() == n || lines@.len() == buffer@.len(),
        forall|i: int|
            0 <= i < lines@.len() ==> #[trigger] lines@[i] == buffer@[buffer@.len() - lines@.len() + i],
{
}

/// Pushing a line puts it behind those in the buffer, with its stream, text and time. A buffer that is not
/// full keeps all that it held; a full one drops the oldest line and no other.
pub proof fn lemma_push_drops_the_oldest(
    buffer: &mut VmLogBuffer,
    stream: LogStream,
    line: String,
    timestamp: u64,
)
    requires
        old(buffer).wf(),
        old(buffer).capacity() > 0,
        call_ensures(VmLogBuffer::push, (buffer, stream, line, timestamp), ()),
    ensures
        old(buffer)@.len() <= old(buffer).capacity(),
        final(buffer)@.len() > 0,
        final(buffer)@.last() == (stream, line, timestamp),
        old(buffer)@.len() < old(buffer).capacity() ==> final(buffer)@.drop_last() == old(buffer)@,
        old(buffer)@.len() == old(buffer).capacity() ==> final(buffer)@.drop_last()
            == old(buffer)@.drop_first(),
{
    let all = old(buffer)@.push((stream, line, timestamp));
    assert(all.drop_last() =~= old(buffer)@);
    if old(buffer)@.len() > 0 {
        assert(all.skip(1).drop_last() =~= old(buffer)@.drop_first());
    }
}

/// A payload about a VM names this VM, and one about the pool or the service names none.
pub proof fn lemma_payloads_name_their_vm<P: AppProtocol>(payload: EventPayload<P>, named: Option<&VmId>)
    requires
        call_ensures(EventPayload::<P>::vm_id, (&payload,), named),
    ensures
        named is None <==> payload is PoolState || payload is Service,
        payload matches EventPayload::VmLifecycle { vm_id, .. } ==> (named matches Some(id) && id@ == vm_id@),
        payload matches EventPayload::VmLog { vm_id, .. } ==> (named matches Some(id) && id@ == vm_id@),
        payload matches EventPayload::VmInfra { vm_id, .. } ==> (named matches Some(id) && id@ == vm_id@),
        payload matches EventPayload::VmApp { vm_id, .. } ==> (named matches Some(id) && id@ == vm_id@),
{
}

/// Appending a payload adds one event, with the next number, the given time, the payload as it is and the VM
/// that it is about, hands out this event, announces its number, and keeps all events before. A line that a
/// VM logs is added to its log, where no more than the last thousand are kept; the logs of all other VMs,
/// and all logs on any other payload, stay as they are.
pub proof fn lemma_append_records_payload<P: AppProtocol>(
    log: &mut EventLog<P>,
    payload: EventPayload<P>,
    timestamp: u64,
    event: &Event<P>,
    vm: Seq<char>,
)
    requires
        old(log).wf(),
        call_ensures(EventLog::<P>::append_at, (log, payload, timestamp), event),
    ensures
        final(log)@.events.len() == old(log)@.events.len() + 1,
        final(log)@.events.drop_last() == old(log)@.events,
        final(log)@.events.last() == *event,
        final(log)@.announced == old(log)@.announced.push(event.seq),
        event.payload == payload,
        event.timestamp == timestamp,
        event.seq == old(log)@.events.len(),
        event.vm_id is None <==> payload is PoolState || payload is Service,
        payload matches EventPayload::VmLog { vm_id, stream, line } ==> {
            let before = old(log)@.lines_of(vm_id@);
            let after = final(log)@.lines_of(vm_id@);
            &&& after.len() > 0
            &&& after.last() == (stream, line, timestamp)
            &&& before.len() < 1000 ==> after.drop_last() == before
            &&& before.len() == 1000 ==> after.drop_last() == before.drop_first()
            &&& vm != vm_id@ ==> final(log)@.lines_of(vm) == old(log)@.lines_of(vm)
        },
        payload !is VmLog ==> final(log)@.lines_of(vm) == old(log)@.lines_of(vm),
{
    let events = old(log)@.events;
    assert(final(log)@.events.drop_last() =~= events);
    assert(final(log)@.valid());
    assert(final(log)@.events[events.len() as int].seq == events.len());
    if let EventPayload::VmLog { vm_id, stream, line } = payload {
        let before = old(log)@.lines_of(vm_id@);
        let all = before.push((stream, line, timestamp));
        assert(all.drop_last() =~= before);
        if before.len() == 1000 {
            assert(all.skip(1).drop_last() =~= before.drop_first());
        }
    }
}

/// Of what is found for a VM: it is all of its events, and no other, in the order of the log.
pub proof fn lemma_for_vm_finds_its_events<P: AppProtocol>(
    log: &EventLog<P>,
    vm_id: VmId,
    found: Vec<&Event<P>>,
)
    requires
        log.wf(),
        call_ensures(EventLog::<P>::for_vm, (log, &vm_id), found),
    ensures
        forall|i: int|
            0 <= i < log@.events.len() && ((#[trigger] log@.events[i]).vm_id matches Some(id) && id@ == vm_id@)
                ==> found@.unref().contains(log@.events[i]),
        forall|i: int|
            0 <= i < found@.len() ==> {
                &&& log@.events.contains(*#[trigger] found@[i])
                &&& found@[i].vm_id matches Some(id)
                &&& id@ == vm_id@
            },
        forall|i: int, j: int|
            0 <= i < j < found@.len() ==> (#[trigger] found@[i]).seq < (#[trigger] found@[j]).seq,
{
    let wanted = |e: Event<P>| e.is_from(vm_id@);
    let events = log@.events;
    let all = found@.unref();
    events.filter_lemma(wanted);
    assert(all == events.filter(wanted));
    assert forall|i: int|
        0 <= i < events.len() && ((#[trigger] events[i]).vm_id matches Some(id) && id@ == vm_id@)
        implies all.contains(events[i]) by {
        assert(wanted(events[i]));
    }
    assert forall|i: int| 0 <= i < found@.len() implies {
        &&& events.contains(*#[trigger] found@[i])
        &&& found@[i].vm_id matches Some(id)
        &&& id@ == vm_id@
    } by {
        assert(all[i] == *found@[i]);
        assert(all.contains(all[i]));
        assert(wanted(all[i]));
        events.lemma_filter_contains_rev(wanted, all[i]);
    }
    lemma_filter_keeps_order(log@, events.len() as int, wanted);
    assert(events.take(events.len() as int) =~= events);
    assert forall|i: int, j: int| 0 <= i < j < found@.len() implies (#[trigger] found@[i]).seq < (
    #[trigger] found@[j]).seq by {
        assert(all[i] == *found@[i]);
        assert(all[j] == *found@[j]);
    }
}

/// The events that a filter lets through of the first ones of a log stay in order.
proof fn lemma_filter_keeps_order<P: AppProtocol>(
    log: LogModel<P>,
    n: int,
    wanted: spec_fn(Event<P>) -> bool,
)
    requires
        log.valid(),
        0 <= n <= log.events.len(),
    ensures
        ({
            let kept = log.events.take(n).filter(wanted);
            &&& forall|i: int| 0 <= i < kept.len() ==> (#[trigger] kept[i]).seq < n
            &&& forall|i: int, j: int|
                0 <= i < j < kept.len() ==> (#[trigger] kept[i]).seq < (#[trigger] kept[j]).seq
        }),
    decreases n,
{
    if n == 0 {
        reveal(Seq::filter);
    } else {
        lemma_filter_keeps_order(log, n - 1, wanted);
        lemma_filter_step(log.events, n - 1, wanted);
    }
}

/// What is found since a number are the events from that number on, each at its place, and none before.
pub proof fn lemma_since_finds_the_rest<P: AppProtocol>(log: &EventLog<P>, seq: u64, found: Vec<&Event<P>>)
    requires
        log.wf(),
        call_ensures(EventLog::<P>::since, (log, seq), found),
    ensures
        seq <= log@.events.len() ==> found@.len() == log@.events.len() - seq,
        seq > log@.events.len() ==> found@.len() == 0,
        forall|i: int|
            0 <= i < found@.len() ==> {
                &&& *#[trigger] found@[i] == log@.events[seq + i]
                &&& found@[i].seq == seq + i
            },
{
    lemma_since_is_suffix(log@, seq as nat);
    let all = found@.unref();
    assert(all.len() == found@.len());
    assert forall|i: int| 0 <= i < found@.len() implies {
        &&& *#[trigger] found@[i] == log@.events[seq + i]
        &&& found@[i].seq == seq + i
    } by {
        assert(all[i] == *found@[i]);
        assert(log@.events[seq + i].seq == seq + i);
    }
}

} // verus!
