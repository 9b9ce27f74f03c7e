//! Commands and events that travel between a client, the service and the supervisors inside the VMs.
//!
//! - Host (service) and VM (supervisor) talk over the standard streams of a process.
//! - Clients and the service talk over a Unix socket.

use std::fmt::Debug;

use vstd::prelude::*;

use crate::text;

verus! {

/// Strongly-typed VM identifier.
#[derive(Debug, Hash)]
pub struct VmId(String);

impl View for VmId {
    type V = Seq<char>;

    closed spec fn view(&self) -> Seq<char> {
        self.0@
    }
}

impl VmId {
    pub fn new(id: &str) -> (vm_id: VmId)
        ensures
            vm_id@ == id@,
    {
        VmId(id.to_owned())
    }

    pub fn as_str(&self) -> (id: &str)
        ensures
            id@ == self@,
    {
        self.0.as_str()
    }

    /// The identifier as text.
    pub fn to_string(&self) -> (id: String)
        ensures
            id@ == self@,
    {
        self.0.clone()
    }
}

impl Clone for VmId {
    fn clone(&self) -> (vm_id: VmId)
        ensures
            vm_id == *self,
    {
        VmId(self.0.clone())
    }
}

impl PartialEq for VmId {
    fn eq(&self, other: &VmId) -> (same: bool) {
        self.0 == other.0
    }
}

impl vstd::std_specs::cmp::PartialEqSpecImpl for VmId {
    open spec fn obeys_eq_spec() -> bool {
        true
    }

    open spec fn eq_spec(&self, other: &VmId) -> bool {
        self@ == other@
    }
}

impl Eq for VmId {

}

impl From<String> for VmId {
    fn from(id: String) -> (vm_id: VmId)
        ensures
            vm_id@ == id@,
    {
        VmId(id)
    }
}

impl vstd::std_specs::convert::FromSpecImpl<String> for VmId {
    open spec fn obeys_from_spec() -> bool {
        false
    }

    open spec fn from_spec(id: String) -> VmId {
        arbitrary()
    }
}

impl From<&str> for VmId {
    fn from(id: &str) -> (vm_id: VmId)
        ensures
            vm_id@ == id@,
    {
        VmId(id.to_owned())
    }
}

impl vstd::std_specs::convert::FromSpecImpl<&str> for VmId {
    open spec fn obeys_from_spec() -> bool {
        false
    }

    open spec fn from_spec(id: &str) -> VmId {
        arbitrary()
    }
}

/// Identifiers are equal exactly where the texts that they were made of are, character by character.
pub proof fn lemma_vm_id_is_its_text(a: VmId, b: VmId, a_text: Seq<char>, b_text: Seq<char>)
    requires
        a@ == a_text,
        b@ == b_text,
    ensures
        vstd::std_specs::cmp::PartialEqSpec::eq_spec(&a, &b) <==> a_text == b_text,
{
}

/// Application-specific commands and events that flow through VMs.
///
/// Infrastructure messages (ping, shutdown, health, allocation) are handled by the pool; everything
/// else is defined by the application through this trait. Implementors are markers without data.
pub trait AppProtocol: Send + Sync + Clone + Debug + Sized + 'static {
    /// Commands the application sends to processes inside VMs.
    type Command: Send + Clone + Debug + PartialEq + 'static;

    /// Events that processes inside VMs emit back to the application.
    type Event: Send + Clone + Debug + PartialEq + 'static;
}

/// No application messages. Used when only infrastructure operations are needed.
#[derive(Debug, Clone, Copy, PartialEq, Eq)]
pub struct NullProtocol;

impl AppProtocol for NullProtocol {
    type Command = NullCommand;

    type Event = NullEvent;
}

/// What nobody can make: its field is private and nothing here builds one.
#[derive(Debug, Clone, Copy, PartialEq, Eq)]
pub struct Never {
    sealed: (),
}

/// Command type of which no value can be made.
#[derive(Debug, Clone, Copy, PartialEq, Eq)]
pub enum NullCommand {
    Never(Never),
}

/// Event type of which no value can be made.
#[derive(Debug, Clone, Copy, PartialEq, Eq)]
pub enum NullEvent {
    Never(Never),
}

/// Commands sent from host to supervisor (inside VM).
#[derive(Debug, Clone, PartialEq)]
pub enum VmCommand<P: AppProtocol = NullProtocol> {
    /// Health check ping.
    Ping,
    /// Graceful shutdown.
    Shutdown,
    /// Application-defined command (forwarded to child processes inside VM).
    App { payload: P::Command },
}

/// Events emitted by supervisor to host.
#[derive(Debug, Clone, PartialEq)]
pub enum VmEvent<P: AppProtocol = NullProtocol> {
    /// Supervisor is ready.
    Ready,
    /// Pong response to ping.
    Pong,
    /// Supervisor is shutting down.
    Shutdown,
    /// Application-defined event (emitted by child processes inside VM).
    App { payload: P::Event },
}

#[derive(Debug, Clone, Copy, PartialEq, Eq, Structural)]
pub enum OutputStream {
    Stdout,
    Stderr,
}

/// Built-in protocol for shell command execution.
#[derive(Debug, Clone, Copy, PartialEq, Eq)]
pub struct ShellProtocol;

impl AppProtocol for ShellProtocol {
    type Command = ShellCommand;

    type Event = ShellEvent;
}

/// Shell command: execute a shell command inside the VM.
#[derive(Debug, Clone, PartialEq)]
pub enum ShellCommand {
    /// Execute a shell command via `sh -c`.
    Execute { command: String },
}

/// Shell event: output from a shell command.
#[derive(Debug, Clone, PartialEq)]
pub enum ShellEvent {
    /// Command output (stdout/stderr).
    Output { stream: OutputStream, data: String },
    /// Command completed with exit code.
    CommandCompleted { exit_code: i32 },
}

/// Stream type for log output.
#[derive(Debug, Clone, Copy, PartialEq, Eq, Structural)]
pub enum LogStream {
    Stdout,
    Stderr,
    Supervisor,
}

/// A single log line with metadata.
#[derive(Debug, Clone, PartialEq)]
pub struct LogLine {
    pub stream: LogStream,
    pub line: String,
    pub timestamp: u64,
}

/// Priority level for VM allocation. Higher priority VMs can evict lower priority ones when the pool is
/// full.
#[derive(Debug, Clone, Copy, PartialEq, Eq, PartialOrd, Ord, Hash, Structural)]
pub enum Priority {
    /// Background/batch work. First to be evicted.
    Low,
    /// Normal interactive work.
    Normal,
    /// Urgent work. Can evict Low and Normal.
    High,
    /// Critical work. Can evict anything below.
    Critical,
}

impl Priority {
    /// The place of this level among all, the lowest being 0.
    pub open spec fn spec_rank(self) -> u8 {
        match self {
            Priority::Low => 0,
            Priority::Normal => 1,
            Priority::High => 2,
            Priority::Critical => 3,
        }
    }

    /// The place of this level among all, the lowest being 0.
    pub fn rank(&self) -> (rank: u8)
        ensures
            rank == self.spec_rank(),
    {
        match self {
            Priority::Low => 0,
            Priority::Normal => 1,
            Priority::High => 2,
            Priority::Critical => 3,
        }
    }

    /// The name of this level.
    pub open spec fn name(self) -> Seq<char> {
        match self {
            Priority::Low => "low"@,
            Priority::Normal => "normal"@,
            Priority::High => "high"@,
            Priority::Critical => "critical"@,
        }
    }

    /// The level as text.
    pub fn to_string(&self) -> (text: String)
        ensures
            text@ == self.name(),
    {
        match self {
            Priority::Low => "low".to_owned(),
            Priority::Normal => "normal".to_owned(),
            Priority::High => "high".to_owned(),
            Priority::Critical => "critical".to_owned(),
        }
    }
}

impl Default for Priority {
    fn default() -> (priority: Priority)
        ensures
            priority == Priority::Normal,
    {
        Priority::Normal
    }
}

/// Configuration for a VM.
#[derive(Debug, Clone, PartialEq)]
pub struct VmConfig {
    /// CPU cores (default: 2).
    pub cpus: Option<u32>,
    /// Memory in MB (default: 2048).
    pub memory_mb: Option<u32>,
    /// Priority level for pool eviction.
    pub priority: Priority,
    /// Environment variables to set.
    pub env: Vec<(String, String)>,
}

impl Default for VmConfig {
    fn default() -> (config: VmConfig)
        ensures
            config.cpus is None,
            config.memory_mb is None,
            config.priority == Priority::Normal,
            config.env@.len() == 0,
    {
        VmConfig { cpus: None, memory_mb: None, priority: Priority::Normal, env: Vec::new() }
    }
}

/// Commands sent from clients to the service.
#[derive(Debug, Clone, PartialEq)]
pub enum ServiceCommand<P: AppProtocol = NullProtocol> {
    /// Allocate a new VM from the pool.
    Allocate { image: String, config: VmConfig },
    /// Deallocate a VM back to the pool.
    Deallocate { vm_id: VmId },
    /// Send an application command to a VM.
    Send { vm_id: VmId, command: P::Command },
    /// Save VM state to a snapshot.
    Snapshot { vm_id: VmId, name: String },
    /// Restore VM from a snapshot.
    Restore { vm_id: VmId, snapshot: String },
    /// Get pool status.
    Status,
    /// Get last N log lines from a VM.
    TailLogs { vm_id: VmId, lines: usize },
    /// Subscribe to real-time logs from a VM (or all VMs if None).
    SubscribeLogs { vm_id: Option<VmId> },
    /// Unsubscribe from log streaming.
    UnsubscribeLogs,
}

/// Events emitted by the service to clients.
#[derive(Debug, Clone, PartialEq)]
pub enum ServiceEvent<P: AppProtocol = NullProtocol> {
    /// VM was allocated.
    VmAllocated { vm_id: VmId, image: String },
    /// VM started and supervisor is ready.
    VmReady { vm_id: VmId },
    /// VM stopped (graceful).
    VmStopped { vm_id: VmId },
    /// VM crashed or was killed.
    VmCrashed { vm_id: VmId, error: String },
    /// Pool status response.
    PoolStatus { total: usize, available: usize, allocated: usize },
    /// Log line from a VM (streamed).
    VmLog { vm_id: VmId, stream: LogStream, line: String },
    /// Response to TailLogs command.
    LogTail { vm_id: VmId, lines: Vec<LogLine> },
    /// Acknowledgment of log subscription.
    LogsSubscribed { vm_id: Option<VmId> },
    /// An error occurred processing a command.
    Error { message: String },
    /// Acknowledgment that an application command was forwarded to a VM.
    CommandSent { vm_id: VmId },
    /// Application event forwarded from a VM.
    VmApp { vm_id: VmId, event: P::Event },
}

/// Frames the JSON text of a value as a line, terminated by a line feed. Where the text holds no line
/// feed, the one at the end is the only one of the line.
pub fn encode_json_line(json: String) -> (line: String)
    ensures
        line@ == json@.push('\n'),
        !json@.contains('\n') ==> text::first_of(line@, '\n') == json@.len(),
{
    proof {
        reveal_strlit("\n");
    }
    let ghost text = json@;
    let mut line = json;
    line.append("\n");
    assert(line@ =~= text.push('\n'));
    proof {
        text::lemma_first_of(line@, '\n');
        if !text.contains('\n') && text::first_of(line@, '\n') < text.len() {
            assert(text[text::first_of(line@, '\n')] == line@[text::first_of(line@, '\n')]);
        } else if text::first_of(line@, '\n') > text.len() {
            assert(line@[text.len() as int] == '\n');
        }
    }
    line
}

/// Takes the JSON text out of a line: what is left when the white space at its two ends, the line feed
/// among it, is cut off.
pub fn decode_json_line(line: &str) -> (json: &str)
    ensures
        text::is_trimmed(line@, json@),
{
    text::trim(line)
}

/// Decoding gives back the JSON text in a line, whatever white space is around it, where the text itself
/// neither begins nor ends with white space.
pub proof fn lemma_json_line_roundtrip(
    before: Seq<char>,
    json: Seq<char>,
    after: Seq<char>,
    decoded: Seq<char>,
)
    requires
        json.len() > 0,
        !text::white_space(json[0]),
        !text::white_space(json.last()),
        forall|i: int| 0 <= i < before.len() ==> text::white_space(#[trigger] before[i]),
        forall|i: int| 0 <= i < after.len() ==> text::white_space(#[trigger] after[i]),
        text::is_trimmed(before + json + after, decoded),
    ensures
        decoded == json,
{
    let line = before + json + after;
    let lo = before.len() as int;
    let hi = lo + json.len();
    assert forall|i: int| 0 <= i < lo implies text::white_space(#[trigger] line[i]) by {
        assert(line[i] == before[i]);
    }
    assert forall|i: int| hi <= i < line.len() implies text::white_space(#[trigger] line[i]) by {
        assert(line[i] == after[i - hi]);
    }
    assert(line[lo] == json[0]);
    assert(line[hi - 1] == json.last());
    assert(text::is_trim_range(line, lo, hi));
    assert(line.subrange(lo, hi) =~= json);
    assert(text::is_trimmed(line, json));
    text::lemma_trimmed_unique(line, json, decoded);
}

/// Whether a text is framed as JSON objects are: between braces, and without a line feed. Every command and
/// every event is written as an object, whose strings have their line feeds escaped.
pub open spec fn object_text(json: Seq<char>) -> bool {
    &&& json.len() >= 2
    &&& json[0] == '{'
    &&& json.last() == '}'
    &&& !json.contains('\n')
}

/// The line of a JSON object ends in a line feed and holds no other, and decoding it gives back the object,
/// also with white space added around the line.
pub proof fn lemma_object_line_roundtrip(
    before: Seq<char>,
    json: Seq<char>,
    after: Seq<char>,
    decoded: Seq<char>,
)
    requires
        object_text(json),
        forall|i: int| 0 <= i < before.len() ==> text::white_space(#[trigger] before[i]),
        forall|i: int| 0 <= i < after.len() ==> text::white_space(#[trigger] after[i]),
        text::is_trimmed(before + json.push('\n') + after, decoded),
    ensures
        json.push('\n').last() == '\n',
        text::first_of(json.push('\n'), '\n') == json.len(),
        decoded == json,
{
    let line = json.push('\n');
    text::lemma_first_of(line, '\n');
    let at = text::first_of(line, '\n');
    assert(line[json.len() as int] == '\n');
    if at < json.len() {
        assert(json[at] == line[at]);
    }
    let ending = seq!['\n'] + after;
    assert(before + line + after =~= before + json + ending);
    assert forall|i: int| 0 <= i < ending.len() implies text::white_space(#[trigger] ending[i]) by {
        if i > 0 {
            assert(ending[i] == after[i - 1]);
        }
    }
    lemma_json_line_roundtrip(before, json, ending, decoded);
}

/// A value that is sent as a JSON line arrives as it was, whatever its JSON form, as long as that is an object
/// text from which the value can be read back.
pub proof fn lemma_value_survives_line<T>(
    to_json: spec_fn(T) -> Seq<char>,
    from_json: spec_fn(Seq<char>) -> Option<T>,
    value: T,
    before: Seq<char>,
    after: Seq<char>,
    decoded: Seq<char>,
)
    requires
        object_text(to_json(value)),
        from_json(to_json(value)) == Some(value),
        forall|i: int| 0 <= i < before.len() ==> text::white_space(#[trigger] before[i]),
        forall|i: int| 0 <= i < after.len() ==> text::white_space(#[trigger] after[i]),
        text::is_trimmed(before + to_json(value).push('\n') + after, decoded),
    ensures
        from_json(decoded) == Some(value),
{
    lemma_object_line_roundtrip(before, to_json(value), after, decoded);
}

/// The lines of a text, each with the line feed that ends it.
pub open spec fn lines_in(s: Seq<char>) -> Seq<Seq<char>>
    decreases s.len(),
{
    if s.len() == 0 {
        Seq::empty()
    } else {
        proof {
            text::lemma_first_of(s, '\n');
        }
        let at = text::first_of(s, '\n');
        if at < s.len() {
            seq![s.take(at + 1)] + lines_in(s.skip(at + 1))
        } else {
            seq![s]
        }
    }
}

/// The JSON texts of values, framed as lines, one after the other.
pub open spec fn framed(jsons: Seq<Seq<char>>) -> Seq<char>
    decreases jsons.len(),
{
    if jsons.len() == 0 {
        Seq::empty()
    } else {
        jsons[0].push('\n') + framed(jsons.skip(1))
    }
}

/// However many values are sent one after the other, each arrives as a line of its own, in order, where no
/// JSON text holds a line feed.
pub proof fn lemma_framing_keeps_values_apart(jsons: Seq<Seq<char>>)
    requires
        forall|i: int| 0 <= i < jsons.len() ==> !(#[trigger] jsons[i]).contains('\n'),
    ensures
        lines_in(framed(jsons)) == jsons.map_values(|json: Seq<char>| json.push('\n')),
    decreases jsons.len(),
{
    let lines = jsons.map_values(|json: Seq<char>| json.push('\n'));
    if jsons.len() == 0 {
        assert(lines =~= Seq::empty());
    } else {
        let json = jsons[0];
        let rest = jsons.skip(1);
        let stream = framed(jsons);
        assert forall|i: int| 0 <= i < rest.len() implies !(#[trigger] rest[i]).contains('\n') by {
            assert(rest[i] == jsons[i + 1]);
        }
        lemma_framing_keeps_values_apart(rest);
        text::lemma_first_of(stream, '\n');
        let at = text::first_of(stream, '\n');
        assert(stream[json.len() as int] == '\n');
        assert(at == json.len()) by {
            if at < json.len() {
                assert(json[at] == stream[at]);
                assert(json.contains('\n'));
            }
        }
        assert(stream.take(at + 1) =~= json.push('\n'));
        assert(stream.skip(at + 1) =~= framed(rest));
        assert(lines =~= seq![json.push('\n')] + rest.map_values(|json: Seq<char>| json.push('\n')));
    }
}

/// The levels are ranked in the order Low, Normal, High, Critical, and each has a name of its own.
pub proof fn lemma_levels_are_ordered(level: Priority, other: Priority, rank: u8, other_rank: u8)
    requires
        call_ensures(Priority::rank, (&level,), rank),
        call_ensures(Priority::rank, (&other,), other_rank),
    ensures
        rank < other_rank <==> match level {
            Priority::Low => other !is Low,
            Priority::Normal => other is High || other is Critical,
            Priority::High => other is Critical,
            Priority::Critical => false,
        },
        rank == other_rank <==> level == other,
        level.name() == other.name() <==> level == other,
{
    reveal_strlit("low");
    reveal_strlit("normal");
    reveal_strlit("high");
    reveal_strlit("critical");
    assert("low"@.len() == 3 && "normal"@.len() == 6 && "high"@.len() == 4 && "critical"@.len() == 8);
}

/// Decoding a line gives back the JSON text that was encoded in it, where that neither begins nor ends with
/// white space; and the line is the text with one line feed at its end.
pub proof fn lemma_decoding_undoes_encoding(json: String, line: String, read: &str, decoded: &str)
    requires
        call_ensures(encode_json_line, (json,), line),
        read@ == line@,
        call_ensures(decode_json_line, (read,), decoded),
    ensures
        line@.len() == json@.len() + 1,
        line@.drop_last() == json@,
        line@.last() == '\n',
        json@.len() > 0 && !text::white_space(json@[0]) && !text::white_space(json@.last()) ==> decoded@
            == json@,
        json@.len() == 0 ==> decoded@.len() == 0,
{
    assert(line@.drop_last() =~= json@);
    let nothing = Seq::<char>::empty();
    if json@.len() > 0 && !text::white_space(json@[0]) && !text::white_space(json@.last()) {
        assert(nothing + json@ + seq!['\n'] =~= line@);
        lemma_json_line_roundtrip(nothing, json@, seq!['\n'], decoded@);
    }
    if json@.len() == 0 {
        let (lo, hi) = choose|lo: int, hi: int| #[trigger]
            text::is_trim_range(read@, lo, hi) && decoded@ == read@.subrange(lo, hi);
        if lo < hi {
            assert(read@[lo] == '\n');
        }
    }
}

} // verus!
