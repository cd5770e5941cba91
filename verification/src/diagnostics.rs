//! Metadata-only diagnostics. Callers cannot pass prompts, answers or remote errors.
use vstd::prelude::*;
use vstd::string::*;
use crate::text::{begins_with, byte_count, byte_len, chars_of, code, decimal, decimal_text, is_digit, opt_str};

verus! {

#[derive(Debug, Clone, Copy, PartialEq, Eq, Structural)]
pub enum Event {
    RuntimeStarted,
    ConnectionStarting,
    ConnectionEstablished,
    ConnectionReconnecting,
    ArtifactSent,
    AnswerDelivered,
    DeliveryFailed,
    CardFailed,
    Overloaded,
    HealthWriteFailed,
    ArchiveReconciled,
    TaskPrepared,
    TaskStarted,
    TaskFinished,
    FilesPrepared,
    FilesFinished,
    QuestionReceived,
    QuestionSent,
    AnswerReturned,
    RuntimeExit,
    Panic,
    Reconnect,
    HeartbeatTimeout,
}

#[derive(Debug, Clone, Copy, PartialEq, Eq, Structural)]
pub enum Status {
    /// Written as `Ok`.
    Succeeded,
    Failed,
    Rejected,
    Transport,
    Protocol,
    Authentication,
    Proxy,
    Overloaded,
    Exhausted,
}

pub open spec fn event_name(e: Event) -> Seq<char> {
    match e {
        Event::RuntimeStarted => "RuntimeStarted"@,
        Event::ConnectionStarting => "ConnectionStarting"@,
        Event::ConnectionEstablished => "ConnectionEstablished"@,
        Event::ConnectionReconnecting => "ConnectionReconnecting"@,
        Event::ArtifactSent => "ArtifactSent"@,
        Event::AnswerDelivered => "AnswerDelivered"@,
        Event::DeliveryFailed => "DeliveryFailed"@,
        Event::CardFailed => "CardFailed"@,
        Event::Overloaded => "Overloaded"@,
        Event::HealthWriteFailed => "HealthWriteFailed"@,
        Event::ArchiveReconciled => "ArchiveReconciled"@,
        Event::TaskPrepared => "TaskPrepared"@,
        Event::TaskStarted => "TaskStarted"@,
        Event::TaskFinished => "TaskFinished"@,
        Event::FilesPrepared => "FilesPrepared"@,
        Event::FilesFinished => "FilesFinished"@,
        Event::QuestionReceived => "QuestionReceived"@,
        Event::QuestionSent => "QuestionSent"@,
        Event::AnswerReturned => "AnswerReturned"@,
        Event::RuntimeExit => "RuntimeExit"@,
        Event::Panic => "Panic"@,
        Event::Reconnect => "Reconnect"@,
        Event::HeartbeatTimeout => "HeartbeatTimeout"@,
    }
}

pub open spec fn status_name(s: Status) -> Seq<char> {
    match s {
        Status::Succeeded => "Ok"@,
        Status::Failed => "Failed"@,
        Status::Rejected => "Rejected"@,
        Status::Transport => "Transport"@,
        Status::Protocol => "Protocol"@,
        Status::Authentication => "Authentication"@,
        Status::Proxy => "Proxy"@,
        Status::Overloaded => "Overloaded"@,
        Status::Exhausted => "Exhausted"@,
    }
}

impl Event {
    fn name(&self) -> (r: &'static str)
        ensures
            r@ == event_name(*self),
    {
        match self {
            Event::RuntimeStarted => "RuntimeStarted",
            Event::ConnectionStarting => "ConnectionStarting",
            Event::ConnectionEstablished => "ConnectionEstablished",
            Event::ConnectionReconnecting => "ConnectionReconnecting",
            Event::ArtifactSent => "ArtifactSent",
            Event::AnswerDelivered => "AnswerDelivered",
            Event::DeliveryFailed => "DeliveryFailed",
            Event::CardFailed => "CardFailed",
            Event::Overloaded => "Overloaded",
            Event::HealthWriteFailed => "HealthWriteFailed",
            Event::ArchiveReconciled => "ArchiveReconciled",
            Event::TaskPrepared => "TaskPrepared",
            Event::TaskStarted => "TaskStarted",
            Event::TaskFinished => "TaskFinished",
            Event::FilesPrepared => "FilesPrepared",
            Event::FilesFinished => "FilesFinished",
            Event::QuestionReceived => "QuestionReceived",
            Event::QuestionSent => "QuestionSent",
            Event::AnswerReturned => "AnswerReturned",
            Event::RuntimeExit => "RuntimeExit",
            Event::Panic => "Panic",
            Event::Reconnect => "Reconnect",
            Event::HeartbeatTimeout => "HeartbeatTimeout",
        }
    }
}

impl Status {
    fn name(&self) -> (r: &'static str)
        ensures
            r@ == status_name(*self),
    {
        match self {
            Status::Succeeded => "Ok",
            Status::Failed => "Failed",
            Status::Rejected => "Rejected",
            Status::Transport => "Transport",
            Status::Protocol => "Protocol",
            Status::Authentication => "Authentication",
            Status::Proxy => "Proxy",
            Status::Overloaded => "Overloaded",
            Status::Exhausted => "Exhausted",
        }
    }
}

/// A task identifier as this bridge generates them: digits and colons.
pub open spec fn internal_id(s: Seq<char>) -> bool {
    &&& s.len() > 0
    &&& byte_count(s) <= 64
    &&& forall|i: int| 0 <= i < s.len() ==> is_digit(#[trigger] s[i]) || s[i] == ':'
}

/// What a record shows of a task: nothing, unless it is an internal identifier.
pub open spec fn shown_task(task: Option<Seq<char>>) -> Seq<char> {
    match task {
        Some(id) => if internal_id(id) {
            id
        } else {
            Seq::empty()
        },
        None => Seq::empty(),
    }
}

/// The text of a record.
pub open spec fn record_text(event: Event, status: Status, task: Option<Seq<char>>, count: nat, unix_ms: nat, pid: nat) -> Seq<char> {
    "{\"event\":\""@ + event_name(event) + "\",\"status\":\""@ + status_name(status) + "\",\"unix_ms\":"@ + decimal(unix_ms)
        + ",\"pid\":"@ + decimal(pid) + ",\"task\":\""@ + shown_task(task) + "\",\"count\":"@ + decimal(count) + "}"@
}

fn is_internal_id(s: &str) -> (r: bool)
    ensures
        r == internal_id(s@),
{
    if s.is_empty() || byte_len(s) > 64 {
        return false;
    }
    let chars = chars_of(s);
    let mut i: usize = 0;
    while i < chars.len()
        invariant
            i <= chars@.len(),
            chars@ == s@,
            s@.len() > 0,
            byte_count(s@) <= 64,
            forall|j: int| 0 <= j < i ==> is_digit(#[trigger] chars@[j]) || chars@[j] == ':',
        decreases chars.len() - i,
    {
        let c: char = chars[i];
        let n: u32 = code(c);
        if !((48 <= n && n <= 57) || c == ':') {
            assert(!(is_digit(s@[i as int]) || s@[i as int] == ':'));
            return false;
        }
        i = i + 1;
    }
    true
}

/// One line of the diagnostic log.
pub fn record(event: Event, status: Status, task: Option<&str>, count: usize, unix_ms: u64, pid: u32) -> (r: String)
    ensures
        r@ == record_text(event, status, opt_str(task), count as nat, unix_ms as nat, pid as nat),
{
    let mut t = "{\"event\":\"".to_owned();
    t.append(event.name());
    t.append("\",\"status\":\"");
    t.append(status.name());
    t.append("\",\"unix_ms\":");
    t.append(decimal_text(unix_ms).as_str());
    t.append(",\"pid\":");
    t.append(decimal_text(pid as u64).as_str());
    t.append(",\"task\":\"");
    // Task identifiers are generated internally; do not serialize arbitrary strings.
    match task {
        Some(id) => {
            if is_internal_id(id) {
                t.append(id);
            } else {
                t.append("");
                proof {
                    reveal_strlit("");
                    assert(""@ =~= Seq::<char>::empty());
                }
            }
        },
        None => {
            t.append("");
            proof {
                reveal_strlit("");
                assert(""@ =~= Seq::<char>::empty());
            }
        },
    }
    t.append("\",\"count\":");
    t.append(decimal_text(count as u64).as_str());
    t.append("}");
    t
}

/// A record depends on a task text only when it is an internal identifier:
/// whatever else a caller passes leaves no trace.
pub proof fn payloads_leave_no_trace(event: Event, status: Status, a: Seq<char>, b: Seq<char>, count: nat, unix_ms: nat, pid: nat)
    requires
        !internal_id(a),
        !internal_id(b),
    ensures
        record_text(event, status, Some(a), count, unix_ms, pid) == record_text(event, status, Some(b), count, unix_ms, pid),
        record_text(event, status, Some(a), count, unix_ms, pid) == record_text(event, status, None, count, unix_ms, pid),
{
}

/// A stage name of lower-case letters and underscores.
pub open spec fn stage_name(s: Seq<char>) -> bool {
    &&& s.len() > 0
    &&& byte_count(s) <= 32
    &&& forall|i: int| 0 <= i < s.len() ==> 97 <= (#[trigger] s[i]) as int <= 122 || s[i] == '_'
}

pub open spec fn startup_text(stage: Seq<char>, unix_ms: nat, pid: nat) -> Seq<char> {
    "{\"event\":\"startup_failed\",\"stage\":\""@ + (if stage_name(stage) {
        stage
    } else {
        "unknown"@
    }) + "\",\"unix_ms\":"@ + decimal(unix_ms) + ",\"pid\":"@ + decimal(pid) + "}"@
}

/// Bounded record for failures before any sink exists: only a static stage
/// name and process metadata reach the terminal, never the error text.
pub fn startup_record(stage: &str, unix_ms: u64, pid: u32) -> (r: String)
    ensures
        r@ == startup_text(stage@, unix_ms as nat, pid as nat),
{
    let mut known = !stage.is_empty() && byte_len(stage) <= 32;
    if known {
        let chars = chars_of(stage);
        let mut i: usize = 0;
        while i < chars.len() && known
            invariant
                i <= chars@.len(),
                chars@ == stage@,
                stage@.len() > 0,
                byte_count(stage@) <= 32,
                known ==> forall|j: int| 0 <= j < i ==> 97 <= (#[trigger] chars@[j]) as int <= 122 || chars@[j] == '_',
                !known ==> !stage_name(stage@),
            decreases chars.len() - i,
        {
            let c: char = chars[i];
            let n: u32 = code(c);
            if !((97 <= n && n <= 122) || c == '_') {
                assert(!(97 <= stage@[i as int] as int <= 122 || stage@[i as int] == '_'));
                known = false;
            }
            i = i + 1;
        }
    }
    let mut t = "{\"event\":\"startup_failed\",\"stage\":\"".to_owned();
    if known {
        t.append(stage);
    } else {
        t.append("unknown");
    }
    t.append("\",\"unix_ms\":");
    t.append(decimal_text(unix_ms).as_str());
    t.append(",\"pid\":");
    t.append(decimal_text(pid as u64).as_str());
    t.append("}");
    t
}

/// The log refused a record.
#[derive(Debug, Clone, Copy, PartialEq, Eq, Structural)]
pub struct SinkError;

/// A panic's record must not linger in a buffer.
pub open spec fn written_through(event: Event) -> bool {
    event == Event::Panic
}

/// Where records go. A panic record is marked, so that it is written through.
pub trait Sink {
    fn write(&self, record: &str, panic: bool) -> Result<(), SinkError>;
}

/// Diagnostics handle owned by one assembled runtime. A missing sink records
/// nothing, which is the default for early startup.
pub struct Diagnostics<S> {
    pub sink: Option<S>,
}

impl<S: Sink> Diagnostics<S> {
    /// Bind the persistent infrastructure sink for one run.
    pub fn new(sink: S) -> (r: Self)
        ensures
            r.sink == Some(sink),
    {
        Diagnostics { sink: Some(sink) }
    }

    /// Discard every record; used by components without a run.
    pub fn noop() -> (r: Self)
        ensures
            r.sink is None,
    {
        Diagnostics { sink: None }
    }

    /// Hands one record to the sink. The result tells whether it was taken; a
    /// missing sink takes everything.
    pub fn emit(&self, event: Event, status: Status, task: Option<&str>, count: usize, unix_ms: u64, pid: u32) -> (r: bool)
        ensures
            match self.sink {
                Some(sink) => exists|line: &str, written: Result<(), SinkError>|
                    {
                        &&& line@ == record_text(event, status, opt_str(task), count as nat, unix_ms as nat, pid as nat)
                        &&& #[trigger] call_ensures(S::write, (&sink, line, written_through(event)), written)
                        &&& r == written is Ok
                    },
                None => r,
            },
    {
        let line = record(event, status, task, count, unix_ms, pid);
        match &self.sink {
            Some(sink) => {
                let line = line.as_str();
                let written = sink.write(line, event == Event::Panic);
                assert(call_ensures(S::write, (sink, line, written_through(event)), written));
                written.is_ok()
            },
            None => true,
        }
    }
}

/// A record names what happened and how it went, and its task only by an
/// identifier of this bridge.
pub proof fn records_name_what_happened(event: Event, status: Status, task: Option<Seq<char>>, count: nat, unix_ms: nat, pid: nat)
    ensures
        ({
            let head = "{\"event\":\""@ + event_name(event) + "\",\"status\":\""@ + status_name(status) + "\",\"unix_ms\":"@ + decimal(
                unix_ms,
            );
            begins_with(record_text(event, status, task, count, unix_ms, pid), head)
        }),
        status_name(Status::Succeeded) == "Ok"@,
        status_name(Status::Failed) == "Failed"@,
        status_name(Status::Rejected) == "Rejected"@,
        event_name(Event::TaskFinished) == "TaskFinished"@,
        event_name(Event::TaskStarted) == "TaskStarted"@,
        event_name(Event::AnswerDelivered) == "AnswerDelivered"@,
        event_name(Event::DeliveryFailed) == "DeliveryFailed"@,
        event_name(Event::CardFailed) == "CardFailed"@,
        task matches Some(id) ==> (internal_id(id) ==> shown_task(task) == id),
{
    let head = "{\"event\":\""@ + event_name(event) + "\",\"status\":\""@ + status_name(status) + "\",\"unix_ms\":"@ + decimal(
        unix_ms,
    );
    assert(record_text(event, status, task, count, unix_ms, pid).take(head.len() as int) =~= head);
}

} // verus!
