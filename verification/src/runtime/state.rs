//! Runtime state: execution, interactions, cards and bounded background jobs.
//!
//! The runtime performs no I/O. What it wants done it leaves as values:
//! messages in the outbox, background jobs, settled receipts and diagnostic
//! records. Its mathematical model is [`State`]; [`Step`] adds the failure
//! that ended a step.
use vstd::prelude::*;
use vstd::string::*;
use std::collections::VecDeque;
use crate::cards::{snapshot_text, Action, ActionText, Actions, Click, Owner, OwnerText, SnapshotText, Views};
use crate::diagnostics::{Event, Status};
use crate::directories::{Confirmations, Creation, CreationText, DirectoryView};
use crate::execution::{Execution, Gate};
use crate::files::Attachment;
use crate::interactions::{distinct_items, Interactions, Pending, PendingText, ReplyOutcome};
use crate::messaging::{DeliveryError, MessageId};
use crate::model::{Directory, DirectoryText, SessionKey, SessionText, TaskSpec, TaskText};
use crate::outcome::{Outcome, OutcomeView};
use crate::plans::{Offer, OfferText};
use crate::ports::{BackendError, Model, Sandbox, TurnInput, TurnRef};
use crate::presentation::{Request, RequestText};
use crate::requests::FileChange;
use crate::runtime::ack::Ack;
use crate::runtime::limits;
use crate::scheduler::{closed_gates_run_nothing, AdmissionTicket, Admissions, Scheduler};
use crate::sessions::{ChangeText, ListedThread, PreferenceChange, SessionStoreError, StartError, ThreadAction};
use crate::text::{opt, same};
use crate::textmap::TextMap;
use crate::view::{Panel, PanelView};

verus! {

/// Categorized terminal failure of one serial run. Every message is safe for
/// delivery to users and logs; the variant is the classification operators
/// act on.
#[derive(Debug)]
pub enum RuntimeError {
    /// The transport or an internal sender ended mid-run.
    Connection(&'static str),
    /// A bounded capacity was exhausted and a control response could be lost.
    Capacity(&'static str),
    /// An interaction invariant was violated; answers are never guessed.
    Interaction(&'static str),
    /// Compaction, archival or a task limit requires a controlled stop.
    Maintenance(&'static str),
    /// The agent connection or protocol failed beyond recovery.
    Backend(&'static str),
    /// Durable state failed; the cause category stays available on the error.
    Storage(SessionStoreError),
    /// The working directory left the workspace or its settings are unreadable.
    Directory(&'static str),
    /// An internal invariant was violated; the run cannot continue safely.
    Internal(&'static str),
}

/// A failure by its text.
pub enum Fault {
    Connection(Seq<char>),
    Capacity(Seq<char>),
    Interaction(Seq<char>),
    Maintenance(Seq<char>),
    Backend(Seq<char>),
    Storage,
    Directory(Seq<char>),
    Internal(Seq<char>),
}

impl View for RuntimeError {
    type V = Fault;

    open spec fn view(&self) -> Fault {
        match self {
            RuntimeError::Connection(t) => Fault::Connection(t@),
            RuntimeError::Capacity(t) => Fault::Capacity(t@),
            RuntimeError::Interaction(t) => Fault::Interaction(t@),
            RuntimeError::Maintenance(t) => Fault::Maintenance(t@),
            RuntimeError::Backend(t) => Fault::Backend(t@),
            RuntimeError::Storage(_) => Fault::Storage,
            RuntimeError::Directory(t) => Fault::Directory(t@),
            RuntimeError::Internal(t) => Fault::Internal(t@),
        }
    }
}

/// The sentence shown for a failure.
pub open spec fn fault_sentence(f: Fault) -> Seq<char> {
    match f {
        Fault::Connection(t) => t,
        Fault::Capacity(t) => t,
        Fault::Interaction(t) => t,
        Fault::Maintenance(t) => t,
        Fault::Backend(t) => t,
        Fault::Storage => "状态保存或读取失败"@,
        Fault::Directory(t) => t,
        Fault::Internal(t) => t,
    }
}

impl RuntimeError {
    pub fn message(&self) -> (r: String)
        ensures
            r@ == fault_sentence(self@),
    {
        match self {
            RuntimeError::Connection(t) => (*t).to_owned(),
            RuntimeError::Capacity(t) => (*t).to_owned(),
            RuntimeError::Interaction(t) => (*t).to_owned(),
            RuntimeError::Maintenance(t) => (*t).to_owned(),
            RuntimeError::Backend(t) => (*t).to_owned(),
            RuntimeError::Storage(_) => "状态保存或读取失败".to_owned(),
            RuntimeError::Directory(t) => (*t).to_owned(),
            RuntimeError::Internal(t) => (*t).to_owned(),
        }
    }
}

/// One message or card click of a user.
pub struct Input {
    pub attachments: Vec<Attachment>,
    pub card: Option<Click>,
    pub id: String,
    pub user: String,
    pub chat: String,
    /// None denotes media or a separately validated card; never an ordinary task.
    pub text: Option<String>,
    /// Settled exactly once per input; dropping rejects.
    pub ack: Ack,
}

/// An input by its texts.
pub struct InputText {
    pub attachments: Seq<Attachment>,
    pub card: Option<(Seq<char>, Seq<char>)>,
    pub id: Seq<char>,
    pub user: Seq<char>,
    pub chat: Seq<char>,
    pub text: Option<Seq<char>>,
    pub ack: Option<u64>,
}

impl View for Input {
    type V = InputText;

    open spec fn view(&self) -> InputText {
        InputText {
            attachments: self.attachments@,
            card: match self.card {
                Some(c) => Some((c.token@, c.source@)),
                None => None,
            },
            id: self.id@,
            user: self.user@,
            chat: self.chat@,
            text: opt(self.text),
            ack: self.ack@,
        }
    }
}

/// User-facing entry point configuration for one run.
pub struct Settings {
    pub root: Directory,
    pub directory: Directory,
    pub allowed: Vec<String>,
    pub open_access: bool,
    pub sandbox: Sandbox,
    pub epoch: u64,
}

pub enum ActiveKind {
    Task,
    Compact { acknowledged: bool, terminal: Option<Outcome>, thread: Option<String> },
}

/// The kind of an execution by its texts.
pub enum ActiveKindText {
    Task,
    Compact { acknowledged: bool, terminal: Option<OutcomeView>, thread: Option<Seq<char>> },
}

pub struct Active {
    pub kind: ActiveKind,
    pub spec: TaskSpec,
    pub gate: Option<Execution>,
    pub turn: Option<TurnRef>,
    pub stopping: bool,
    pub output: String,
    pub plan: Option<(String, bool)>,
    pub truncated: bool,
    pub started: u64,
}

/// The running execution by its texts.
pub struct ActiveText {
    pub kind: ActiveKindText,
    pub spec: TaskText,
    pub gate: Option<Gate>,
    pub turn: Option<TurnRef>,
    pub stopping: bool,
    pub output: Seq<char>,
    pub plan: Option<(Seq<char>, bool)>,
    pub truncated: bool,
    pub started: u64,
}

impl View for ActiveKind {
    type V = ActiveKindText;

    open spec fn view(&self) -> ActiveKindText {
        match self {
            ActiveKind::Task => ActiveKindText::Task,
            ActiveKind::Compact { acknowledged, terminal, thread } => ActiveKindText::Compact {
                acknowledged: *acknowledged,
                terminal: match terminal {
                    Some(o) => Some(o@),
                    None => None,
                },
                thread: opt(*thread),
            },
        }
    }
}

pub open spec fn opt_gate(g: Option<Execution>) -> Option<Gate> {
    match g {
        Some(e) => Some(e@),
        None => None,
    }
}

impl View for Active {
    type V = ActiveText;

    open spec fn view(&self) -> ActiveText {
        ActiveText {
            kind: self.kind@,
            spec: self.spec@,
            gate: opt_gate(self.gate),
            turn: self.turn,
            stopping: self.stopping,
            output: self.output@,
            plan: match self.plan {
                Some(p) => Some((p.0@, p.1)),
                None => None,
            },
            truncated: self.truncated,
            started: self.started,
        }
    }
}

impl ActiveText {
    pub open spec fn is_compact(self) -> bool {
        self.kind is Compact
    }

    /// The compaction's end is known but the backend has not acknowledged it.
    pub open spec fn compact_is_terminal(self) -> bool {
        self.kind matches ActiveKindText::Compact { terminal: Some(_), .. }
    }

    pub open spec fn wf(self) -> bool {
        self.gate matches Some(g) ==> g.wf()
    }

    /// The execution still takes requests of this turn.
    pub open spec fn accepts(self, turn: TurnRef) -> bool {
        !self.stopping && (self.gate matches Some(g) && g.accepts(turn))
    }
}

impl Active {
    pub fn is_compact(&self) -> (r: bool)
        ensures
            r == self@.is_compact(),
    {
        match &self.kind {
            ActiveKind::Compact { .. } => true,
            ActiveKind::Task => false,
        }
    }

    pub fn compact_is_terminal(&self) -> (r: bool)
        ensures
            r == self@.compact_is_terminal(),
    {
        match &self.kind {
            ActiveKind::Compact { terminal, .. } => terminal.is_some(),
            ActiveKind::Task => false,
        }
    }

    pub fn accepts(&self, turn: &TurnRef) -> (r: bool)
        ensures
            r == self@.accepts(*turn),
    {
        !self.stopping && match &self.gate {
            Some(g) => g.accepts_request(turn),
            None => false,
        }
    }
}

/// Task files move from the finished task to delivery in one bounded step.
pub enum FileDelivery {
    Idle,
    Holding(TaskSpec),
    Delivering,
}

pub enum FileDeliveryText {
    Idle,
    Holding(TaskText),
    Delivering,
}

impl View for FileDelivery {
    type V = FileDeliveryText;

    open spec fn view(&self) -> FileDeliveryText {
        match self {
            FileDelivery::Idle => FileDeliveryText::Idle,
            FileDelivery::Holding(t) => FileDeliveryText::Holding(t@),
            FileDelivery::Delivering => FileDeliveryText::Delivering,
        }
    }
}

/// A list card that is to be replaced in place.
pub struct PanelRefresh {
    pub source: String,
    pub owner: Owner,
    pub panel: Panel,
    pub commands: Vec<(String, String)>,
}

pub struct RefreshText {
    pub source: Seq<char>,
    pub owner: OwnerText,
    pub panel: PanelView,
    pub commands: Seq<(Seq<char>, Seq<char>)>,
}

impl View for PanelRefresh {
    type V = RefreshText;

    open spec fn view(&self) -> RefreshText {
        RefreshText {
            source: self.source@,
            owner: self.owner@,
            panel: self.panel@,
            commands: crate::cards::pairs(self.commands@),
        }
    }
}

/// The file changes announced for one turn item.
pub struct ItemChanges {
    pub turn: TurnRef,
    pub item: String,
    pub changes: Vec<FileChange>,
}

pub struct ItemChangesText {
    pub turn: TurnRef,
    pub item: Seq<char>,
    pub changes: Seq<FileChange>,
}

impl View for ItemChanges {
    type V = ItemChangesText;

    open spec fn view(&self) -> ItemChangesText {
        ItemChangesText { turn: self.turn, item: self.item@, changes: self.changes@ }
    }
}

/// What a list command shows.
pub enum ListedContent {
    Text(String),
    Threads { entries: Vec<ListedThread>, archived: bool },
    Models { entries: Vec<Model>, current: Option<String> },
}

/// Which setting a user asks to see.
#[derive(Debug, Clone, Copy, PartialEq, Eq, Structural)]
pub enum PreferenceQuery {
    Models,
    Model,
    Plan,
}

/// What a user chose to do with a plan.
#[derive(Debug, Clone, Copy, PartialEq, Eq, Structural)]
pub enum PlanChoice {
    Implement,
    Fresh,
    Stay,
}

/// One background job. Its completion comes back as a [`Done`].
#[allow(inconsistent_fields)]
pub enum Job {
    SyncArchive { thread: String },
    SendCard { token: String, chat: String, panel: Panel, commands: Vec<(String, String)> },
    SendPanel { source: Option<String>, owner: Owner, panel: Panel, commands: Vec<(String, String)>, deadline: u64 },
    UpdatePanel { source: String, panel: Panel },
    FinishFiles { task: TaskSpec },
    Prepare { task: TaskSpec, attachments: Vec<Attachment> },
    StartTurn { id: String, input: TurnInput },
    Interrupt { turn: TurnRef },
    Reply { pending: Pending, allow: bool },
    Deny { reply: u64 },
    ClaimCreation { input: Input, creation: Creation },
    ClaimDirectory { input: Input, current: Directory, target: String },
    ProposeDirectory { user: String, chat: String, current: Directory, target: String },
    ChangeDirectory { user: String, chat: String, current: Directory, target: String },
    CreateDirectory { creation: Creation },
    InspectDirectory { chat: String, current: Directory },
    ClaimCompact { input: Input, session: SessionKey },
    PrepareCompact { id: String, session: SessionKey },
    Compact { id: String, thread: String },
    ClaimPreference { input: Input, session: SessionKey, change: PreferenceChange },
    ChangePreference { chat: String, session: SessionKey, change: PreferenceChange },
    ShowPreferences { what: PreferenceQuery, refresh: Option<String>, chat: String, session: SessionKey, generation: u64, snapshot: (u64, Option<String>) },
    ClaimThread { input: Input, session: SessionKey, thread: String, action: ThreadAction },
    ChangeThread { chat: String, session: SessionKey, thread: String, action: ThreadAction },
    ListThreads { archived: bool, refresh: Option<String>, chat: String, session: SessionKey, generation: u64, snapshot: (u64, Option<String>) },
    Reset { input: Input, session: SessionKey },
    PlanAction { input: Input, session: SessionKey, thread: String, choice: PlanChoice, task: Option<TaskSpec> },
    ClaimTask { ticket: AdmissionTicket, input: Input },
}

/// A job by its texts.
#[allow(inconsistent_fields)]
pub enum JobText {
    SyncArchive { thread: Seq<char> },
    SendCard { token: Seq<char>, chat: Seq<char>, panel: PanelView, commands: Seq<(Seq<char>, Seq<char>)> },
    SendPanel { source: Option<Seq<char>>, owner: OwnerText, panel: PanelView, commands: Seq<(Seq<char>, Seq<char>)>, deadline: u64 },
    UpdatePanel { source: Seq<char>, panel: PanelView },
    FinishFiles { task: TaskText },
    Prepare { task: TaskText, attachments: Seq<Attachment> },
    StartTurn { id: Seq<char>, input: TurnInput },
    Interrupt { turn: TurnRef },
    Reply { pending: PendingText, allow: bool },
    Deny { reply: u64 },
    ClaimCreation { input: InputText, creation: CreationText },
    ClaimDirectory { input: InputText, current: DirectoryText, target: Seq<char> },
    ProposeDirectory { user: Seq<char>, chat: Seq<char>, current: DirectoryText, target: Seq<char> },
    ChangeDirectory { user: Seq<char>, chat: Seq<char>, current: DirectoryText, target: Seq<char> },
    CreateDirectory { creation: CreationText },
    InspectDirectory { chat: Seq<char>, current: DirectoryText },
    ClaimCompact { input: InputText, session: SessionText },
    PrepareCompact { id: Seq<char>, session: SessionText },
    Compact { id: Seq<char>, thread: Seq<char> },
    ClaimPreference { input: InputText, session: SessionText, change: ChangeText },
    ChangePreference { chat: Seq<char>, session: SessionText, change: ChangeText },
    ShowPreferences { what: PreferenceQuery, refresh: Option<Seq<char>>, chat: Seq<char>, session: SessionText, generation: u64, snapshot: SnapshotText },
    ClaimThread { input: InputText, session: SessionText, thread: Seq<char>, action: ThreadAction },
    ChangeThread { chat: Seq<char>, session: SessionText, thread: Seq<char>, action: ThreadAction },
    ListThreads { archived: bool, refresh: Option<Seq<char>>, chat: Seq<char>, session: SessionText, generation: u64, snapshot: SnapshotText },
    Reset { input: InputText, session: SessionText },
    PlanAction { input: InputText, session: SessionText, thread: Seq<char>, choice: PlanChoice, task: Option<TaskText> },
    ClaimTask { ticket: u64, input: InputText },
}

impl View for Job {
    type V = JobText;

    open spec fn view(&self) -> JobText {
        match self {
            Job::SyncArchive { thread } => JobText::SyncArchive { thread: thread@ },
            Job::SendCard { token, chat, panel, commands } => JobText::SendCard {
                token: token@,
                chat: chat@,
                panel: panel@,
                commands: crate::cards::pairs(commands@),
            },
            Job::SendPanel { source, owner, panel, commands, deadline } => JobText::SendPanel {
                source: opt(*source),
                owner: owner@,
                panel: panel@,
                commands: crate::cards::pairs(commands@),
                deadline: *deadline,
            },
            Job::UpdatePanel { source, panel } => JobText::UpdatePanel { source: source@, panel: panel@ },
            Job::FinishFiles { task } => JobText::FinishFiles { task: task@ },
            Job::Prepare { task, attachments } => JobText::Prepare { task: task@, attachments: attachments@ },
            Job::StartTurn { id, input } => JobText::StartTurn { id: id@, input: *input },
            Job::Interrupt { turn } => JobText::Interrupt { turn: *turn },
            Job::Reply { pending, allow } => JobText::Reply { pending: pending@, allow: *allow },
            Job::Deny { reply } => JobText::Deny { reply: *reply },
            Job::ClaimCreation { input, creation } => JobText::ClaimCreation { input: input@, creation: creation@ },
            Job::ClaimDirectory { input, current, target } => JobText::ClaimDirectory {
                input: input@,
                current: current@,
                target: target@,
            },
            Job::ProposeDirectory { user, chat, current, target } => JobText::ProposeDirectory {
                user: user@,
                chat: chat@,
                current: current@,
                target: target@,
            },
            Job::ChangeDirectory { user, chat, current, target } => JobText::ChangeDirectory {
                user: user@,
                chat: chat@,
                current: current@,
                target: target@,
            },
            Job::CreateDirectory { creation } => JobText::CreateDirectory { creation: creation@ },
            Job::InspectDirectory { chat, current } => JobText::InspectDirectory { chat: chat@, current: current@ },
            Job::ClaimCompact { input, session } => JobText::ClaimCompact { input: input@, session: session@ },
            Job::PrepareCompact { id, session } => JobText::PrepareCompact { id: id@, session: session@ },
            Job::Compact { id, thread } => JobText::Compact { id: id@, thread: thread@ },
            Job::ClaimPreference { input, session, change } => JobText::ClaimPreference {
                input: input@,
                session: session@,
                change: change@,
            },
            Job::ChangePreference { chat, session, change } => JobText::ChangePreference {
                chat: chat@,
                session: session@,
                change: change@,
            },
            Job::ShowPreferences { what, refresh, chat, session, generation, snapshot } => JobText::ShowPreferences {
                what: *what,
                refresh: opt(*refresh),
                chat: chat@,
                session: session@,
                generation: *generation,
                snapshot: snapshot_text(*snapshot),
            },
            Job::ClaimThread { input, session, thread, action } => JobText::ClaimThread {
                input: input@,
                session: session@,
                thread: thread@,
                action: *action,
            },
            Job::ChangeThread { chat, session, thread, action } => JobText::ChangeThread {
                chat: chat@,
                session: session@,
                thread: thread@,
                action: *action,
            },
            Job::ListThreads { archived, refresh, chat, session, generation, snapshot } => JobText::ListThreads {
                archived: *archived,
                refresh: opt(*refresh),
                chat: chat@,
                session: session@,
                generation: *generation,
                snapshot: snapshot_text(*snapshot),
            },
            Job::Reset { input, session } => JobText::Reset { input: input@, session: session@ },
            Job::PlanAction { input, session, thread, choice, task } => JobText::PlanAction {
                input: input@,
                session: session@,
                thread: thread@,
                choice: *choice,
                task: crate::scheduler::opt_task(*task),
            },
            Job::ClaimTask { ticket, input } => JobText::ClaimTask { ticket: ticket.id(), input: input@ },
        }
    }
}

/// One finished background job, grouped by the causal flow it belongs to.
/// Every completion either advances its flow or reports a failure to the user;
/// results unknown to the protocol stop the run instead of retrying.
pub enum Done {
    /// Durable claim chains over session state. Each claim job owns the
    /// scheduler's session-mutation gate until its terminal event releases it.
    Session(SessionDone),
    /// Task lifecycle: plan implementation, durable admission, preparation,
    /// turn start and backend control replies (interrupts, denials).
    Task(TaskDone),
    /// Card and panel delivery receipts plus interaction reply receipts.
    Card(CardDone),
    /// Task-file delivery.
    Delivery(DeliveryDone),
}

#[allow(inconsistent_fields)]
pub enum SessionDone {
    ArchiveSynced { result: Result<(), SessionStoreError> },
    DirectoryProposed { user: String, chat: String, current: Directory, target: String, result: Result<Option<Directory>, SessionStoreError> },
    CreationClaim { input: Input, creation: Creation, result: Result<bool, ()> },
    DirectoryCreated { user: String, chat: String, result: Result<Directory, SessionStoreError> },
    DirectoryClaim { input: Input, current: Directory, target: String, result: Result<bool, ()> },
    DirectoryChanged { user: String, chat: String, result: Result<Directory, SessionStoreError> },
    DirectoryListed { chat: String, result: Result<DirectoryView, SessionStoreError> },
    /// Compaction claim chain. Between `Prepared` and `Submitted` the active
    /// entry is a compaction; `acknowledged` records that the backend accepted
    /// the request, and a terminal event that arrives unacknowledged parks its
    /// outcome in `terminal` while keeping the mutation gate closed.
    CompactClaim { input: Input, session: SessionKey, result: Result<bool, ()> },
    CompactPrepared { id: String, result: Result<String, StartError> },
    CompactSubmitted { id: String, result: Result<(), BackendError> },
    PreferenceClaim { input: Input, session: SessionKey, change: PreferenceChange, result: Result<bool, ()> },
    PreferenceChanged { chat: String, result: Result<(), StartError> },
    ThreadClaim { input: Input, session: SessionKey, thread: String, action: ThreadAction, result: Result<bool, ()> },
    /// The success carries the sentence that the operation reports.
    SessionChanged { chat: String, result: Result<String, StartError> },
    Reset { input: Input, result: Result<bool, ()> },
}

#[allow(inconsistent_fields)]
pub enum TaskDone {
    PlanAction { input: Input, task: Option<TaskSpec>, result: Result<bool, String> },
    Admission { ticket: AdmissionTicket, input: Input, result: Result<bool, ()> },
    Prepared { id: String, result: Result<TurnInput, String> },
    Started { id: String, result: Result<TurnRef, BackendError> },
    Control { result: Result<(), BackendError> },
}

#[allow(inconsistent_fields)]
pub enum CardDone {
    ApprovalSent { token: String, panel: Panel, commands: Vec<(String, String)>, result: Result<MessageId, DeliveryError> },
    ApprovalReplied { outcome: ReplyOutcome },
    PanelUpdated,
    PanelSent { refreshed: bool, panel: Panel, entries: Vec<(String, Action)>, result: Result<MessageId, DeliveryError> },
    Listed { refresh: Option<String>, chat: String, session: SessionKey, generation: u64, snapshot: (u64, Option<String>), result: Result<ListedContent, StartError> },
}

pub enum DeliveryDone {
    FilesDelivered,
}

/// A diagnostic record that waits to be written.
pub struct Record {
    pub event: Event,
    pub status: Status,
    pub task: Option<String>,
    pub count: usize,
}

pub struct RecordText {
    pub event: Event,
    pub status: Status,
    pub task: Option<Seq<char>>,
    pub count: nat,
}

impl View for Record {
    type V = RecordText;

    open spec fn view(&self) -> RecordText {
        RecordText { event: self.event, status: self.status, task: opt(self.task), count: self.count as nat }
    }
}

/// Messages for the sender. `room` is how many more it takes.
pub struct Outbox {
    pub(crate) room: usize,
    pub(crate) sent: Vec<Request>,
}

/// Background jobs: how many run, and those to be spawned.
pub struct Jobs {
    pub running: usize,
    pub spawned: Vec<Job>,
}

/// Whether another job fits beside `len` others. User-triggered spawns keep
/// the control reserve free; control spawns may use it.
pub open spec fn fits(len: nat, control: bool) -> bool {
    if control {
        len < limits::BACKGROUND_JOBS
    } else {
        len + limits::CONTROL_JOB_RESERVE < limits::BACKGROUND_JOBS
    }
}

impl Jobs {
    pub open spec fn wf(&self) -> bool {
        self.running + self.spawned@.len() <= limits::BACKGROUND_JOBS
    }

    pub fn len(&self) -> (n: usize)
        requires
            self.wf(),
        ensures
            n == self.running + self.spawned@.len(),
    {
        self.running + self.spawned.len()
    }

    /// User-triggered spawns keep the control reserve free; control spawns may
    /// use it. Beyond the hard limit nothing is spawned and the run stops instead.
    pub fn can_spawn(&self, control: bool) -> (r: bool)
        requires
            self.wf(),
        ensures
            r == fits((self.running + self.spawned@.len()) as nat, control),
    {
        if control {
            self.len() < limits::BACKGROUND_JOBS
        } else {
            self.len() + limits::CONTROL_JOB_RESERVE < limits::BACKGROUND_JOBS
        }
    }
}

/// Authorization and duplicate suppression for inbound inputs: the effective
/// allowlist, the pairing throttle and one-time command ids.
pub struct Admission {
    pub(crate) allowed: TextMap<()>,
    pub(crate) pairing_window: u64,
    pub(crate) pairing_attempts: u32,
    pub(crate) seen_commands: TextMap<()>,
}

/// The single active execution plus everything that feeds it: the scheduler
/// admitting tasks, the identity counter and staged per-task attachments.
///
/// Whichever flow acquires the scheduler's session-mutation gate releases it
/// at that chain's terminal completion.
pub struct TaskTrack {
    pub(crate) scheduler: Scheduler,
    pub(crate) active: Option<Active>,
    pub(crate) next_task: u64,
    pub(crate) resources: TextMap<Vec<Attachment>>,
    pub(crate) files: FileDelivery,
}

/// Cards: minted actions, delivered views, per-user invalidation generations,
/// the panel refresh queue and the plan-offer card.
pub struct CardBook {
    pub(crate) actions: Actions,
    pub(crate) views: Views,
    pub(crate) generations: TextMap<u64>,
    pub(crate) refreshes: VecDeque<PanelRefresh>,
    pub(crate) updating_panel: bool,
    pub(crate) next_panel: u64,
    pub(crate) plan_offer: Option<Offer>,
}

/// Approval and question interactions plus their buffered protocol context.
pub struct Approvals {
    pub(crate) interactions: Interactions,
    pub(crate) file_changes: Vec<ItemChanges>,
    pub(crate) next_token: u64,
}

/// Per-user session bookkeeping: selected directories, creation confirmations
/// and the archive-sync backlog.
pub struct SessionBook {
    pub(crate) directories: TextMap<Directory>,
    pub(crate) confirmations: Confirmations,
    pub(crate) next_confirmation: u64,
    pub(crate) archived_threads: TextMap<()>,
}

/// Progress preview throttling.
pub struct Progress {
    pub(crate) busy: bool,
    pub(crate) last: u64,
}

/// Owner of the entire run state. Methods live beside their concern.
pub struct Runtime {
    pub(crate) settings: Settings,
    pub(crate) rich_output: bool,
    pub(crate) admission: Admission,
    pub(crate) tasks: TaskTrack,
    pub(crate) cards: CardBook,
    pub(crate) approvals: Approvals,
    pub(crate) session_book: SessionBook,
    pub(crate) progress: Progress,
    pub(crate) outbox: Outbox,
    pub(crate) jobs: Jobs,
    pub(crate) receipts: Vec<(u64, bool)>,
    pub(crate) records: Vec<Record>,
}

/// The model of the runtime.
pub struct State {
    pub root: DirectoryText,
    pub directory: DirectoryText,
    pub configured: Seq<Seq<char>>,
    pub open_access: bool,
    pub sandbox: Sandbox,
    pub epoch: u64,
    pub rich: bool,
    pub allowed: Set<Seq<char>>,
    pub pairing_window: u64,
    pub pairing_attempts: u32,
    pub seen: Set<Seq<char>>,
    pub admissions: Admissions,
    pub active: Option<ActiveText>,
    pub next_task: u64,
    pub resources: Map<Seq<char>, Seq<Attachment>>,
    pub files: FileDeliveryText,
    pub actions: Map<Seq<char>, ActionText>,
    pub views: Map<Seq<char>, PanelView>,
    pub generations: Map<Seq<char>, u64>,
    pub refreshes: Seq<RefreshText>,
    pub updating_panel: bool,
    pub next_panel: u64,
    pub plan_offer: Option<OfferText>,
    pub interactions: Map<Seq<char>, PendingText>,
    pub file_changes: Seq<ItemChangesText>,
    pub next_token: u64,
    pub directories: Map<Seq<char>, DirectoryText>,
    pub confirmations: Map<Seq<char>, CreationText>,
    pub next_confirmation: u64,
    pub archived: Set<Seq<char>>,
    pub progress_busy: bool,
    pub progress_last: u64,
    pub room: nat,
    pub sent: Seq<RequestText>,
    pub running: nat,
    pub spawned: Seq<JobText>,
    pub receipts: Seq<(u64, bool)>,
    pub records: Seq<RecordText>,
}

pub open spec fn opt_active(a: Option<Active>) -> Option<ActiveText> {
    match a {
        Some(a) => Some(a@),
        None => None,
    }
}

pub open spec fn opt_offer(o: Option<Offer>) -> Option<OfferText> {
    match o {
        Some(o) => Some(o@),
        None => None,
    }
}

impl Runtime {
    pub open(crate) spec fn view(&self) -> State {
        State {
            root: self.settings.root@,
            directory: self.settings.directory@,
            configured: crate::text::texts(self.settings.allowed@),
            open_access: self.settings.open_access,
            sandbox: self.settings.sandbox,
            epoch: self.settings.epoch,
            rich: self.rich_output,
            allowed: self.admission.allowed@.dom(),
            pairing_window: self.admission.pairing_window,
            pairing_attempts: self.admission.pairing_attempts,
            seen: self.admission.seen_commands@.dom(),
            admissions: self.tasks.scheduler@,
            active: opt_active(self.tasks.active),
            next_task: self.tasks.next_task,
            resources: self.tasks.resources@,
            files: self.tasks.files@,
            actions: self.cards.actions@,
            views: self.cards.views@,
            generations: self.cards.generations@,
            refreshes: self.cards.refreshes@.map_values(|r: PanelRefresh| r@),
            updating_panel: self.cards.updating_panel,
            next_panel: self.cards.next_panel,
            plan_offer: opt_offer(self.cards.plan_offer),
            interactions: self.approvals.interactions@,
            file_changes: self.approvals.file_changes@.map_values(|c: ItemChanges| c@),
            next_token: self.approvals.next_token,
            directories: self.session_book.directories@,
            confirmations: self.session_book.confirmations@,
            next_confirmation: self.session_book.next_confirmation,
            archived: self.session_book.archived_threads@.dom(),
            progress_busy: self.progress.busy,
            progress_last: self.progress.last,
            room: self.outbox.room as nat,
            sent: self.outbox.sent@.map_values(|r: Request| r@),
            running: self.jobs.running as nat,
            spawned: self.jobs.spawned@.map_values(|j: Job| j@),
            receipts: self.receipts@,
            records: self.records@.map_values(|r: Record| r@),
        }
    }
}

impl State {
    pub open spec fn jobs(self) -> nat {
        self.running + self.spawned.len()
    }

    pub open spec fn can_spawn(self, control: bool) -> bool {
        fits(self.jobs(), control)
    }

    /// How many tasks were accepted, and which one runs.
    pub open spec fn card_snapshot(self) -> SnapshotText {
        (
            self.next_task,
            match self.active {
                Some(a) => Some(a.spec.id),
                None => None,
            },
        )
    }

    /// The generation of a user's cards.
    pub open spec fn generation(self, user: Seq<char>) -> u64 {
        generation_in(self.generations, user)
    }

    /// The directory in which a user works.
    pub open spec fn current(self, user: Seq<char>) -> DirectoryText {
        if self.directories.contains_key(user) {
            self.directories[user]
        } else {
            self.directory
        }
    }

    /// The running task still takes requests of this turn.
    pub open spec fn turn_is_live(self, turn: TurnRef) -> bool {
        takes(self.active, turn)
    }

    /// Every question group waits for one of its questions, and no more jobs
    /// are there than may be.
    pub open spec fn wf(self) -> bool {
        &&& self.admissions.wf()
        &&& self.active matches Some(a) ==> a.wf()
        &&& self.jobs() <= limits::BACKGROUND_JOBS
        &&& self.seen.finite()
        &&& self.seen.len() <= limits::SEEN_COMMANDS
        &&& self.archived.finite()
        &&& self.archived.len() <= limits::ARCHIVED_THREADS
        &&& self.file_changes.len() <= limits::FILE_CHANGE_ITEMS
        &&& self.refreshes.len() <= limits::PANEL_REFRESHES
        &&& forall|k: Seq<char>| #[trigger] self.interactions.contains_key(k) ==> waits(self.interactions[k])
    }
}

/// The execution still takes requests of this turn.
pub open spec fn takes(active: Option<ActiveText>, turn: TurnRef) -> bool {
    active matches Some(a) && a.accepts(turn)
}

/// The request belongs to this execution, and its turn still takes requests.
pub open spec fn alive(active: Option<ActiveText>, p: PendingText) -> bool {
    active matches Some(a) && a.spec.id == p.task && a.accepts(p.turn)
}

/// Whether a pending interaction still belongs to the running task turn.
/// Stopping tasks and finished turns revoke their open interactions.
pub fn is_alive(active: &Option<Active>, pending: &Pending) -> (r: bool)
    ensures
        r == alive(opt_active(*active), pending@),
{
    match active {
        Some(a) => same(a.spec.id.as_str(), pending.task.as_str()) && a.accepts(&pending.request.turn),
        None => false,
    }
}

/// How often a user's cards were invalidated.
pub open spec fn generation_in(generations: Map<Seq<char>, u64>, user: Seq<char>) -> u64 {
    if generations.contains_key(user) {
        generations[user]
    } else {
        0
    }
}

/// An approval, or a group of which one question waits.
pub open spec fn waits(p: PendingText) -> bool {
    p.kind is Questions ==> p.asks()
}

/// A state, and the failure that ended the step, if one did. Once a step has
/// failed nothing more happens in it, but that the input it took is rejected and
/// the mutation gate it held opens.
pub struct Step {
    pub state: State,
    pub fault: Option<Fault>,
}

pub open spec fn begin(s: State) -> Step {
    Step { state: s, fault: None }
}

impl Step {
    pub open spec fn fail(self, fault: Fault) -> Step {
        if self.fault is Some {
            self
        } else {
            Step { fault: Some(fault), ..self }
        }
    }

    /// A text goes to a chat; a full outbox ends the run.
    pub open spec fn tell(self, chat: Seq<char>, text: Seq<char>) -> Step {
        if self.fault is Some {
            self
        } else if self.state.room == 0 {
            self.fail(Fault::Capacity("回复队列已满或发送器已退出"@))
        } else {
            self.put(RequestText::Text(chat, text))
        }
    }

    /// A request for which there is room goes to the sender.
    pub open spec fn put(self, request: RequestText) -> Step {
        Step {
            state: State { room: (self.state.room - 1) as nat, sent: self.state.sent.push(request), ..self.state },
            ..self
        }
    }

    /// The receipt of an input is settled. This much happens in a step that has
    /// failed, too: it rejects the input.
    pub open spec fn settle(self, ack: Option<u64>, accepted: bool) -> Step {
        match ack {
            Some(receipt) => Step {
                state: State { receipts: self.state.receipts.push((receipt, accepted && self.fault is None)), ..self.state },
                ..self
            },
            None => self,
        }
    }

    pub open spec fn spawn(self, job: JobText) -> Step {
        if self.fault is Some {
            self
        } else {
            Step { state: State { spawned: self.state.spawned.push(job), ..self.state }, ..self }
        }
    }

    /// The session-mutation gate opens, in a step that has failed, too.
    pub open spec fn release(self) -> Step {
        Step {
            state: State { admissions: Admissions { mutating: false, ..self.state.admissions }, ..self.state },
            ..self
        }
    }

    /// A chain that ends because the run does opens its gate too.
    pub open spec fn abandoned(self) -> Step {
        if self.fault is Some {
            self.release()
        } else {
            self
        }
    }

    pub open spec fn record(self, event: Event, status: Status, task: Option<Seq<char>>, count: nat) -> Step {
        if self.fault is Some {
            self
        } else {
            Step {
                state: State { records: self.state.records.push(RecordText { event, status, task, count }), ..self.state },
                ..self
            }
        }
    }
}

/// The failure of a result, if it is one.
pub open spec fn fault_of(r: Result<(), RuntimeError>) -> Option<Fault> {
    match r {
        Ok(_) => None,
        Err(e) => Some(e@),
    }
}

impl Runtime {
    /// The parts keep their own invariants, and so does the whole.
    pub open(crate) spec fn wf(&self) -> bool {
        &&& self@.wf()
        &&& self.admission.allowed.wf()
        &&& self.admission.seen_commands.wf()
        &&& self.tasks.resources.wf()
        &&& self.cards.actions.wf()
        &&& self.cards.views.wf()
        &&& self.cards.generations.wf()
        &&& self.approvals.interactions.wf()
        &&& self.session_book.directories.wf()
        &&& self.session_book.confirmations.wf()
        &&& self.session_book.archived_threads.wf()
    }

    /// In every run no two open requests share a turn item, and no task is
    /// active in the scheduler while a session is being changed.
    pub proof fn keeps_its_books(&self)
        requires
            self.wf(),
        ensures
            distinct_items(self@.interactions),
            self@.admissions.mutating ==> self@.admissions.active is None,
    {
        self.approvals.interactions.items_are_distinct();
        if self@.admissions.mutating {
            closed_gates_run_nothing(self@.admissions);
        }
    }

    /// The runtime is in this step's state.
    pub open spec fn at(&self, s: Step) -> bool {
        self@ == s.state && self.wf()
    }

    pub fn tell(&mut self, chat: &str, text: &str) -> (r: Result<(), RuntimeError>)
        requires
            old(self).wf(),
        ensures
            final(self).at(begin(old(self)@).tell(chat@, text@)),
            fault_of(r) == begin(old(self)@).tell(chat@, text@).fault,
    {
        if self.outbox.room == 0 {
            return Err(RuntimeError::Capacity("回复队列已满或发送器已退出"));
        }
        self.put(Request::Text(chat.to_owned(), text.to_owned()));
        Ok(())
    }

    /// Hands a request to the sender.
    pub fn put(&mut self, request: Request)
        requires
            old(self).wf(),
            old(self)@.room > 0,
        ensures
            final(self).at(begin(old(self)@).put(request@)),
    {
        self.outbox.room = self.outbox.room - 1;
        self.outbox.sent.push(request);
        proof {
            assert(self@.sent =~= old(self)@.sent.push(request@));
        }
    }

    pub fn settle(&mut self, ack: &mut Ack, accepted: bool)
        requires
            old(self).wf(),
        ensures
            final(self).at(begin(old(self)@).settle(old(ack)@, accepted)),
            final(ack)@ is None,
    {
        match ack.settle(accepted) {
            Some(decision) => {
                self.receipts.push(decision);
            },
            None => {},
        }
    }

    /// Ends a step that took an input: the input is accepted as decided, or
    /// rejected with the failure.
    pub fn conclude(&mut self, ack: Ack, accepted: bool, result: Result<(), RuntimeError>) -> (r: Result<(), RuntimeError>)
        requires
            old(self).wf(),
        ensures
            final(self).at(Step { state: old(self)@, fault: fault_of(result) }.settle(ack@, accepted)),
            r == result,
    {
        let mut ack = ack;
        let accepted = accepted && result.is_ok();
        self.settle(&mut ack, accepted);
        result
    }

    /// Starts a background job for which there is room.
    pub fn spawn(&mut self, job: Job)
        requires
            old(self).wf(),
            old(self)@.jobs() < limits::BACKGROUND_JOBS,
        ensures
            final(self).at(begin(old(self)@).spawn(job@)),
    {
        self.jobs.spawned.push(job);
        proof {
            assert(self@.spawned =~= old(self)@.spawned.push(job@));
        }
    }

    pub fn release(&mut self)
        requires
            old(self).wf(),
        ensures
            final(self).at(begin(old(self)@).release()),
    {
        self.tasks.scheduler.end_session_mutation();
    }

    /// Opens the mutation gate of a chain that ends with a failure.
    pub fn abandon(&mut self, result: Result<(), RuntimeError>) -> (r: Result<(), RuntimeError>)
        requires
            old(self).wf(),
        ensures
            final(self).at(Step { state: old(self)@, fault: fault_of(result) }.abandoned()),
            r == result,
    {
        if result.is_err() {
            self.release();
        }
        result
    }

    pub fn record(&mut self, event: Event, status: Status, task: Option<String>, count: usize)
        requires
            old(self).wf(),
        ensures
            final(self).at(begin(old(self)@).record(event, status, opt(task), count as nat)),
    {
        self.records.push(Record { event, status, task, count });
        proof {
            assert(self@.records =~= old(self)@.records.push(RecordText { event, status, task: opt(task), count: count as nat }));
        }
    }

    /// Whether another background job fits. User-triggered work keeps the
    /// control reserve free; control work may use it.
    pub fn can_spawn(&self, control: bool) -> (r: bool)
        requires
            self.wf(),
        ensures
            r == self@.can_spawn(control),
    {
        self.jobs.can_spawn(control)
    }

    /// The scheduler of the run's tasks.
    pub fn scheduler(&self) -> (r: &Scheduler)
        requires
            self.wf(),
        ensures
            r.wf(),
            r@ == self@.admissions,
    {
        &self.tasks.scheduler
    }

    /// The running execution.
    pub fn active(&self) -> (r: &Option<Active>)
        ensures
            opt_active(*r) == self@.active,
    {
        &self.tasks.active
    }

    /// The open requests.
    pub fn interactions(&self) -> (r: &Interactions)
        requires
            self.wf(),
        ensures
            r.wf(),
            r@ == self@.interactions,
    {
        &self.approvals.interactions
    }

    /// The plan that waits for its user's choice.
    pub fn plan_offer(&self) -> (r: &Option<Offer>)
        ensures
            opt_offer(*r) == self@.plan_offer,
    {
        &self.cards.plan_offer
    }

    /// Whether the active task still owns this turn and accepts requests.
    pub fn turn_is_live(&self, turn: &TurnRef) -> (r: bool)
        ensures
            r == self@.turn_is_live(*turn),
    {
        match &self.tasks.active {
            Some(active) => active.accepts(turn),
            None => false,
        }
    }

    /// The snapshot card actions compare themselves against.
    pub fn card_snapshot(&self) -> (r: (u64, Option<String>))
        ensures
            snapshot_text(r) == self@.card_snapshot(),
    {
        (
            self.tasks.next_task,
            match &self.tasks.active {
                Some(active) => Some(active.spec.id.clone()),
                None => None,
            },
        )
    }

    pub fn generation(&self, user: &str) -> (r: u64)
        requires
            self.wf(),
        ensures
            r == self@.generation(user@),
    {
        match self.cards.generations.get(user) {
            Some(g) => *g,
            None => 0,
        }
    }

    pub fn current(&self, user: &str) -> (r: Directory)
        requires
            self.wf(),
        ensures
            r@ == self@.current(user@),
    {
        match self.session_book.directories.get(user) {
            Some(d) => d.clone(),
            None => self.settings.directory.clone(),
        }
    }

    /// The runtime of a fresh run.
    pub fn new(settings: Settings, rich_output: bool, directories: TextMap<Directory>, room: usize, now: u64) -> (r: Self)
        requires
            directories.wf(),
        ensures
            r.wf(),
            r@ == initial(settings, rich_output, directories@, room as nat, now),
    {
        let mut allowed: TextMap<()> = TextMap::new();
        let mut i: usize = 0;
        let ghost all = crate::text::texts(settings.allowed@);
        proof {
            assert(allowed@.dom() =~= all.take(0).to_set());
        }
        while i < settings.allowed.len()
            invariant
                i <= settings.allowed@.len(),
                all == crate::text::texts(settings.allowed@),
                allowed.wf(),
                allowed@.dom() == all.take(i as int).to_set(),
            decreases settings.allowed.len() - i,
        {
            allowed.insert(settings.allowed[i].clone(), ());
            proof {
                assert(all.take(i + 1) =~= all.take(i as int).push(all[i as int]));
                crate::interactions::pushed_set(all.take(i as int), all[i as int]);
            }
            i = i + 1;
        }
        proof {
            assert(all.take(i as int) =~= all);
        }
        let r = Runtime {
            settings,
            rich_output,
            admission: Admission { allowed, pairing_window: now, pairing_attempts: 0, seen_commands: TextMap::new() },
            tasks: TaskTrack {
                scheduler: Scheduler::new(limits::SCHEDULED_TASKS),
                active: None,
                next_task: 0,
                resources: TextMap::new(),
                files: FileDelivery::Idle,
            },
            cards: CardBook {
                actions: Actions::default(),
                views: Views::default(),
                generations: TextMap::new(),
                refreshes: VecDeque::new(),
                updating_panel: false,
                next_panel: 0,
                plan_offer: None,
            },
            approvals: Approvals { interactions: Interactions::default(), file_changes: Vec::new(), next_token: 0 },
            session_book: SessionBook {
                directories,
                confirmations: Confirmations::default(),
                next_confirmation: 0,
                archived_threads: TextMap::new(),
            },
            progress: Progress { busy: false, last: now },
            outbox: Outbox { room, sent: Vec::new() },
            jobs: Jobs { running: 0, spawned: Vec::new() },
            receipts: Vec::new(),
            records: Vec::new(),
        };
        proof {
            let e = initial(settings, rich_output, directories@, room as nat, now);
            assert(r@.seen =~= e.seen);
            assert(r@.archived =~= e.archived);
            assert(r@.refreshes =~= e.refreshes);
            assert(r@.file_changes =~= e.file_changes);
            assert(r@.sent =~= e.sent);
            assert(r@.spawned =~= e.spawned);
            assert(r@.receipts =~= e.receipts);
            assert(r@.records =~= e.records);
        }
        r
    }
}

/// The state in which a run begins: idle, with nothing pending.
pub open spec fn initial(settings: Settings, rich: bool, directories: Map<Seq<char>, DirectoryText>, room: nat, now: u64) -> State {
    State {
        root: settings.root@,
        directory: settings.directory@,
        configured: crate::text::texts(settings.allowed@),
        open_access: settings.open_access,
        sandbox: settings.sandbox,
        epoch: settings.epoch,
        rich,
        allowed: crate::text::texts(settings.allowed@).to_set(),
        pairing_window: now,
        pairing_attempts: 0,
        seen: Set::empty(),
        admissions: Admissions {
            capacity: limits::SCHEDULED_TASKS as nat,
            queue: Seq::empty(),
            active: None,
            mutating: false,
            pending: Seq::empty(),
            next: 0,
        },
        active: None,
        next_task: 0,
        resources: Map::empty(),
        files: FileDeliveryText::Idle,
        actions: Map::empty(),
        views: Map::empty(),
        generations: Map::empty(),
        refreshes: Seq::empty(),
        updating_panel: false,
        next_panel: 0,
        plan_offer: None,
        interactions: Map::empty(),
        file_changes: Seq::empty(),
        next_token: 0,
        directories,
        confirmations: Map::empty(),
        next_confirmation: 0,
        archived: Set::empty(),
        progress_busy: false,
        progress_last: now,
        room,
        sent: Seq::empty(),
        running: 0,
        spawned: Seq::empty(),
        receipts: Seq::empty(),
        records: Seq::empty(),
    }
}

} // verus!
