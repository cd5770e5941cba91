//! Session preparation commits the binding before starting side effects.
use vstd::prelude::*;
use vstd::string::*;
use crate::lists::keep;
use crate::model::{is_rooted, same_path, Directory, DirectoryText, ExecutionMode, SessionKey, SessionText, TaskSpec, TaskText};
use crate::ports::{
    backend_sentence, path_texts, BackendError, Model, Sandbox, ThreadSummary, TurnInput, TurnInputText,
};
use crate::text::{byte_count, byte_len, chars_of, code, control, is_control, opt, same, text_of};

verus! {

/// Durable state could not be read or written.
#[derive(Debug, Clone, Copy, PartialEq, Eq, Structural)]
pub struct SessionStoreError;

/// Why a session operation did not take place.
#[derive(Debug, Clone, Copy, PartialEq, Eq, Structural)]
pub enum StartError {
    Storage(SessionStoreError),
    Backend(BackendError),
    /// A thread was archived and its local binding may be out of step.
    Reconcile,
}

pub open spec fn start_sentence(e: StartError) -> Seq<char> {
    match e {
        StartError::Storage(_) => "状态保存或读取失败"@,
        StartError::Backend(b) => backend_sentence(b),
        StartError::Reconcile => "归档结果不确定，需核对本地绑定和远端状态"@,
    }
}

impl StartError {
    pub fn message(&self) -> (r: String)
        ensures
            r@ == start_sentence(*self),
    {
        match self {
            StartError::Storage(_) => "状态保存或读取失败".to_owned(),
            StartError::Backend(b) => b.message(),
            StartError::Reconcile => "归档结果不确定，需核对本地绑定和远端状态".to_owned(),
        }
    }
}

/// A letter, a digit, a hyphen or an underscore, all ASCII.
pub open spec fn id_char(c: char) -> bool {
    let n = c as int;
    ||| 48 <= n <= 57
    ||| 65 <= n <= 90
    ||| 97 <= n <= 122
    ||| n == 45
    ||| n == 95
}

/// A thread id as the agent hands them out.
pub open spec fn thread_id_ok(id: Seq<char>) -> bool {
    &&& id.len() > 0
    &&& byte_count(id) <= 256
    &&& forall|i: int| 0 <= i < id.len() ==> id_char(#[trigger] id[i])
}

/// Nothing but id characters.
pub fn only_id_chars(id: &str) -> (r: bool)
    ensures
        r == (forall|i: int| 0 <= i < id@.len() ==> id_char(#[trigger] id@[i])),
{
    let chars = chars_of(id);
    let mut i: usize = 0;
    while i < chars.len()
        invariant
            i <= chars@.len(),
            chars@ == id@,
            forall|j: int| 0 <= j < i ==> id_char(#[trigger] chars@[j]),
        decreases chars.len() - i,
    {
        let n: u32 = code(chars[i]);
        if !((48 <= n && n <= 57) || (65 <= n && n <= 90) || (97 <= n && n <= 122) || n == 45 || n == 95) {
            assert(!id_char(id@[i as int]));
            return false;
        }
        i = i + 1;
    }
    true
}

pub fn valid_thread_id(id: &str) -> (r: bool)
    ensures
        r == thread_id_ok(id@),
{
    !id.is_empty() && byte_len(id) <= 256 && only_id_chars(id)
}

/// A user's settings for one directory.
#[derive(Debug, PartialEq, Eq)]
pub struct Preferences {
    pub model: Option<String>,
    pub plan: bool,
}

impl Default for Preferences {
    fn default() -> (r: Self)
        ensures
            r.model is None,
            !r.plan,
    {
        Preferences { model: None, plan: false }
    }
}

#[derive(Debug)]
pub enum PreferenceChange {
    Model(Option<String>),
    Plan(bool),
}

/// A change by its texts.
pub enum ChangeText {
    Model(Option<Seq<char>>),
    Plan(bool),
}

impl View for PreferenceChange {
    type V = ChangeText;

    open spec fn view(&self) -> ChangeText {
        match self {
            PreferenceChange::Model(m) => ChangeText::Model(opt(*m)),
            PreferenceChange::Plan(p) => ChangeText::Plan(*p),
        }
    }
}

/// What is done to a thread.
#[derive(Debug, Clone, Copy, PartialEq, Eq, Structural)]
pub enum ThreadAction {
    Resume,
    Archive,
    Unarchive,
}

/// A thread as a list shows it.
#[derive(Debug, PartialEq, Eq)]
pub struct ListedThread {
    pub id: String,
    pub title: String,
    pub active: bool,
}

/// A listed thread by its texts.
pub struct ListedText {
    pub id: Seq<char>,
    pub title: Seq<char>,
    pub active: bool,
}

impl View for ListedThread {
    type V = ListedText;

    open spec fn view(&self) -> ListedText {
        ListedText { id: self.id@, title: self.title@, active: self.active }
    }
}

/// Listed threads by their texts.
pub open spec fn listed_texts(v: Seq<ListedThread>) -> Seq<ListedText> {
    v.map_values(|t: ListedThread| t@)
}

/// At most this many threads are listed.
pub const LISTED_THREADS: usize = 8;

/// At most this many characters of a title are shown.
pub const TITLE_CHARS: usize = 160;

/// The thread works in this directory. A directory is the visibility
/// boundary, not per-user thread ownership.
pub open spec fn works_in(t: ThreadSummary, workspace: DirectoryText) -> bool {
    t.directory matches Some(d) && same_path(d@, workspace)
}

/// A title without control characters, cut to what is shown.
pub open spec fn shown_title(title: Seq<char>) -> Seq<char> {
    let visible = title.filter(|c: char| !is_control(c));
    if visible.len() <= TITLE_CHARS {
        visible
    } else {
        visible.take(TITLE_CHARS as int)
    }
}

/// The threads of this directory among `threads`, from the first on; `room`
/// more are looked at, and those with a malformed id are passed over.
pub open spec fn listing(threads: Seq<ThreadSummary>, workspace: DirectoryText, room: nat) -> Seq<ListedText>
    decreases threads.len(),
{
    if threads.len() == 0 || room == 0 {
        Seq::empty()
    } else {
        let t = threads[0];
        if !works_in(t, workspace) {
            listing(threads.drop_first(), workspace, room)
        } else {
            let rest = listing(threads.drop_first(), workspace, (room - 1) as nat);
            if thread_id_ok(t.id@) {
                seq![ListedText { id: t.id@, title: shown_title(t.title@), active: t.active }] + rest
            } else {
                rest
            }
        }
    }
}

fn render_thread_title(title: &str) -> (r: String)
    ensures
        r@ == shown_title(title@),
{
    let mut chars = chars_of(title);
    let visible = |c: &char| -> (r: bool)
        ensures
            r == !is_control(*c),
    { !control(*c) };
    keep(&mut chars, visible, Ghost(|c: char| !is_control(c)));
    let end: usize = if chars.len() <= TITLE_CHARS {
        chars.len()
    } else {
        TITLE_CHARS
    };
    proof {
        assert(chars@.subrange(0, end as int) =~= shown_title(title@));
    }
    text_of(&chars, 0, end)
}

/// The threads that a user is shown for a directory.
pub fn list_entries(threads: &Vec<ThreadSummary>, workspace: &Directory) -> (r: Vec<ListedThread>)
    ensures
        listed_texts(r@) == listing(threads@, workspace@, LISTED_THREADS as nat),
{
    let ghost all = threads@;
    let ghost goal = listing(all, workspace@, LISTED_THREADS as nat);
    let mut out: Vec<ListedThread> = Vec::new();
    let mut room: usize = LISTED_THREADS;
    let mut i: usize = 0;
    proof {
        assert(all.skip(0) =~= all);
        assert(listed_texts(out@) + listing(all, workspace@, room as nat) =~= goal);
    }
    while i < threads.len() && room > 0
        invariant
            i <= threads@.len(),
            all == threads@,
            goal == listing(all, workspace@, LISTED_THREADS as nat),
            listed_texts(out@) + listing(all.skip(i as int), workspace@, room as nat) == goal,
        decreases threads.len() - i,
    {
        let ghost before = out@;
        let thread = &threads[i];
        proof {
            assert(all.skip(i as int)[0] == all[i as int]);
            assert(all.skip(i as int).drop_first() =~= all.skip(i + 1));
        }
        let here = match &thread.directory {
            Some(d) => d.same(workspace),
            None => false,
        };
        if here {
            room = room - 1;
            if valid_thread_id(thread.id.as_str()) {
                out.push(
                    ListedThread {
                        id: thread.id.clone(),
                        title: render_thread_title(thread.title.as_str()),
                        active: thread.active,
                    },
                );
                proof {
                    assert(listed_texts(out@) =~= listed_texts(before).push(out@.last()@));
                    let rest = listing(all.skip(i + 1), workspace@, room as nat);
                    assert(listed_texts(before) + (seq![out@.last()@] + rest) =~= listed_texts(out@) + rest);
                }
            }
        }
        i = i + 1;
    }
    proof {
        assert(listing(all.skip(i as int), workspace@, room as nat) =~= Seq::empty());
        assert(listed_texts(out@) =~= goal);
    }
    out
}

pub open spec fn resume_line(t: ListedText) -> Seq<char> {
    t.title + (if t.active {
        "（执行中）"@
    } else {
        ""@
    }) + "\n/resume "@ + t.id
}

/// The lines of the listed threads, each after an empty line.
pub open spec fn resume_lines(entries: Seq<ListedText>) -> Seq<char>
    decreases entries.len(),
{
    if entries.len() == 0 {
        Seq::empty()
    } else {
        resume_lines(entries.drop_last()) + "\n\n"@ + resume_line(entries.last())
    }
}

pub open spec fn list_text(entries: Seq<ListedText>) -> Seq<char> {
    if entries.len() == 0 {
        "当前目录没有可恢复的会话。"@
    } else {
        "当前目录最近会话（最多 8 项），复制对应命令恢复："@ + resume_lines(entries)
    }
}

/// The list as plain text.
pub fn list(threads: &Vec<ThreadSummary>, workspace: &Directory) -> (r: String)
    ensures
        r@ == list_text(listing(threads@, workspace@, LISTED_THREADS as nat)),
{
    let entries = list_entries(threads, workspace);
    let ghost all = listed_texts(entries@);
    if entries.len() == 0 {
        return "当前目录没有可恢复的会话。".to_owned();
    }
    let mut t = "当前目录最近会话（最多 8 项），复制对应命令恢复：".to_owned();
    let ghost head = t@;
    let mut i: usize = 0;
    proof {
        assert(all.take(0) =~= Seq::empty());
        assert(head + resume_lines(all.take(0)) =~= head);
    }
    while i < entries.len()
        invariant
            i <= entries@.len(),
            all == listed_texts(entries@),
            t@ == head + resume_lines(all.take(i as int)),
        decreases entries.len() - i,
    {
        let e = &entries[i];
        proof {
            assert(all.take(i + 1).drop_last() =~= all.take(i as int));
            assert(all.take(i + 1).last() == entries@[i as int]@);
        }
        t.append("\n\n");
        t.append(e.title.as_str());
        if e.active {
            t.append("（执行中）");
        } else {
            t.append("");
        }
        t.append("\n/resume ");
        t.append(e.id.as_str());
        proof {
            assert(t@ =~= head + resume_lines(all.take(i + 1)));
        }
        i = i + 1;
    }
    proof {
        assert(all.take(i as int) =~= all);
    }
    t
}

/// The operation is refused because the request or the agent's answer does not fit.
pub open spec fn incompatible() -> StartError {
    StartError::Backend(BackendError::Incompatible)
}

fn refused() -> (r: StartError)
    ensures
        r == incompatible(),
{
    StartError::Backend(BackendError::Incompatible)
}

/// Where the preparation of a turn stands, and so what is to be asked next.
pub enum PrepareStage {
    /// The agent's models are needed.
    Models,
    /// The stored thread of the session is needed.
    Previous { model: String },
    /// The stored thread is to be resumed, or a new one started.
    Thread { model: String, previous: Option<String> },
    /// The thread is to be bound to the session.
    Binding { model: String, thread: String },
    Ended(Result<TurnInput, StartError>),
}

/// A stage by its texts.
pub enum PrepareText {
    Models,
    Previous { model: Seq<char> },
    Thread { model: Seq<char>, previous: Option<Seq<char>> },
    Binding { model: Seq<char>, thread: Seq<char> },
    Ended(Result<TurnInputText, StartError>),
}

impl View for PrepareStage {
    type V = PrepareText;

    open spec fn view(&self) -> PrepareText {
        match self {
            PrepareStage::Models => PrepareText::Models,
            PrepareStage::Previous { model } => PrepareText::Previous { model: model@ },
            PrepareStage::Thread { model, previous } => PrepareText::Thread { model: model@, previous: opt(*previous) },
            PrepareStage::Binding { model, thread } => PrepareText::Binding { model: model@, thread: thread@ },
            PrepareStage::Ended(Ok(input)) => PrepareText::Ended(Ok(input@)),
            PrepareStage::Ended(Err(e)) => PrepareText::Ended(Err(*e)),
        }
    }
}

/// What the agent or the store answered.
pub enum PrepareEvent {
    Models(Result<Vec<Model>, BackendError>),
    Previous(Result<Option<String>, SessionStoreError>),
    Thread(Result<ThreadSummary, BackendError>),
    Bound(Result<(), SessionStoreError>),
}

/// The preparation of one turn. It persists the session's binding but never
/// starts a turn.
pub struct Preparation {
    pub task: TaskSpec,
    pub images: Vec<Directory>,
    pub sandbox: Sandbox,
    pub stage: PrepareStage,
}

/// A preparation by its texts.
pub struct PreparationText {
    pub task: TaskText,
    pub images: Seq<DirectoryText>,
    pub sandbox: Sandbox,
    pub stage: PrepareText,
}

impl View for Preparation {
    type V = PreparationText;

    open spec fn view(&self) -> PreparationText {
        PreparationText {
            task: self.task@,
            images: path_texts(self.images@),
            sandbox: self.sandbox,
            stage: self.stage@,
        }
    }
}

/// A preparation after an event. Its images go into the turn's input.
pub open spec fn preparation_next(p: PreparationText, event: PrepareEvent) -> PreparationText {
    let stage = prepare_next(p.task, p.images, p.sandbox, p.stage, event);
    PreparationText {
        stage,
        images: if p.stage is Binding && (stage matches PrepareText::Ended(Ok(_))) {
            Seq::empty()
        } else {
            p.images
        },
        ..p
    }
}

/// Every path starts at the root of the file system.
pub open spec fn all_rooted(paths: Seq<DirectoryText>) -> bool {
    forall|i: int| 0 <= i < paths.len() ==> is_rooted(#[trigger] paths[i])
}

/// How a preparation begins: a model that was chosen spares the question.
pub open spec fn prepare_begin(task: TaskText, images: Seq<DirectoryText>) -> PrepareText {
    if !is_rooted(task.session.workspace) || task.session.user.len() == 0 || !all_rooted(images) {
        PrepareText::Ended(Err(incompatible()))
    } else {
        match task.model {
            Some(model) => if model.len() > 0 {
                PrepareText::Previous { model }
            } else {
                PrepareText::Ended(Err(incompatible()))
            },
            None => PrepareText::Models,
        }
    }
}

/// The first model that is marked as the default.
pub open spec fn default_model(models: Seq<Model>) -> Option<Seq<char>>
    decreases models.len(),
{
    if models.len() == 0 {
        None
    } else if models[0].is_default {
        Some(models[0].id@)
    } else {
        default_model(models.drop_first())
    }
}

/// The thread may be bound: it has an id, it is the one that was stored, if
/// one was, and it does not work elsewhere.
pub open spec fn thread_fits(t: ThreadSummary, previous: Option<Seq<char>>, workspace: DirectoryText) -> bool {
    &&& t.id@.len() > 0
    &&& previous matches Some(id) ==> id == t.id@
    &&& t.directory matches Some(d) ==> same_path(d@, workspace)
}

pub open spec fn turn_of(task: TaskText, images: Seq<DirectoryText>, sandbox: Sandbox, model: Seq<char>, thread: Seq<char>) -> TurnInputText {
    TurnInputText {
        thread_id: thread,
        directory: task.session.workspace,
        prompt: task.prompt,
        images,
        model,
        mode: task.mode,
        sandbox,
    }
}

/// The stage after an event. An event that the stage does not wait for
/// changes nothing.
pub open spec fn prepare_next(task: TaskText, images: Seq<DirectoryText>, sandbox: Sandbox, stage: PrepareText, event: PrepareEvent) -> PrepareText {
    match (stage, event) {
        (PrepareText::Models, PrepareEvent::Models(result)) => match result {
            Ok(models) => match default_model(models@) {
                Some(model) => if model.len() > 0 {
                    PrepareText::Previous { model }
                } else {
                    PrepareText::Ended(Err(incompatible()))
                },
                None => PrepareText::Ended(Err(incompatible())),
            },
            Err(e) => PrepareText::Ended(Err(StartError::Backend(e))),
        },
        (PrepareText::Previous { model }, PrepareEvent::Previous(result)) => match result {
            Ok(previous) => PrepareText::Thread { model, previous: opt(previous) },
            Err(e) => PrepareText::Ended(Err(StartError::Storage(e))),
        },
        (PrepareText::Thread { model, previous }, PrepareEvent::Thread(result)) => match result {
            Ok(t) => if thread_fits(t, previous, task.session.workspace) {
                PrepareText::Binding { model, thread: t.id@ }
            } else {
                PrepareText::Ended(Err(incompatible()))
            },
            Err(e) => PrepareText::Ended(Err(StartError::Backend(e))),
        },
        (PrepareText::Binding { model, thread }, PrepareEvent::Bound(result)) => match result {
            Ok(()) => PrepareText::Ended(Ok(turn_of(task, images, sandbox, model, thread))),
            Err(e) => PrepareText::Ended(Err(StartError::Storage(e))),
        },
        _ => stage,
    }
}

fn pick_default(models: &Vec<Model>) -> (r: Option<String>)
    ensures
        opt(r) == default_model(models@),
{
    let ghost all = models@;
    let mut i: usize = 0;
    proof {
        assert(all.skip(0) =~= all);
    }
    while i < models.len()
        invariant
            i <= models@.len(),
            all == models@,
            default_model(all.skip(i as int)) == default_model(all),
        decreases models.len() - i,
    {
        proof {
            assert(all.skip(i as int)[0] == all[i as int]);
            assert(all.skip(i as int).drop_first() =~= all.skip(i + 1));
        }
        if models[i].is_default {
            return Some(models[i].id.clone());
        }
        i = i + 1;
    }
    None
}

fn check_paths(paths: &Vec<Directory>) -> (r: bool)
    ensures
        r == all_rooted(path_texts(paths@)),
{
    let mut i: usize = 0;
    while i < paths.len()
        invariant
            i <= paths@.len(),
            forall|j: int| 0 <= j < i ==> is_rooted(#[trigger] path_texts(paths@)[j]),
        decreases paths.len() - i,
    {
        if !paths[i].is_absolute() {
            assert(!is_rooted(path_texts(paths@)[i as int]));
            return false;
        }
        i = i + 1;
    }
    true
}

impl Preparation {
    /// Begins to prepare a task's turn.
    pub fn prepare(task: TaskSpec, images: Vec<Directory>, sandbox: Sandbox) -> (r: Self)
        ensures
            r.task == task,
            r.images == images,
            r.sandbox == sandbox,
            r.stage@ == prepare_begin(task@, path_texts(images@)),
    {
        let stage = if !task.session.workspace.is_absolute() || task.session.user.as_str().is_empty() || !check_paths(&images) {
            PrepareStage::Ended(Err(refused()))
        } else {
            match &task.model {
                Some(model) => if model.as_str().is_empty() {
                    PrepareStage::Ended(Err(refused()))
                } else {
                    PrepareStage::Previous { model: model.clone() }
                },
                None => PrepareStage::Models,
            }
        };
        Preparation { task, images, sandbox, stage }
    }

    /// Begins to prepare a task's turn as its user's settings say. Settings
    /// changes hold the global idle gate, so queued tasks cannot change mode.
    pub fn prepare_configured(task: TaskSpec, preferences: Preferences, sandbox: Sandbox) -> (r: Self)
        ensures
            r.task@ == configured(task@, opt(preferences.model), preferences.plan),
            r.images@.len() == 0,
            r.sandbox == sandbox,
            r.stage@ == prepare_begin(r.task@, Seq::empty()),
    {
        let mut task = task;
        task.model = preferences.model;
        task.mode = if preferences.plan {
            ExecutionMode::Plan
        } else {
            ExecutionMode::Execute
        };
        let images: Vec<Directory> = Vec::new();
        proof {
            assert(path_texts(images@) =~= Seq::empty());
        }
        Self::prepare(task, images, sandbox)
    }

    /// Takes what the agent or the store answered.
    pub fn step(self, event: PrepareEvent) -> (r: Self)
        ensures
            r@ == preparation_next(self@, event),
    {
        let Preparation { task, images, sandbox, stage } = self;
        match (stage, event) {
            (PrepareStage::Models, PrepareEvent::Models(result)) => {
                let stage = match result {
                    Ok(models) => match pick_default(&models) {
                        Some(model) => if model.as_str().is_empty() {
                            PrepareStage::Ended(Err(refused()))
                        } else {
                            PrepareStage::Previous { model }
                        },
                        None => PrepareStage::Ended(Err(refused())),
                    },
                    Err(e) => PrepareStage::Ended(Err(StartError::Backend(e))),
                };
                Preparation { task, images, sandbox, stage }
            },
            (PrepareStage::Previous { model }, PrepareEvent::Previous(result)) => {
                let stage = match result {
                    Ok(previous) => PrepareStage::Thread { model, previous },
                    Err(e) => PrepareStage::Ended(Err(StartError::Storage(e))),
                };
                Preparation { task, images, sandbox, stage }
            },
            (PrepareStage::Thread { model, previous }, PrepareEvent::Thread(result)) => {
                let stage = match result {
                    Ok(t) => {
                        let known = match &previous {
                            Some(id) => same(id.as_str(), t.id.as_str()),
                            None => true,
                        };
                        let here = match &t.directory {
                            Some(d) => d.same(&task.session.workspace),
                            None => true,
                        };
                        if t.id.as_str().is_empty() || !known || !here {
                            PrepareStage::Ended(Err(refused()))
                        } else {
                            PrepareStage::Binding { model, thread: t.id }
                        }
                    },
                    Err(e) => PrepareStage::Ended(Err(StartError::Backend(e))),
                };
                Preparation { task, images, sandbox, stage }
            },
            (PrepareStage::Binding { model, thread }, PrepareEvent::Bound(result)) => match result {
                Ok(()) => {
                    let input = TurnInput {
                        thread_id: thread,
                        directory: task.session.workspace.clone(),
                        prompt: task.prompt.clone(),
                        images,
                        model,
                        mode: task.mode,
                        sandbox,
                    };
                    let none: Vec<Directory> = Vec::new();
                    proof {
                        assert(path_texts(none@) =~= Seq::empty());
                    }
                    Preparation { task, images: none, sandbox, stage: PrepareStage::Ended(Ok(input)) }
                },
                Err(e) => Preparation { task, images, sandbox, stage: PrepareStage::Ended(Err(StartError::Storage(e))) },
            },
            (stage, _) => Preparation { task, images, sandbox, stage },
        }
    }
}

/// The task as its user's settings say.
pub open spec fn configured(task: TaskText, model: Option<Seq<char>>, plan: bool) -> TaskText {
    TaskText {
        model,
        mode: if plan {
            ExecutionMode::Plan
        } else {
            ExecutionMode::Execute
        },
        ..task
    }
}

/// Where the resumption of a thread stands.
pub enum ResumeStage {
    Reading,
    Resuming,
    Binding,
    Ended(Result<(), StartError>),
}

/// What the agent or the store answered.
pub enum ResumeEvent {
    Thread(Result<ThreadSummary, BackendError>),
    Bound(Result<(), SessionStoreError>),
}

/// The resumption of one thread. The caller holds the scheduler's mutation
/// slot throughout validation and commit.
pub struct Resumption {
    pub session: SessionKey,
    pub id: String,
    pub stage: ResumeStage,
}

pub open spec fn resume_begin(session: SessionText, id: Seq<char>) -> ResumeStage {
    if !thread_id_ok(id) || !is_rooted(session.workspace) || session.user.len() == 0 {
        ResumeStage::Ended(Err(incompatible()))
    } else {
        ResumeStage::Reading
    }
}

/// The thread is the one asked for, idle, and works in the session's directory.
pub open spec fn resumable(t: ThreadSummary, id: Seq<char>, workspace: DirectoryText) -> bool {
    t.id@ == id && !t.active && works_in(t, workspace)
}

/// The thread is checked before it is resumed and again after; only then is it
/// bound.
pub open spec fn resume_next(session: SessionText, id: Seq<char>, stage: ResumeStage, event: ResumeEvent) -> ResumeStage {
    match (stage, event) {
        (ResumeStage::Reading, ResumeEvent::Thread(result)) => match result {
            Ok(t) => if resumable(t, id, session.workspace) {
                ResumeStage::Resuming
            } else {
                ResumeStage::Ended(Err(incompatible()))
            },
            Err(e) => ResumeStage::Ended(Err(StartError::Backend(e))),
        },
        (ResumeStage::Resuming, ResumeEvent::Thread(result)) => match result {
            Ok(t) => if resumable(t, id, session.workspace) {
                ResumeStage::Binding
            } else {
                ResumeStage::Ended(Err(incompatible()))
            },
            Err(e) => ResumeStage::Ended(Err(StartError::Backend(e))),
        },
        (ResumeStage::Binding, ResumeEvent::Bound(result)) => match result {
            Ok(()) => ResumeStage::Ended(Ok(())),
            Err(e) => ResumeStage::Ended(Err(StartError::Storage(e))),
        },
        _ => stage,
    }
}

impl Resumption {
    /// Begins to resume a thread.
    pub fn resume(session: SessionKey, id: String) -> (r: Self)
        ensures
            r.session == session,
            r.id == id,
            r.stage == resume_begin(session@, id@),
    {
        let stage = if !valid_thread_id(id.as_str()) || !session.workspace.is_absolute() || session.user.as_str().is_empty() {
            ResumeStage::Ended(Err(refused()))
        } else {
            ResumeStage::Reading
        };
        Resumption { session, id, stage }
    }

    fn accepts(&self, t: &ThreadSummary) -> (r: bool)
        ensures
            r == resumable(*t, self.id@, self.session@.workspace),
    {
        same(t.id.as_str(), self.id.as_str()) && !t.active && match &t.directory {
            Some(d) => d.same(&self.session.workspace),
            None => false,
        }
    }

    /// Takes what the agent or the store answered.
    pub fn step(&mut self, event: ResumeEvent)
        ensures
            final(self).session == old(self).session,
            final(self).id == old(self).id,
            final(self).stage == resume_next(old(self).session@, old(self).id@, old(self).stage, event),
    {
        match (&self.stage, event) {
            (ResumeStage::Reading, ResumeEvent::Thread(result)) => {
                self.stage = match result {
                    Ok(t) => if self.accepts(&t) {
                        ResumeStage::Resuming
                    } else {
                        ResumeStage::Ended(Err(refused()))
                    },
                    Err(e) => ResumeStage::Ended(Err(StartError::Backend(e))),
                };
            },
            (ResumeStage::Resuming, ResumeEvent::Thread(result)) => {
                self.stage = match result {
                    Ok(t) => if self.accepts(&t) {
                        ResumeStage::Binding
                    } else {
                        ResumeStage::Ended(Err(refused()))
                    },
                    Err(e) => ResumeStage::Ended(Err(StartError::Backend(e))),
                };
            },
            (ResumeStage::Binding, ResumeEvent::Bound(result)) => {
                self.stage = match result {
                    Ok(()) => ResumeStage::Ended(Ok(())),
                    Err(e) => ResumeStage::Ended(Err(StartError::Storage(e))),
                };
            },
            _ => {},
        }
    }
}

/// Where a change of a setting stands.
pub enum ChangeStage {
    /// The agent's models are needed.
    Checking,
    /// The change is to be saved.
    Saving,
    Ended(Result<(), StartError>),
}

/// What the agent or the store answered.
pub enum ChangeEvent {
    Models(Result<Vec<Model>, BackendError>),
    Saved(Result<(), SessionStoreError>),
}

/// The change of one setting. Only a model that the agent offers is saved.
pub struct PreferenceUpdate {
    pub session: SessionKey,
    pub change: PreferenceChange,
    pub stage: ChangeStage,
}

pub open spec fn change_begin(change: ChangeText) -> ChangeStage {
    match change {
        ChangeText::Model(Some(id)) => if id.len() == 0 || byte_count(id) > 256 {
            ChangeStage::Ended(Err(incompatible()))
        } else {
            ChangeStage::Checking
        },
        _ => ChangeStage::Saving,
    }
}

/// The agent offers this model.
pub open spec fn offers(models: Seq<Model>, id: Seq<char>) -> bool {
    exists|i: int| 0 <= i < models.len() && (#[trigger] models[i]).id@ == id
}

pub open spec fn change_next(change: ChangeText, stage: ChangeStage, event: ChangeEvent) -> ChangeStage {
    match (stage, event) {
        (ChangeStage::Checking, ChangeEvent::Models(result)) => match result {
            Ok(models) => if change matches ChangeText::Model(Some(id)) && offers(models@, id) {
                ChangeStage::Saving
            } else {
                ChangeStage::Ended(Err(incompatible()))
            },
            Err(e) => ChangeStage::Ended(Err(StartError::Backend(e))),
        },
        (ChangeStage::Saving, ChangeEvent::Saved(result)) => match result {
            Ok(()) => ChangeStage::Ended(Ok(())),
            Err(e) => ChangeStage::Ended(Err(StartError::Storage(e))),
        },
        _ => stage,
    }
}

fn has_model(models: &Vec<Model>, id: &str) -> (r: bool)
    ensures
        r == offers(models@, id@),
{
    let mut i: usize = 0;
    while i < models.len()
        invariant
            i <= models@.len(),
            forall|j: int| 0 <= j < i ==> (#[trigger] models@[j]).id@ != id@,
        decreases models.len() - i,
    {
        if same(models[i].id.as_str(), id) {
            return true;
        }
        i = i + 1;
    }
    false
}

impl PreferenceUpdate {
    /// Begins to change a setting.
    pub fn change_preference(session: SessionKey, change: PreferenceChange) -> (r: Self)
        ensures
            r.session == session,
            r.change == change,
            r.stage == change_begin(change@),
    {
        let stage = match &change {
            PreferenceChange::Model(Some(id)) => if id.as_str().is_empty() || byte_len(id.as_str()) > 256 {
                ChangeStage::Ended(Err(refused()))
            } else {
                ChangeStage::Checking
            },
            _ => ChangeStage::Saving,
        };
        PreferenceUpdate { session, change, stage }
    }

    /// Takes what the agent or the store answered.
    pub fn step(&mut self, event: ChangeEvent)
        ensures
            final(self).session == old(self).session,
            final(self).change == old(self).change,
            final(self).stage == change_next(old(self).change@, old(self).stage, event),
    {
        match (&self.stage, event) {
            (ChangeStage::Checking, ChangeEvent::Models(result)) => {
                self.stage = match result {
                    Ok(models) => {
                        let offered = match &self.change {
                            PreferenceChange::Model(Some(id)) => has_model(&models, id.as_str()),
                            _ => false,
                        };
                        if offered {
                            ChangeStage::Saving
                        } else {
                            ChangeStage::Ended(Err(refused()))
                        }
                    },
                    Err(e) => ChangeStage::Ended(Err(StartError::Backend(e))),
                };
            },
            (ChangeStage::Saving, ChangeEvent::Saved(result)) => {
                self.stage = match result {
                    Ok(()) => ChangeStage::Ended(Ok(())),
                    Err(e) => ChangeStage::Ended(Err(StartError::Storage(e))),
                };
            },
            _ => {},
        }
    }
}

/// A turn's input exists only after the session's binding was saved, and it
/// names the thread that was bound.
pub proof fn binding_precedes_turn(task: TaskText, images: Seq<DirectoryText>, sandbox: Sandbox, stage: PrepareText, event: PrepareEvent)
    requires
        !(stage is Ended),
        prepare_next(task, images, sandbox, stage, event) matches PrepareText::Ended(Ok(_)),
    ensures
        event matches PrepareEvent::Bound(Ok(_)),
        stage matches PrepareText::Binding { model, thread } && prepare_next(task, images, sandbox, stage, event)
            == PrepareText::Ended(Ok(turn_of(task, images, sandbox, model, thread))),
{
}

/// A session that has a thread keeps it: another thread is never bound in its
/// place.
pub proof fn stored_threads_are_kept(task: TaskText, images: Seq<DirectoryText>, sandbox: Sandbox, model: Seq<char>, id: Seq<char>, event: PrepareEvent)
    ensures
        prepare_next(task, images, sandbox, PrepareText::Thread { model, previous: Some(id) }, event) matches PrepareText::Binding {
            thread,
            ..
        } ==> thread == id,
{
}

/// A thread is bound by a resumption only after it was found idle and in the
/// session's directory both before and after it was resumed.
pub proof fn resumption_checks_twice(session: SessionText, id: Seq<char>, stage: ResumeStage, event: ResumeEvent)
    ensures
        resume_next(session, id, stage, event) is Binding && !(stage is Binding) ==> stage is Resuming && (event matches ResumeEvent::Thread(Ok(t)) && resumable(t, id, session.workspace)),
        resume_next(session, id, stage, event) is Resuming && !(stage is Resuming) ==> stage is Reading && (event matches ResumeEvent::Thread(Ok(t)) && resumable(t, id, session.workspace)),
{
}

/// A preparation after all of the events.
pub open spec fn prepared(p: PreparationText, events: Seq<PrepareEvent>) -> PreparationText
    decreases events.len(),
{
    if events.len() == 0 {
        p
    } else {
        preparation_next(prepared(p, events.drop_last()), events.last())
    }
}

/// The agent named this model as its default: the first of those it marked.
pub open spec fn named_default(e: PrepareEvent, model: Seq<char>) -> bool {
    e matches PrepareEvent::Models(Ok(models)) && exists|j: int|
        0 <= j < models@.len() && (#[trigger] models@[j]).is_default && models@[j].id@ == model && forall|k: int|
            0 <= k < j ==> !(#[trigger] models@[k]).is_default
}

/// The store named this thread of the session, or none.
pub open spec fn named_stored(e: PrepareEvent, previous: Option<Seq<char>>) -> bool {
    e matches PrepareEvent::Previous(Ok(p)) && opt(p) == previous
}

/// The agent opened this thread, and not in another directory.
pub open spec fn named_thread(e: PrepareEvent, thread: Seq<char>, workspace: DirectoryText) -> bool {
    e matches PrepareEvent::Thread(Ok(t)) && t.id@ == thread && (t.directory matches Some(d) ==> d@.path == workspace.path)
}

/// The model is the one that the user chose, or else a default of the agent.
pub open spec fn right_model(task: TaskText, events: Seq<PrepareEvent>, model: Seq<char>) -> bool {
    match task.model {
        Some(m) => model == m,
        None => exists|i: int| 0 <= i < events.len() && named_default(#[trigger] events[i], model),
    }
}

/// The thread is one that the agent opened, and the stored one where there is one.
pub open spec fn right_thread(task: TaskText, events: Seq<PrepareEvent>, thread: Seq<char>) -> bool {
    &&& thread.len() > 0
    &&& exists|i: int| 0 <= i < events.len() && named_thread(#[trigger] events[i], thread, task.session.workspace)
    &&& (exists|i: int| 0 <= i < events.len() && named_stored(#[trigger] events[i], None)) || (exists|i: int|
        0 <= i < events.len() && named_stored(#[trigger] events[i], Some(thread)))
}

spec fn on_course(p0: PreparationText, p: PreparationText, events: Seq<PrepareEvent>) -> bool {
    &&& p.task == p0.task
    &&& p.sandbox == p0.sandbox
    &&& match p.stage {
        PrepareText::Models => p.images == p0.images && p0.task.model is None,
        PrepareText::Previous { model } => p.images == p0.images && right_model(p0.task, events, model),
        PrepareText::Thread { model, previous } => {
            &&& p.images == p0.images
            &&& right_model(p0.task, events, model)
            &&& exists|i: int| 0 <= i < events.len() && named_stored(#[trigger] events[i], previous)
        },
        PrepareText::Binding { model, thread } => {
            &&& p.images == p0.images
            &&& right_model(p0.task, events, model)
            &&& right_thread(p0.task, events, thread)
        },
        PrepareText::Ended(Ok(input)) => {
            &&& input.mode == p0.task.mode
            &&& input.prompt == p0.task.prompt
            &&& input.directory == p0.task.session.workspace
            &&& input.sandbox == p0.sandbox
            &&& input.images == p0.images
            &&& right_model(p0.task, events, input.model)
            &&& right_thread(p0.task, events, input.thread_id)
        },
        PrepareText::Ended(Err(_)) => true,
    }
}

proof fn default_is_named(models: Seq<Model>)
    ensures
        default_model(models) matches Some(model) ==> exists|j: int|
            0 <= j < models.len() && (#[trigger] models[j]).is_default && models[j].id@ == model && forall|k: int|
                0 <= k < j ==> !(#[trigger] models[k]).is_default,
        default_model(models) is None ==> forall|k: int| 0 <= k < models.len() ==> !(#[trigger] models[k]).is_default,
    decreases models.len(),
{
    if models.len() > 0 && !models[0].is_default {
        let rest = models.drop_first();
        default_is_named(rest);
        if let Some(model) = default_model(rest) {
            let j = choose|j: int|
                0 <= j < rest.len() && (#[trigger] rest[j]).is_default && rest[j].id@ == model && forall|k: int|
                    0 <= k < j ==> !(#[trigger] rest[k]).is_default;
            assert(models[j + 1] == rest[j]);
            assert forall|k: int| 0 <= k < j + 1 implies !(#[trigger] models[k]).is_default by {
                if k > 0 {
                    assert(models[k] == rest[k - 1]);
                }
            }
        } else {
            assert forall|k: int| 0 <= k < models.len() implies !(#[trigger] models[k]).is_default by {
                if k > 0 {
                    assert(models[k] == rest[k - 1]);
                }
            }
        }
    }
}

proof fn right_things_stay(task: TaskText, before: Seq<PrepareEvent>, events: Seq<PrepareEvent>)
    requires
        events.len() > 0,
        before == events.drop_last(),
    ensures
        forall|model: Seq<char>| #[trigger] right_model(task, before, model) ==> right_model(task, events, model),
        forall|thread: Seq<char>| #[trigger] right_thread(task, before, thread) ==> right_thread(task, events, thread),
        forall|i: int| 0 <= i < before.len() ==> #[trigger] before[i] == events[i],
{
    assert forall|model: Seq<char>| #[trigger] right_model(task, before, model) implies right_model(task, events, model) by {
        if task.model is None {
            let i = choose|i: int| 0 <= i < before.len() && named_default(#[trigger] before[i], model);
            assert(events[i] == before[i]);
        }
    }
    assert forall|thread: Seq<char>| #[trigger] right_thread(task, before, thread) implies right_thread(task, events, thread) by {
        let i = choose|i: int| 0 <= i < before.len() && named_thread(#[trigger] before[i], thread, task.session.workspace);
        assert(events[i] == before[i]);
        if exists|i: int| 0 <= i < before.len() && named_stored(#[trigger] before[i], None) {
            let j = choose|i: int| 0 <= i < before.len() && named_stored(#[trigger] before[i], None);
            assert(events[j] == before[j]);
        } else {
            let j = choose|i: int| 0 <= i < before.len() && named_stored(#[trigger] before[i], Some(thread));
            assert(events[j] == before[j]);
        }
    }
}

proof fn course_is_kept(p0: PreparationText, events: Seq<PrepareEvent>)
    requires
        p0.stage == prepare_begin(p0.task, p0.images),
    ensures
        on_course(p0, prepared(p0, events), events),
    decreases events.len(),
{
    if events.len() > 0 {
        let before = events.drop_last();
        let e = events.last();
        course_is_kept(p0, before);
        right_things_stay(p0.task, before, events);
        let p = prepared(p0, before);
        assert(events[events.len() - 1] == e);
        match (p.stage, e) {
            (PrepareText::Models, PrepareEvent::Models(Ok(models))) => {
                default_is_named(models@);
                if let Some(model) = default_model(models@) {
                    assert(named_default(events[events.len() - 1], model));
                }
            },
            (PrepareText::Previous { model }, PrepareEvent::Previous(Ok(previous))) => {
                assert(named_stored(events[events.len() - 1], opt(previous)));
            },
            (PrepareText::Thread { model, previous }, PrepareEvent::Thread(Ok(t))) => {
                if thread_fits(t, previous, p0.task.session.workspace) {
                    assert(named_thread(events[events.len() - 1], t.id@, p0.task.session.workspace));
                    let i = choose|i: int| 0 <= i < before.len() && named_stored(#[trigger] before[i], previous);
                    assert(named_stored(events[i], previous));
                    assert(right_thread(p0.task, events, t.id@));
                }
            },
            (PrepareText::Thread { model, previous }, _) => {
                let i = choose|i: int| 0 <= i < before.len() && named_stored(#[trigger] before[i], previous);
                assert(named_stored(events[i], previous));
            },
            _ => {},
        }
    }
}

/// Whatever the agent and the store answer: a preparation that succeeds ends in
/// a turn of the task it was made for. The turn has the task's prompt, directory
/// and mode, the images and the sandbox that were given, the chosen model or
/// else a default of the agent, and the session's own thread.
pub proof fn turns_are_of_their_task(task: TaskSpec, images: Vec<Directory>, sandbox: Sandbox, begun: Preparation, events: Seq<PrepareEvent>)
    requires
        call_ensures(Preparation::prepare, (task, images, sandbox), begun),
    ensures
        prepared(begun@, events).stage matches PrepareText::Ended(Ok(input)) ==> {
            &&& input.mode == task@.mode
            &&& input.prompt == task@.prompt
            &&& input.directory == task@.session.workspace
            &&& input.sandbox == sandbox
            &&& input.images == path_texts(images@)
            &&& right_model(task@, events, input.model)
            &&& right_thread(task@, events, input.thread_id)
        },
{
    course_is_kept(begun@, events);
}

/// Settings decide: whatever the agent and the store answer, a turn that was
/// prepared with them plans exactly where the planning mode is on, and uses the
/// model that they name, or a default of the agent where they name none.
pub proof fn turns_follow_their_settings(
    task: TaskSpec,
    preferences: Preferences,
    sandbox: Sandbox,
    begun: Preparation,
    events: Seq<PrepareEvent>,
)
    requires
        call_ensures(Preparation::prepare_configured, (task, preferences, sandbox), begun),
    ensures
        prepared(begun@, events).stage matches PrepareText::Ended(Ok(input)) ==> {
            &&& preferences.plan ==> input.mode == ExecutionMode::Plan
            &&& !preferences.plan ==> input.mode == ExecutionMode::Execute
            &&& preferences.model matches Some(m) ==> input.model == m@
            &&& preferences.model is None ==> exists|i: int|
                0 <= i < events.len() && named_default(#[trigger] events[i], input.model)
            &&& input.prompt == task@.prompt
            &&& input.directory == task@.session.workspace
            &&& input.sandbox == sandbox
            &&& input.images.len() == 0
            &&& right_thread(task@, events, input.thread_id)
        },
{
    assert(path_texts(begun.images@) =~= Seq::empty());
    course_is_kept(begun@, events);
}

/// One step of an actual preparation is one step of this account of it.
pub proof fn preparations_take_their_events(p: Preparation, event: PrepareEvent, r: Preparation, events: Seq<PrepareEvent>)
    requires
        call_ensures(Preparation::step, (p, event), r),
    ensures
        forall|p0: PreparationText| prepared(p0, events) == p@ ==> #[trigger] prepared(p0, events.push(event)) == r@,
{
    assert(events.push(event).drop_last() =~= events);
}

/// A preparation whose questions are all answered as they should be succeeds.
pub proof fn preparations_succeed(
    task: TaskSpec,
    images: Vec<Directory>,
    sandbox: Sandbox,
    begun: Preparation,
    models: Vec<Model>,
    previous: Option<String>,
    thread: ThreadSummary,
)
    requires
        call_ensures(Preparation::prepare, (task, images, sandbox), begun),
        task@.session.workspace.path.len() > 0,
        task@.session.workspace.path[0] == '/',
        task@.session.user.len() > 0,
        forall|i: int|
            0 <= i < images@.len() ==> (#[trigger] images@[i])@.path.len() > 0 && images@[i]@.path[0] == '/',
        task@.model matches Some(m) ==> m.len() > 0,
        task@.model is None ==> exists|i: int| 0 <= i < models@.len() && (#[trigger] models@[i]).is_default,
        forall|i: int| 0 <= i < models@.len() ==> (#[trigger] models@[i]).id@.len() > 0,
        thread.id@.len() > 0,
        previous matches Some(id) ==> id@ == thread.id@,
        thread.directory matches Some(d) ==> d@.path == task@.session.workspace.path,
    ensures
        ({
            let answers = seq![
                PrepareEvent::Previous(Ok(previous)),
                PrepareEvent::Thread(Ok(thread)),
                PrepareEvent::Bound(Ok(())),
            ];
            let events = if task@.model is Some {
                answers
            } else {
                seq![PrepareEvent::Models(Ok(models))] + answers
            };
            prepared(begun@, events).stage matches PrepareText::Ended(Ok(input)) && input.thread_id == thread.id@
        }),
{
    assert forall|i: int| 0 <= i < path_texts(images@).len() implies is_rooted(#[trigger] path_texts(images@)[i]) by {
        assert(path_texts(images@)[i] == images@[i]@);
    }
    default_is_named(models@);
    let a = PrepareEvent::Models(Ok(models));
    let b = PrepareEvent::Previous(Ok(previous));
    let c = PrepareEvent::Thread(Ok(thread));
    let d = PrepareEvent::Bound(Ok(()));
    reveal_with_fuel(prepared, 5);
    if task@.model is Some {
        let all = seq![b, c, d];
        assert(all.drop_last() =~= seq![b, c]);
        assert(seq![b, c].drop_last() =~= seq![b]);
        assert(seq![b].drop_last() =~= Seq::empty());
    } else {
        let all = seq![a] + seq![b, c, d];
        assert(all.drop_last() =~= seq![a, b, c]);
        assert(seq![a, b, c].drop_last() =~= seq![a, b]);
        assert(seq![a, b].drop_last() =~= seq![a]);
        assert(seq![a].drop_last() =~= Seq::empty());
    }
}

proof fn filter_first<A>(x: A, s: Seq<A>, pred: spec_fn(A) -> bool)
    ensures
        pred(x) ==> (seq![x] + s).filter(pred) == seq![x] + s.filter(pred),
        !pred(x) ==> (seq![x] + s).filter(pred) == s.filter(pred),
{
    Seq::filter_distributes_over_add(seq![x], s, pred);
    reveal_with_fuel(Seq::filter, 2);
    assert(seq![x].drop_last() =~= Seq::empty());
    assert(Seq::<A>::empty() + s.filter(pred) =~= s.filter(pred));
    assert(Seq::<A>::empty().push(x) =~= seq![x]);
}

/// The threads of a directory, in the order they came in.
pub open spec fn threads_of(threads: Seq<ThreadSummary>, workspace: DirectoryText) -> Seq<ThreadSummary> {
    threads.filter(|t: ThreadSummary| t.directory matches Some(d) && d@.path == workspace.path)
}

proof fn listing_takes(threads: Seq<ThreadSummary>, workspace: DirectoryText, room: nat)
    ensures
        ({
            let here = threads_of(threads, workspace);
            let n = if here.len() <= room {
                here.len() as int
            } else {
                room as int
            };
            listing(threads, workspace, room) == here.take(n).filter(|t: ThreadSummary| thread_id_ok(t.id@)).map_values(
                |t: ThreadSummary| ListedText { id: t.id@, title: shown_title(t.title@), active: t.active },
            )
        }),
    decreases threads.len(),
{
    let is_here = |t: ThreadSummary| t.directory matches Some(d) && d@.path == workspace.path;
    let ok = |t: ThreadSummary| thread_id_ok(t.id@);
    let show = |t: ThreadSummary| ListedText { id: t.id@, title: shown_title(t.title@), active: t.active };
    let here = threads_of(threads, workspace);
    let n = if here.len() <= room {
        here.len() as int
    } else {
        room as int
    };
    reveal(Seq::filter);
    if threads.len() == 0 {
        assert(here.take(n) =~= Seq::empty());
        assert(here.take(n).filter(ok).map_values(show) =~= Seq::empty());
    } else if room == 0 {
        assert(here.take(0) =~= Seq::empty());
        assert(here.take(n).filter(ok).map_values(show) =~= Seq::empty());
    } else {
        let t = threads[0];
        let rest = threads.drop_first();
        let rest_here = threads_of(rest, workspace);
        assert(threads =~= seq![t] + rest);
        filter_first(t, rest, is_here);
        if works_in(t, workspace) {
            listing_takes(rest, workspace, (room - 1) as nat);
            let k = if rest_here.len() <= room - 1 {
                rest_here.len() as int
            } else {
                room - 1
            };
            assert(here.take(n) =~= seq![t] + rest_here.take(k));
            filter_first(t, rest_here.take(k), ok);
            let shown = rest_here.take(k).filter(ok);
            assert((seq![t] + shown).map_values(show) =~= seq![show(t)] + shown.map_values(show));
            assert(listing(threads, workspace, room) =~= here.take(n).filter(ok).map_values(show));
        } else {
            listing_takes(rest, workspace, room);
        }
    }
}

/// A user is shown the first eight threads of the directory, in their order, of
/// these the ones with a well-formed id, each with its own id, title and state.
pub proof fn lists_show_the_directory(threads: Vec<ThreadSummary>, workspace: Directory, r: Vec<ListedThread>)
    requires
        call_ensures(list_entries, (&threads, &workspace), r),
    ensures
        ({
            let here = threads_of(threads@, workspace@);
            let n = if here.len() <= 8 {
                here.len() as int
            } else {
                8
            };
            listed_texts(r@) == here.take(n).filter(|t: ThreadSummary| thread_id_ok(t.id@)).map_values(
                |t: ThreadSummary| ListedText { id: t.id@, title: shown_title(t.title@), active: t.active },
            )
        }),
{
    listing_takes(threads@, workspace@, 8);
}

/// A shown title holds no control characters and at most 160 characters; a
/// title without control characters is shown from its beginning.
pub proof fn titles_are_shown_clean(title: Seq<char>)
    ensures
        shown_title(title).len() <= 160,
        forall|i: int| 0 <= i < shown_title(title).len() ==> !is_control(#[trigger] shown_title(title)[i]),
        (forall|i: int| 0 <= i < title.len() ==> !is_control(#[trigger] title[i])) ==> shown_title(title) == title.take(
            if title.len() <= 160 {
                title.len() as int
            } else {
                160
            },
        ),
{
    let pred = |c: char| !is_control(c);
    let visible = title.filter(pred);
    assert forall|i: int| 0 <= i < shown_title(title).len() implies !is_control(#[trigger] shown_title(title)[i]) by {
        title.lemma_filter_pred(pred, i);
    }
    if forall|i: int| 0 <= i < title.len() ==> !is_control(#[trigger] title[i]) {
        all_pass(title, pred);
        if title.len() <= 160 {
            assert(title.take(title.len() as int) =~= title);
        }
    }
}

proof fn all_pass(s: Seq<char>, pred: spec_fn(char) -> bool)
    requires
        forall|i: int| 0 <= i < s.len() ==> pred(#[trigger] s[i]),
    ensures
        s.filter(pred) == s,
    decreases s.len(),
{
    reveal(Seq::filter);
    if s.len() > 0 {
        all_pass(s.drop_last(), pred);
        assert(s.drop_last().push(s.last()) =~= s);
    }
}

/// A resumption after all of the events.
pub open spec fn resumed(session: SessionText, id: Seq<char>, stage: ResumeStage, events: Seq<ResumeEvent>) -> ResumeStage
    decreases events.len(),
{
    if events.len() == 0 {
        stage
    } else {
        resume_next(session, id, resumed(session, id, stage, events.drop_last()), events.last())
    }
}

/// The agent showed the thread that was asked for: idle, and in the directory.
pub open spec fn showed_idle(e: ResumeEvent, session: SessionText, id: Seq<char>) -> bool {
    e matches ResumeEvent::Thread(Ok(t)) && t.id@ == id && !t.active && (t.directory matches Some(d) && d@.path
        == session.workspace.path)
}

spec fn resumes_well(session: SessionText, id: Seq<char>, stage: ResumeStage, events: Seq<ResumeEvent>) -> bool {
    match stage {
        ResumeStage::Reading => true,
        ResumeStage::Resuming => exists|i: int| 0 <= i < events.len() && showed_idle(#[trigger] events[i], session, id),
        ResumeStage::Binding => exists|i: int, j: int|
            #![trigger events[i], events[j]]
            0 <= i < j < events.len() && showed_idle(events[i], session, id) && showed_idle(events[j], session, id),
        ResumeStage::Ended(Ok(_)) => exists|i: int, j: int, k: int|
            #![trigger events[i], events[j], events[k]]
            0 <= i < j < k < events.len() && showed_idle(events[i], session, id) && showed_idle(events[j], session, id)
                && (events[k] matches ResumeEvent::Bound(Ok(_))),
        ResumeStage::Ended(Err(_)) => true,
    }
}

proof fn resumption_is_kept(session: SessionText, id: Seq<char>, events: Seq<ResumeEvent>)
    ensures
        resumes_well(session, id, resumed(session, id, resume_begin(session, id), events), events),
    decreases events.len(),
{
    if events.len() > 0 {
        let before = events.drop_last();
        resumption_is_kept(session, id, before);
        let stage = resumed(session, id, resume_begin(session, id), before);
        let next = resumed(session, id, resume_begin(session, id), events);
        let last = events.len() - 1;
        match stage {
            ResumeStage::Reading => {
                if next is Resuming {
                    assert(showed_idle(events[last], session, id));
                }
            },
            ResumeStage::Resuming => {
                let i = choose|i: int| 0 <= i < before.len() && showed_idle(#[trigger] before[i], session, id);
                assert(events[i] == before[i]);
                if next is Binding {
                    assert(showed_idle(events[last], session, id));
                }
            },
            ResumeStage::Binding => {
                let (i, j) = choose|i: int, j: int|
                    #![trigger before[i], before[j]]
                    0 <= i < j < before.len() && showed_idle(before[i], session, id) && showed_idle(before[j], session, id);
                assert(events[i] == before[i] && events[j] == before[j]);
                assert((next matches ResumeStage::Ended(Ok(_))) ==> (events[last] matches ResumeEvent::Bound(Ok(_))));
            },
            ResumeStage::Ended(Ok(_)) => {
                let (i, j, k) = choose|i: int, j: int, k: int|
                    #![trigger before[i], before[j], before[k]]
                    0 <= i < j < k < before.len() && showed_idle(before[i], session, id) && showed_idle(before[j], session, id)
                        && (before[k] matches ResumeEvent::Bound(Ok(_)));
                assert(events[i] == before[i] && events[j] == before[j] && events[k] == before[k]);
            },
            _ => {},
        }
    }
}

/// Whatever comes in: a thread counts as resumed only after the agent showed
/// that very thread twice, idle and in the session's directory, and the binding
/// was saved after that.
pub proof fn resumed_threads_were_checked(session: SessionKey, id: String, begun: Resumption, events: Seq<ResumeEvent>)
    requires
        call_ensures(Resumption::resume, (session, id), begun),
    ensures
        (resumed(session@, id@, begun.stage, events) matches ResumeStage::Ended(Ok(_))) ==> exists|i: int, j: int, k: int|
            #![trigger events[i], events[j], events[k]]
            0 <= i < j < k < events.len() && showed_idle(events[i], session@, id@) && showed_idle(events[j], session@, id@)
                && (events[k] matches ResumeEvent::Bound(Ok(_))),
        begun.session == session,
        begun.id == id,
{
    resumption_is_kept(session@, id@, events);
}

/// A well-formed request to resume an idle thread of the directory succeeds.
pub proof fn idle_threads_are_resumed(session: SessionKey, id: String, begun: Resumption, read: ThreadSummary, back: ThreadSummary)
    requires
        call_ensures(Resumption::resume, (session, id), begun),
        thread_id_ok(id@),
        session@.workspace.path.len() > 0,
        session@.workspace.path[0] == '/',
        session@.user.len() > 0,
        showed_idle(ResumeEvent::Thread(Ok(read)), session@, id@),
        showed_idle(ResumeEvent::Thread(Ok(back)), session@, id@),
    ensures
        resumed(
            session@,
            id@,
            begun.stage,
            seq![ResumeEvent::Thread(Ok(read)), ResumeEvent::Thread(Ok(back)), ResumeEvent::Bound(Ok(()))],
        ) == ResumeStage::Ended(Ok(())),
{
    let a = ResumeEvent::Thread(Ok(read));
    let b = ResumeEvent::Thread(Ok(back));
    let c = ResumeEvent::Bound(Ok(()));
    reveal_with_fuel(resumed, 4);
    assert(seq![a, b, c].drop_last() =~= seq![a, b]);
    assert(seq![a, b].drop_last() =~= seq![a]);
    assert(seq![a].drop_last() =~= Seq::empty());
}

/// A model is saved only if the agent offers it; the planning mode, and the
/// return to the default model, need no such question.
pub proof fn only_offered_models_are_saved(session: SessionKey, change: PreferenceChange, begun: PreferenceUpdate, models: Vec<Model>)
    requires
        call_ensures(PreferenceUpdate::change_preference, (session, change), begun),
    ensures
        begun.session == session,
        begun.change == change,
        change is Plan ==> begun.stage == ChangeStage::Saving,
        change == PreferenceChange::Model(None) ==> begun.stage == ChangeStage::Saving,
        change matches PreferenceChange::Model(Some(id)) ==> {
            let asked = change_next(change@, begun.stage, ChangeEvent::Models(Ok(models)));
            &&& begun.stage !is Saving
            &&& asked is Saving <==> 0 < id@.len() && byte_count(id@) <= 256 && exists|i: int|
                0 <= i < models@.len() && (#[trigger] models@[i]).id@ == id@
            &&& asked !is Saving ==> asked == ChangeStage::Ended(Err(StartError::Backend(BackendError::Incompatible)))
        },
        change_next(change@, ChangeStage::Saving, ChangeEvent::Saved(Ok(()))) == ChangeStage::Ended(Ok(())),
        forall|stage: ChangeStage, event: ChangeEvent|
            ((#[trigger] change_next(change@, stage, event)) matches ChangeStage::Ended(Ok(_))) && stage !is Ended ==> stage is Saving
                && (event matches ChangeEvent::Saved(Ok(_))),
{
}

/// The list names each of its threads, with the command that resumes it.
pub proof fn lists_name_their_threads(entries: Seq<ListedText>, k: int) -> (at: int)
    requires
        0 <= k < entries.len(),
    ensures
        ({
            let t = entries[k];
            let line = "\n\n"@ + t.title + (if t.active {
                "（执行中）"@
            } else {
                ""@
            }) + "\n/resume "@ + t.id;
            &&& 0 <= at <= at + line.len() <= list_text(entries).len()
            &&& list_text(entries).subrange(at, at + line.len()) == line
        }),
{
    let line = "\n\n"@ + resume_line(entries[k]);
    let head = "当前目录最近会话（最多 8 项），复制对应命令恢复："@;
    let at = resume_line_at(entries, k);
    let lines = resume_lines(entries);
    assert(list_text(entries) == head + lines);
    assert((head + lines).subrange(head.len() + at, head.len() + at + line.len()) =~= lines.subrange(at, at + line.len()));
    let t = entries[k];
    assert(line =~= "\n\n"@ + t.title + (if t.active {
        "（执行中）"@
    } else {
        ""@
    }) + "\n/resume "@ + t.id);
    head.len() + at
}

proof fn resume_line_at(entries: Seq<ListedText>, k: int) -> (at: int)
    requires
        0 <= k < entries.len(),
    ensures
        ({
            let line = "\n\n"@ + resume_line(entries[k]);
            &&& 0 <= at <= at + line.len() <= resume_lines(entries).len()
            &&& resume_lines(entries).subrange(at, at + line.len()) == line
        }),
    decreases entries.len(),
{
    let before = resume_lines(entries.drop_last());
    let all = resume_lines(entries);
    let line = "\n\n"@ + resume_line(entries[k]);
    let last = "\n\n"@ + resume_line(entries.last());
    assert(all =~= before + last);
    if k == entries.len() - 1 {
        assert(all.subrange(before.len() as int, before.len() as int + line.len()) =~= line);
        before.len() as int
    } else {
        assert(entries.drop_last()[k] == entries[k]);
        let at = resume_line_at(entries.drop_last(), k);
        assert(all.subrange(at, at + line.len()) =~= before.subrange(at, at + line.len()));
        at
    }
}

} // verus!
