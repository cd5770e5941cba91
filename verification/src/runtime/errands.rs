//! Background work that alternates calls with decisions: carrying out a plan's
//! choice, preparing a task's turn, acting in a validated directory, and what
//! list commands show. Each errand names what is to be asked next and takes the
//! answer.
use vstd::prelude::*;
use vstd::string::*;
use crate::files::PreparedFiles;
use crate::messaging::{delivery_sentence, DeliveryError};
use crate::model::{Directory, DirectoryText, ExecutionMode, TaskSpec, TaskText};
use crate::ports::{path_texts, BackendError, Model, Sandbox, TurnInput, TurnInputText};
use crate::runtime::state::{ListedContent, PlanChoice, PreferenceQuery};
use crate::sessions::{
    configured, preparation_next, prepare_begin, start_sentence, ChangeText, Preferences, Preparation, PreparationText,
    PreferenceChange, PrepareEvent, PrepareStage, PrepareText, SessionStoreError, StartError,
};
use crate::text::{opt, same};

verus! {

/// Where the carrying out of a plan's choice stands.
pub enum PlanStage {
    /// The input is to be claimed.
    Claiming,
    /// The directory is to be validated.
    Validating,
    /// The session's thread is needed.
    Thread,
    /// The session's settings are needed.
    Preferences,
    /// The thread is to be checked with the agent.
    Reconciling,
    /// The plan mode is to be saved.
    Setting,
    /// The session's binding is to be cleared.
    Clearing,
    Ended(Result<bool, String>),
}

/// A stage by its texts.
pub enum PlanText {
    Claiming,
    Validating,
    Thread,
    Preferences,
    Reconciling,
    Setting,
    Clearing,
    Ended(Result<bool, Seq<char>>),
}

impl View for PlanStage {
    type V = PlanText;

    open spec fn view(&self) -> PlanText {
        match self {
            PlanStage::Claiming => PlanText::Claiming,
            PlanStage::Validating => PlanText::Validating,
            PlanStage::Thread => PlanText::Thread,
            PlanStage::Preferences => PlanText::Preferences,
            PlanStage::Reconciling => PlanText::Reconciling,
            PlanStage::Setting => PlanText::Setting,
            PlanStage::Clearing => PlanText::Clearing,
            PlanStage::Ended(Ok(new)) => PlanText::Ended(Ok(*new)),
            PlanStage::Ended(Err(e)) => PlanText::Ended(Err(e@)),
        }
    }
}

/// What the store or the agent answered.
pub enum PlanEvent {
    Claimed(Result<bool, SessionStoreError>),
    Validated(Result<(), SessionStoreError>),
    Thread(Result<Option<String>, SessionStoreError>),
    Preferences(Result<Preferences, SessionStoreError>),
    Reconciled(Result<(), StartError>),
    Saved(Result<(), SessionStoreError>),
    Cleared(Result<(), SessionStoreError>),
}

/// The carrying out of one choice about the plan that `thread` holds.
pub struct PlanErrand {
    pub thread: String,
    pub choice: PlanChoice,
    pub stage: PlanStage,
}

/// The errand ends because durable state failed.
pub open spec fn plan_broken(e: SessionStoreError) -> PlanText {
    PlanText::Ended(Err(start_sentence(StartError::Storage(e))))
}

/// The next stage once a step without a result was carried out.
pub open spec fn plan_passed(result: Result<(), SessionStoreError>, next: PlanText) -> PlanText {
    match result {
        Ok(_) => next,
        Err(e) => plan_broken(e),
    }
}

/// The plan belongs to a session or mode that has changed since.
pub open spec fn plan_outdated() -> PlanText {
    PlanText::Ended(Err("计划所属会话或模式已经变化"@))
}

/// The stage after an answer. A choice that was claimed before is not carried
/// out again; nothing is saved for a plan whose session or mode has changed.
pub open spec fn plan_next(thread: Seq<char>, choice: PlanChoice, stage: PlanText, event: PlanEvent) -> PlanText {
    match (stage, event) {
        (PlanText::Claiming, PlanEvent::Claimed(result)) => match result {
            Ok(true) => PlanText::Validating,
            Ok(false) => PlanText::Ended(Ok(false)),
            Err(e) => plan_broken(e),
        },
        (PlanText::Validating, PlanEvent::Validated(result)) => plan_passed(result, PlanText::Thread),
        (PlanText::Thread, PlanEvent::Thread(result)) => match result {
            Ok(stored) => if opt(stored) == Some(thread) {
                PlanText::Preferences
            } else {
                plan_outdated()
            },
            Err(e) => plan_broken(e),
        },
        (PlanText::Preferences, PlanEvent::Preferences(result)) => match result {
            Ok(preferences) => if preferences.plan {
                PlanText::Reconciling
            } else {
                plan_outdated()
            },
            Err(e) => plan_broken(e),
        },
        (PlanText::Reconciling, PlanEvent::Reconciled(result)) => match result {
            Ok(_) => PlanText::Setting,
            Err(e) => PlanText::Ended(Err(start_sentence(e))),
        },
        (PlanText::Setting, PlanEvent::Saved(result)) => plan_passed(
            result,
            if choice == PlanChoice::Fresh {
                PlanText::Clearing
            } else {
                PlanText::Ended(Ok(true))
            },
        ),
        (PlanText::Clearing, PlanEvent::Cleared(result)) => plan_passed(result, PlanText::Ended(Ok(true))),
        _ => stage,
    }
}

fn broken(e: SessionStoreError) -> (r: PlanStage)
    ensures
        r@ == plan_broken(e),
{
    PlanStage::Ended(Err(StartError::Storage(e).message()))
}

impl PlanErrand {
    pub fn new(thread: String, choice: PlanChoice) -> (r: Self)
        ensures
            r.thread == thread,
            r.choice == choice,
            r.stage@ == PlanText::Claiming,
    {
        PlanErrand { thread, choice, stage: PlanStage::Claiming }
    }

    /// The setting that the choice asks for: only staying keeps the plan mode.
    pub fn setting(&self) -> (r: PreferenceChange)
        ensures
            r@ == ChangeText::Plan(self.choice == PlanChoice::Stay),
    {
        PreferenceChange::Plan(self.choice == PlanChoice::Stay)
    }

    /// Takes an answer.
    pub fn step(&mut self, event: PlanEvent)
        ensures
            final(self).thread == old(self).thread,
            final(self).choice == old(self).choice,
            final(self).stage@ == plan_next(old(self).thread@, old(self).choice, old(self).stage@, event),
    {
        match (&self.stage, event) {
            (PlanStage::Claiming, PlanEvent::Claimed(result)) => {
                self.stage = match result {
                    Ok(true) => PlanStage::Validating,
                    Ok(false) => PlanStage::Ended(Ok(false)),
                    Err(e) => broken(e),
                };
            },
            (PlanStage::Validating, PlanEvent::Validated(result)) => {
                self.stage = match result {
                    Ok(()) => PlanStage::Thread,
                    Err(e) => broken(e),
                };
            },
            (PlanStage::Thread, PlanEvent::Thread(result)) => {
                self.stage = match result {
                    Ok(stored) => {
                        let unchanged = match &stored {
                            Some(id) => same(id.as_str(), self.thread.as_str()),
                            None => false,
                        };
                        if unchanged {
                            PlanStage::Preferences
                        } else {
                            PlanStage::Ended(Err("计划所属会话或模式已经变化".to_owned()))
                        }
                    },
                    Err(e) => broken(e),
                };
            },
            (PlanStage::Preferences, PlanEvent::Preferences(result)) => {
                self.stage = match result {
                    Ok(preferences) => if preferences.plan {
                        PlanStage::Reconciling
                    } else {
                        PlanStage::Ended(Err("计划所属会话或模式已经变化".to_owned()))
                    },
                    Err(e) => broken(e),
                };
            },
            (PlanStage::Reconciling, PlanEvent::Reconciled(result)) => {
                self.stage = match result {
                    Ok(()) => PlanStage::Setting,
                    Err(e) => PlanStage::Ended(Err(e.message())),
                };
            },
            (PlanStage::Setting, PlanEvent::Saved(result)) => {
                self.stage = match result {
                    Ok(()) => if self.choice == PlanChoice::Fresh {
                        PlanStage::Clearing
                    } else {
                        PlanStage::Ended(Ok(true))
                    },
                    Err(e) => broken(e),
                };
            },
            (PlanStage::Clearing, PlanEvent::Cleared(result)) => {
                self.stage = match result {
                    Ok(()) => PlanStage::Ended(Ok(true)),
                    Err(e) => broken(e),
                };
            },
            _ => {},
        }
    }
}

/// A plan's choice is carried out at most once: only a newly claimed input gets
/// past the claim.
pub proof fn plans_need_a_new_claim(thread: Seq<char>, choice: PlanChoice, event: PlanEvent)
    ensures
        ({
            let next = plan_next(thread, choice, PlanText::Claiming, event);
            next is Claiming || next is Ended || (next is Validating && (event matches PlanEvent::Claimed(Ok(true))))
        }),
{
}

/// The plan mode is changed only for a plan whose thread is still bound and
/// whose session is still in plan mode.
pub proof fn outdated_plans_change_nothing(thread: Seq<char>, choice: PlanChoice, stored: Option<String>, preferences: Preferences)
    ensures
        opt(stored) != Some(thread) ==> plan_next(thread, choice, PlanText::Thread, PlanEvent::Thread(Ok(stored))) is Ended,
        !preferences.plan ==> plan_next(thread, choice, PlanText::Preferences, PlanEvent::Preferences(Ok(preferences))) is Ended,
{
}

/// Where the preparation of a task stands.
pub enum TaskStage {
    /// The directory is to be validated.
    Validating,
    /// The attachments are to be staged.
    Staging,
    /// The session's settings are needed.
    Preferences { images: Vec<Directory> },
    /// The turn is being prepared.
    Turn { images: Vec<Directory>, turn: Preparation },
    /// The generated images' baseline is to be taken.
    Files { input: TurnInput },
    Ended(Result<TurnInput, String>),
}

/// A stage by its texts.
pub enum TaskStageText {
    Validating,
    Staging,
    Preferences { images: Seq<DirectoryText> },
    Turn { images: Seq<DirectoryText>, turn: PreparationText },
    Files { input: TurnInputText },
    Ended(Result<TurnInputText, Seq<char>>),
}

impl View for TaskStage {
    type V = TaskStageText;

    open spec fn view(&self) -> TaskStageText {
        match self {
            TaskStage::Validating => TaskStageText::Validating,
            TaskStage::Staging => TaskStageText::Staging,
            TaskStage::Preferences { images } => TaskStageText::Preferences { images: path_texts(images@) },
            TaskStage::Turn { images, turn } => TaskStageText::Turn { images: path_texts(images@), turn: turn@ },
            TaskStage::Files { input } => TaskStageText::Files { input: input@ },
            TaskStage::Ended(Ok(input)) => TaskStageText::Ended(Ok(input@)),
            TaskStage::Ended(Err(e)) => TaskStageText::Ended(Err(e@)),
        }
    }
}

/// What the store, the agent or the file adapter answered; `None` where it did
/// not answer in time.
pub enum TaskEvent {
    Validated(Result<(), SessionStoreError>),
    Staged(Option<Result<PreparedFiles, DeliveryError>>),
    Preferences(Result<Preferences, SessionStoreError>),
    Turn(PrepareEvent),
    Bound(Option<Result<(), DeliveryError>>),
}

/// The preparation of one task: its directory, its attachments, its turn.
pub struct TaskErrand {
    pub task: TaskSpec,
    pub sandbox: Sandbox,
    pub stage: TaskStage,
}

/// A task errand by its texts.
pub struct TaskErrandText {
    pub task: TaskText,
    pub sandbox: Sandbox,
    pub stage: TaskStageText,
}

impl View for TaskErrand {
    type V = TaskErrandText;

    open spec fn view(&self) -> TaskErrandText {
        TaskErrandText { task: self.task@, sandbox: self.sandbox, stage: self.stage@ }
    }
}

pub open spec fn task_failed(sentence: Seq<char>) -> TaskStageText {
    TaskStageText::Ended(Err(sentence))
}

/// A prepared turn gets its images; a failed preparation ends the errand.
pub open spec fn turn_settled(images: Seq<DirectoryText>, turn: PreparationText) -> TaskStageText {
    match turn.stage {
        PrepareText::Ended(Ok(input)) => TaskStageText::Files { input: TurnInputText { images, ..input } },
        PrepareText::Ended(Err(e)) => task_failed(start_sentence(e)),
        _ => TaskStageText::Turn { images, turn },
    }
}

pub open spec fn turn_begun(task: TaskText, model: Option<Seq<char>>, plan: bool, sandbox: Sandbox) -> PreparationText {
    let set = configured(task, model, plan);
    PreparationText { task: set, images: Seq::empty(), sandbox, stage: prepare_begin(set, Seq::empty()) }
}

/// The errand after an answer.
pub open spec fn task_next(t: TaskErrandText, event: TaskEvent) -> TaskErrandText {
    match (t.stage, event) {
        (TaskStageText::Validating, TaskEvent::Validated(result)) => TaskErrandText {
            stage: match result {
                Ok(_) => TaskStageText::Staging,
                Err(_) => task_failed("当前目录已失效或越出工作区，请使用 /cd <绝对路径> 重新选择目录。"@),
            },
            ..t
        },
        (TaskStageText::Staging, TaskEvent::Staged(result)) => match result {
            None => TaskErrandText { stage: task_failed("附件准备超时"@), ..t },
            Some(Err(e)) => TaskErrandText {
                stage: task_failed("附件或快照准备失败："@ + delivery_sentence(e)),
                ..t
            },
            Some(Ok(files)) => TaskErrandText {
                task: TaskText { prompt: t.task.prompt + files@.prompt, ..t.task },
                stage: TaskStageText::Preferences { images: files@.images },
                ..t
            },
        },
        (TaskStageText::Preferences { images }, TaskEvent::Preferences(result)) => TaskErrandText {
            stage: match result {
                Ok(p) => turn_settled(images, turn_begun(t.task, opt(p.model), p.plan, t.sandbox)),
                Err(e) => task_failed(start_sentence(StartError::Storage(e))),
            },
            ..t
        },
        (TaskStageText::Turn { images, turn }, TaskEvent::Turn(event)) => TaskErrandText {
            stage: turn_settled(images, preparation_next(turn, event)),
            ..t
        },
        (TaskStageText::Files { input }, TaskEvent::Bound(result)) => TaskErrandText {
            stage: match result {
                None => task_failed("生成图片快照超时"@),
                Some(Err(e)) => task_failed(delivery_sentence(e)),
                Some(Ok(_)) => TaskStageText::Ended(Ok(input)),
            },
            ..t
        },
        _ => t,
    }
}

fn settle_turn(images: Vec<Directory>, turn: Preparation) -> (r: TaskStage)
    ensures
        r@ == turn_settled(path_texts(images@), turn@),
{
    let Preparation { task, images: given, sandbox, stage } = turn;
    match stage {
        PrepareStage::Ended(Ok(input)) => {
            let mut input = input;
            input.images = images;
            TaskStage::Files { input }
        },
        PrepareStage::Ended(Err(e)) => TaskStage::Ended(Err(e.message())),
        stage => TaskStage::Turn { images, turn: Preparation { task, images: given, sandbox, stage } },
    }
}

impl TaskErrand {
    pub fn new(task: TaskSpec, sandbox: Sandbox) -> (r: Self)
        ensures
            r@ == (TaskErrandText { task: task@, sandbox, stage: TaskStageText::Validating }),
    {
        TaskErrand { task, sandbox, stage: TaskStage::Validating }
    }

    /// Takes an answer.
    pub fn step(self, event: TaskEvent) -> (r: Self)
        ensures
            r@ == task_next(self@, event),
    {
        let TaskErrand { task, sandbox, stage } = self;
        match (stage, event) {
            (TaskStage::Validating, TaskEvent::Validated(result)) => {
                let stage = match result {
                    Ok(()) => TaskStage::Staging,
                    Err(_) => TaskStage::Ended(
                        Err("当前目录已失效或越出工作区，请使用 /cd <绝对路径> 重新选择目录。".to_owned()),
                    ),
                };
                TaskErrand { task, sandbox, stage }
            },
            (TaskStage::Staging, TaskEvent::Staged(result)) => match result {
                None => TaskErrand { task, sandbox, stage: TaskStage::Ended(Err("附件准备超时".to_owned())) },
                Some(Err(e)) => {
                    let mut t = "附件或快照准备失败：".to_owned();
                    t.append(e.message().as_str());
                    TaskErrand { task, sandbox, stage: TaskStage::Ended(Err(t)) }
                },
                Some(Ok(files)) => {
                    let mut task = task;
                    task.prompt.append(files.prompt.as_str());
                    TaskErrand { task, sandbox, stage: TaskStage::Preferences { images: files.images } }
                },
            },
            (TaskStage::Preferences { images }, TaskEvent::Preferences(result)) => {
                let stage = match result {
                    Ok(preferences) => {
                        let turn = Preparation::prepare_configured(task.clone(), preferences, sandbox);
                        proof {
                            assert(path_texts(turn.images@) =~= Seq::empty());
                        }
                        settle_turn(images, turn)
                    },
                    Err(e) => TaskStage::Ended(Err(StartError::Storage(e).message())),
                };
                TaskErrand { task, sandbox, stage }
            },
            (TaskStage::Turn { images, turn }, TaskEvent::Turn(event)) => {
                let stage = settle_turn(images, turn.step(event));
                TaskErrand { task, sandbox, stage }
            },
            (TaskStage::Files { input }, TaskEvent::Bound(result)) => {
                let stage = match result {
                    None => TaskStage::Ended(Err("生成图片快照超时".to_owned())),
                    Some(Err(e)) => TaskStage::Ended(Err(e.message())),
                    Some(Ok(())) => TaskStage::Ended(Ok(input)),
                };
                TaskErrand { task, sandbox, stage }
            },
            (stage, _) => TaskErrand { task, sandbox, stage },
        }
    }
}

/// Where an errand that acts in a session's directory stands.
pub enum CheckedStage<T> {
    /// The directory is to be validated.
    Validating,
    /// The store or the agent is to be asked.
    Acting,
    Ended(Result<T, StartError>),
}

/// What the store or the agent answered.
pub enum CheckedEvent<T> {
    Validated(Result<(), SessionStoreError>),
    Acted(Result<T, StartError>),
}

/// The stage after an answer. Nothing is asked for a directory that is not
/// valid; what was asked is asked once, and its answer is the errand's.
pub open spec fn checked_next<T>(stage: CheckedStage<T>, event: CheckedEvent<T>) -> CheckedStage<T> {
    match (stage, event) {
        (CheckedStage::Validating, CheckedEvent::Validated(result)) => match result {
            Ok(_) => CheckedStage::Acting,
            Err(e) => CheckedStage::Ended(Err(StartError::Storage(e))),
        },
        (CheckedStage::Acting, CheckedEvent::Acted(result)) => CheckedStage::Ended(result),
        (stage, _) => stage,
    }
}

impl<T> CheckedStage<T> {
    /// Takes an answer.
    pub fn step(self, event: CheckedEvent<T>) -> (r: Self)
        ensures
            r == checked_next(self, event),
    {
        match (self, event) {
            (CheckedStage::Validating, CheckedEvent::Validated(result)) => match result {
                Ok(()) => CheckedStage::Acting,
                Err(e) => CheckedStage::Ended(Err(StartError::Storage(e))),
            },
            (CheckedStage::Acting, CheckedEvent::Acted(result)) => CheckedStage::Ended(result),
            (stage, _) => stage,
        }
    }
}

/// The store or the agent is asked only after the directory was found valid.
pub proof fn invalid_directories_change_nothing<T>(event: CheckedEvent<T>)
    ensures
        ({
            let next = checked_next(CheckedStage::Validating, event);
            next is Acting <==> (event matches CheckedEvent::Validated(Ok(_)))
        }),
        event matches CheckedEvent::Validated(Err(e)) ==> checked_next(CheckedStage::Validating, event) == CheckedStage::<T>::Ended(
            Err(StartError::Storage(e)),
        ),
{
}

/// The model that a session uses, as it is shown.
pub open spec fn model_name(model: Option<Seq<char>>) -> Seq<char> {
    match model {
        Some(m) => m,
        None => "Codex 默认"@,
    }
}

/// What the list commands say about a setting.
pub open spec fn setting_text(what: PreferenceQuery, model: Option<Seq<char>>, plan: bool) -> Seq<char> {
    if what == PreferenceQuery::Model {
        "当前模型："@ + model_name(model)
    } else {
        "Plan 模式："@ + (if plan {
            "已开启"@
        } else {
            "已关闭"@
        }) + "。使用 /plan on 或 /plan off 切换。"@
    }
}

/// The content shows the setting: a sentence, or the agent's models.
pub open spec fn shows(content: ListedContent, what: PreferenceQuery, preferences: Preferences, models: Seq<Model>) -> bool {
    if what == PreferenceQuery::Models {
        content matches ListedContent::Models { entries, current } && entries@ == models && opt(current) == Some(
            model_name(opt(preferences.model)),
        )
    } else {
        content matches ListedContent::Text(t) && t@ == setting_text(what, opt(preferences.model), preferences.plan)
    }
}

/// What a command about settings shows.
pub fn show_setting(what: PreferenceQuery, preferences: Preferences, models: Vec<Model>) -> (r: ListedContent)
    ensures
        shows(r, what, preferences, models@),
{
    let name = match preferences.model {
        Some(m) => m,
        None => "Codex 默认".to_owned(),
    };
    match what {
        PreferenceQuery::Models => ListedContent::Models { entries: models, current: Some(name) },
        PreferenceQuery::Model => {
            let mut t = "当前模型：".to_owned();
            t.append(name.as_str());
            ListedContent::Text(t)
        },
        PreferenceQuery::Plan => {
            let mut t = "Plan 模式：".to_owned();
            if preferences.plan {
                t.append("已开启");
            } else {
                t.append("已关闭");
            }
            t.append("。使用 /plan on 或 /plan off 切换。");
            ListedContent::Text(t)
        },
    }
}

/// Where the showing of a setting stands.
pub enum SettingStage {
    /// The session's settings are needed.
    Preferences,
    /// The agent's models are needed.
    Models { preferences: Preferences },
    Ended(Result<ListedContent, StartError>),
}

/// What the store or the agent answered.
pub enum SettingEvent {
    Preferences(Result<Preferences, SessionStoreError>),
    Models(Result<Vec<Model>, BackendError>),
}

/// The stage that follows an answer. The agent is asked only where its models
/// are to be shown.
pub open spec fn setting_follows(what: PreferenceQuery, before: SettingStage, event: SettingEvent, after: SettingStage) -> bool {
    match (before, event) {
        (SettingStage::Preferences, SettingEvent::Preferences(Ok(p))) => if what == PreferenceQuery::Models {
            after == (SettingStage::Models { preferences: p })
        } else {
            after matches SettingStage::Ended(Ok(c)) && shows(c, what, p, Seq::empty())
        },
        (SettingStage::Preferences, SettingEvent::Preferences(Err(e))) => after == SettingStage::Ended(
            Err(StartError::Storage(e)),
        ),
        (SettingStage::Models { preferences }, SettingEvent::Models(Ok(models))) => after matches SettingStage::Ended(Ok(c))
            && shows(c, what, preferences, models@),
        (SettingStage::Models { .. }, SettingEvent::Models(Err(e))) => after == SettingStage::Ended(
            Err(StartError::Backend(e)),
        ),
        _ => after == before,
    }
}

impl SettingStage {
    /// Takes an answer.
    pub fn step(self, what: PreferenceQuery, event: SettingEvent) -> (r: Self)
        ensures
            setting_follows(what, self, event, r),
    {
        match (self, event) {
            (SettingStage::Preferences, SettingEvent::Preferences(result)) => match result {
                Ok(preferences) => if what == PreferenceQuery::Models {
                    SettingStage::Models { preferences }
                } else {
                    let none: Vec<Model> = Vec::new();
                    SettingStage::Ended(Ok(show_setting(what, preferences, none)))
                },
                Err(e) => SettingStage::Ended(Err(StartError::Storage(e))),
            },
            (SettingStage::Models { preferences }, SettingEvent::Models(result)) => match result {
                Ok(models) => SettingStage::Ended(Ok(show_setting(what, preferences, models))),
                Err(e) => SettingStage::Ended(Err(StartError::Backend(e))),
            },
            (stage, _) => stage,
        }
    }
}

/// Whether a reset goes on to clear the binding: only a new claim does. A
/// repeated command must never erase a newer binding, even after a restart.
pub fn reset_clears(claimed: &Result<bool, SessionStoreError>) -> (r: bool)
    ensures
        r == (*claimed matches Ok(true)),
{
    match claimed {
        Ok(new) => *new,
        Err(_) => false,
    }
}

/// The result of a reset; `cleared` is the clearing's, if one was made.
pub fn reset_result(claimed: Result<bool, SessionStoreError>, cleared: Option<Result<(), SessionStoreError>>) -> (r: Result<bool, ()>)
    ensures
        match claimed {
            Ok(new) => if cleared matches Some(Err(_)) {
                r is Err
            } else {
                r == Ok::<bool, ()>(new)
            },
            Err(_) => r is Err,
        },
{
    match claimed {
        Ok(new) => match cleared {
            Some(Err(_)) => Err(()),
            _ => Ok(new),
        },
        Err(_) => Err(()),
    }
}

/// A task errand after all of the answers.
pub open spec fn prepared_by(t: TaskErrandText, events: Seq<TaskEvent>) -> TaskErrandText
    decreases events.len(),
{
    if events.len() == 0 {
        t
    } else {
        task_next(prepared_by(t, events.drop_last()), events.last())
    }
}

/// The attachments were staged: the prompt went on with their note, and these
/// are their images.
pub open spec fn staged_so(e: TaskEvent, asked: Seq<char>, prompt: Seq<char>, images: Seq<DirectoryText>) -> bool {
    e matches TaskEvent::Staged(Some(Ok(files))) && prompt == asked + files@.prompt && images == files@.images
}

/// The settings were read: the planning mode is on or off, and this is the
/// chosen model, if one is.
pub open spec fn set_so(e: TaskEvent, mode: ExecutionMode, model: Option<Seq<char>>) -> bool {
    e matches TaskEvent::Preferences(Ok(p)) && (p.plan ==> mode == ExecutionMode::Plan) && (!p.plan ==> mode
        == ExecutionMode::Execute) && (p.model matches Some(m) ==> model == Some(m@)) && (p.model is None ==> model is None)
}

/// The input is of the task: its prompt with the note of its attachments, their
/// images, its directory, and the mode and model of its user's settings.
pub open spec fn input_of_task(t: TaskErrandText, input: TurnInputText, events: Seq<TaskEvent>) -> bool {
    &&& input.directory == t.task.session.workspace
    &&& input.sandbox == t.sandbox
    &&& exists|i: int| 0 <= i < events.len() && staged_so(#[trigger] events[i], t.task.prompt, input.prompt, input.images)
    &&& (exists|i: int| 0 <= i < events.len() && set_so(#[trigger] events[i], input.mode, Some(input.model))) || (exists|i: int|
        0 <= i < events.len() && set_so(#[trigger] events[i], input.mode, None))
}

/// The model that the turn's preparation settled on is the chosen one.
spec fn keeps_model(turn: PreparationText) -> bool {
    match turn.stage {
        PrepareText::Previous { model } => turn.task.model matches Some(m) ==> model == m,
        PrepareText::Thread { model, .. } => turn.task.model matches Some(m) ==> model == m,
        PrepareText::Binding { model, .. } => turn.task.model matches Some(m) ==> model == m,
        PrepareText::Models => turn.task.model is None,
        PrepareText::Ended(_) => true,
    }
}

spec fn errand_kept(t0: TaskErrandText, t: TaskErrandText, events: Seq<TaskEvent>) -> bool {
    &&& t.sandbox == t0.sandbox
    &&& t.task == (TaskText { prompt: t.task.prompt, ..t0.task })
    &&& match t.stage {
        TaskStageText::Validating => t.task == t0.task,
        TaskStageText::Staging => t.task == t0.task,
        TaskStageText::Preferences { images } => exists|i: int|
            0 <= i < events.len() && staged_so(#[trigger] events[i], t0.task.prompt, t.task.prompt, images),
        TaskStageText::Turn { images, turn } => {
            &&& turn.sandbox == t0.sandbox
            &&& turn.task.prompt == t.task.prompt
            &&& turn.task.session == t0.task.session
            &&& keeps_model(turn)
            &&& turn.stage !is Ended
            &&& exists|i: int| 0 <= i < events.len() && staged_so(#[trigger] events[i], t0.task.prompt, t.task.prompt, images)
            &&& exists|i: int| 0 <= i < events.len() && set_so(#[trigger] events[i], turn.task.mode, turn.task.model)
        },
        TaskStageText::Files { input } => input_of_task(t0, input, events),
        TaskStageText::Ended(Ok(input)) => input_of_task(t0, input, events),
        TaskStageText::Ended(Err(_)) => true,
    }
}

proof fn staging_stays(before: Seq<TaskEvent>, events: Seq<TaskEvent>, asked: Seq<char>, prompt: Seq<char>, images: Seq<DirectoryText>)
    requires
        events.len() > 0,
        before == events.drop_last(),
        exists|i: int| 0 <= i < before.len() && staged_so(#[trigger] before[i], asked, prompt, images),
    ensures
        exists|i: int| 0 <= i < events.len() && staged_so(#[trigger] events[i], asked, prompt, images),
{
    let i = choose|i: int| 0 <= i < before.len() && staged_so(#[trigger] before[i], asked, prompt, images);
    assert(events[i] == before[i]);
}

proof fn setting_stays(before: Seq<TaskEvent>, events: Seq<TaskEvent>, mode: ExecutionMode, model: Option<Seq<char>>)
    requires
        events.len() > 0,
        before == events.drop_last(),
        exists|i: int| 0 <= i < before.len() && set_so(#[trigger] before[i], mode, model),
    ensures
        exists|i: int| 0 <= i < events.len() && set_so(#[trigger] events[i], mode, model),
{
    let i = choose|i: int| 0 <= i < before.len() && set_so(#[trigger] before[i], mode, model);
    assert(events[i] == before[i]);
}

proof fn input_stays(before: Seq<TaskEvent>, events: Seq<TaskEvent>, t: TaskErrandText, input: TurnInputText)
    requires
        events.len() > 0,
        before == events.drop_last(),
        input_of_task(t, input, before),
    ensures
        input_of_task(t, input, events),
{
    staging_stays(before, events, t.task.prompt, input.prompt, input.images);
    if exists|i: int| 0 <= i < before.len() && set_so(#[trigger] before[i], input.mode, None) {
        setting_stays(before, events, input.mode, None);
    } else {
        setting_stays(before, events, input.mode, Some(input.model));
    }
}

proof fn errand_is_kept(t0: TaskErrandText, events: Seq<TaskEvent>)
    requires
        t0.stage is Validating,
    ensures
        errand_kept(t0, prepared_by(t0, events), events),
    decreases events.len(),
{
    if events.len() > 0 {
        let before = events.drop_last();
        let e = events.last();
        let last = events.len() - 1;
        assert(events[last] == e);
        errand_is_kept(t0, before);
        let t = prepared_by(t0, before);
        match t.stage {
            TaskStageText::Staging => {
                if let TaskEvent::Staged(Some(Ok(files))) = e {
                    assert(staged_so(events[last], t0.task.prompt, t0.task.prompt + files@.prompt, files@.images));
                }
            },
            TaskStageText::Preferences { images } => {
                staging_stays(before, events, t0.task.prompt, t.task.prompt, images);
                if let TaskEvent::Preferences(Ok(p)) = e {
                    let turn = turn_begun(t.task, opt(p.model), p.plan, t.sandbox);
                    assert(set_so(events[last], turn.task.mode, turn.task.model));
                }
            },
            TaskStageText::Turn { images, turn } => {
                staging_stays(before, events, t0.task.prompt, t.task.prompt, images);
                setting_stays(before, events, turn.task.mode, turn.task.model);
                if let TaskEvent::Turn(event) = e {
                    let next = preparation_next(turn, event);
                    assert(next.task == turn.task);
                    if let PrepareText::Ended(Ok(input)) = next.stage {
                        let given = TurnInputText { images, ..input };
                        if turn.task.model is Some {
                            assert(turn.task.model == Some(given.model));
                        }
                        assert(input_of_task(t0, given, events));
                    }
                }
            },
            TaskStageText::Files { input } => {
                input_stays(before, events, t0, input);
            },
            TaskStageText::Ended(Ok(input)) => {
                input_stays(before, events, t0, input);
            },
            _ => {},
        }
    }
}

/// Whatever the store, the agent and the file adapter answer: a task that could
/// be prepared gets a turn of its own. The turn has the task's prompt, followed
/// by the note of its staged attachments, and their images; it runs in the task's
/// directory and in the given sandbox; it plans exactly where the planning mode
/// was read as on, and uses the model that was read, where one was chosen.
pub proof fn tasks_are_prepared_as_set(task: TaskSpec, sandbox: Sandbox, begun: TaskErrand, events: Seq<TaskEvent>)
    requires
        call_ensures(TaskErrand::new, (task, sandbox), begun),
    ensures
        prepared_by(begun@, events).stage matches TaskStageText::Ended(Ok(input)) ==> {
            &&& input.directory == task@.session.workspace
            &&& input.sandbox == sandbox
            &&& exists|i: int|
                0 <= i < events.len() && staged_so(#[trigger] events[i], task@.prompt, input.prompt, input.images)
            &&& (exists|i: int| 0 <= i < events.len() && set_so(#[trigger] events[i], input.mode, Some(input.model))) || (exists|
                i: int,
            |
                0 <= i < events.len() && set_so(#[trigger] events[i], input.mode, None))
        },
{
    errand_is_kept(begun@, events);
}

/// One step of an actual errand is one step of this account of it.
pub proof fn errands_take_their_answers(t: TaskErrand, event: TaskEvent, r: TaskErrand, events: Seq<TaskEvent>)
    requires
        call_ensures(TaskErrand::step, (t, event), r),
    ensures
        forall|t0: TaskErrandText| prepared_by(t0, events) == t@ ==> #[trigger] prepared_by(t0, events.push(event)) == r@,
{
    assert(events.push(event).drop_last() =~= events);
}

/// Nothing is asked out of turn: the attachments are staged only in a valid
/// directory, the settings read only after that, and the turn is handed out only
/// after the file baseline was taken.
pub proof fn tasks_are_prepared_in_order(t: TaskErrandText, event: TaskEvent)
    ensures
        t.stage !is Staging && task_next(t, event).stage is Staging ==> t.stage is Validating && (event matches TaskEvent::Validated(
            Ok(_),
        )),
        t.stage !is Preferences && task_next(t, event).stage is Preferences ==> t.stage is Staging && (
        event matches TaskEvent::Staged(Some(Ok(_)))),
        t.stage !is Ended && (task_next(t, event).stage matches TaskStageText::Ended(Ok(input))) ==> (
        t.stage matches TaskStageText::Files { .. }) && (event matches TaskEvent::Bound(Some(Ok(_)))),
        t.stage is Validating && (event matches TaskEvent::Validated(Ok(_))) ==> task_next(t, event).stage is Staging,
        t.stage is Staging && (event matches TaskEvent::Staged(Some(Ok(_)))) ==> task_next(t, event).stage is Preferences,
        t.stage matches TaskStageText::Files { input } ==> (event matches TaskEvent::Bound(Some(Ok(_))) ==> task_next(t, event).stage
            == TaskStageText::Ended(Ok(input))),
{
}

/// What a user is shown about a setting is what is set.
pub proof fn settings_are_shown_as_set(what: PreferenceQuery, preferences: Preferences, models: Vec<Model>, r: ListedContent)
    requires
        call_ensures(show_setting, (what, preferences, models), r),
    ensures
        what == PreferenceQuery::Plan ==> (r matches ListedContent::Text(t) && t@ == (if preferences.plan {
            "Plan 模式："@ + "已开启"@ + "。使用 /plan on 或 /plan off 切换。"@
        } else {
            "Plan 模式："@ + "已关闭"@ + "。使用 /plan on 或 /plan off 切换。"@
        })),
        what == PreferenceQuery::Model ==> (r matches ListedContent::Text(t) && t@ == "当前模型："@ + (match preferences.model {
            Some(m) => m@,
            None => "Codex 默认"@,
        })),
        what == PreferenceQuery::Models ==> (r matches ListedContent::Models { entries, current } && entries@ == models@ && (
        current matches Some(c) && c@ == (match preferences.model {
            Some(m) => m@,
            None => "Codex 默认"@,
        }))),
{
}

/// A reset clears the session exactly once for each claim, and says so only if
/// the clearing succeeded.
pub proof fn resets_clear_once(
    claimed: Result<bool, SessionStoreError>,
    cleared: Option<Result<(), SessionStoreError>>,
    goes_on: bool,
    r: Result<bool, ()>,
)
    requires
        call_ensures(reset_clears, (&claimed,), goes_on),
        call_ensures(reset_result, (claimed, cleared), r),
    ensures
        goes_on <==> (claimed matches Ok(true)),
        claimed is Err ==> r is Err,
        (claimed matches Ok(true)) && (cleared matches Some(Ok(_))) ==> r == Ok::<bool, ()>(true),
        (claimed matches Ok(true)) && (cleared matches Some(Err(_))) ==> r is Err,
        (claimed matches Ok(false)) && cleared is None ==> r == Ok::<bool, ()>(false),
{
}

} // verus!
