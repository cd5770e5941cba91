//! Durable claim chains over session state: directory selection and creation,
//! preferences, thread resume/archive, reset, compaction and archive sync.
//!
//! Every handler follows one shape: the chain acquired the scheduler's
//! session-mutation gate when its command was accepted, so its terminal event
//! here releases its mutation gate exactly once before reporting success or failure.
//! Results unknown to the durable store reject the input and never replay side
//! effects.
use vstd::prelude::*;
use vstd::string::*;
use crate::cards::{card_commands, command_panel, pairs, Owner, OwnerText};
use crate::directories::{listing, of_others, Creation, CreationText, DirectoryView, CONFIRMATIONS};
use crate::execution::Execution;
use crate::model::{Directory, DirectoryText, ExecutionMode, SessionKey, SessionText, TaskSpec, TaskText};
use crate::outcome::{Compaction, Outcome, OutcomeView};
use crate::ports::{backend_sentence, BackendError};
use crate::runtime::done_task::{fresh_gate, runs};
use crate::runtime::flow::{clock, finished, panel_sent};
use crate::runtime::limits;
use crate::runtime::state::{
    begin, fault_of, generation_in, Active, ActiveKind, ActiveKindText, ActiveText, Fault, Input, InputText, Job, JobText,
    Runtime, RuntimeError, SessionDone, State, Step,
};
use crate::runtime::tokens::{self, confirmation_text, panel_prefix_text, task_id_text};
use crate::sessions::{start_sentence, SessionStoreError, StartError};
use crate::text::texts;
use crate::textmap::kept;
use crate::cards::ActionText;

verus! {

/// The chain cannot go on now; the user is asked to try again.
pub open spec fn busy(s: Step, chat: Seq<char>) -> Step {
    s.release().tell(chat, "系统繁忙，请稍后重新发送。"@)
}

/// The claim of a chain's input was decided: a new claim continues with `job`,
/// a repeated one ends the chain, and an unknown one rejects the input.
#[verifier::opaque]
pub open spec fn claim_decided(s: State, input: InputText, result: Result<bool, ()>, job: JobText, failure: Seq<char>) -> Step {
    match result {
        Ok(true) => {
            let t = begin(s).settle(input.ack, true);
            if t.state.can_spawn(false) {
                t.spawn(job)
            } else {
                busy(t, input.chat)
            }
        },
        Ok(false) => begin(s).release().settle(input.ack, true),
        Err(_) => begin(s).release().settle(input.ack, false).tell(input.chat, failure),
    }
}

/// One archived-thread sync finished; the invalidation gate reopens, whatever
/// came of it. A failed sync stops the run.
#[verifier::opaque]
pub open spec fn after_archive_synced(s: State, result: Result<(), SessionStoreError>) -> Step {
    match result {
        Ok(_) => begin(s).release(),
        Err(_) => begin(s).release().fail(Fault::Storage),
    }
}

pub open spec fn creation_prompt(path: Seq<char>, token: Seq<char>) -> Seq<char> {
    "目录不存在："@ + path + "\n确认后将创建该目录及缺失的父目录，并切换到此目录。\n\n/cd-confirm "@ + token
        + "\n\n仅限当前用户在此聊天确认，10 分钟内有效；超时或切换目录后失效，不会自动创建。"@
}

pub open spec fn creation_entries(token: Seq<char>) -> Seq<(Seq<char>, Seq<char>)> {
    seq![("确认创建并切换"@, "/cd-confirm "@ + token)]
}

/// A directory that does not exist is created only after its user confirms.
pub open spec fn creation_offered(
    s0: State,
    user: Seq<char>,
    chat: Seq<char>,
    current: DirectoryText,
    target: Seq<char>,
    path: DirectoryText,
    now: u64,
) -> Step {
    let s = begin(s0).release();
    if s0.next_confirmation == u64::MAX {
        s.fail(Fault::Capacity("确认编号耗尽"@))
    } else {
        let n = (s0.next_confirmation + 1) as u64;
        let token = confirmation_text(s0.epoch, n);
        let creation = CreationText {
            user,
            chat,
            current,
            input: target,
            target: path,
            deadline: (now + limits::INTERACTION_TIMEOUT) as u64,
        };
        let rest = of_others(s0.confirmations, user);
        let registered = rest.dom().len() < CONFIRMATIONS && token.len() > 0 && !rest.contains_key(token);
        let t = Step {
            state: State {
                next_confirmation: n,
                confirmations: if registered {
                    rest.insert(token, creation)
                } else {
                    rest
                },
                ..s.state
            },
            ..s
        };
        if !registered {
            t.tell(chat, "待确认请求已满，未创建目录；请稍后重新发送 /cd <路径>。"@)
        } else if !s0.can_spawn(false) {
            t.tell(chat, "系统繁忙，请稍后重新发送 /cd <路径>。"@)
        } else if s0.next_panel == u64::MAX {
            t.fail(Fault::Capacity("卡片编号耗尽"@))
        } else {
            let p = (s0.next_panel + 1) as u64;
            let prefix = panel_prefix_text(s0.epoch, p);
            panel_sent(
                Step { state: State { next_panel: p, ..t.state }, ..t },
                None,
                OwnerText {
                    user,
                    chat,
                    directory: current,
                    generation: s0.generation(user),
                    stop_snapshot: (s0.next_task, None),
                },
                command_panel("创建目录确认"@, creation_prompt(path.text, token), creation_entries(token), prefix),
                card_commands(creation_entries(token), prefix),
                now,
            )
        }
    }
}

#[verifier::opaque]
pub open spec fn after_directory_proposed(
    s: State,
    user: Seq<char>,
    chat: Seq<char>,
    current: DirectoryText,
    target: Seq<char>,
    result: Result<Option<Directory>, SessionStoreError>,
    now: u64,
) -> Step {
    match result {
        Ok(None) => if s.can_spawn(false) {
            begin(s).spawn(JobText::ChangeDirectory { user, chat, current, target })
        } else {
            busy(begin(s), chat)
        },
        Ok(Some(path)) => creation_offered(s, user, chat, current, target, path@, now),
        Err(_) => begin(s).release().tell(
            chat,
            "目录路径无效或无法读取；目标须位于工作区内，不能是文件。未创建或切换目录。"@,
        ),
    }
}

/// The creation confirmation claim persisted; the directory is created unless
/// the confirmation expired while the claim was in flight.
#[verifier::opaque]
pub open spec fn after_creation_claim(s: State, input: InputText, creation: CreationText, result: Result<bool, ()>, now: u64) -> Step {
    match result {
        Ok(new) => if new && now < creation.deadline {
            let t = begin(s).settle(input.ack, true);
            if t.state.can_spawn(false) {
                t.spawn(JobText::CreateDirectory { creation })
            } else {
                busy(t, input.chat)
            }
        } else {
            let t = begin(s).release().settle(input.ack, true);
            if new {
                t.tell(input.chat, "创建确认已过期，未执行；请重新发送 /cd <路径>。"@)
            } else {
                t
            }
        },
        Err(_) => begin(s).release().settle(input.ack, false).tell(
            input.chat,
            "创建确认保存失败，未执行；原确认已失效，请重新发送 /cd <路径>。"@,
        ),
    }
}

/// Shared tail of directory creation and change: both invalidate the user's
/// cards, bump the generation and publish the selected directory.
#[verifier::opaque]
pub open spec fn directory_settled(
    s0: State,
    user: Seq<char>,
    chat: Seq<char>,
    result: Result<Directory, SessionStoreError>,
    prefix: Seq<char>,
    suffix: Seq<char>,
    failure: Seq<char>,
) -> Step {
    let s = begin(s0).release();
    match result {
        Ok(path) => Step {
            state: State {
                confirmations: of_others(s0.confirmations, user),
                actions: kept(s0.actions, |k: Seq<char>, a: ActionText| a.user != user),
                generations: s0.generations.insert(user, (s0.generation(user) + 1) as u64),
                directories: s0.directories.insert(user, path@),
                ..s.state
            },
            ..s
        }.tell(chat, prefix + path@.text + suffix),
        Err(_) => s.tell(chat, failure),
    }
}

pub open spec fn after_directory_listed(s: State, chat: Seq<char>, result: Result<DirectoryView, SessionStoreError>) -> Step {
    begin(s).tell(
        chat,
        match result {
            Ok(v) => listing(v.path.text@, texts(v.children@)),
            Err(_) => "当前目录已失效或无法读取；请使用 /cd <工作区内绝对路径> 重新选择。"@,
        },
    )
}

/// A compaction about to be prepared.
pub open spec fn new_compaction(id: Seq<char>, session: SessionText, chat: Seq<char>, now: u64) -> ActiveText {
    ActiveText {
        kind: ActiveKindText::Compact { acknowledged: false, terminal: None, thread: None },
        spec: TaskText { id, session, chat, prompt: Seq::empty(), model: None, mode: ExecutionMode::Execute },
        gate: None,
        turn: None,
        stopping: false,
        output: Seq::empty(),
        plan: None,
        truncated: false,
        started: now,
    }
}

#[verifier::opaque]
pub open spec fn after_compact_claim(s0: State, input: InputText, session: SessionText, result: Result<bool, ()>, now: u64) -> Step {
    match result {
        Ok(true) => {
            let s = begin(s0).settle(input.ack, true);
            if s0.next_task == u64::MAX {
                s.release().fail(Fault::Capacity("任务标识耗尽"@))
            } else {
                let n = (s0.next_task + 1) as u64;
                let id = task_id_text(s0.epoch, n);
                let t = Step {
                    state: State { next_task: n, active: Some(new_compaction(id, session, input.chat, now)), ..s.state },
                    ..s
                }.tell(input.chat, "正在准备压缩上下文；可发送 /status 或 /stop。"@).abandoned();
                if t.fault is Some {
                    t
                } else if s0.can_spawn(false) {
                    t.spawn(JobText::PrepareCompact { id, session })
                } else {
                    finished(t, OutcomeView::NotStarted("系统繁忙，压缩未启动；请稍后重试。"@))
                }
            }
        },
        Ok(false) => begin(s0).release().settle(input.ack, true),
        Err(_) => begin(s0).release().settle(input.ack, false).tell(input.chat, "压缩请求保存失败，未执行；请重新发送。"@),
    }
}

/// The running compaction has this id.
pub open spec fn compacts(s: State, id: Seq<char>) -> bool {
    runs(s, id) && s.active->Some_0.is_compact()
}

#[verifier::opaque]
pub open spec fn after_compact_prepared(s0: State, id: Seq<char>, result: Result<String, StartError>) -> Step {
    let s = begin(s0);
    if !compacts(s0, id) {
        s
    } else if !s0.can_spawn(false) {
        finished(s, OutcomeView::NotStarted("系统繁忙，压缩未提交；请稍后重试。"@))
    } else {
        let a = s0.active->Some_0;
        if a.stopping {
            finished(s, OutcomeView::NotStarted("准备阶段已停止，未启动压缩。"@))
        } else {
            match result {
                Ok(thread) => begin(
                    State {
                        active: Some(
                            ActiveText {
                                gate: Some(fresh_gate(s0.epoch, thread@)),
                                kind: match a.kind {
                                    ActiveKindText::Compact { acknowledged, terminal, .. } => ActiveKindText::Compact {
                                        acknowledged,
                                        terminal,
                                        thread: Some(thread@),
                                    },
                                    ActiveKindText::Task => ActiveKindText::Task,
                                },
                                ..a
                            },
                        ),
                        ..s0
                    },
                ).spawn(JobText::Compact { id, thread: thread@ }),
                Err(error) => finished(s, OutcomeView::CompactPrepareFailed(start_sentence(error))),
            }
        }
    }
}

/// The agent has taken the compaction. An end that was reported before ends it
/// now; else its user is told that it runs.
pub open spec fn compaction_acknowledged(s0: State) -> Step {
    let a = s0.active->Some_0;
    match a.kind {
        ActiveKindText::Compact { terminal, thread, .. } => {
            let s = begin(
                State {
                    active: Some(
                        ActiveText { kind: ActiveKindText::Compact { acknowledged: true, terminal: None, thread }, ..a },
                    ),
                    ..s0
                },
            );
            match terminal {
                Some(o) => finished(s, o),
                None => s.tell(
                    a.spec.chat,
                    "已请求压缩上下文，正在等待完成；可发送 /status 或 /stop。"@,
                ).abandoned(),
            }
        },
        ActiveKindText::Task => begin(s0),
    }
}

/// The compaction was not taken: a refusal ends it, and an unknown result stops
/// the run.
pub open spec fn compaction_failed(s0: State, error: BackendError) -> Step {
    let a = s0.active->Some_0;
    if error is Rejected && a.turn is None {
        finished(begin(s0), OutcomeView::NotStarted("压缩请求被拒绝；不会自动重试。"@))
    } else {
        begin(s0).release().tell(
            a.spec.chat,
            "压缩启动结果不确定："@ + backend_sentence(error) + "；桥接将停止，不会自动重试。"@,
        ).fail(Fault::Maintenance("压缩启动结果不确定"@))
    }
}

#[verifier::opaque]
pub open spec fn after_compact_submitted(s: State, id: Seq<char>, result: Result<(), BackendError>) -> Step {
    if !compacts(s, id) {
        begin(s)
    } else {
        match result {
            Ok(_) => compaction_acknowledged(s),
            Err(error) => compaction_failed(s, error),
        }
    }
}

#[verifier::opaque]
pub open spec fn after_preference_changed(s: State, chat: Seq<char>, result: Result<(), StartError>) -> Step {
    begin(s).release().tell(
        chat,
        match result {
            Ok(_) => "设置已保存，后续任务生效。使用 /model 或 /plan 查看。"@,
            Err(error) => "设置失败："@ + start_sentence(error) + "；模型请从 /models 选择。不会自动重试，请检查后重新发送。"@,
        },
    )
}

/// A thread resume/archive/unarchive finished. An uncertain archive result
/// stops the run: local bindings can no longer be trusted against remote.
#[verifier::opaque]
pub open spec fn after_session_changed(s: State, chat: Seq<char>, result: Result<String, StartError>) -> Step {
    let t = begin(s).release().tell(
        chat,
        match result {
            Ok(text) => text@,
            Err(error) => "会话操作失败："@ + start_sentence(error) + "。目标必须属于当前目录且处于空闲状态；不会自动重试。"@,
        },
    );
    if result matches Err(StartError::Reconcile) {
        t.fail(Fault::Maintenance("归档结果不确定，已停止运行，需核对本地绑定和远端状态"@))
    } else {
        t
    }
}

/// The reset claim persisted; the binding was cleared only when this input won
/// the claim, so a repeated /new can never erase a newer binding.
#[verifier::opaque]
pub open spec fn after_reset(s0: State, input: InputText, result: Result<bool, ()>) -> Step {
    let s = begin(s0).release();
    match result {
        Ok(new) => {
            let t = s.settle(input.ack, true);
            if new {
                t.tell(input.chat, "已切换到新会话，下次提问时自动创建。"@)
            } else {
                t
            }
        },
        Err(_) => s.settle(input.ack, false).tell(
            input.chat,
            "新建会话失败，状态结果未确认；请重新发送一条 /new，不会自动重试。"@,
        ),
    }
}

#[verifier::opaque]
pub open spec fn after_session_done(s: State, done: SessionDone, now: u64) -> Step {
    match done {
        SessionDone::ArchiveSynced { result } => after_archive_synced(s, result),
        SessionDone::DirectoryClaim { input, current, target, result } => claim_decided(
            s,
            input@,
            result,
            JobText::ProposeDirectory { user: input@.user, chat: input@.chat, current: current@, target: target@ },
            "目录请求保存失败，未切换；请重新发送。"@,
        ),
        SessionDone::DirectoryProposed { user, chat, current, target, result } => after_directory_proposed(
            s,
            user@,
            chat@,
            current@,
            target@,
            result,
            now,
        ),
        SessionDone::CreationClaim { input, creation, result } => after_creation_claim(s, input@, creation@, result, now),
        SessionDone::DirectoryCreated { user, chat, result } => directory_settled(
            s,
            user@,
            chat@,
            result,
            "目录已创建并切换："@,
            ""@,
            "目录创建或设置保存失败，当前目录未切换。路径可能已变化；若已创建部分目录会保留，不会自动删除或重试。请检查后重新发送 /cd <路径>。"@,
        ),
        SessionDone::DirectoryChanged { user, chat, result } => directory_settled(
            s,
            user@,
            chat@,
            result,
            "已切换目录："@,
            "\n后续消息使用此目录的会话、模型和 Plan 设置。"@,
            "切换目录失败：路径可能已变化或状态保存失败。当前目录未切换；请检查后重新发送 /cd <路径>。"@,
        ),
        SessionDone::DirectoryListed { chat, result } => after_directory_listed(s, chat@, result),
        SessionDone::CompactClaim { input, session, result } => after_compact_claim(s, input@, session@, result, now),
        SessionDone::CompactPrepared { id, result } => after_compact_prepared(s, id@, result),
        SessionDone::CompactSubmitted { id, result } => after_compact_submitted(s, id@, result),
        SessionDone::PreferenceClaim { input, session, change, result } => claim_decided(
            s,
            input@,
            result,
            JobText::ChangePreference { chat: input@.chat, session: session@, change: change@ },
            "设置请求保存失败，请重新发送。"@,
        ),
        SessionDone::PreferenceChanged { chat, result } => after_preference_changed(s, chat@, result),
        SessionDone::ThreadClaim { input, session, thread, action, result } => claim_decided(
            s,
            input@,
            result,
            JobText::ChangeThread { chat: input@.chat, session: session@, thread: thread@, action },
            "会话操作请求保存失败，未执行；请重新发送。"@,
        ),
        SessionDone::SessionChanged { chat, result } => after_session_changed(s, chat@, result),
        SessionDone::Reset { input, result } => after_reset(s, input@, result),
    }
}

/// A user who changed directories gets a new card generation, if the count
/// still has room.
pub open spec fn generation_room(s: State, done: SessionDone) -> bool {
    match done {
        SessionDone::DirectoryCreated { user, result: Ok(_), .. } => generation_in(s.generations, user@) < u64::MAX,
        SessionDone::DirectoryChanged { user, result: Ok(_), .. } => generation_in(s.generations, user@) < u64::MAX,
        _ => true,
    }
}

impl Runtime {
    /// Continues a chain whose input was claimed, or ends it.
    fn claim_decided(&mut self, ack: crate::runtime::Ack, chat: String, result: Result<bool, ()>, job: Job, failure: &str, Ghost(input): Ghost<InputText>) -> (r: Result<(), RuntimeError>)
        requires
            old(self).wf(),
            ack@ == input.ack,
            chat@ == input.chat,
        ensures
            final(self).at(claim_decided(old(self)@, input, result, job@, failure@)),
            fault_of(r) == claim_decided(old(self)@, input, result, job@, failure@).fault,
    {
        proof {
            reveal(claim_decided);
        }
        let mut ack = ack;
        match result {
            Ok(true) => {
                self.settle(&mut ack, true);
                if !self.can_spawn(false) {
                    self.release();
                    return self.tell(chat.as_str(), "系统繁忙，请稍后重新发送。");
                }
                self.spawn(job);
                Ok(())
            },
            Ok(false) => {
                self.release();
                self.settle(&mut ack, true);
                Ok(())
            },
            Err(_) => {
                self.release();
                self.settle(&mut ack, false);
                self.tell(chat.as_str(), failure)
            },
        }
    }

    fn offer_creation(&mut self, user: String, chat: String, current: Directory, target: String, path: Directory, now: u64) -> (r: Result<(), RuntimeError>)
        requires
            old(self).wf(),
            clock(now),
        ensures
            final(self).at(creation_offered(old(self)@, user@, chat@, current@, target@, path@, now)),
            fault_of(r) == creation_offered(old(self)@, user@, chat@, current@, target@, path@, now).fault,
    {
        self.release();
        if self.session_book.next_confirmation == u64::MAX {
            return Err(RuntimeError::Capacity("确认编号耗尽"));
        }
        self.session_book.next_confirmation = self.session_book.next_confirmation + 1;
        let token = tokens::confirmation(self.settings.epoch, self.session_book.next_confirmation);
        let mut prompt = "目录不存在：".to_owned();
        prompt.append(path.text.as_str());
        prompt.append("\n确认后将创建该目录及缺失的父目录，并切换到此目录。\n\n/cd-confirm ");
        prompt.append(token.as_str());
        prompt.append("\n\n仅限当前用户在此聊天确认，10 分钟内有效；超时或切换目录后失效，不会自动创建。");
        let entry = Creation {
            user: user.clone(),
            chat: chat.clone(),
            current: current.clone(),
            input: target,
            target: path,
            deadline: now + limits::INTERACTION_TIMEOUT,
        };
        let registered = self.session_book.confirmations.insert(token.clone(), entry);
        if !registered {
            return self.tell(chat.as_str(), "待确认请求已满，未创建目录；请稍后重新发送 /cd <路径>。");
        }
        if !self.can_spawn(false) {
            return self.tell(chat.as_str(), "系统繁忙，请稍后重新发送 /cd <路径>。");
        }
        if self.cards.next_panel == u64::MAX {
            return Err(RuntimeError::Capacity("卡片编号耗尽"));
        }
        self.cards.next_panel = self.cards.next_panel + 1;
        let prefix = tokens::panel_prefix(self.settings.epoch, self.cards.next_panel);
        let mut command = "/cd-confirm ".to_owned();
        command.append(token.as_str());
        let mut entries: Vec<(String, String)> = Vec::new();
        entries.push(("确认创建并切换".to_owned(), command));
        proof {
            assert(pairs(entries@) =~= creation_entries(token@));
        }
        let (panel, commands) = crate::cards::panel("创建目录确认", prompt, entries, prefix.as_str());
        let owner = Owner {
            generation: self.generation(user.as_str()),
            user,
            chat,
            directory: current,
            stop_snapshot: (self.tasks.next_task, None),
        };
        self.send_panel(None, owner, panel, commands, now);
        Ok(())
    }

    fn directory_proposed(&mut self, user: String, chat: String, current: Directory, target: String, result: Result<Option<Directory>, SessionStoreError>, now: u64) -> (r: Result<(), RuntimeError>)
        requires
            old(self).wf(),
            clock(now),
        ensures
            final(self).at(after_directory_proposed(old(self)@, user@, chat@, current@, target@, result, now)),
            fault_of(r) == after_directory_proposed(old(self)@, user@, chat@, current@, target@, result, now).fault,
    {
        proof {
            reveal(after_directory_proposed);
        }
        match result {
            Ok(None) => {
                if !self.can_spawn(false) {
                    self.release();
                    return self.tell(chat.as_str(), "系统繁忙，请稍后重新发送。");
                }
                self.spawn(Job::ChangeDirectory { user, chat, current, target });
                Ok(())
            },
            Ok(Some(path)) => self.offer_creation(user, chat, current, target, path, now),
            Err(_) => {
                self.release();
                self.tell(
                    chat.as_str(),
                    "目录路径无效或无法读取；目标须位于工作区内，不能是文件。未创建或切换目录。",
                )
            },
        }
    }

    fn creation_claim(&mut self, input: Input, creation: Creation, result: Result<bool, ()>, now: u64) -> (r: Result<(), RuntimeError>)
        requires
            old(self).wf(),
        ensures
            final(self).at(after_creation_claim(old(self)@, input@, creation@, result, now)),
            fault_of(r) == after_creation_claim(old(self)@, input@, creation@, result, now).fault,
    {
        proof {
            reveal(after_creation_claim);
        }
        let mut input = input;
        match result {
            Ok(new) => {
                if new && now < creation.deadline {
                    self.settle(&mut input.ack, true);
                    if !self.can_spawn(false) {
                        self.release();
                        return self.tell(input.chat.as_str(), "系统繁忙，请稍后重新发送。");
                    }
                    self.spawn(Job::CreateDirectory { creation });
                    return Ok(());
                }
                self.release();
                self.settle(&mut input.ack, true);
                if new {
                    return self.tell(input.chat.as_str(), "创建确认已过期，未执行；请重新发送 /cd <路径>。");
                }
                Ok(())
            },
            Err(_) => {
                self.release();
                self.settle(&mut input.ack, false);
                self.tell(input.chat.as_str(), "创建确认保存失败，未执行；原确认已失效，请重新发送 /cd <路径>。")
            },
        }
    }

    fn directory_finished(&mut self, user: String, chat: String, result: Result<Directory, SessionStoreError>, prefix: &str, suffix: &str, failure: &str) -> (r: Result<(), RuntimeError>)
        requires
            old(self).wf(),
            result is Ok ==> generation_in(old(self)@.generations, user@) < u64::MAX,
        ensures
            final(self).at(directory_settled(old(self)@, user@, chat@, result, prefix@, suffix@, failure@)),
            fault_of(r) == directory_settled(old(self)@, user@, chat@, result, prefix@, suffix@, failure@).fault,
    {
        proof {
            reveal(directory_settled);
        }
        self.release();
        match result {
            Ok(path) => {
                self.session_book.confirmations.invalidate(user.as_str());
                self.cards.actions.invalidate(user.as_str());
                let next: u64 = self.generation(user.as_str()) + 1;
                self.cards.generations.insert(user.clone(), next);
                let mut text = prefix.to_owned();
                text.append(path.text.as_str());
                text.append(suffix);
                self.session_book.directories.insert(user, path);
                self.tell(chat.as_str(), text.as_str())
            },
            Err(_) => self.tell(chat.as_str(), failure),
        }
    }

    fn directory_listed(&mut self, chat: String, result: Result<DirectoryView, SessionStoreError>) -> (r: Result<(), RuntimeError>)
        requires
            old(self).wf(),
        ensures
            final(self).at(after_directory_listed(old(self)@, chat@, result)),
            fault_of(r) == after_directory_listed(old(self)@, chat@, result).fault,
    {
        match result {
            Ok(view) => {
                let text = view.text();
                self.tell(chat.as_str(), text.as_str())
            },
            Err(_) => self.tell(
                chat.as_str(),
                "当前目录已失效或无法读取；请使用 /cd <工作区内绝对路径> 重新选择。",
            ),
        }
    }

    fn compact_claim(&mut self, input: Input, session: SessionKey, result: Result<bool, ()>, now: u64) -> (r: Result<(), RuntimeError>)
        requires
            old(self).wf(),
        ensures
            final(self).at(after_compact_claim(old(self)@, input@, session@, result, now)),
            fault_of(r) == after_compact_claim(old(self)@, input@, session@, result, now).fault,
    {
        proof {
            reveal(after_compact_claim);
        }
        let mut input = input;
        match result {
            Ok(true) => {
                self.settle(&mut input.ack, true);
                if self.tasks.next_task == u64::MAX {
                    self.release();
                    return Err(RuntimeError::Capacity("任务标识耗尽"));
                }
                self.tasks.next_task = self.tasks.next_task + 1;
                let id = tokens::task_id(self.settings.epoch, self.tasks.next_task);
                let prompt = String::new();
                let output = String::new();
                proof {
                    assert(prompt@ =~= Seq::empty());
                    assert(output@ =~= Seq::empty());
                }
                self.tasks.active = Some(
                    Active {
                        kind: ActiveKind::Compact { acknowledged: false, terminal: None, thread: None },
                        spec: TaskSpec {
                            id: id.clone(),
                            session: session.clone(),
                            chat: input.chat.clone(),
                            prompt,
                            model: None,
                            mode: ExecutionMode::Execute,
                        },
                        gate: None,
                        turn: None,
                        stopping: false,
                        output,
                        plan: None,
                        truncated: false,
                        started: now,
                    },
                );
                let told = self.tell(input.chat.as_str(), "正在准备压缩上下文；可发送 /status 或 /stop。");
                match self.abandon(told) {
                    Ok(()) => {},
                    Err(e) => {
                        return Err(e);
                    },
                }
                if !self.can_spawn(false) {
                    return self.finish(
                        Outcome::NotStarted { label: "系统繁忙，压缩未启动；请稍后重试。".to_owned() },
                    );
                }
                self.spawn(Job::PrepareCompact { id, session });
                Ok(())
            },
            Ok(false) => {
                self.release();
                self.settle(&mut input.ack, true);
                Ok(())
            },
            Err(_) => {
                self.release();
                self.settle(&mut input.ack, false);
                self.tell(input.chat.as_str(), "压缩请求保存失败，未执行；请重新发送。")
            },
        }
    }

    fn compacts(&self, id: &str) -> (r: bool)
        ensures
            r == compacts(self@, id@),
    {
        match &self.tasks.active {
            Some(active) => active.is_compact() && crate::text::same(active.spec.id.as_str(), id),
            None => false,
        }
    }

    fn compact_prepared(&mut self, id: String, result: Result<String, StartError>) -> (r: Result<(), RuntimeError>)
        requires
            old(self).wf(),
        ensures
            final(self).at(after_compact_prepared(old(self)@, id@, result)),
            fault_of(r) == after_compact_prepared(old(self)@, id@, result).fault,
    {
        proof {
            reveal(after_compact_prepared);
        }
        if !self.compacts(id.as_str()) {
            return Ok(());
        }
        if !self.can_spawn(false) {
            return self.finish(Outcome::NotStarted { label: "系统繁忙，压缩未提交；请稍后重试。".to_owned() });
        }
        let stopping = match &self.tasks.active {
            Some(active) => active.stopping,
            None => false,
        };
        if stopping {
            return self.finish(Outcome::NotStarted { label: "准备阶段已停止，未启动压缩。".to_owned() });
        }
        match result {
            Ok(thread) => {
                let epoch: u64 = self.settings.epoch;
                match &mut self.tasks.active {
                    Some(active) => {
                        active.gate = Some(
                            Execution::starting(epoch, thread.clone(), limits::EARLY_PROTOCOL_EVENTS),
                        );
                        // Record the expected thread before the request can emit notifications.
                        match &mut active.kind {
                            ActiveKind::Compact { thread: expected, .. } => {
                                *expected = Some(thread.clone());
                            },
                            ActiveKind::Task => {},
                        }
                    },
                    None => {},
                }
                self.spawn(Job::Compact { id, thread });
                Ok(())
            },
            Err(error) => self.finish(Outcome::Compact(Compaction::PrepareFailed { detail: error.message() })),
        }
    }

    fn compact_submitted(&mut self, id: String, result: Result<(), BackendError>) -> (r: Result<(), RuntimeError>)
        requires
            old(self).wf(),
        ensures
            final(self).at(after_compact_submitted(old(self)@, id@, result)),
            fault_of(r) == after_compact_submitted(old(self)@, id@, result).fault,
    {
        proof {
            reveal(after_compact_submitted);
        }
        if !self.compacts(id.as_str()) {
            return Ok(());
        }
        match result {
            Ok(()) => self.compact_acknowledged(),
            Err(error) => self.compact_failed(error),
        }
    }

    fn compact_acknowledged(&mut self) -> (r: Result<(), RuntimeError>)
        requires
            old(self).wf(),
            old(self)@.active matches Some(a) && a.is_compact(),
        ensures
            final(self).at(compaction_acknowledged(old(self)@)),
            fault_of(r) == compaction_acknowledged(old(self)@).fault,
    {
        let mut parked: Option<Outcome> = None;
        let mut chat = String::new();
        match &mut self.tasks.active {
            Some(active) => {
                chat = active.spec.chat.clone();
                match &mut active.kind {
                    ActiveKind::Compact { acknowledged, terminal, .. } => {
                        *acknowledged = true;
                        parked = terminal.take();
                    },
                    ActiveKind::Task => {},
                }
            },
            None => {},
        }
        match parked {
            Some(outcome) => self.finish(outcome),
            None => {
                let told = self.tell(
                    chat.as_str(),
                    "已请求压缩上下文，正在等待完成；可发送 /status 或 /stop。",
                );
                self.abandon(told)
            },
        }
    }

    fn compact_failed(&mut self, error: BackendError) -> (r: Result<(), RuntimeError>)
        requires
            old(self).wf(),
            old(self)@.active matches Some(a) && a.is_compact(),
        ensures
            final(self).at(compaction_failed(old(self)@, error)),
            fault_of(r) == compaction_failed(old(self)@, error).fault,
    {
        let (chat, unbound) = match &self.tasks.active {
            Some(active) => (active.spec.chat.clone(), active.turn.is_none()),
            None => (String::new(), false),
        };
        let rejected = match error {
            BackendError::Rejected(_) => true,
            _ => false,
        };
        if rejected && unbound {
            return self.finish(Outcome::NotStarted { label: "压缩请求被拒绝；不会自动重试。".to_owned() });
        }
        self.release();
        let mut text = "压缩启动结果不确定：".to_owned();
        text.append(error.message().as_str());
        text.append("；桥接将停止，不会自动重试。");
        match self.tell(chat.as_str(), text.as_str()) {
            Ok(()) => Err(RuntimeError::Maintenance("压缩启动结果不确定")),
            Err(e) => Err(e),
        }
    }

    fn preference_changed(&mut self, chat: String, result: Result<(), StartError>) -> (r: Result<(), RuntimeError>)
        requires
            old(self).wf(),
        ensures
            final(self).at(after_preference_changed(old(self)@, chat@, result)),
            fault_of(r) == after_preference_changed(old(self)@, chat@, result).fault,
    {
        proof {
            reveal(after_preference_changed);
        }
        self.release();
        match result {
            Ok(()) => self.tell(chat.as_str(), "设置已保存，后续任务生效。使用 /model 或 /plan 查看。"),
            Err(error) => {
                let mut text = "设置失败：".to_owned();
                text.append(error.message().as_str());
                text.append("；模型请从 /models 选择。不会自动重试，请检查后重新发送。");
                self.tell(chat.as_str(), text.as_str())
            },
        }
    }

    fn session_changed(&mut self, chat: String, result: Result<String, StartError>) -> (r: Result<(), RuntimeError>)
        requires
            old(self).wf(),
        ensures
            final(self).at(after_session_changed(old(self)@, chat@, result)),
            fault_of(r) == after_session_changed(old(self)@, chat@, result).fault,
    {
        proof {
            reveal(after_session_changed);
        }
        self.release();
        match result {
            Ok(text) => self.tell(chat.as_str(), text.as_str()),
            Err(error) => {
                let mut text = "会话操作失败：".to_owned();
                text.append(error.message().as_str());
                text.append("。目标必须属于当前目录且处于空闲状态；不会自动重试。");
                match self.tell(chat.as_str(), text.as_str()) {
                    Ok(()) => {},
                    Err(e) => {
                        return Err(e);
                    },
                }
                if error == StartError::Reconcile {
                    return Err(
                        RuntimeError::Maintenance("归档结果不确定，已停止运行，需核对本地绑定和远端状态"),
                    );
                }
                Ok(())
            },
        }
    }

    fn reset_done(&mut self, input: Input, result: Result<bool, ()>) -> (r: Result<(), RuntimeError>)
        requires
            old(self).wf(),
        ensures
            final(self).at(after_reset(old(self)@, input@, result)),
            fault_of(r) == after_reset(old(self)@, input@, result).fault,
    {
        proof {
            reveal(after_reset);
        }
        let mut input = input;
        self.release();
        match result {
            Ok(new) => {
                self.settle(&mut input.ack, true);
                if new {
                    return self.tell(input.chat.as_str(), "已切换到新会话，下次提问时自动创建。");
                }
                Ok(())
            },
            Err(_) => {
                self.settle(&mut input.ack, false);
                self.tell(
                    input.chat.as_str(),
                    "新建会话失败，状态结果未确认；请重新发送一条 /new，不会自动重试。",
                )
            },
        }
    }

    pub fn handle_session_done(&mut self, done: SessionDone, now: u64) -> (r: Result<(), RuntimeError>)
        requires
            old(self).wf(),
            clock(now),
            generation_room(old(self)@, done),
        ensures
            final(self).at(after_session_done(old(self)@, done, now)),
            fault_of(r) == after_session_done(old(self)@, done, now).fault,
    {
        proof {
            reveal(after_session_done);
            reveal(after_archive_synced);
        }
        match done {
            SessionDone::ArchiveSynced { result } => {
                self.release();
                match result {
                    Ok(()) => Ok(()),
                    Err(e) => Err(RuntimeError::Storage(e)),
                }
            },
            SessionDone::DirectoryClaim { input, current, target, result } => {
                let ghost given = input@;
                let chat = input.chat.clone();
                let job = Job::ProposeDirectory { user: input.user, chat: input.chat, current, target };
                self.claim_decided(input.ack, chat, result, job, "目录请求保存失败，未切换；请重新发送。", Ghost(given))
            },
            SessionDone::DirectoryProposed { user, chat, current, target, result } => self.directory_proposed(
                user,
                chat,
                current,
                target,
                result,
                now,
            ),
            SessionDone::CreationClaim { input, creation, result } => self.creation_claim(input, creation, result, now),
            SessionDone::DirectoryCreated { user, chat, result } => self.directory_finished(
                user,
                chat,
                result,
                "目录已创建并切换：",
                "",
                "目录创建或设置保存失败，当前目录未切换。路径可能已变化；若已创建部分目录会保留，不会自动删除或重试。请检查后重新发送 /cd <路径>。",
            ),
            SessionDone::DirectoryChanged { user, chat, result } => self.directory_finished(
                user,
                chat,
                result,
                "已切换目录：",
                "\n后续消息使用此目录的会话、模型和 Plan 设置。",
                "切换目录失败：路径可能已变化或状态保存失败。当前目录未切换；请检查后重新发送 /cd <路径>。",
            ),
            SessionDone::DirectoryListed { chat, result } => self.directory_listed(chat, result),
            SessionDone::CompactClaim { input, session, result } => self.compact_claim(input, session, result, now),
            SessionDone::CompactPrepared { id, result } => self.compact_prepared(id, result),
            SessionDone::CompactSubmitted { id, result } => self.compact_submitted(id, result),
            SessionDone::PreferenceClaim { input, session, change, result } => {
                let ghost given = input@;
                let chat = input.chat.clone();
                let job = Job::ChangePreference { chat: input.chat, session, change };
                self.claim_decided(input.ack, chat, result, job, "设置请求保存失败，请重新发送。", Ghost(given))
            },
            SessionDone::PreferenceChanged { chat, result } => self.preference_changed(chat, result),
            SessionDone::ThreadClaim { input, session, thread, action, result } => {
                let ghost given = input@;
                let chat = input.chat.clone();
                let job = Job::ChangeThread { chat: input.chat, session, thread, action };
                self.claim_decided(input.ack, chat, result, job, "会话操作请求保存失败，未执行；请重新发送。", Ghost(given))
            },
            SessionDone::SessionChanged { chat, result } => self.session_changed(chat, result),
            SessionDone::Reset { input, result } => self.reset_done(input, result),
        }
    }
}

} // verus!
