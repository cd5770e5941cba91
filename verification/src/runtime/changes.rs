//! Commands on directories, settings and sessions. What changes durable state
//! closes the session-mutation gate first; what only shows it runs once per
//! command id.
use vstd::prelude::*;
use vstd::string::*;
use crate::directories::confirmable;
use crate::model::{SessionKey, SessionText};
use crate::runtime::answers::{answered_with, can_mutate};
use crate::runtime::limits;
use crate::runtime::state::{
    begin, fault_of, Input, InputText, Job, JobText, PreferenceQuery, Runtime, RuntimeError, State, Step,
};
use crate::scheduler::Admissions;
use crate::sessions::{thread_id_ok, valid_thread_id, ChangeText, PreferenceChange, ThreadAction};
use crate::text::{byte_count, byte_len, contains_control, has_control, opt};

verus! {

/// The ids of commands that ran: a full record starts over.
pub open spec fn remembered(seen: Set<Seq<char>>, id: Seq<char>) -> Set<Seq<char>> {
    if seen.contains(id) {
        seen
    } else if seen.len() >= limits::SEEN_COMMANDS {
        Set::empty().insert(id)
    } else {
        seen.insert(id)
    }
}

/// A job that changes sessions takes over the input, if it fits and the mutation gate
/// can be closed; else the user is told why not.
pub open spec fn claimed(s: State, input: InputText, refusal: Seq<char>, job: JobText) -> Step {
    if !s.can_spawn(false) {
        answered_with(begin(s), input, "系统繁忙，请稍后重试。"@)
    } else if !can_mutate(s.admissions) {
        answered_with(begin(s), input, refusal)
    } else {
        begin(State { admissions: Admissions { mutating: true, ..s.admissions }, ..s }).spawn(job)
    }
}

/// A job that shows something runs once per command id, if it fits.
pub open spec fn shown(s: State, input: InputText, job: JobText) -> Step {
    let t = begin(State { seen: remembered(s.seen, input.id), ..s });
    if s.seen.contains(input.id) {
        t.settle(input.ack, true)
    } else if !s.can_spawn(false) {
        answered_with(t, input, "系统繁忙，请稍后重试。"@)
    } else {
        t.spawn(job).settle(input.ack, true)
    }
}

#[verifier::opaque]
pub open spec fn after_confirmation(s: State, input: InputText, token: Seq<char>, now: u64) -> Step {
    if !(s.confirmations.contains_key(token) && confirmable(
        s.confirmations[token],
        input.user,
        input.chat,
        s.current(input.user),
        now,
    )) {
        answered_with(
            begin(s),
            input,
            "创建确认无效、已过期或不属于当前用户/聊天/目录；请重新发送 /cd <路径>。"@,
        )
    } else {
        let t = claimed(
            s,
            input,
            "有任务执行中、排队或目录正在更新；请空闲后在有效期内再次确认。"@,
            JobText::ClaimCreation { input, creation: s.confirmations[token] },
        );
        if s.can_spawn(false) && can_mutate(s.admissions) {
            Step { state: State { confirmations: s.confirmations.remove(token), ..t.state }, ..t }
        } else {
            t
        }
    }
}

/// A path that may be asked for.
pub open spec fn path_ok(target: Seq<char>) -> bool {
    byte_count(target) <= limits::PATH_BYTES && !has_control(target)
}

#[verifier::opaque]
pub open spec fn after_directory_change(s: State, input: InputText, target: Option<Seq<char>>) -> Step {
    let current = s.current(input.user);
    match target {
        Some(target) => if !path_ok(target) {
            answered_with(begin(s), input, "目录参数无效：最多 4096 字节，不能包含换行或控制字符。"@)
        } else {
            claimed(
                s,
                input,
                "有任务执行中、排队或目录正在更新；请等待完成或先 /stop，再切换目录。"@,
                JobText::ClaimDirectory { input, current, target },
            )
        },
        None => shown(s, input, JobText::InspectDirectory { chat: input.chat, current }),
    }
}

pub open spec fn session_of(s: State, user: Seq<char>) -> SessionText {
    SessionText { user, workspace: s.current(user) }
}

/// A change that the user asks for, or else the setting to show.
#[verifier::opaque]
pub open spec fn after_preferences(
    s: State,
    input: InputText,
    change: Option<ChangeText>,
    what: PreferenceQuery,
    refresh: Option<Seq<char>>,
) -> Step {
    let session = session_of(s, input.user);
    match change {
        Some(change) => claimed(
            s,
            input,
            "有任务执行中、排队或设置正在更新；请等待完成或先 /stop，再修改设置。"@,
            JobText::ClaimPreference { input, session, change },
        ),
        None => shown(
            s,
            input,
            JobText::ShowPreferences {
                what,
                refresh,
                chat: input.chat,
                session,
                generation: s.generation(input.user),
                snapshot: s.card_snapshot(),
            },
        ),
    }
}

/// What is done to the named thread, or else the list to show.
#[verifier::opaque]
pub open spec fn after_threads(
    s: State,
    input: InputText,
    target: Option<Seq<char>>,
    action: ThreadAction,
    archived: bool,
    refresh: Option<Seq<char>>,
) -> Step {
    let session = session_of(s, input.user);
    match target {
        Some(thread) => if !thread_id_ok(thread) {
            answered_with(begin(s), input, "会话 ID 无效，请复制 /resume 或 /archived 列表中的完整命令。"@)
        } else {
            claimed(
                s,
                input,
                "有任务执行中、排队或会话正在更新；请等待完成或先 /stop，再操作会话。"@,
                JobText::ClaimThread { input, session, thread, action },
            )
        },
        None => shown(
            s,
            input,
            JobText::ListThreads {
                archived,
                refresh,
                chat: input.chat,
                session,
                generation: s.generation(input.user),
                snapshot: s.card_snapshot(),
            },
        ),
    }
}

#[verifier::opaque]
pub open spec fn after_compact_request(s: State, input: InputText) -> Step {
    claimed(
        s,
        input,
        "有任务执行中、排队或会话正在更新；请等待完成或先 /stop，再压缩上下文。"@,
        JobText::ClaimCompact { input, session: session_of(s, input.user) },
    )
}

#[verifier::opaque]
pub open spec fn after_reset_request(s: State, input: InputText) -> Step {
    claimed(
        s,
        input,
        "有任务执行中、排队或会话正在更新；请等待完成或先 /stop，再发送 /new。"@,
        JobText::Reset { input, session: session_of(s, input.user) },
    )
}

impl Runtime {
    /// Record a command id once, clearing old entries when the bound is hit.
    pub fn seen_insert(&mut self, id: &str) -> (r: bool)
        requires
            old(self).wf(),
        ensures
            r == !old(self)@.seen.contains(id@),
            final(self)@ == (State { seen: remembered(old(self)@.seen, id@), ..old(self)@ }),
            final(self).wf(),
    {
        if self.admission.seen_commands.contains(id) {
            return false;
        }
        if self.admission.seen_commands.len() >= limits::SEEN_COMMANDS {
            self.admission.seen_commands = crate::textmap::TextMap::new();
        }
        let ghost before = self@.seen;
        self.admission.seen_commands.insert(id.to_owned(), ());
        proof {
            assert(self@.seen =~= before.insert(id@));
            if old(self)@.seen.len() >= limits::SEEN_COMMANDS {
                assert(before =~= Set::empty());
            }
        }
        true
    }

    /// Closes the session-mutation gate for this input, or tells the user why
    /// it stays open.
    fn close_gate(&mut self, input: Input, refusal: &str) -> (r: Result<Option<Input>, RuntimeError>)
        requires
            old(self).wf(),
        ensures
            final(self).wf(),
            match r {
                Ok(Some(i)) => i == input && old(self)@.can_spawn(false) && can_mutate(old(self)@.admissions) && final(self)@
                    == (State { admissions: Admissions { mutating: true, ..old(self)@.admissions }, ..old(self)@ }),
                Ok(None) => !(old(self)@.can_spawn(false) && can_mutate(old(self)@.admissions)) && forall|job: JobText| {
                    let s = #[trigger] claimed(old(self)@, input@, refusal@, job);
                    final(self)@ == s.state && s.fault is None
                },
                Err(e) => !(old(self)@.can_spawn(false) && can_mutate(old(self)@.admissions)) && forall|job: JobText| {
                    let s = #[trigger] claimed(old(self)@, input@, refusal@, job);
                    final(self)@ == s.state && s.fault == Some(e@)
                },
            },
    {
        let answered = if !self.can_spawn(false) {
            self.answer_with(input, "系统繁忙，请稍后重试。")
        } else if !self.tasks.scheduler.begin_session_mutation() {
            self.answer_with(input, refusal)
        } else {
            return Ok(Some(input));
        };
        match answered {
            Ok(()) => Ok(None),
            Err(e) => Err(e),
        }
    }

    /// Runs a job that shows something, once per command id.
    fn show(&mut self, input: Input, job: Job) -> (r: Result<(), RuntimeError>)
        requires
            old(self).wf(),
        ensures
            final(self).at(shown(old(self)@, input@, job@)),
            fault_of(r) == shown(old(self)@, input@, job@).fault,
    {
        let mut input = input;
        if self.seen_insert(input.id.as_str()) {
            if !self.can_spawn(false) {
                return self.answer_with(input, "系统繁忙，请稍后重试。");
            }
            self.spawn(job);
        }
        self.settle(&mut input.ack, true);
        Ok(())
    }

    pub fn handle_confirmation(&mut self, input: Input, token: &str, now: u64) -> (r: Result<(), RuntimeError>)
        requires
            old(self).wf(),
        ensures
            final(self).at(after_confirmation(old(self)@, input@, token@, now)),
            fault_of(r) == after_confirmation(old(self)@, input@, token@, now).fault,
    {
        proof {
            reveal(after_confirmation);
        }
        let current = self.current(input.user.as_str());
        let creation = match self.session_book.confirmations.get(token, input.user.as_str(), input.chat.as_str(), &current, now) {
            Some(creation) => creation,
            None => {
                return self.answer_with(
                    input,
                    "创建确认无效、已过期或不属于当前用户/聊天/目录；请重新发送 /cd <路径>。",
                );
            },
        };
        let ghost i = input@;
        match self.close_gate(input, "有任务执行中、排队或目录正在更新；请空闲后在有效期内再次确认。") {
            Ok(Some(input)) => {
                self.session_book.confirmations.remove(token);
                self.spawn(Job::ClaimCreation { input, creation });
                Ok(())
            },
            Ok(None) => {
                proof {
                    let job = JobText::ClaimCreation { input: i, creation: old(self)@.confirmations[token@] };
                    assert(claimed(old(self)@, i, "有任务执行中、排队或目录正在更新；请空闲后在有效期内再次确认。"@, job).state == self@);
                }
                Ok(())
            },
            Err(e) => Err(e),
        }
    }

    pub fn handle_directory_change(&mut self, input: Input, target: Option<String>) -> (r: Result<(), RuntimeError>)
        requires
            old(self).wf(),
        ensures
            final(self).at(after_directory_change(old(self)@, input@, opt(target))),
            fault_of(r) == after_directory_change(old(self)@, input@, opt(target)).fault,
    {
        proof {
            reveal(after_directory_change);
        }
        let current = self.current(input.user.as_str());
        match target {
            Some(target) => {
                if byte_len(target.as_str()) > limits::PATH_BYTES || contains_control(target.as_str()) {
                    return self.answer_with(
                        input,
                        "目录参数无效：最多 4096 字节，不能包含换行或控制字符。",
                    );
                }
                match self.close_gate(
                    input,
                    "有任务执行中、排队或目录正在更新；请等待完成或先 /stop，再切换目录。",
                ) {
                    Ok(Some(input)) => {
                        self.spawn(Job::ClaimDirectory { input, current, target });
                        Ok(())
                    },
                    Ok(None) => Ok(()),
                    Err(e) => Err(e),
                }
            },
            None => {
                let chat = input.chat.clone();
                self.show(input, Job::InspectDirectory { chat, current })
            },
        }
    }

    pub fn session_of(&self, user: &str) -> (r: SessionKey)
        requires
            self.wf(),
        ensures
            r@ == session_of(self@, user@),
    {
        SessionKey { user: user.to_owned(), workspace: self.current(user) }
    }

    pub fn handle_preferences(&mut self, input: Input, change: Option<PreferenceChange>, what: PreferenceQuery, refresh: Option<String>) -> (r: Result<(), RuntimeError>)
        requires
            old(self).wf(),
        ensures
            final(self).at(
                after_preferences(
                    old(self)@,
                    input@,
                    match change {
                        Some(c) => Some(c@),
                        None => None,
                    },
                    what,
                    opt(refresh),
                ),
            ),
            fault_of(r) == after_preferences(
                old(self)@,
                input@,
                match change {
                    Some(c) => Some(c@),
                    None => None,
                },
                what,
                opt(refresh),
            ).fault,
    {
        proof {
            reveal(after_preferences);
        }
        let session = self.session_of(input.user.as_str());
        match change {
            Some(change) => match self.close_gate(
                input,
                "有任务执行中、排队或设置正在更新；请等待完成或先 /stop，再修改设置。",
            ) {
                Ok(Some(input)) => {
                    self.spawn(Job::ClaimPreference { input, session, change });
                    Ok(())
                },
                Ok(None) => Ok(()),
                Err(e) => Err(e),
            },
            None => {
                let generation: u64 = self.generation(input.user.as_str());
                let snapshot = self.card_snapshot();
                let chat = input.chat.clone();
                self.show(input, Job::ShowPreferences { what, refresh, chat, session, generation, snapshot })
            },
        }
    }

    pub fn handle_threads(&mut self, input: Input, target: Option<String>, action: ThreadAction, archived: bool, refresh: Option<String>) -> (r: Result<(), RuntimeError>)
        requires
            old(self).wf(),
        ensures
            final(self).at(after_threads(old(self)@, input@, opt(target), action, archived, opt(refresh))),
            fault_of(r) == after_threads(old(self)@, input@, opt(target), action, archived, opt(refresh)).fault,
    {
        proof {
            reveal(after_threads);
        }
        let session = self.session_of(input.user.as_str());
        match target {
            Some(thread) => {
                if !valid_thread_id(thread.as_str()) {
                    return self.answer_with(input, "会话 ID 无效，请复制 /resume 或 /archived 列表中的完整命令。");
                }
                match self.close_gate(
                    input,
                    "有任务执行中、排队或会话正在更新；请等待完成或先 /stop，再操作会话。",
                ) {
                    Ok(Some(input)) => {
                        self.spawn(Job::ClaimThread { input, session, thread, action });
                        Ok(())
                    },
                    Ok(None) => Ok(()),
                    Err(e) => Err(e),
                }
            },
            None => {
                let generation: u64 = self.generation(input.user.as_str());
                let snapshot = self.card_snapshot();
                let chat = input.chat.clone();
                self.show(input, Job::ListThreads { archived, refresh, chat, session, generation, snapshot })
            },
        }
    }

    pub fn handle_compact(&mut self, input: Input) -> (r: Result<(), RuntimeError>)
        requires
            old(self).wf(),
        ensures
            final(self).at(after_compact_request(old(self)@, input@)),
            fault_of(r) == after_compact_request(old(self)@, input@).fault,
    {
        proof {
            reveal(after_compact_request);
        }
        let session = self.session_of(input.user.as_str());
        match self.close_gate(
            input,
            "有任务执行中、排队或会话正在更新；请等待完成或先 /stop，再压缩上下文。",
        ) {
            Ok(Some(input)) => {
                self.spawn(Job::ClaimCompact { input, session });
                Ok(())
            },
            Ok(None) => Ok(()),
            Err(e) => Err(e),
        }
    }

    pub fn handle_reset(&mut self, input: Input) -> (r: Result<(), RuntimeError>)
        requires
            old(self).wf(),
        ensures
            final(self).at(after_reset_request(old(self)@, input@)),
            fault_of(r) == after_reset_request(old(self)@, input@).fault,
    {
        proof {
            reveal(after_reset_request);
        }
        let session = self.session_of(input.user.as_str());
        match self.close_gate(
            input,
            "有任务执行中、排队或会话正在更新；请等待完成或先 /stop，再发送 /new。",
        ) {
            Ok(Some(input)) => {
                self.spawn(Job::Reset { input, session });
                Ok(())
            },
            Ok(None) => Ok(()),
            Err(e) => Err(e),
        }
    }
}

} // verus!
