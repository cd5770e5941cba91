//! The control panel, status, owner-scoped stop, and the admission of tasks.
use vstd::prelude::*;
use vstd::string::*;
use crate::cards::{card_commands, command_panel, help_body, help_entries, Owner, OwnerText};
use crate::files::Attachment;
use crate::model::{same_session, ExecutionMode, SessionText, TaskSpec, TaskText};
use crate::runtime::answers::answered_with;
use crate::runtime::changes::{remembered, session_of};
use crate::runtime::flow::{clock, interrupted, panel_sent};
use crate::runtime::limits;
use crate::runtime::state::{
    begin, fault_of, ActiveText, Fault, Input, InputText, Job, JobText, Runtime, RuntimeError, State, Step,
};
use crate::runtime::tokens::{self, panel_prefix_text, task_id_text};
use crate::scheduler::{aborted, can_reserve, cancelled, drained, reserved};
use crate::text::{decimal, decimal_text, same};

verus! {

pub open spec fn panel_owner(s: State, input: InputText) -> OwnerText {
    OwnerText {
        user: input.user,
        chat: input.chat,
        directory: s.current(input.user),
        generation: s.generation(input.user),
        stop_snapshot: s.card_snapshot(),
    }
}

/// The control panel goes out, once per command id.
#[verifier::opaque]
pub open spec fn after_help(s: State, input: InputText, now: u64) -> Step {
    let t = State { seen: remembered(s.seen, input.id), ..s };
    if s.seen.contains(input.id) {
        begin(t).settle(input.ack, true)
    } else if !s.can_spawn(false) {
        answered_with(begin(t), input, "系统繁忙，请稍后重试。"@)
    } else if s.next_panel == u64::MAX {
        begin(t).fail(Fault::Capacity("卡片编号耗尽"@)).settle(input.ack, false)
    } else {
        let next = (s.next_panel + 1) as u64;
        let prefix = panel_prefix_text(s.epoch, next);
        panel_sent(
            begin(State { next_panel: next, ..t }),
            None,
            panel_owner(s, input),
            command_panel("Codex 控制面板"@, help_body(), help_entries(), prefix),
            card_commands(help_entries(), prefix),
            now,
        ).settle(input.ack, true)
    }
}

/// Whole seconds since a moment; none if it has not come.
pub open spec fn seconds_since(then: u64, now: u64) -> nat {
    if now <= then {
        0
    } else {
        ((now - then) / limits::SECOND as int) as nat
    }
}

/// What the running execution is doing.
pub open spec fn activity(active: Option<ActiveText>, now: u64) -> Seq<char> {
    match active {
        Some(a) => (if a.is_compact() {
            "上下文压缩中"@
        } else {
            "运行中"@
        }) + "，已用 "@ + decimal(seconds_since(a.started, now)) + " 秒"@ + (if a.stopping {
            "，正在停止"@
        } else {
            ""@
        }),
        None => "空闲"@,
    }
}

pub open spec fn status_text(s: State, user: Seq<char>, now: u64) -> Seq<char> {
    "Rust 桥接服务："@ + activity(s.active, now) + "\n当前目录："@ + s.current(user).text + "\n等待："@ + decimal(
        s.admissions.queue.len(),
    ) + "，保存中："@ + decimal(s.admissions.pending.len())
}

/// The running execution is the session's, in this chat, and has not ended.
pub open spec fn stoppable(a: ActiveText, session: SessionText, chat: Seq<char>) -> bool {
    same_session(a.spec.session, session) && a.spec.chat == chat && !a.compact_is_terminal()
}

pub open spec fn stop_text(removed: nat, stopping: bool) -> Seq<char> {
    "已取消 "@ + decimal(removed) + " 项等待请求；"@ + (if stopping {
        "已请求停止当前任务"@
    } else {
        "没有可停止的当前任务"@
    })
}

/// The session's waiting work is cancelled and its running execution is asked
/// to stop: its turn is interrupted, once.
pub open spec fn stopped(s: State, input: InputText) -> Step {
    let session = session_of(s, input.user);
    let a = drained(cancelled(s.admissions, session));
    let removed = (s.admissions.load() - a.load()) as nat;
    let t = State { admissions: a, ..s };
    let stopping = s.active matches Some(x) && stoppable(x, session, input.chat);
    let u = if stopping && !s.active->Some_0.stopping {
        let x = s.active->Some_0;
        let v = begin(State { active: Some(ActiveText { stopping: true, ..x }), ..t });
        match x.turn {
            Some(turn) => interrupted(v, turn, "控制容量耗尽，无法回传停止请求"@),
            None => v,
        }
    } else {
        begin(t)
    };
    u.tell(input.chat, stop_text(removed, stopping))
}

/// Status, stop, or the hint that nothing else is supported; once per command id.
#[verifier::opaque]
pub open spec fn after_simple(s: State, input: InputText, text: Seq<char>, now: u64) -> Step {
    let t = State { seen: remembered(s.seen, input.id), ..s };
    if s.seen.contains(input.id) {
        begin(t).settle(input.ack, true)
    } else if text == "/status"@ {
        answered_with(begin(t), input, status_text(s, input.user, now))
    } else if text == "/stop"@ {
        stopped(t, input).settle(input.ack, true)
    } else {
        answered_with(begin(t), input, "命令暂不支持或参数无效，请发送 /help 查看支持的命令。"@)
    }
}

/// The task that a message asks for.
pub open spec fn asked_task(s: State, input: InputText, text: Seq<char>, id: Seq<char>) -> TaskText {
    TaskText {
        id,
        session: session_of(s, input.user),
        chat: input.chat,
        prompt: text,
        model: None,
        mode: ExecutionMode::Execute,
    }
}

/// A message becomes a task: it is reserved, its attachments are staged, and
/// its durable claim is made in the background. What a refused message staged
/// under the task's id goes with the next maintenance.
#[verifier::opaque]
pub open spec fn after_task_request(s: State, input: InputText, text: Seq<char>) -> Step {
    if s.next_task == u64::MAX {
        begin(s).fail(Fault::Capacity("任务标识耗尽"@)).settle(input.ack, false)
    } else {
        let next = (s.next_task + 1) as u64;
        let id = task_id_text(s.epoch, next);
        let bare = InputText { attachments: Seq::empty(), ..input };
        let t = State {
            next_task: next,
            resources: if input.attachments.len() > 0 {
                s.resources.insert(id, input.attachments)
            } else {
                s.resources
            },
            ..s
        };
        let busy = "任务队列繁忙，请稍后重新发送。"@;
        if !can_reserve(s.admissions, input.id) {
            begin(t).tell(input.chat, busy).settle(input.ack, false)
        } else {
            let r = reserved(s.admissions, input.id, asked_task(s, input, text, id));
            if !s.can_spawn(false) {
                begin(State { admissions: aborted(r, s.admissions.next), resources: t.resources.remove(input.id), ..t }).tell(
                    input.chat,
                    busy,
                ).settle(input.ack, false)
            } else {
                begin(State { admissions: r, ..t }).spawn(JobText::ClaimTask { ticket: s.admissions.next, input: bare })
            }
        }
    }
}

impl Runtime {
    pub fn handle_help(&mut self, input: Input, now: u64) -> (r: Result<(), RuntimeError>)
        requires
            old(self).wf(),
            clock(now),
        ensures
            final(self).at(after_help(old(self)@, input@, now)),
            fault_of(r) == after_help(old(self)@, input@, now).fault,
    {
        proof {
            reveal(after_help);
        }
        let mut input = input;
        if self.seen_insert(input.id.as_str()) {
            if !self.can_spawn(false) {
                return self.answer_with(input, "系统繁忙，请稍后重试。");
            }
            if self.cards.next_panel == u64::MAX {
                return self.conclude(input.ack, false, Err(RuntimeError::Capacity("卡片编号耗尽")));
            }
            self.cards.next_panel = self.cards.next_panel + 1;
            let prefix = tokens::panel_prefix(self.settings.epoch, self.cards.next_panel);
            let (panel, commands) = crate::cards::help(prefix.as_str());
            let owner = Owner {
                user: input.user.clone(),
                chat: input.chat.clone(),
                directory: self.current(input.user.as_str()),
                generation: self.generation(input.user.as_str()),
                stop_snapshot: self.card_snapshot(),
            };
            self.send_panel(None, owner, panel, commands, now);
        }
        self.settle(&mut input.ack, true);
        Ok(())
    }

    fn activity(&self, now: u64) -> (r: String)
        ensures
            r@ == activity(self@.active, now),
    {
        match &self.tasks.active {
            Some(active) => {
                let mut t = if active.is_compact() {
                    "上下文压缩中".to_owned()
                } else {
                    "运行中".to_owned()
                };
                t.append("，已用 ");
                t.append(decimal_text(whole_seconds(active.started, now)).as_str());
                t.append(" 秒");
                if active.stopping {
                    t.append("，正在停止");
                } else {
                    t.append("");
                }
                t
            },
            None => "空闲".to_owned(),
        }
    }

    fn status(&self, user: &str, now: u64) -> (r: String)
        requires
            self.wf(),
        ensures
            r@ == status_text(self@, user@, now),
    {
        let mut t = "Rust 桥接服务：".to_owned();
        t.append(self.activity(now).as_str());
        t.append("\n当前目录：");
        t.append(self.current(user).text.as_str());
        t.append("\n等待：");
        t.append(decimal_text(self.tasks.scheduler.queued() as u64).as_str());
        t.append("，保存中：");
        t.append(decimal_text(self.tasks.scheduler.pending_admissions() as u64).as_str());
        t
    }

    fn stop(&mut self, input: &Input) -> (r: Result<(), RuntimeError>)
        requires
            old(self).wf(),
        ensures
            final(self).at(stopped(old(self)@, input@)),
            fault_of(r) == stopped(old(self)@, input@).fault,
    {
        let session = self.session_of(input.user.as_str());
        let removed: usize = self.tasks.scheduler.cancel_queued(&session);
        let stopping = match &self.tasks.active {
            Some(active) => active.spec.session.same(&session) && same(active.spec.chat.as_str(), input.chat.as_str())
                && !active.compact_is_terminal(),
            None => false,
        };
        if stopping {
            let mut turn: Option<crate::ports::TurnRef> = None;
            match &mut self.tasks.active {
                Some(active) => {
                    if !active.stopping {
                        active.stopping = true;
                        turn = active.turn.clone();
                    }
                },
                None => {},
            }
            match turn {
                Some(turn) => match self.spawn_interrupt(turn, "控制容量耗尽，无法回传停止请求") {
                    Ok(()) => {},
                    Err(e) => {
                        return Err(e);
                    },
                },
                None => {},
            }
        }
        let mut text = "已取消 ".to_owned();
        text.append(decimal_text(removed as u64).as_str());
        text.append(" 项等待请求；");
        if stopping {
            text.append("已请求停止当前任务");
        } else {
            text.append("没有可停止的当前任务");
        }
        self.tell(input.chat.as_str(), text.as_str())
    }

    pub fn handle_simple_command(&mut self, input: Input, text: &str, now: u64) -> (r: Result<(), RuntimeError>)
        requires
            old(self).wf(),
        ensures
            final(self).at(after_simple(old(self)@, input@, text@, now)),
            fault_of(r) == after_simple(old(self)@, input@, text@, now).fault,
    {
        proof {
            reveal(after_simple);
        }
        let mut input = input;
        if !self.seen_insert(input.id.as_str()) {
            self.settle(&mut input.ack, true);
            return Ok(());
        }
        if same(text, "/status") {
            let status = self.status(input.user.as_str(), now);
            return self.answer_with(input, status.as_str());
        }
        if same(text, "/stop") {
            let done = self.stop(&input);
            return self.conclude(input.ack, true, done);
        }
        self.answer_with(input, "命令暂不支持或参数无效，请发送 /help 查看支持的命令。")
    }

    fn refuse_task(&mut self, input: Input) -> (r: Result<(), RuntimeError>)
        requires
            old(self).wf(),
        ensures
            final(self).at(
                begin(old(self)@).tell(input@.chat, "任务队列繁忙，请稍后重新发送。"@).settle(input@.ack, false),
            ),
            fault_of(r) == begin(old(self)@).tell(input@.chat, "任务队列繁忙，请稍后重新发送。"@).settle(
                input@.ack,
                false,
            ).fault,
    {
        let told = self.tell(input.chat.as_str(), "任务队列繁忙，请稍后重新发送。");
        self.conclude(input.ack, false, told)
    }

    pub fn admit_task(&mut self, input: Input, text: String) -> (r: Result<(), RuntimeError>)
        requires
            old(self).wf(),
        ensures
            final(self).at(after_task_request(old(self)@, input@, text@)),
            fault_of(r) == after_task_request(old(self)@, input@, text@).fault,
    {
        proof {
            reveal(after_task_request);
        }
        let ghost s0 = self@;
        let mut input = input;
        let ghost given = input@;
        if self.tasks.next_task == u64::MAX {
            return self.conclude(input.ack, false, Err(RuntimeError::Capacity("任务标识耗尽")));
        }
        self.tasks.next_task = self.tasks.next_task + 1;
        let id = tokens::task_id(self.settings.epoch, self.tasks.next_task);
        let spec = TaskSpec {
            id: id.clone(),
            session: self.session_of(input.user.as_str()),
            chat: input.chat.clone(),
            prompt: text,
            model: None,
            mode: ExecutionMode::Execute,
        };
        let mut attachments: Vec<Attachment> = Vec::new();
        std::mem::swap(&mut attachments, &mut input.attachments);
        proof {
            assert(input@ == (InputText { attachments: Seq::empty(), ..given }));
        }
        if attachments.len() > 0 {
            self.tasks.resources.insert(id, attachments);
        }
        match self.tasks.scheduler.reserve(input.id.clone(), spec) {
            Ok(ticket) => {
                if !self.can_spawn(false) {
                    self.tasks.scheduler.abort_admission(ticket);
                    self.tasks.resources.remove(input.id.as_str());
                    return self.refuse_task(input);
                }
                self.spawn(Job::ClaimTask { ticket, input });
                Ok(())
            },
            Err(_) => self.refuse_task(input),
        }
    }
}

/// Whole seconds since a moment.
pub fn whole_seconds(then: u64, now: u64) -> (r: u64)
    ensures
        r == seconds_since(then, now),
{
    if now <= then {
        0
    } else {
        (now - then) / limits::SECOND
    }
}

} // verus!
