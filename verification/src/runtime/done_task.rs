//! Task lifecycle completions: plan implementation, durable admission,
//! preparation, turn start and backend control replies.
use vstd::prelude::*;
use vstd::string::*;
use crate::diagnostics::{Event, Status};
use crate::execution::{Execution, Gate};
use crate::model::{TaskSpec, TaskText};
use crate::outcome::{Outcome, OutcomeView};
use crate::ports::{backend_sentence, BackendError, TurnInput, TurnRef};
use crate::runtime::flow::{clock, finished};
use crate::runtime::limits;
use crate::runtime::protocol::bound;
use crate::runtime::state::{
    begin, fault_of, ActiveText, Fault, Input, InputText, Job, JobText, Runtime, RuntimeError, State, Step, TaskDone,
};
use crate::scheduler::{aborted, can_reserve, committed, is_pending, opt_task, reserved, AdmissionTicket};
use crate::text::same;

verus! {

pub open spec fn success(ok: bool) -> Status {
    if ok {
        Status::Succeeded
    } else {
        Status::Failed
    }
}

/// The running execution has this id.
pub open spec fn runs(s: State, id: Seq<char>) -> bool {
    s.active matches Some(a) && a.spec.id == id
}

/// A plan confirmation finished persisting. A successful "implement" or
/// "fresh" choice enters the confirmed task into the scheduler directly.
#[verifier::opaque]
pub open spec fn after_plan_action(s0: State, input: InputText, task: Option<TaskText>, result: Result<bool, String>) -> Step {
    let s = begin(s0).release().settle(input.ack, true);
    match result {
        Ok(true) => match task {
            Some(t) => if can_reserve(s.state.admissions, input.id) {
                let r = reserved(s.state.admissions, input.id, t);
                let q = committed(r, s.state.admissions.next, true);
                Step { state: State { admissions: q, ..s.state }, ..s }.tell(
                    input.chat,
                    "已关闭 Plan 模式，确认的计划已加入实施队列。"@,
                )
            } else {
                s.fail(Fault::Interaction("计划实施入队失败"@))
            },
            None => s.tell(input.chat, "保持 Plan 模式，可继续发送消息讨论或修改计划。"@),
        },
        Ok(false) => s.tell(input.chat, "此计划选择已处理，不会重复执行。"@),
        Err(error) => s.tell(
            input.chat,
            "计划选择处理失败："@ + error@
                + "。未启动实施，设置可能已部分保存；请检查 /plan 和当前会话后重新生成计划，不会自动重试。"@,
        ),
    }
}

/// The durable claim for a queued task finished. A failed claim releases the
/// reservation; nothing was admitted and nothing is replayed.
#[verifier::opaque]
pub open spec fn after_admission(s: State, ticket: u64, input: InputText, result: Result<bool, ()>) -> Step {
    match result {
        Ok(new) => {
            let t = begin(State { admissions: committed(s.admissions, ticket, new), ..s }).settle(input.ack, true);
            if new && is_pending(s.admissions.pending, ticket) {
                t.tell(input.chat, "请求已接收。"@)
            } else {
                t
            }
        },
        Err(_) => begin(State { admissions: aborted(s.admissions, ticket), ..s }).settle(input.ack, false).tell(
            input.chat,
            "接收状态保存失败，未启动任务。"@,
        ),
    }
}

/// An execution that waits for its turn on a thread.
pub open spec fn fresh_gate(epoch: u64, thread: Seq<char>) -> Gate {
    Gate {
        epoch,
        thread,
        turn: None,
        early: Seq::empty(),
        capacity: limits::EARLY_PROTOCOL_EVENTS as nat,
        terminal: false,
    }
}

/// File staging and session preparation finished; the task is ready to start
/// a turn on the expected thread.
#[verifier::opaque]
pub open spec fn after_prepared(s0: State, id: Seq<char>, result: Result<TurnInput, String>) -> Step {
    let s = begin(s0).record(Event::TaskPrepared, success(result is Ok), Some(id), 0);
    if !runs(s0, id) {
        s
    } else if !s0.can_spawn(false) {
        finished(s, OutcomeView::NotStarted("系统繁忙，任务未启动；请稍后重试。"@))
    } else {
        let a = s0.active->Some_0;
        if a.stopping {
            finished(s, OutcomeView::NotStarted("准备阶段已停止，未启动任务"@))
        } else {
            match result {
                Ok(input) => Step {
                    state: State {
                        active: Some(
                            ActiveText {
                                spec: TaskText { mode: input.mode, ..a.spec },
                                gate: Some(fresh_gate(s0.epoch, input.thread_id@)),
                                ..a
                            },
                        ),
                        ..s.state
                    },
                    ..s
                }.spawn(JobText::StartTurn { id, input }),
                Err(error) => finished(s, OutcomeView::PrepareFailed(error@)),
            }
        }
    }
}

/// The start request answered. Binding the turn to its execution replays any
/// buffered early events; an unknown start result stops the run because the
/// turn may actually be executing.
#[verifier::opaque]
pub open spec fn after_turn_started(s0: State, id: Seq<char>, result: Result<TurnRef, BackendError>, now: u64) -> Step {
    let s = begin(s0).record(Event::TaskStarted, success(result is Ok), Some(id), 0);
    if !runs(s0, id) {
        s
    } else {
        match result {
            Ok(turn) => if s0.active->Some_0.gate is None {
                Step {
                    state: State { active: Some(ActiveText { turn: Some(turn), ..s0.active->Some_0 }), ..s.state },
                    ..s
                }.fail(Fault::Internal("缺少执行状态"@))
            } else {
                bound(s.state, turn, "执行身份不匹配"@, "控制容量耗尽，无法回传停止请求"@, now)
            },
            Err(error) => finished(s, OutcomeView::StartUnknown(backend_sentence(error))).fail(
                Fault::Backend("Codex 启动失败，已停止运行以避免重复执行"@),
            ),
        }
    }
}

pub open spec fn after_control(s: State, result: Result<(), BackendError>) -> Step {
    if result is Ok {
        begin(s)
    } else {
        begin(s).fail(Fault::Backend("Codex 控制请求失败，需重启连接"@))
    }
}

#[verifier::opaque]
pub open spec fn after_task_done(s: State, done: TaskDone, now: u64) -> Step {
    match done {
        TaskDone::PlanAction { input, task, result } => after_plan_action(s, input@, opt_task(task), result),
        TaskDone::Admission { ticket, input, result } => after_admission(s, ticket.id(), input@, result),
        TaskDone::Prepared { id, result } => after_prepared(s, id@, result),
        TaskDone::Started { id, result } => after_turn_started(s, id@, result, now),
        TaskDone::Control { result } => after_control(s, result),
    }
}

impl Runtime {
    fn plan_action(&mut self, input: Input, task: Option<TaskSpec>, result: Result<bool, String>) -> (r: Result<(), RuntimeError>)
        requires
            old(self).wf(),
        ensures
            final(self).at(after_plan_action(old(self)@, input@, opt_task(task), result)),
            fault_of(r) == after_plan_action(old(self)@, input@, opt_task(task), result).fault,
    {
        proof {
            reveal(after_plan_action);
        }
        let mut input = input;
        self.release();
        self.settle(&mut input.ack, true);
        match result {
            Ok(true) => match task {
                Some(task) => {
                    match self.tasks.scheduler.reserve(input.id, task) {
                        Ok(ticket) => {
                            self.tasks.scheduler.commit_admission(ticket, true);
                        },
                        Err(_) => {
                            return Err(RuntimeError::Interaction("计划实施入队失败"));
                        },
                    }
                    self.tell(input.chat.as_str(), "已关闭 Plan 模式，确认的计划已加入实施队列。")
                },
                None => self.tell(input.chat.as_str(), "保持 Plan 模式，可继续发送消息讨论或修改计划。"),
            },
            Ok(false) => self.tell(input.chat.as_str(), "此计划选择已处理，不会重复执行。"),
            Err(error) => {
                let mut t = "计划选择处理失败：".to_owned();
                t.append(error.as_str());
                t.append("。未启动实施，设置可能已部分保存；请检查 /plan 和当前会话后重新生成计划，不会自动重试。");
                self.tell(input.chat.as_str(), t.as_str())
            },
        }
    }

    fn admission_done(&mut self, ticket: AdmissionTicket, input: Input, result: Result<bool, ()>) -> (r: Result<(), RuntimeError>)
        requires
            old(self).wf(),
        ensures
            final(self).at(after_admission(old(self)@, ticket.id(), input@, result)),
            fault_of(r) == after_admission(old(self)@, ticket.id(), input@, result).fault,
    {
        proof {
            reveal(after_admission);
        }
        let mut input = input;
        match result {
            Ok(new) => {
                let queued = self.tasks.scheduler.commit_admission(ticket, new);
                self.settle(&mut input.ack, true);
                if queued {
                    return self.tell(input.chat.as_str(), "请求已接收。");
                }
                Ok(())
            },
            Err(_) => {
                self.tasks.scheduler.abort_admission(ticket);
                self.settle(&mut input.ack, false);
                self.tell(input.chat.as_str(), "接收状态保存失败，未启动任务。")
            },
        }
    }

    fn runs(&self, id: &str) -> (r: bool)
        ensures
            r == runs(self@, id@),
    {
        match &self.tasks.active {
            Some(active) => same(active.spec.id.as_str(), id),
            None => false,
        }
    }

    fn prepared(&mut self, id: String, result: Result<TurnInput, String>) -> (r: Result<(), RuntimeError>)
        requires
            old(self).wf(),
        ensures
            final(self).at(after_prepared(old(self)@, id@, result)),
            fault_of(r) == after_prepared(old(self)@, id@, result).fault,
    {
        proof {
            reveal(after_prepared);
        }
        let status = match &result {
            Ok(_) => Status::Succeeded,
            Err(_) => Status::Failed,
        };
        self.record(Event::TaskPrepared, status, Some(id.clone()), 0);
        if !self.runs(id.as_str()) {
            return Ok(());
        }
        if !self.can_spawn(false) {
            return self.finish(Outcome::NotStarted { label: "系统繁忙，任务未启动；请稍后重试。".to_owned() });
        }
        let stopping = match &self.tasks.active {
            Some(active) => active.stopping,
            None => false,
        };
        if stopping {
            return self.finish(Outcome::NotStarted { label: "准备阶段已停止，未启动任务".to_owned() });
        }
        match result {
            Ok(input) => {
                let epoch: u64 = self.settings.epoch;
                match &mut self.tasks.active {
                    Some(active) => {
                        active.spec.mode = input.mode;
                        active.gate = Some(
                            Execution::starting(epoch, input.thread_id.clone(), limits::EARLY_PROTOCOL_EVENTS),
                        );
                    },
                    None => {},
                }
                self.spawn(Job::StartTurn { id, input });
                Ok(())
            },
            Err(detail) => self.finish(Outcome::PrepareFailed { detail }),
        }
    }

    fn turn_started(&mut self, id: String, result: Result<TurnRef, BackendError>, now: u64) -> (r: Result<(), RuntimeError>)
        requires
            old(self).wf(),
            clock(now),
        ensures
            final(self).at(after_turn_started(old(self)@, id@, result, now)),
            fault_of(r) == after_turn_started(old(self)@, id@, result, now).fault,
    {
        proof {
            reveal(after_turn_started);
        }
        let status = match &result {
            Ok(_) => Status::Succeeded,
            Err(_) => Status::Failed,
        };
        self.record(Event::TaskStarted, status, Some(id.clone()), 0);
        if !self.runs(id.as_str()) {
            return Ok(());
        }
        match result {
            Ok(turn) => {
                let gated = match &self.tasks.active {
                    Some(active) => active.gate.is_some(),
                    None => false,
                };
                if !gated {
                    match &mut self.tasks.active {
                        Some(active) => {
                            active.turn = Some(turn);
                        },
                        None => {},
                    }
                    return Err(RuntimeError::Internal("缺少执行状态"));
                }
                self.bind_turn(turn, "执行身份不匹配", "控制容量耗尽，无法回传停止请求", now)
            },
            Err(error) => {
                match self.finish(Outcome::StartUnknown { detail: error.message() }) {
                    Ok(()) => Err(RuntimeError::Backend("Codex 启动失败，已停止运行以避免重复执行")),
                    Err(e) => Err(e),
                }
            },
        }
    }

    pub fn handle_task_done(&mut self, done: TaskDone, now: u64) -> (r: Result<(), RuntimeError>)
        requires
            old(self).wf(),
            clock(now),
        ensures
            final(self).at(after_task_done(old(self)@, done, now)),
            fault_of(r) == after_task_done(old(self)@, done, now).fault,
    {
        proof {
            reveal(after_task_done);
        }
        match done {
            TaskDone::PlanAction { input, task, result } => self.plan_action(input, task, result),
            TaskDone::Admission { ticket, input, result } => self.admission_done(ticket, input, result),
            TaskDone::Prepared { id, result } => self.prepared(id, result),
            TaskDone::Started { id, result } => self.turn_started(id, result, now),
            TaskDone::Control { result } => match result {
                Ok(()) => Ok(()),
                Err(_) => Err(RuntimeError::Backend("Codex 控制请求失败，需重启连接")),
            },
        }
    }
}

} // verus!
