//! Periodic maintenance: progress previews, confirmation expiry and the
//! per-task time budget.
use vstd::prelude::*;
use vstd::string::*;
use crate::directories::{creation_texts, overdue, CreationText};
use crate::presentation::{Request, RequestText};
use crate::runtime::control::{seconds_since, whole_seconds};
use crate::runtime::flow::{first_chars, opening};
use crate::runtime::limits;
use crate::runtime::state::{begin, fault_of, Active, ActiveText, Fault, Runtime, RuntimeError, State, Step};
use crate::text::{decimal, decimal_text};
use crate::textmap::kept;

verus! {

/// At least `span` has passed since `then`.
pub open spec fn passed(then: u64, now: u64, span: u64) -> bool {
    now >= then && now - then >= span
}

/// What an execution has to show so far: its plan or else its output.
pub open spec fn progress_output(a: ActiveText) -> Seq<char> {
    match a.plan {
        Some(p) => p.0,
        None => a.output,
    }
}

pub open spec fn progress_text(a: ActiveText, now: u64) -> Seq<char> {
    let output = progress_output(a);
    let preview = opening(output, limits::PREVIEW_CHARS as int);
    (if a.stopping {
        "正在停止"@
    } else {
        "正在执行"@
    }) + " · 已用 "@ + decimal(seconds_since(a.started, now)) + " 秒\n\n"@ + (if preview.len() == 0 {
        "等待 Codex 输出…"@
    } else {
        preview
    }) + (if preview.len() < output.len() {
        "\n\n（进度预览，完整内容将在结束后发送）"@
    } else {
        ""@
    })
}

/// A preview of the running task goes out, if the one before it has been
/// delivered and enough room remains for replies.
pub open spec fn previewed(s: State, now: u64) -> State {
    if !(s.rich && passed(s.progress_last, now, limits::PROGRESS_INTERVAL)) {
        s
    } else {
        let t = State { progress_last: now, ..s };
        match s.active {
            Some(a) => if !a.is_compact() && s.room > limits::DELIVERY_PROGRESS_RESERVE && !s.progress_busy {
                begin(State { progress_busy: true, ..t }).put(
                    RequestText::Progress { task: a.spec.id, chat: a.spec.chat, text: progress_text(a, now) },
                ).state
            } else {
                t
            },
            None => t,
        }
    }
}

pub open spec fn expiry_text(c: CreationText) -> Seq<char> {
    "目录创建确认已过期："@ + c.target.text + "\n未自动创建；如需继续，请重新发送 /cd <路径>。"@
}

/// The users of these creations are told that they expired.
pub open spec fn expiries_told(s: Step, due: Seq<CreationText>) -> Step
    decreases due.len(),
{
    if due.len() == 0 {
        s
    } else {
        expiries_told(s.tell(due[0].chat, expiry_text(due[0])), due.drop_first())
    }
}

/// Creations that are due leave, and their users are told.
pub open spec fn confirmations_expired(s: State, now: u64) -> Step {
    expiries_told(
        begin(State { confirmations: kept(s.confirmations, |k: Seq<char>, c: CreationText| now < c.deadline), ..s }),
        overdue(s.confirmations, now).map_values(|k: Seq<char>| s.confirmations[k]),
    )
}

/// The running execution has used up its time.
pub open spec fn overtime(s: State, now: u64) -> bool {
    s.active matches Some(a) && now > a.started && now - a.started > limits::TASK_TIMEOUT
}

pub open spec fn after_tick(s: State, now: u64) -> Step {
    let t = confirmations_expired(previewed(s, now), now);
    if overtime(s, now) {
        t.fail(Fault::Maintenance("任务超过一小时上限，停止本次运行"@))
    } else {
        t
    }
}

proof fn expiries_stop(s: Step, due: Seq<CreationText>)
    requires
        s.fault is Some,
    ensures
        expiries_told(s, due) == s,
    decreases due.len(),
{
    if due.len() > 0 {
        expiries_stop(s, due.drop_first());
    }
}

proof fn expiries_keep_active(s: Step, due: Seq<CreationText>)
    ensures
        expiries_told(s, due).state.active == s.state.active,
    decreases due.len(),
{
    if due.len() > 0 {
        expiries_keep_active(s.tell(due[0].chat, expiry_text(due[0])), due.drop_first());
    }
}

fn render_progress(active: &Active, now: u64) -> (r: String)
    ensures
        r@ == progress_text(active@, now),
{
    let output: &str = match &active.plan {
        Some((text, _)) => text.as_str(),
        None => active.output.as_str(),
    };
    let preview = first_chars(output, limits::PREVIEW_CHARS);
    let mut t = if active.stopping {
        "正在停止".to_owned()
    } else {
        "正在执行".to_owned()
    };
    t.append(" · 已用 ");
    t.append(decimal_text(whole_seconds(active.started, now)).as_str());
    t.append(" 秒\n\n");
    if preview.as_str().is_empty() {
        t.append("等待 Codex 输出…");
    } else {
        t.append(preview.as_str());
    }
    if preview.as_str().unicode_len() < output.unicode_len() {
        t.append("\n\n（进度预览，完整内容将在结束后发送）");
    } else {
        t.append("");
    }
    t
}

impl Runtime {
    fn preview(&mut self, now: u64)
        requires
            old(self).wf(),
        ensures
            final(self)@ == previewed(old(self)@, now),
            final(self).wf(),
    {
        if !self.rich_output || now < self.progress.last || now - self.progress.last < limits::PROGRESS_INTERVAL {
            return;
        }
        self.progress.last = now;
        let request = match &self.tasks.active {
            Some(active) => {
                if active.is_compact() || self.outbox.room <= limits::DELIVERY_PROGRESS_RESERVE || self.progress.busy {
                    return;
                }
                Request::Progress {
                    task: active.spec.id.clone(),
                    chat: active.spec.chat.clone(),
                    text: render_progress(active, now),
                }
            },
            None => {
                return;
            },
        };
        self.progress.busy = true;
        self.put(request);
    }

    fn expire_confirmations(&mut self, now: u64) -> (r: Result<(), RuntimeError>)
        requires
            old(self).wf(),
        ensures
            final(self).at(confirmations_expired(old(self)@, now)),
            fault_of(r) == confirmations_expired(old(self)@, now).fault,
    {
        let due = self.session_book.confirmations.expire(now);
        let ghost all = creation_texts(due@);
        let ghost goal = confirmations_expired(old(self)@, now);
        let mut i: usize = 0;
        proof {
            assert(all.skip(0) =~= all);
        }
        while i < due.len()
            invariant
                i <= due@.len(),
                all == creation_texts(due@),
                self.wf(),
                goal == confirmations_expired(old(self)@, now),
                expiries_told(begin(self@), all.skip(i as int)) == goal,
            decreases due.len() - i,
        {
            let ghost before = self@;
            let creation = &due[i];
            proof {
                assert(all.skip(i as int)[0] == due@[i as int]@);
                assert(all.skip(i as int).drop_first() =~= all.skip(i + 1));
            }
            let mut text = "目录创建确认已过期：".to_owned();
            text.append(creation.target.text.as_str());
            text.append("\n未自动创建；如需继续，请重新发送 /cd <路径>。");
            match self.tell(creation.chat.as_str(), text.as_str()) {
                Ok(()) => {},
                Err(e) => {
                    proof {
                        expiries_stop(begin(before).tell(all[i as int].chat, expiry_text(all[i as int])), all.skip(i + 1));
                    }
                    return Err(e);
                },
            }
            i = i + 1;
        }
        proof {
            assert(all.skip(i as int).len() == 0);
        }
        Ok(())
    }

    pub fn handle_tick(&mut self, now: u64) -> (r: Result<(), RuntimeError>)
        requires
            old(self).wf(),
        ensures
            final(self).at(after_tick(old(self)@, now)),
            fault_of(r) == after_tick(old(self)@, now).fault,
    {
        self.preview(now);
        let ghost s = self@;
        proof {
            expiries_keep_active(
                begin(State { confirmations: kept(s.confirmations, |k: Seq<char>, c: CreationText| now < c.deadline), ..s }),
                overdue(s.confirmations, now).map_values(|k: Seq<char>| s.confirmations[k]),
            );
        }
        match self.expire_confirmations(now) {
            Ok(()) => {},
            Err(e) => {
                return Err(e);
            },
        }
        let late = match &self.tasks.active {
            Some(active) => now > active.started && now - active.started > limits::TASK_TIMEOUT,
            None => false,
        };
        if late {
            return Err(RuntimeError::Maintenance("任务超过一小时上限，停止本次运行"));
        }
        Ok(())
    }
}

} // verus!
