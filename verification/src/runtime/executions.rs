//! What becomes of a task: it is prepared with its attachments, its turn runs,
//! what the turn says is collected, and the answer goes back to where the task
//! came from.
use vstd::prelude::*;
use vstd::string::*;
use crate::cards::{first_outdated, live_buttons, updates_find_dead_buttons, updates_keep_the_card, updates_only_remove};
use crate::diagnostics::{Event, Status};
use crate::directories::{overdue, CreationText};
use crate::events::{AgentEvent, Incoming, TurnOutcome};
use crate::execution::replay;
use crate::interactions::PendingText;
use crate::markdown::{cut_texts_are_full, fitting, fitting_fits, whole_texts_fit};
use crate::model::{ExecutionMode, TaskText};
use crate::outcome::{outcome_label, OutcomeView};
use crate::plans::OfferText;
use crate::ports::{backend_sentence, BackendError, TurnInput, TurnRef};
use crate::presentation::RequestText;
use crate::runtime::done_task::{after_prepared, after_task_done, after_turn_started};
use crate::runtime::effects::{after_done, after_shutdown};
use crate::runtime::flow::{answer_text, finished, folded, folded_all, turn_outcome};
use crate::runtime::maintain::{files_delivered, next_started, panels_refreshed, tidied};
use crate::runtime::protocol::{after_event, after_protocol, after_started};
use crate::runtime::state::{ActiveKindText, ActiveText, Done, FileDeliveryText, JobText, RecordText, State, Step, TaskDone};
use crate::runtime::timers::{after_tick, expiries_told, expiry_text, previewed};
use crate::text::{begins_with, blank, byte_count, bytes_add, bytes_per_char, decimal, text_less_is_strict};
use crate::textmap::{order_exists, ordered};

verus! {

/// The first task that waits starts when nothing is in its way: it is prepared
/// with the attachments that came with it, and its user is told.
pub proof fn waiting_tasks_are_prepared(s: State, now: u64)
    requires
        s.active is None,
        s.files is Idle,
        s.admissions.active is None,
        !s.admissions.mutating,
        s.admissions.queue.len() > 0,
        s.running + s.spawned.len() + 16 < 128,
    ensures
        ({
            let task = s.admissions.queue[0];
            let r = next_started(s, now);
            &&& r.spawned == s.spawned.push(
                JobText::Prepare {
                    task,
                    attachments: if s.resources.contains_key(task.id) {
                        s.resources[task.id]
                    } else {
                        Seq::empty()
                    },
                },
            )
            &&& r.active matches Some(a) && a.spec == task && a.kind is Task && !a.stopping && a.turn is None && a.gate is None
                && a.output.len() == 0 && a.plan is None && !a.truncated && a.started == now
            &&& r.admissions.active == Some(task)
            &&& r.admissions.queue == s.admissions.queue.drop_first()
            &&& r.admissions.pending == s.admissions.pending
            &&& r.plan_offer is None
            &&& r.resources == s.resources.remove(task.id)
            &&& r.files == FileDeliveryText::Holding(task)
            &&& s.room > 0 ==> r.sent == s.sent.push(RequestText::Text(task.chat, "已开始执行；可发送 /status 或 /stop。"@))
            &&& s.room == 0 ==> r.sent == s.sent
        }),
{
}

/// A task that was prepared starts the very turn that was prepared for it, on
/// the thread that the turn names, and runs in the turn's mode from then on.
pub proof fn prepared_tasks_start_their_turn(s: State, a: ActiveText, id: String, input: TurnInput, now: u64)
    requires
        s.active == Some(a),
        a.spec.id == id@,
        !a.stopping,
        s.running > 0,
        s.running + s.spawned.len() + 15 < 128,
    ensures
        ({
            let r = after_done(s, Done::Task(TaskDone::Prepared { id, result: Ok(input) }), now);
            &&& r.fault is None
            &&& r.state.spawned == s.spawned.push(JobText::StartTurn { id: id@, input })
            &&& r.state.sent == s.sent
            &&& r.state.active matches Some(b) && b.spec == (TaskText { mode: input.mode, ..a.spec }) && (b.gate matches Some(g)
                && g.thread == input.thread_id@ && g.epoch == s.epoch && g.turn is None && !g.terminal && g.early.len() == 0)
                && b.output == a.output && b.turn == a.turn && !b.stopping
        }),
{
    reveal(after_task_done);
    reveal(after_prepared);
}

/// A task whose preparation failed ends, and its user is told why.
pub proof fn failed_preparations_are_told(s: State, a: ActiveText, id: String, error: String, now: u64)
    requires
        s.active == Some(a),
        a.spec.id == id@,
        a.kind is Task,
        !a.stopping,
        s.running > 0,
        s.running + s.spawned.len() + 15 < 128,
        s.room > 0,
    ensures
        ({
            let r = after_done(s, Done::Task(TaskDone::Prepared { id, result: Err(error) }), now);
            &&& r.fault is None
            &&& r.state.spawned == s.spawned
            &&& r.state.active is None
            &&& r.state.sent.len() == s.sent.len() + 1
            &&& r.state.sent.last() matches RequestText::Answer { task, chat, text } && task == a.spec.id && chat == a.spec.chat
                && begins_with(text, "准备失败："@ + error@)
        }),
{
    reveal(after_task_done);
    reveal(after_prepared);
    reveal(finished);
    let label = "准备失败："@ + error@;
    let text = answer_text(a, OutcomeView::PrepareFailed(error@));
    assert(text.take(label.len() as int) =~= label);
}

/// A task that was being stopped while it was prepared starts no turn.
pub proof fn stopped_preparations_start_nothing(s: State, a: ActiveText, id: String, result: Result<TurnInput, String>, now: u64)
    requires
        s.active == Some(a),
        a.stopping,
    ensures
        after_done(s, Done::Task(TaskDone::Prepared { id, result }), now).state.spawned == s.spawned,
{
    reveal(after_task_done);
    reveal(after_prepared);
    reveal(finished);
}

/// A turn that the agent has started is the turn of the execution from then on;
/// where a stop was asked for meanwhile, it is interrupted.
pub proof fn started_turns_are_bound(s: State, a: ActiveText, id: String, turn: TurnRef, now: u64)
    requires
        s.active == Some(a),
        a.spec.id == id@,
        s.running > 0,
        s.running + s.spawned.len() <= 128,
        a.gate matches Some(g) && g.turn is None && !g.terminal && g.early.len() == 0 && g.epoch == turn.epoch && g.thread
            == turn.thread_id@,
        turn.turn_id@.len() > 0,
    ensures
        ({
            let r = after_done(s, Done::Task(TaskDone::Started { id, result: Ok(turn) }), now);
            &&& r.fault is None
            &&& r.state.active matches Some(b) && b.turn == Some(turn) && b.spec == a.spec && b.output == a.output && b.stopping
                == a.stopping && (b.gate matches Some(g) && g.turn == Some(turn) && !g.terminal)
            &&& !a.stopping ==> r.state.spawned == s.spawned
            &&& a.stopping ==> r.state.spawned == s.spawned.push(JobText::Interrupt { turn })
        }),
{
    reveal(after_task_done);
    reveal(after_turn_started);
    reveal_with_fuel(replay, 2);
    reveal_with_fuel(folded_all, 2);
    let g = a.gate->Some_0;
    assert(g.early =~= Seq::empty());
}

/// A turn of which nobody knows whether it started ends the task and the run.
pub proof fn unknown_starts_stop_the_run(s: State, a: ActiveText, id: String, error: BackendError, now: u64)
    requires
        s.active == Some(a),
        a.spec.id == id@,
        a.kind is Task,
        s.room > 0,
    ensures
        ({
            let r = after_done(s, Done::Task(TaskDone::Started { id, result: Err(error) }), now);
            &&& r.fault is Some
            &&& r.state.active is None
            &&& r.state.spawned == s.spawned
            &&& r.state.sent.len() == s.sent.len() + 1
            &&& r.state.sent.last() matches RequestText::Answer { task, chat, text } && task == a.spec.id && chat == a.spec.chat
                && begins_with(text, "启动结果未知或失败："@)
        }),
{
    reveal(after_task_done);
    reveal(after_turn_started);
    reveal(finished);
    let head = "启动结果未知或失败："@;
    let text = answer_text(a, OutcomeView::StartUnknown(backend_sentence(error)));
    assert(text.take(head.len() as int) =~= head);
}

/// The execution whose turn this is: bound to it and not at its end.
pub open spec fn turn_of_execution(s: State, a: ActiveText, turn: TurnRef) -> bool {
    &&& s.active == Some(a)
    &&& a.gate matches Some(g) && !g.terminal && g.epoch == turn.epoch && g.thread == turn.thread_id@ && (g.turn matches Some(t)
        && t.thread_id@ == turn.thread_id@ && t.turn_id@ == turn.turn_id@ && t.epoch == turn.epoch)
}

/// An event of another thread or of another run of the agent.
pub open spec fn foreign_turn(s: State, turn: TurnRef) -> bool {
    s.active matches Some(a) ==> (a.gate matches Some(g) ==> g.epoch != turn.epoch || g.thread != turn.thread_id@ || (
    g.turn matches Some(t) && t.turn_id@ != turn.turn_id@))
}

/// What the turn says is added to the output, in full while it fits in 32768
/// bytes. Beyond that the output is cut at the last character that fits, and is
/// marked as cut.
pub proof fn output_is_collected(s: State, a: ActiveText, turn: TurnRef, item: String, delta: String, now: u64)
    requires
        turn_of_execution(s, a, turn),
    ensures
        ({
            let r = after_protocol(s, Incoming::Notification(AgentEvent::Output { turn, item, delta }), now);
            &&& r.fault is None
            &&& r.state.sent == s.sent
            &&& r.state.spawned == s.spawned
            &&& r.state.active matches Some(b) && {
                &&& b.spec == a.spec
                &&& b.plan == a.plan
                &&& b.stopping == a.stopping
                &&& byte_count(a.output) + byte_count(delta@) <= 32768 ==> b.output == a.output + delta@ && b.truncated
                    == a.truncated
                &&& byte_count(a.output) <= 32768 && byte_count(a.output) + byte_count(delta@) > 32768 ==> {
                    &&& b.truncated
                    &&& begins_with(a.output + delta@, b.output)
                    &&& begins_with(b.output, a.output)
                    &&& byte_count(b.output) <= 32768
                    &&& byte_count((a.output + delta@).take(b.output.len() as int + 1)) > 32768
                }
            }
        }),
{
    reveal(after_event);
    reveal(folded);
    let room = 32768 - byte_count(a.output);
    let n = fitting(delta@, if byte_count(a.output) < 32768 {
        room
    } else {
        0
    });
    if byte_count(a.output) <= 32768 {
        fitting_fits(delta@, room);
        let kept = delta@.take(n as int);
        bytes_add(a.output, kept);
        let b = a.output + kept;
        if byte_count(a.output) + byte_count(delta@) <= 32768 {
            whole_texts_fit(delta@, room);
            assert(delta@.take(delta@.len() as int) =~= delta@);
        } else {
            cut_texts_are_full(delta@, room);
            assert((a.output + delta@).take(b.len() as int) =~= b);
            assert(b.take(a.output.len() as int) =~= a.output);
            assert((a.output + delta@).take(b.len() as int + 1) =~= a.output + delta@.take(n as int + 1));
            bytes_add(a.output, delta@.take(n as int + 1));
        }
    }
}

/// The texts of output events, joined.
pub open spec fn said_by(events: Seq<AgentEvent>) -> Seq<char>
    decreases events.len(),
{
    if events.len() == 0 {
        Seq::empty()
    } else {
        said_by(events.drop_last()) + match events.last() {
            AgentEvent::Output { delta, .. } => delta@,
            _ => Seq::empty(),
        }
    }
}

/// Output that fits is collected whole and in order, however it is split up.
pub proof fn output_is_collected_in_order(s: Step, a: ActiveText, events: Seq<AgentEvent>, now: u64)
    requires
        s.fault is None,
        s.state.active == Some(a),
        forall|i: int| 0 <= i < events.len() ==> (#[trigger] events[i]) is Output,
        byte_count(a.output) + byte_count(said_by(events)) <= 32768,
    ensures
        folded_all(s, events, now) == (Step {
            state: State { active: Some(ActiveText { output: a.output + said_by(events), ..a }), ..s.state },
            ..s
        }),
    decreases events.len(),
{
    if events.len() == 0 {
        assert(a.output + said_by(events) =~= a.output);
    } else {
        let before = events.drop_last();
        let last = events.last();
        assert(events[events.len() - 1] == last);
        assert forall|i: int| 0 <= i < before.len() implies (#[trigger] before[i]) is Output by {
            assert(before[i] == events[i]);
        }
        let delta = last->delta@;
        bytes_add(said_by(before), delta);
        output_is_collected_in_order(s, a, before, now);
        let mid = a.output + said_by(before);
        bytes_add(a.output, said_by(before));
        reveal(folded);
        whole_texts_fit(delta, 32768 - byte_count(mid));
        bytes_per_char(delta);
        if byte_count(mid) >= 32768 {
            assert(delta =~= Seq::empty());
        }
        assert(delta.take(delta.len() as int) =~= delta);
        assert(mid + delta =~= a.output + said_by(events));
    }
}

/// A plan that the turn proposes is kept as it is, while it fits in 32768 bytes;
/// a later one takes its place.
pub proof fn plans_are_kept(s: State, a: ActiveText, turn: TurnRef, item: String, text: String, now: u64)
    requires
        turn_of_execution(s, a, turn),
        byte_count(text@) <= 32768,
    ensures
        ({
            let r = after_protocol(s, Incoming::Notification(AgentEvent::Plan { turn, item, text }), now);
            &&& r.fault is None
            &&& r.state.sent == s.sent
            &&& r.state.spawned == s.spawned
            &&& r.state.active matches Some(b) && b.plan == Some((text@, false)) && b.output == a.output && b.spec == a.spec
        }),
{
    reveal(after_event);
    reveal(folded);
    whole_texts_fit(text@, 32768);
    assert(text@.take(text@.len() as int) =~= text@);
}

/// What other turns say is not taken for this one's.
pub proof fn foreign_events_change_nothing(s: State, turn: TurnRef, item: String, text: String, outcome: TurnOutcome, now: u64)
    requires
        foreign_turn(s, turn),
    ensures
        after_protocol(s, Incoming::Notification(AgentEvent::Output { turn, item, delta: text }), now) == (Step {
            state: s,
            fault: None,
        }),
        after_protocol(s, Incoming::Notification(AgentEvent::Plan { turn, item, text }), now) == (Step { state: s, fault: None }),
        after_protocol(s, Incoming::Notification(AgentEvent::Finished { turn, outcome }), now) == (Step { state: s, fault: None }),
{
    reveal(after_event);
}

/// The sentence that opens the answer to a task.
pub open spec fn opening_of(outcome: TurnOutcome, text: Seq<char>) -> bool {
    match outcome {
        TurnOutcome::Completed => begins_with(text, "执行完成\n\n"@),
        TurnOutcome::Interrupted => begins_with(text, "任务已停止\n\n"@),
        TurnOutcome::Failed { message: Some(m), .. } => m@.len() <= 1000 ==> begins_with(text, "执行失败："@ + m@ + "\n\n"@),
        TurnOutcome::Failed { message: None, .. } => begins_with(text, "执行失败：Codex 未返回原因\n\n"@),
    }
}

/// When a task's turn ends, its answer goes to the chat that the task came from.
/// The answer opens with how the turn ended; then comes the plan, where there is
/// one, or else all of the output, and a note where it was cut. The next task may
/// start.
pub proof fn answers_go_where_the_task_came_from(s: State, a: ActiveText, turn: TurnRef, outcome: TurnOutcome, now: u64)
    requires
        turn_of_execution(s, a, turn),
        a.kind is Task,
        s.admissions.active == Some(a.spec),
        s.room > 0,
    ensures
        ({
            let r = after_protocol(s, Incoming::Notification(AgentEvent::Finished { turn, outcome }), now);
            let shown = match a.plan {
                Some(p) => p,
                None => (a.output, a.truncated),
            };
            let tail = (if shown.0.len() == 0 {
                "（无文本输出）"@
            } else {
                shown.0
            }) + (if shown.1 {
                "\n\n输出超过 32 KiB 上限，已截断。"@
            } else {
                ""@
            });
            &&& r.fault is None
            &&& r.state.active is None
            &&& r.state.admissions.active is None
            &&& r.state.admissions.queue == s.admissions.queue
            &&& r.state.spawned == s.spawned
            &&& r.state.sent.len() == s.sent.len() + 1
            &&& r.state.sent.drop_last() == s.sent
            &&& r.state.sent.last() matches RequestText::Answer { task, chat, text } && {
                &&& task == a.spec.id
                &&& chat == a.spec.chat
                &&& opening_of(outcome, text)
                &&& text.len() >= tail.len()
                &&& text.skip(text.len() - tail.len()) == tail
            }
        }),
{
    reveal(after_event);
    reveal(folded);
    reveal(finished);
    let r = after_protocol(s, Incoming::Notification(AgentEvent::Finished { turn, outcome }), now);
    assert(r.state.sent.drop_last() =~= s.sent);
    let shown = match a.plan {
        Some(p) => p,
        None => (a.output, a.truncated),
    };
    let tail = (if shown.0.len() == 0 {
        "（无文本输出）"@
    } else {
        shown.0
    }) + (if shown.1 {
        "\n\n输出超过 32 KiB 上限，已截断。"@
    } else {
        ""@
    });
    let text = answer_text(a, turn_outcome(outcome, false));
    let label = outcome_label(turn_outcome(outcome, false));
    assert(text =~= label + "\n\n"@ + tail);
    assert(text.skip(text.len() - tail.len()) =~= tail);
    answers_open_with_the_outcome(outcome, tail);
}

proof fn answers_open_with_the_outcome(outcome: TurnOutcome, tail: Seq<char>)
    ensures
        opening_of(outcome, outcome_label(turn_outcome(outcome, false)) + "\n\n"@ + tail),
{
    reveal_strlit("执行完成");
    reveal_strlit("执行完成\n\n");
    reveal_strlit("任务已停止");
    reveal_strlit("任务已停止\n\n");
    reveal_strlit("执行失败：");
    reveal_strlit("Codex 未返回原因");
    reveal_strlit("执行失败：Codex 未返回原因\n\n");
    reveal_strlit("\n\n");
    let label = outcome_label(turn_outcome(outcome, false));
    let text = label + "\n\n"@ + tail;
    match outcome {
        TurnOutcome::Completed => {
            assert("执行完成\n\n"@ =~= "执行完成"@ + "\n\n"@);
        },
        TurnOutcome::Interrupted => {
            assert("任务已停止\n\n"@ =~= "任务已停止"@ + "\n\n"@);
        },
        TurnOutcome::Failed { message: None, .. } => {
            assert("执行失败：Codex 未返回原因\n\n"@ =~= "执行失败："@ + "Codex 未返回原因"@ + "\n\n"@);
            assert("Codex 未返回原因"@.len() < 1000);
        },
        TurnOutcome::Failed { message: Some(m), .. } => {
        },
    }
    let head = label + "\n\n"@;
    assert(text.take(head.len() as int) =~= head);
}

/// A completed task that planned offers its plan: the plan's whole text, for the
/// task's user and session, for ten minutes, under a token of the task.
pub proof fn completed_plans_are_offered(s: State, a: ActiveText, turn: TurnRef, text: Seq<char>, now: u64)
    requires
        turn_of_execution(s, a, turn),
        a.kind is Task,
        a.spec.mode == ExecutionMode::Plan,
        !a.stopping,
        a.turn == Some(turn),
        a.plan == Some((text, false)),
        !blank(text),
        byte_count(text) <= 16000,
        s.room > 0,
        now + 600_000_000_000 <= u64::MAX,
    ensures
        ({
            let r = after_protocol(s, Incoming::Notification(AgentEvent::Finished { turn, outcome: TurnOutcome::Completed }), now);
            r.state.plan_offer == Some(
                OfferText {
                    task: a.spec,
                    thread: turn.thread_id@,
                    text,
                    token: "plan-"@ + a.spec.id,
                    sent: false,
                    deadline: (now + 600_000_000_000) as u64,
                },
            )
        }),
{
    reveal(after_event);
    reveal(folded);
    reveal(finished);
}

/// A task that did not plan, did not complete or was being stopped offers nothing.
pub proof fn other_ends_offer_nothing(s: State, a: ActiveText, turn: TurnRef, outcome: TurnOutcome, now: u64)
    requires
        turn_of_execution(s, a, turn),
        a.kind is Task,
        a.spec.mode == ExecutionMode::Execute || a.stopping || !(outcome is Completed) || a.plan is None,
    ensures
        after_protocol(s, Incoming::Notification(AgentEvent::Finished { turn, outcome }), now).state.plan_offer == s.plan_offer,
{
    reveal(after_event);
    reveal(folded);
    reveal(finished);
}

/// A compaction that the agent has taken and that ends tells the chat that asked
/// for it how it ended, once, and sessions are open to changes again.
pub proof fn ended_compactions_are_told(s: State, a: ActiveText, turn: TurnRef, thread: Option<Seq<char>>, outcome: TurnOutcome, now: u64)
    requires
        turn_of_execution(s, a, turn),
        a.kind == (ActiveKindText::Compact { acknowledged: true, terminal: None, thread }),
        s.room > 0,
    ensures
        ({
            let r = after_protocol(s, Incoming::Notification(AgentEvent::Finished { turn, outcome }), now);
            &&& r.fault is None
            &&& r.state.active is None
            &&& !r.state.admissions.mutating
            &&& r.state.spawned == s.spawned
            &&& r.state.plan_offer == s.plan_offer
            &&& r.state.sent.len() == s.sent.len() + 1
            &&& r.state.sent.last() matches RequestText::Text(chat, text) && chat == a.spec.chat && match outcome {
                TurnOutcome::Completed => text == "上下文压缩完成。"@,
                TurnOutcome::Interrupted => text == "上下文压缩已停止。"@,
                TurnOutcome::Failed { .. } => begins_with(text, "上下文压缩失败："@),
            }
        }),
{
    reveal(after_event);
    reveal(folded);
    reveal(finished);
    if let TurnOutcome::Failed { message, .. } = outcome {
        let label = outcome_label(turn_outcome(outcome, true));
        assert(label.take("上下文压缩失败："@.len() as int) =~= "上下文压缩失败："@);
    }
}

/// While a task runs, a preview of it goes to its chat at most every three
/// seconds, where cards are shown and the one before was delivered: for how long
/// it has run, and the first thousand characters of its plan or output.
pub proof fn previews_show_the_running_task(s: State, a: ActiveText, now: u64)
    requires
        s.rich,
        s.active == Some(a),
        a.kind is Task,
        !s.progress_busy,
        s.room > 8,
        now >= s.progress_last,
        now - s.progress_last >= 3_000_000_000,
        a.started <= now,
    ensures
        ({
            let r = previewed(s, now);
            let output = match a.plan {
                Some(p) => p.0,
                None => a.output,
            };
            let head = (if a.stopping {
                "正在停止"@
            } else {
                "正在执行"@
            }) + " · 已用 "@ + decimal(((now - a.started) / 1_000_000_000) as nat) + " 秒\n\n"@;
            &&& r.progress_busy
            &&& r.progress_last == now
            &&& r.spawned == s.spawned
            &&& r.active == s.active
            &&& r.sent.len() == s.sent.len() + 1
            &&& r.sent.last() matches RequestText::Progress { task, chat, text } && {
                &&& task == a.spec.id
                &&& chat == a.spec.chat
                &&& 0 < output.len() <= 1000 ==> text == head + output + ""@
                &&& output.len() > 1000 ==> text == head + output.take(1000) + "\n\n（进度预览，完整内容将在结束后发送）"@
                &&& output.len() == 0 ==> text == head + "等待 Codex 输出…"@ + ""@
            }
        }),
{
    if a.started == now {
        assert((now - a.started) / 1_000_000_000 == 0);
    }
}

/// A preview is not sent too soon, for nothing, where it would not be shown, or
/// while the one before is on its way.
pub proof fn previews_are_held_back(s: State, now: u64)
    requires
        !s.rich || s.progress_busy || s.active is None || s.room <= 8 || now < s.progress_last || now - s.progress_last
            < 3_000_000_000,
    ensures
        previewed(s, now).sent == s.sent,
{
}

/// A task that has run for more than an hour stops the run; one that has not does
/// not, whatever else is due.
pub proof fn overlong_tasks_stop_the_run(s: State, a: ActiveText, now: u64)
    requires
        s.active == Some(a),
        now >= a.started,
    ensures
        now - a.started > 3_600_000_000_000 ==> after_tick(s, now).fault is Some,
        now - a.started <= 3_600_000_000_000 && (forall|k: Seq<char>| #[trigger] s.confirmations.contains_key(k) ==> now
            < s.confirmations[k].deadline) && s.confirmations.dom().finite() ==> after_tick(s, now).fault is None,
{
    let t = previewed(s, now);
    if now - a.started <= 3_600_000_000_000 && (forall|k: Seq<char>| #[trigger] s.confirmations.contains_key(k) ==> now
        < s.confirmations[k].deadline) && s.confirmations.dom().finite() {
        nothing_overdue(t.confirmations, now);
        assert(overdue(t.confirmations, now).map_values(|k: Seq<char>| t.confirmations[k]).len() == 0);
    }
}

proof fn nothing_overdue(m: Map<Seq<char>, CreationText>, now: u64)
    requires
        forall|k: Seq<char>| #[trigger] m.contains_key(k) ==> now < m[k].deadline,
        m.dom().finite(),
    ensures
        overdue(m, now).len() == 0,
{
    order_exists(m.dom());
    let keys = ordered(m.dom());
    let p = |k: Seq<char>| now >= m[k].deadline;
    if keys.filter(p).len() > 0 {
        keys.lemma_filter_pred(p, 0);
        keys.lemma_filter_contains_rev(p, keys.filter(p)[0]);
        let k = keys.filter(p)[0];
        assert(keys.contains(k));
        assert(m.dom().contains(k));
        assert(m.contains_key(k));
    }
}

/// When the run ends, the user of the task that runs is told that it will not be
/// run again.
pub proof fn running_tasks_are_given_up(s: State, a: ActiveText)
    requires
        s.active == Some(a),
        s.room > 0,
    ensures
        ({
            let r = after_shutdown(s);
            &&& r.active is None
            &&& r.sent == s.sent.push(
                RequestText::Answer { task: a.spec.id, chat: a.spec.chat, text: "桥接已停止；未完成任务不会自动重跑。"@ },
            )
            &&& r.interactions =~= Map::<Seq<char>, PendingText>::empty()
        }),
{
}

/// The files of a task that ended are collected for that task, once.
pub proof fn ended_tasks_deliver_their_files(s: State, task: TaskText)
    requires
        s.files == FileDeliveryText::Holding(task),
        s.active is None,
        s.running + s.spawned.len() + 16 < 128,
    ensures
        files_delivered(s).spawned == s.spawned.push(JobText::FinishFiles { task }),
        files_delivered(s).files is Delivering,
        files_delivered(files_delivered(s)).spawned == files_delivered(s).spawned,
{
}

/// A plan that nobody decided in time is void, and so are its buttons; a plan
/// that is still in time keeps both.
pub proof fn undecided_plans_expire(s: State, o: OfferText, button: Seq<char>, now: u64)
    requires
        s.plan_offer == Some(o),
        s.actions.contains_key(button),
    ensures
        now >= o.deadline ==> tidied(s, now).plan_offer is None,
        now < o.deadline ==> tidied(s, now).plan_offer == Some(o),
        now >= o.deadline && begins_with(s.actions[button].command, "/plan-action "@) ==> !tidied(s, now).actions.contains_key(
            button,
        ),
        now < o.deadline && begins_with(s.actions[button].command, "/plan-action "@ + o.token + " "@) ==> tidied(
            s,
            now,
        ).actions.contains_key(button),
        !begins_with(s.actions[button].command, "/plan-action "@) ==> tidied(s, now).actions.contains_key(button) && tidied(
            s,
            now,
        ).actions[button] == s.actions[button],
{
}

/// How a task ended is recorded once, under its id, with the size of its output:
/// as a success exactly where the turn completed.
pub proof fn ends_are_recorded(s: State, a: ActiveText, turn: TurnRef, outcome: TurnOutcome, now: u64)
    requires
        turn_of_execution(s, a, turn),
        a.kind is Task,
    ensures
        ({
            let r = after_protocol(s, Incoming::Notification(AgentEvent::Finished { turn, outcome }), now);
            r.state.records == s.records.push(
                RecordText {
                    event: Event::TaskFinished,
                    status: if outcome is Completed {
                        Status::Succeeded
                    } else {
                        Status::Failed
                    },
                    task: Some(a.spec.id),
                    count: byte_count(a.output),
                },
            )
        }),
{
    reveal(after_event);
    reveal(folded);
    reveal(finished);
}

/// A list that was asked for again is sent to the message it replaces, in the
/// order in which lists were asked for, one at a time.
pub proof fn refreshed_lists_replace_their_card(s: State, now: u64)
    requires
        !s.updating_panel,
        s.running + s.spawned.len() + 16 < 128,
        s.refreshes.len() > 0,
        now + 600_000_000_000 <= u64::MAX,
    ensures
        ({
            let r = panels_refreshed(s, now);
            let f = s.refreshes[0];
            &&& r.refreshes == s.refreshes.drop_first()
            &&& r.updating_panel
            &&& r.spawned == s.spawned.push(
                JobText::SendPanel {
                    source: Some(f.source),
                    owner: f.owner,
                    panel: f.panel,
                    commands: f.commands,
                    deadline: (now + 600_000_000_000) as u64,
                },
            )
            &&& panels_refreshed(r, now) == r
        }),
{
}

/// What a turn says before the agent has answered that it started is not lost: it
/// is held back, and it is the beginning of the output once the turn is bound.
pub proof fn early_output_is_kept(s: State, a: ActiveText, turn: TurnRef, item: String, delta: String, now: u64)
    requires
        s.active == Some(a),
        a.gate matches Some(g) && !g.terminal && g.turn is None && g.epoch == turn.epoch && g.thread == turn.thread_id@
            && g.early.len() < g.capacity,
    ensures
        ({
            let event = AgentEvent::Output { turn, item, delta };
            let r = after_protocol(s, Incoming::Notification(event), now);
            &&& r.fault is None
            &&& r.state.active matches Some(b) && b.output == a.output && (b.gate matches Some(h) && h.early
                == a.gate->Some_0.early.push(event) && !h.terminal && h.turn is None)
        }),
{
    reveal(after_event);
}

/// Output that was held back is collected when the turn is bound, in order.
pub proof fn early_output_comes_first(s: State, a: ActiveText, id: String, turn: TurnRef, now: u64)
    requires
        s.active == Some(a),
        a.spec.id == id@,
        s.running > 0,
        !a.stopping,
        a.gate matches Some(g) && g.turn is None && !g.terminal && g.epoch == turn.epoch && g.thread == turn.thread_id@,
        turn.turn_id@.len() > 0,
        forall|i: int|
            0 <= i < a.gate->Some_0.early.len() ==> ((#[trigger] a.gate->Some_0.early[i]) matches AgentEvent::Output { turn: t, .. }
                && t == turn),
        byte_count(a.output) + byte_count(said_by(a.gate->Some_0.early)) <= 32768,
    ensures
        ({
            let r = after_done(s, Done::Task(TaskDone::Started { id, result: Ok(turn) }), now);
            &&& r.fault is None
            &&& r.state.active matches Some(b) && b.output == a.output + said_by(a.gate->Some_0.early) && b.turn == Some(turn)
        }),
{
    reveal(after_task_done);
    reveal(after_turn_started);
    let early = a.gate->Some_0.early;
    all_replayed(early, turn);
    let t = crate::runtime::effects::job_ended(s);
    let recorded = crate::runtime::state::begin(t).record(Event::TaskStarted, Status::Succeeded, Some(id@), 0).state;
    let b = ActiveText { turn: Some(turn), gate: Some(crate::runtime::protocol::bound_gate(a.gate->Some_0, turn)), ..a };
    let bound = crate::runtime::state::begin(State { active: Some(b), ..recorded });
    output_is_collected_in_order(bound, b, early, now);
}

proof fn all_replayed(early: Seq<AgentEvent>, turn: TurnRef)
    requires
        forall|i: int| 0 <= i < early.len() ==> ((#[trigger] early[i]) matches AgentEvent::Output { turn: t, .. } && t == turn),
    ensures
        replay(early, turn) == (early, false),
    decreases early.len(),
{
    if early.len() > 0 {
        let before = early.drop_last();
        assert forall|i: int| 0 <= i < before.len() implies ((#[trigger] before[i]) matches AgentEvent::Output { turn: t, .. } && t
            == turn) by {
            assert(before[i] == early[i]);
        }
        all_replayed(before, turn);
        assert(early[early.len() - 1] == early.last());
        assert(before.push(early.last()) =~= early);
    } else {
        assert(early =~= Seq::empty());
    }
}

/// A confirmation that nobody gave in time is gone with the next tick; its user is
/// told, in the chat it was asked in, that nothing was created.
pub proof fn missed_confirmations_are_told(s: State, token: Seq<char>, c: CreationText, now: u64)
    requires
        s.confirmations == Map::<Seq<char>, CreationText>::empty().insert(token, c),
        now >= c.deadline,
        s.room > 0,
        s.active is None,
        !s.rich,
    ensures
        ({
            let r = after_tick(s, now);
            &&& r.fault is None
            &&& !r.state.confirmations.contains_key(token)
            &&& r.state.spawned == s.spawned
            &&& r.state.directories == s.directories
            &&& r.state.sent.len() == s.sent.len() + 1
            &&& r.state.sent.last() matches RequestText::Text(chat, text) && chat == c.chat && begins_with(
                text,
                "目录创建确认已过期："@ + c.target.text,
            )
        }),
{
    let m = s.confirmations;
    assert(previewed(s, now) == s);
    one_is_overdue(m, token, c, now);
    let due = overdue(m, now).map_values(|k: Seq<char>| m[k]);
    assert(due =~= seq![c]);
    reveal_with_fuel(expiries_told, 2);
    assert(due.drop_first() =~= Seq::empty());
    let head = "目录创建确认已过期："@ + c.target.text;
    assert(expiry_text(c).take(head.len() as int) =~= head);
}

proof fn one_is_overdue(m: Map<Seq<char>, CreationText>, token: Seq<char>, c: CreationText, now: u64)
    requires
        m == Map::<Seq<char>, CreationText>::empty().insert(token, c),
        now >= c.deadline,
    ensures
        overdue(m, now) == seq![token],
{
    assert(m.dom() =~= Set::empty().insert(token));
    order_exists(m.dom());
    let keys = ordered(m.dom());
    assert(m.dom().contains(token));
    assert(keys.contains(token));
    assert forall|i: int| 0 <= i < keys.len() implies keys[i] == token by {
        assert(keys.contains(keys[i]));
    }
    if keys.len() > 1 {
        text_less_is_strict(keys[0], keys[1]);
    }
    assert(keys =~= seq![token]);
    reveal_with_fuel(Seq::filter, 2);
    assert(keys.drop_last() =~= Seq::empty());
    assert(Seq::<Seq<char>>::empty().push(token) =~= seq![token]);
}

/// A card that shows a button which can no longer be used is brought up to date:
/// its message is given the card without the dead buttons, one card at a time.
pub proof fn dead_buttons_are_taken_off(s: State, now: u64)
    requires
        !s.updating_panel,
        s.refreshes.len() == 0,
        s.running + s.spawned.len() + 16 < 128,
        s.views.dom().finite(),
    ensures
        ({
            let r = panels_refreshed(s, now);
            match first_outdated(s.views, s.actions, now, s.card_snapshot()) {
                None => r == s,
                Some(source) => {
                    let live = live_buttons(s.views[source], source, s.actions, now, s.card_snapshot());
                    &&& r.updating_panel
                    &&& r.spawned.len() == s.spawned.len() + 1
                    &&& r.spawned.last() matches JobText::UpdatePanel { source: m, panel } && m == source && panel.title
                        == s.views[source].title && panel.buttons == live && begins_with(panel.body, s.views[source].body)
                    &&& live.len() < s.views[source].buttons.len()
                    &&& live.len() == 0 ==> !r.views.contains_key(source)
                    &&& live.len() > 0 ==> r.views.contains_key(source) && r.views[source].buttons == live
                    &&& panels_refreshed(r, now) == r
                },
            }
        }),
{
    updates_find_dead_buttons(s.views, s.actions, now, s.card_snapshot());
    if let Some(source) = first_outdated(s.views, s.actions, now, s.card_snapshot()) {
        let live = live_buttons(s.views[source], source, s.actions, now, s.card_snapshot());
        updates_only_remove(s.views[source], source, s.actions, now, s.card_snapshot());
        updates_keep_the_card(s.views[source], live);
    }
}

/// The turn that a compaction waits for becomes its turn, once; a second one, of
/// the same thread, stops the run.
pub proof fn compactions_take_their_turn(s: State, a: ActiveText, turn: TurnRef, other: TurnRef, now: u64)
    requires
        s.active == Some(a),
        a.kind matches ActiveKindText::Compact { thread, .. } && thread == Some(turn.thread_id@),
        turn.epoch == s.epoch,
        a.gate matches Some(g) && g.turn is None && !g.terminal && g.early.len() == 0 && g.epoch == s.epoch && g.thread
            == turn.thread_id@,
        a.turn is None,
        !a.stopping,
        turn.turn_id@.len() > 0,
        other.thread_id@ == turn.thread_id@,
        other.epoch == turn.epoch,
    ensures
        ({
            let r = after_protocol(s, Incoming::Notification(AgentEvent::Started { turn }), now);
            let again = after_protocol(r.state, Incoming::Notification(AgentEvent::Started { turn: other }), now);
            &&& r.fault is None
            &&& r.state.active matches Some(b) && b.turn == Some(turn) && b.spec == a.spec && b.kind == a.kind
            &&& r.state.spawned == s.spawned
            &&& other.turn_id@ == turn.turn_id@ ==> again.fault is None && again.state == r.state
            &&& other.turn_id@ != turn.turn_id@ ==> again.fault is Some
        }),
{
    reveal(after_started);
    reveal_with_fuel(replay, 2);
    reveal_with_fuel(folded_all, 2);
    assert(a.gate->Some_0.early =~= Seq::empty());
}

/// A failure is told with its reason, or with the first thousand characters of it.
pub proof fn reasons_are_told(m: String, outcome: TurnOutcome)
    requires
        outcome matches TurnOutcome::Failed { message, .. } && message == Some(m),
    ensures
        m@.len() <= 1000 ==> outcome_label(turn_outcome(outcome, false)) == "执行失败："@ + m@,
        m@.len() > 1000 ==> outcome_label(turn_outcome(outcome, false)) == "执行失败："@ + m@.take(1000),
        m@.len() <= 1000 ==> outcome_label(turn_outcome(outcome, true)) == "上下文压缩失败："@ + m@,
{
}

} // verus!
