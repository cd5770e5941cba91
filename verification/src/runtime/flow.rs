//! Shared flow: task completion and protocol event folding, delivery of
//! panels, and the bounded background-job policy.
use vstd::prelude::*;
use vstd::string::*;
use crate::cards::{pairs, Action, ActionText, Owner, OwnerText};
use crate::diagnostics::Event;
use crate::events::{AgentEvent, TurnOutcome};
use crate::interactions::{Pending, PendingText};
use crate::markdown::fitting;
use crate::model::ExecutionMode;
use crate::outcome::{outcome_label, outcome_status, Compaction, Outcome, OutcomeView};
use crate::plans::{Offer, OfferText};
use crate::ports::TurnRef;
use crate::presentation::{Request, RequestText};
use crate::runtime::limits;
use crate::runtime::state::{
    begin, fault_of, ActiveKind, ActiveKindText, ActiveText, Fault, Job, JobText, Runtime, RuntimeError, State, Step,
};
use crate::runtime::tokens;
use crate::scheduler::Admissions;
use crate::text::{begins_with, blank, byte_count, byte_len, char_width, chars_of, is_blank, same, starts_with, text_of};
use crate::view::{Panel, PanelView};

verus! {

/// As much of a text as fits in `room` bytes.
pub open spec fn clipped(text: Seq<char>, room: int) -> Seq<char> {
    text.take(fitting(text, room) as int)
}

/// The beginning of a text, and whether something is missing from it.
pub fn clip(text: &str, room: usize) -> (r: (String, bool))
    ensures
        r.0@ == clipped(text@, room as int),
        r.1 == (clipped(text@, room as int).len() < text@.len()),
{
    let chars = chars_of(text);
    let mut left: usize = room;
    let mut i: usize = 0;
    proof {
        assert(chars@.skip(0) =~= text@);
    }
    while i < chars.len() && char_width(chars[i]) <= left
        invariant
            i <= chars@.len(),
            chars@ == text@,
            i + fitting(chars@.skip(i as int), left as int) == fitting(text@, room as int),
        decreases chars.len() - i,
    {
        proof {
            assert(chars@.skip(i as int)[0] == chars@[i as int]);
            assert(chars@.skip(i as int).drop_first() =~= chars@.skip(i + 1));
        }
        left = left - char_width(chars[i]);
        i = i + 1;
    }
    proof {
        if i < chars@.len() {
            assert(chars@.skip(i as int)[0] == chars@[i as int]);
        }
        assert(chars@.subrange(0, i as int) =~= text@.take(i as int));
    }
    (text_of(&chars, 0, i), i < chars.len())
}

/// The first `n` characters of a text, or all of it.
pub open spec fn opening(text: Seq<char>, n: int) -> Seq<char> {
    if text.len() <= n {
        text
    } else {
        text.take(n)
    }
}

pub fn first_chars(text: &str, n: usize) -> (r: String)
    ensures
        r@ == opening(text@, n as int),
{
    if text.unicode_len() <= n {
        text.to_owned()
    } else {
        let head = text.substring_char(0, n);
        proof {
            assert(head@ =~= text@.take(n as int));
        }
        head.to_owned()
    }
}

/// The queue after the running task with this id, if it runs, is done.
pub open spec fn task_done(a: Admissions, id: Seq<char>) -> Admissions {
    if a.active matches Some(t) && t.id == id {
        Admissions { active: None, ..a }
    } else {
        a
    }
}

/// What the answer to a task shows: its plan or else its output.
pub open spec fn answer_text(a: ActiveText, o: OutcomeView) -> Seq<char> {
    let (text, truncated) = match a.plan {
        Some(p) => p,
        None => (a.output, a.truncated),
    };
    outcome_label(o) + "\n\n"@ + (if text.len() == 0 {
        "（无文本输出）"@
    } else {
        text
    }) + (if truncated {
        "\n\n输出超过 32 KiB 上限，已截断。"@
    } else {
        ""@
    })
}

/// The running execution ends. A compaction reopens the mutation gate and
/// reports; a task frees its slot and its answer is delivered.
#[verifier::opaque]
pub open spec fn finished(s: Step, o: OutcomeView) -> Step {
    if s.fault is Some || s.state.active is None {
        s
    } else {
        let a = s.state.active->Some_0;
        let t = Step { state: State { active: None, ..s.state }, ..s }.record(
            Event::TaskFinished,
            outcome_status(o),
            Some(a.spec.id),
            byte_count(a.output),
        );
        if a.is_compact() {
            t.release().tell(a.spec.chat, outcome_label(o))
        } else {
            let u = Step { state: State { admissions: task_done(t.state.admissions, a.spec.id), ..t.state }, ..t };
            if u.state.room == 0 {
                u.fail(Fault::Capacity("回复队列已满"@))
            } else {
                u.put(RequestText::Answer { task: a.spec.id, chat: a.spec.chat, text: answer_text(a, o) })
            }
        }
    }
}

/// The reason that a failed turn reports.
pub open spec fn reason(message: Option<String>) -> Seq<char> {
    opening(
        match message {
            Some(m) => m@,
            None => "Codex 未返回原因"@,
        },
        limits::PREVIEW_CHARS as int,
    )
}

pub open spec fn turn_outcome(outcome: TurnOutcome, compact: bool) -> OutcomeView {
    match outcome {
        TurnOutcome::Completed => if compact {
            OutcomeView::CompactCompleted
        } else {
            OutcomeView::Completed
        },
        TurnOutcome::Interrupted => if compact {
            OutcomeView::CompactStopped
        } else {
            OutcomeView::Stopped
        },
        TurnOutcome::Failed { message, .. } => if compact {
            OutcomeView::CompactFailed(reason(message))
        } else {
            OutcomeView::Failed(reason(message))
        },
    }
}

/// A completed plan task whose plan is whole, not blank and small enough
/// offers to implement it.
pub open spec fn offer_of(a: ActiveText, now: u64) -> Option<OfferText> {
    if a.is_compact() || a.stopping || a.spec.mode != ExecutionMode::Plan {
        None
    } else {
        match (a.plan, a.turn) {
            (Some(p), Some(turn)) => if p.1 || blank(p.0) || byte_count(p.0) > limits::PLAN_BYTES {
                None
            } else {
                Some(
                    OfferText {
                        task: a.spec,
                        thread: turn.thread_id@,
                        text: p.0,
                        token: "plan-"@ + a.spec.id,
                        sent: false,
                        deadline: (now + limits::INTERACTION_TIMEOUT) as u64,
                    },
                )
            },
            _ => None,
        }
    }
}

pub open spec fn with_active(s: Step, a: ActiveText) -> Step {
    Step { state: State { active: Some(a), ..s.state }, ..s }
}

/// An event of the bound turn: output and plans accumulate within bounds; a
/// completion ends the execution, except that a compaction first waits for
/// its acknowledgement.
#[verifier::opaque]
pub open spec fn folded(s: Step, event: AgentEvent, now: u64) -> Step {
    if s.fault is Some || s.state.active is None {
        s
    } else {
        let a = s.state.active->Some_0;
        match event {
            AgentEvent::Plan { text, .. } => {
                let kept = clipped(text@, limits::OUTPUT_BYTES as int);
                with_active(s, ActiveText { plan: Some((kept, kept.len() < text@.len())), ..a })
            },
            AgentEvent::Output { delta, .. } => {
                let used = byte_count(a.output) as int;
                let kept = clipped(
                    delta@,
                    if used < limits::OUTPUT_BYTES {
                        limits::OUTPUT_BYTES - used
                    } else {
                        0
                    },
                );
                with_active(
                    s,
                    ActiveText { output: a.output + kept, truncated: a.truncated || kept.len() < delta@.len(), ..a },
                )
            },
            AgentEvent::Finished { outcome, .. } => {
                let o = turn_outcome(outcome, a.is_compact());
                match a.kind {
                    ActiveKindText::Compact { acknowledged: false, thread, .. } => with_active(
                        s,
                        ActiveText { kind: ActiveKindText::Compact { acknowledged: false, terminal: Some(o), thread }, ..a },
                    ),
                    _ => {
                        let t = finished(s, o);
                        if t.fault is None && outcome is Completed && offer_of(a, now) is Some {
                            Step { state: State { plan_offer: offer_of(a, now), ..t.state }, ..t }
                        } else {
                            t
                        }
                    },
                }
            },
            _ => s,
        }
    }
}

/// All events, in order.
pub open spec fn folded_all(s: Step, events: Seq<AgentEvent>, now: u64) -> Step
    decreases events.len(),
{
    if events.len() == 0 {
        s
    } else {
        folded(folded_all(s, events.drop_last(), now), events.last(), now)
    }
}

/// A step on which a failure ends everything that follows.
proof fn faults_stay(s: Step, events: Seq<AgentEvent>, now: u64, i: int)
    requires
        0 <= i <= events.len(),
        folded_all(s, events.take(i), now).fault is Some,
    ensures
        folded_all(s, events, now) == folded_all(s, events.take(i), now),
    decreases events.len() - i,
{
    reveal(folded);
    if i < events.len() {
        assert(events.take(i + 1).drop_last() =~= events.take(i));
        faults_stay(s, events, now, i + 1);
    } else {
        assert(events.take(i) =~= events);
    }
}

/// A panel goes out, if another user job fits.
pub open spec fn panel_sent(s: Step, source: Option<Seq<char>>, owner: OwnerText, panel: PanelView, commands: Seq<(Seq<char>, Seq<char>)>, now: u64) -> Step {
    if s.fault is None && s.state.can_spawn(false) {
        s.spawn(
            JobText::SendPanel {
                source,
                owner,
                panel,
                commands,
                deadline: (now + limits::INTERACTION_TIMEOUT) as u64,
            },
        )
    } else {
        s
    }
}

/// A reply goes back on the reserved control capacity.
pub open spec fn replied(s: Step, pending: PendingText, allow: bool) -> Step {
    if s.fault is Some {
        s
    } else if s.state.jobs() >= limits::BACKGROUND_JOBS {
        s.fail(Fault::Capacity("控制回传容量耗尽，停止运行"@))
    } else {
        s.spawn(JobText::Reply { pending, allow })
    }
}

/// A turn is interrupted on the reserved control capacity.
pub open spec fn interrupted(s: Step, turn: TurnRef, refusal: Seq<char>) -> Step {
    if s.fault is Some {
        s
    } else if s.state.jobs() >= limits::BACKGROUND_JOBS {
        s.fail(Fault::Capacity(refusal))
    } else {
        s.spawn(JobText::Interrupt { turn })
    }
}

/// The clock leaves room for the longest deadline.
pub open spec fn clock(now: u64) -> bool {
    now + limits::INTERACTION_TIMEOUT <= u64::MAX
}

impl Runtime {
    pub fn finish(&mut self, outcome: Outcome) -> (r: Result<(), RuntimeError>)
        requires
            old(self).wf(),
        ensures
            final(self).at(finished(begin(old(self)@), outcome@)),
            fault_of(r) == finished(begin(old(self)@), outcome@).fault,
    {
        proof {
            reveal(finished);
        }
        let taken = self.tasks.active.take();
        match taken {
            None => Ok(()),
            Some(active) => {
                let size: usize = byte_len(active.output.as_str());
                self.record(Event::TaskFinished, outcome.status(), Some(active.spec.id.clone()), size);
                let label = outcome.label();
                if active.is_compact() {
                    self.release();
                    return self.tell(active.spec.chat.as_str(), label.as_str());
                }
                self.tasks.scheduler.finish(active.spec.id.as_str());
                if self.outbox.room == 0 {
                    return Err(RuntimeError::Capacity("回复队列已满"));
                }
                let mut text = label;
                text.append("\n\n");
                let truncated = match &active.plan {
                    Some((plan, cut)) => {
                        if plan.as_str().is_empty() {
                            text.append("（无文本输出）");
                        } else {
                            text.append(plan.as_str());
                        }
                        *cut
                    },
                    None => {
                        if active.output.as_str().is_empty() {
                            text.append("（无文本输出）");
                        } else {
                            text.append(active.output.as_str());
                        }
                        active.truncated
                    },
                };
                if truncated {
                    text.append("\n\n输出超过 32 KiB 上限，已截断。");
                } else {
                    text.append("");
                }
                self.put(Request::Answer { task: active.spec.id, chat: active.spec.chat, text });
                Ok(())
            },
        }
    }

    /// The offer that the running task makes when it completes.
    fn make_offer(&self, now: u64) -> (r: Option<Offer>)
        requires
            clock(now),
        ensures
            match self@.active {
                Some(a) => crate::runtime::state::opt_offer(r) == offer_of(a, now),
                None => r is None,
            },
    {
        match &self.tasks.active {
            None => None,
            Some(active) => {
                if active.is_compact() || active.stopping || active.spec.mode != ExecutionMode::Plan {
                    return None;
                }
                match (&active.plan, &active.turn) {
                    (Some((text, truncated)), Some(turn)) => {
                        if *truncated || is_blank(text.as_str()) || byte_len(text.as_str()) > limits::PLAN_BYTES {
                            None
                        } else {
                            Some(
                                Offer {
                                    task: active.spec.clone(),
                                    thread: turn.thread_id.clone(),
                                    text: text.clone(),
                                    token: tokens::plan(active.spec.id.as_str()),
                                    sent: false,
                                    deadline: now + limits::INTERACTION_TIMEOUT,
                                },
                            )
                        }
                    },
                    _ => None,
                }
            },
        }
    }

    /// Folds one event of the bound turn into the running execution.
    pub fn event(&mut self, event: AgentEvent, now: u64) -> (r: Result<(), RuntimeError>)
        requires
            old(self).wf(),
            clock(now),
        ensures
            final(self).at(folded(begin(old(self)@), event, now)),
            fault_of(r) == folded(begin(old(self)@), event, now).fault,
    {
        proof {
            reveal(folded);
        }
        let compact = match &self.tasks.active {
            None => {
                return Ok(());
            },
            Some(active) => active.is_compact(),
        };
        match event {
            AgentEvent::Plan { text, .. } => {
                let (kept, cut) = clip(text.as_str(), limits::OUTPUT_BYTES);
                match &mut self.tasks.active {
                    Some(active) => {
                        active.plan = Some((kept, cut));
                    },
                    None => {},
                }
                Ok(())
            },
            AgentEvent::Output { delta, .. } => {
                match &mut self.tasks.active {
                    Some(active) => {
                        let used: usize = byte_len(active.output.as_str());
                        let room: usize = if used < limits::OUTPUT_BYTES {
                            limits::OUTPUT_BYTES - used
                        } else {
                            0
                        };
                        let (kept, cut) = clip(delta.as_str(), room);
                        active.output.append(kept.as_str());
                        active.truncated = active.truncated || cut;
                    },
                    None => {},
                }
                Ok(())
            },
            AgentEvent::Finished { outcome, .. } => {
                let completed = match &outcome {
                    TurnOutcome::Completed => true,
                    _ => false,
                };
                let o = Self::outcome_of(outcome, compact);
                let waiting = match &self.tasks.active {
                    Some(active) => match &active.kind {
                        ActiveKind::Compact { acknowledged, .. } => !*acknowledged,
                        ActiveKind::Task => false,
                    },
                    None => false,
                };
                if waiting {
                    match &mut self.tasks.active {
                        Some(active) => match &mut active.kind {
                            ActiveKind::Compact { terminal, .. } => {
                                *terminal = Some(o);
                            },
                            ActiveKind::Task => {},
                        },
                        None => {},
                    }
                    return Ok(());
                }
                let offer = self.make_offer(now);
                match self.finish(o) {
                    Ok(()) => {},
                    Err(e) => {
                        return Err(e);
                    },
                }
                if completed {
                    if let Some(offer) = offer {
                        self.cards.plan_offer = Some(offer);
                    }
                }
                Ok(())
            },
            _ => Ok(()),
        }
    }

    fn outcome_of(outcome: TurnOutcome, compact: bool) -> (r: Outcome)
        ensures
            r@ == turn_outcome(outcome, compact),
    {
        match outcome {
            TurnOutcome::Completed => if compact {
                Outcome::Compact(Compaction::Completed)
            } else {
                Outcome::Completed
            },
            TurnOutcome::Interrupted => if compact {
                Outcome::Compact(Compaction::Stopped)
            } else {
                Outcome::Stopped
            },
            TurnOutcome::Failed { message, .. } => {
                let detail = match message {
                    Some(m) => first_chars(m.as_str(), limits::PREVIEW_CHARS),
                    None => first_chars("Codex 未返回原因", limits::PREVIEW_CHARS),
                };
                if compact {
                    Outcome::Compact(Compaction::Failed { detail })
                } else {
                    Outcome::Failed { detail }
                }
            },
        }
    }

    /// Folds events in order; the first failure ends it.
    pub fn events(&mut self, events: Vec<AgentEvent>, now: u64) -> (r: Result<(), RuntimeError>)
        requires
            old(self).wf(),
            clock(now),
        ensures
            final(self).at(folded_all(begin(old(self)@), events@, now)),
            fault_of(r) == folded_all(begin(old(self)@), events@, now).fault,
    {
        let ghost all = events@;
        let ghost start = begin(old(self)@);
        let ghost mut n: int = 0;
        let mut rest = events;
        proof {
            assert(all.skip(0) =~= all);
            assert(all.take(0) =~= Seq::empty());
        }
        while rest.len() > 0
            invariant
                0 <= n <= all.len(),
                all == events@,
                rest@ == all.skip(n),
                start == begin(old(self)@),
                self.at(folded_all(start, all.take(n), now)),
                folded_all(start, all.take(n), now).fault is None,
                clock(now),
            decreases rest.len(),
        {
            let event = rest.remove(0);
            let ghost before = folded_all(start, all.take(n), now);
            proof {
                assert(event == all[n]);
                assert(all.take(n + 1).drop_last() =~= all.take(n));
                assert(all.take(n + 1).last() == event);
                assert(rest@ =~= all.skip(n + 1));
                assert(begin(self@) == before);
                n = n + 1;
            }
            match self.event(event, now) {
                Ok(()) => {},
                Err(e) => {
                    proof {
                        faults_stay(start, all, now, n);
                    }
                    return Err(e);
                },
            }
        }
        proof {
            assert(all.take(n) =~= all);
        }
        Ok(())
    }

    /// Sends a panel, or replaces the delivered one of `source`.
    pub fn send_panel(&mut self, source: Option<String>, owner: Owner, panel: Panel, commands: Vec<(String, String)>, now: u64) -> (r: bool)
        requires
            old(self).wf(),
            clock(now),
        ensures
            final(self).at(panel_sent(begin(old(self)@), crate::text::opt(source), owner@, panel@, pairs(commands@), now)),
            r == old(self)@.can_spawn(false),
    {
        if !self.can_spawn(false) {
            return false;
        }
        let deadline: u64 = now + limits::INTERACTION_TIMEOUT;
        self.spawn(Job::SendPanel { source, owner, panel, commands, deadline });
        true
    }

    /// Queue one interaction reply on the reserved control capacity. A full
    /// reserve means replies could be lost silently; the run must stop instead.
    pub fn spawn_reply(&mut self, pending: Pending, allow: bool) -> (r: Result<(), RuntimeError>)
        requires
            old(self).wf(),
        ensures
            final(self).at(replied(begin(old(self)@), pending@, allow)),
            fault_of(r) == replied(begin(old(self)@), pending@, allow).fault,
    {
        if self.jobs.len() >= limits::BACKGROUND_JOBS {
            return Err(RuntimeError::Capacity("控制回传容量耗尽，停止运行"));
        }
        self.spawn(Job::Reply { pending, allow });
        Ok(())
    }

    /// Interrupt a turn on the reserved control capacity.
    pub fn spawn_interrupt(&mut self, turn: TurnRef, refusal: &'static str) -> (r: Result<(), RuntimeError>)
        requires
            old(self).wf(),
        ensures
            final(self).at(interrupted(begin(old(self)@), turn, refusal@)),
            fault_of(r) == interrupted(begin(old(self)@), turn, refusal@).fault,
    {
        if self.jobs.len() >= limits::BACKGROUND_JOBS {
            return Err(RuntimeError::Capacity(refusal));
        }
        self.spawn(Job::Interrupt { turn });
        Ok(())
    }
}

/// A command that only an unchanged task list may still run.
pub open spec fn bound_to_snapshot(command: Seq<char>) -> bool {
    command == "/stop"@ || begins_with(command, "/plan-action "@)
}

/// The action of a button of `owner`'s panel, before its message is known.
pub open spec fn panel_action(command: Seq<char>, owner: OwnerText, deadline: u64) -> ActionText {
    ActionText {
        generation: owner.generation,
        user: owner.user,
        chat: owner.chat,
        directory: owner.directory,
        source: Seq::empty(),
        deadline,
        command,
        stop_snapshot: if bound_to_snapshot(command) {
            Some(owner.stop_snapshot)
        } else {
            None
        },
    }
}

/// The actions behind a panel's buttons.
pub fn panel_entries(commands: Vec<(String, String)>, owner: &Owner, deadline: u64) -> (r: Vec<(String, Action)>)
    ensures
        crate::cards::entries_text(r@) == pairs(commands@).map_values(
            |c: (Seq<char>, Seq<char>)| (c.0, panel_action(c.1, owner@, deadline)),
        ),
{
    let ghost all = pairs(commands@);
    let ghost f = |c: (Seq<char>, Seq<char>)| (c.0, panel_action(c.1, owner@, deadline));
    let mut out: Vec<(String, Action)> = Vec::new();
    let mut i: usize = 0;
    while i < commands.len()
        invariant
            i <= commands@.len(),
            all == pairs(commands@),
            f == (|c: (Seq<char>, Seq<char>)| (c.0, panel_action(c.1, owner@, deadline))),
            out@.len() == i,
            forall|j: int| 0 <= j < i ==> ((#[trigger] out@[j]).0@, out@[j].1@) == f(all[j]),
        decreases commands.len() - i,
    {
        let command = commands[i].1.clone();
        let bound = same(command.as_str(), "/stop") || starts_with(command.as_str(), "/plan-action ");
        let stop_snapshot: Option<(u64, Option<String>)> = if bound {
            Some((owner.stop_snapshot.0, owner.stop_snapshot.1.clone()))
        } else {
            None
        };
        let source = String::new();
        proof {
            assert(source@ =~= Seq::empty());
        }
        out.push(
            (
                commands[i].0.clone(),
                Action {
                    generation: owner.generation,
                    user: owner.user.clone(),
                    chat: owner.chat.clone(),
                    directory: owner.directory.clone(),
                    source,
                    deadline,
                    command,
                    stop_snapshot,
                },
            ),
        );
        i = i + 1;
    }
    proof {
        assert(crate::cards::entries_text(out@) =~= all.map_values(f));
    }
    out
}

/// Lines joined by line feeds.
pub open spec fn lines(v: Seq<Seq<char>>) -> Seq<char>
    decreases v.len(),
{
    if v.len() == 0 {
        Seq::empty()
    } else if v.len() == 1 {
        v[0]
    } else {
        lines(v.drop_last()) + "\n"@ + v.last()
    }
}

/// The commands of a card, without their tokens.
pub open spec fn command_list(commands: Seq<(Seq<char>, Seq<char>)>) -> Seq<Seq<char>> {
    commands.map_values(|c: (Seq<char>, Seq<char>)| c.1)
}

pub open spec fn offers_plan(commands: Seq<(Seq<char>, Seq<char>)>) -> bool {
    exists|i: int| 0 <= i < commands.len() && begins_with((#[trigger] commands[i]).1, "/plan-action "@)
}

/// What is sent as text when a panel cannot be delivered. A plan's choices are
/// never offered as text.
pub open spec fn fallback_text(panel: PanelView, commands: Seq<(Seq<char>, Seq<char>)>) -> Seq<char> {
    if offers_plan(commands) {
        panel.title + "\n"@ + panel.body + "\n\n计划确认卡片发送失败，未开放实施；请继续讨论并重新生成计划。"@
    } else {
        panel.title + "\n"@ + panel.body + "\n"@ + lines(command_list(commands))
    }
}

pub fn panel_fallback(panel: &Panel, commands: &Vec<(String, String)>) -> (r: String)
    ensures
        r@ == fallback_text(panel@, pairs(commands@)),
{
    let ghost all = pairs(commands@);
    let mut t = panel.title.clone();
    t.append("\n");
    t.append(panel.body.as_str());
    let mut i: usize = 0;
    while i < commands.len()
        invariant
            i <= commands@.len(),
            all == pairs(commands@),
            t@ == panel@.title + "\n"@ + panel@.body,
            forall|j: int| 0 <= j < i ==> !begins_with((#[trigger] all[j]).1, "/plan-action "@),
        decreases commands.len() - i,
    {
        if starts_with(commands[i].1.as_str(), "/plan-action ") {
            proof {
                assert(begins_with(all[i as int].1, "/plan-action "@));
            }
            t.append("\n\n计划确认卡片发送失败，未开放实施；请继续讨论并重新生成计划。");
            return t;
        }
        i = i + 1;
    }
    t.append("\n");
    let ghost head = t@;
    let ghost list = command_list(all);
    let mut k: usize = 0;
    proof {
        assert(list.take(0) =~= Seq::empty());
        assert(head + lines(list.take(0)) =~= head);
    }
    while k < commands.len()
        invariant
            k <= commands@.len(),
            all == pairs(commands@),
            list == command_list(all),
            t@ == head + lines(list.take(k as int)),
        decreases commands.len() - k,
    {
        proof {
            assert(list.take(k + 1).drop_last() =~= list.take(k as int));
            assert(list.take(k + 1).last() == list[k as int]);
        }
        if k > 0 {
            t.append("\n");
        }
        t.append(commands[k].1.as_str());
        proof {
            assert(t@ =~= head + lines(list.take(k + 1)));
        }
        k = k + 1;
    }
    proof {
        assert(list.take(k as int) =~= list);
    }
    t
}

} // verus!
