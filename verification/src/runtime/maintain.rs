//! Bookkeeping between events: archive sync, expiries, approval card delivery,
//! panel refreshes, file delivery, plan offers and the start of the next task.
use vstd::prelude::*;
use vstd::string::*;
use crate::approval_card::{approval_body, approval_entries, approval_title, decision_card};
use crate::cards::{
    answers, card_commands, command_panel, first_outdated, live_buttons, noted, plan_kept, question_body,
    question_entries, ungrouped, updated_panel, updated_views, ActionText, CardToken, Owner, OwnerText,
};
use crate::files::Attachment;
use crate::interactions::{decides, stale, token_texts, unsent, Pending, PendingText};
use crate::lists::{keep, selection_length, selection_maps};
use crate::model::TaskText;
use crate::plans::{plan_body, plan_entries, OfferText};
use crate::ports::same_turn;
use crate::requests::{KindText, RequestKind};
use crate::runtime::flow::{clock, panel_sent, replied};
use crate::runtime::state::{
    alive, begin, fault_of, is_alive, opt_active, takes, Active, ActiveKind, ActiveKindText, ActiveText, Fault,
    FileDelivery, FileDeliveryText, ItemChanges, ItemChangesText, Job, JobText, Runtime, RuntimeError, State, Step,
};
use crate::runtime::tokens::{self, panel_prefix_text};
use crate::scheduler::Admissions;
use crate::text::same;
use crate::textmap::{kept, ordered};
use crate::view::PanelView;

verus! {

/// An archive notice may be synchronized: neither a task nor a session change
/// is under way, and a job fits.
pub open spec fn can_sync(s: State) -> bool {
    s.archived.len() > 0 && s.can_spawn(false) && !s.admissions.mutating && s.admissions.active is None
}

/// The first archived thread is forgotten locally. The session-mutation gate
/// closes for that, and the offered plan is void.
pub open spec fn archive_synced(s: State) -> State {
    if can_sync(s) {
        let thread = ordered(s.archived)[0];
        begin(
            State {
                admissions: Admissions { mutating: true, ..s.admissions },
                plan_offer: None,
                archived: s.archived.remove(thread),
                ..s
            },
        ).spawn(JobText::SyncArchive { thread }).state
    } else {
        s
    }
}

/// The offered plan, unless it has expired.
pub open spec fn current_offer(offer: Option<OfferText>, now: u64) -> Option<OfferText> {
    match offer {
        Some(o) => if now >= o.deadline {
            None
        } else {
            offer
        },
        None => None,
    }
}

pub open spec fn offer_token(offer: Option<OfferText>) -> Option<Seq<char>> {
    match offer {
        Some(o) => Some(o.token),
        None => None,
    }
}

/// What has lost its owner is gone: an expired plan and its buttons, the
/// attachments of forgotten tasks, the file changes of turns that ended.
pub open spec fn tidied(s: State, now: u64) -> State {
    let offer = current_offer(s.plan_offer, now);
    State {
        plan_offer: offer,
        actions: kept(s.actions, |k: Seq<char>, a: ActionText| plan_kept(a.command, offer_token(offer))),
        resources: kept(s.resources, |k: Seq<char>, v: Seq<Attachment>| s.admissions.knows(k)),
        file_changes: s.file_changes.filter(|c: ItemChangesText| takes(s.active, c.turn)),
        ..s
    }
}

/// A request that is due or whose turn ended is answered: an approval is
/// denied, an unanswered question stops the run.
pub open spec fn expired_one(s: Step, token: Seq<char>) -> Step {
    if s.fault is Some || !s.state.interactions.contains_key(token) {
        s
    } else {
        let p = s.state.interactions[token];
        let t = State {
            interactions: s.state.interactions.remove(token),
            actions: kept(s.state.actions, |k: Seq<char>, a: ActionText| !answers(a.command, token)),
            ..s.state
        };
        if p.kind is Questions {
            begin(t).tell(
                p.owner.chat,
                "问答未完成且已超时或任务已结束/停止，正在停止桥接；未提交空答案，不会自动重跑。"@,
            ).fail(Fault::Interaction("问答未完成，停止本次运行"@))
        } else {
            let note = "审批已超时或任务已结束/停止，正在回传拒绝。"@;
            let u = match p.source {
                Some(source) => State { views: noted(t.views, source, note), ..t },
                None => t,
            };
            replied(begin(u).tell(p.owner.chat, note), p, false)
        }
    }
}

/// The requests of all tokens, in order; the first failure ends it.
pub open spec fn expired_all(s: Step, tokens: Seq<Seq<char>>) -> Step
    decreases tokens.len(),
{
    if tokens.len() == 0 {
        s
    } else {
        expired_all(expired_one(s, tokens[0]), tokens.drop_first())
    }
}

pub open spec fn stale_expired(s: State, now: u64) -> Step {
    expired_all(begin(s), stale(s.interactions, now, |p: PendingText| alive(s.active, p)))
}

/// The execution's turn is the one that raised the request.
pub open spec fn of_turn(active: Option<ActiveText>, p: PendingText) -> bool {
    active matches Some(a) && (a.turn matches Some(t) && same_turn(t, p.turn))
}

/// The card that asks a request's user.
pub open spec fn card_of(p: PendingText, token: Seq<char>, prefix: Seq<char>) -> PanelView {
    match p.kind {
        KindText::Approval(r) => decision_card(
            command_panel(approval_title(r), approval_body(r), approval_entries(r, token), prefix),
        ),
        KindText::Questions { questions: q, .. } => ungrouped(
            command_panel(
                "Codex 问答"@,
                question_body(q[p.question as int], p.question, q.len()),
                question_entries(q[p.question as int], p.question, token),
                prefix,
            ),
        ),
    }
}

pub open spec fn commands_of(p: PendingText, token: Seq<char>, prefix: Seq<char>) -> Seq<(Seq<char>, Seq<char>)> {
    match p.kind {
        KindText::Approval(r) => card_commands(approval_entries(r, token), prefix),
        KindText::Questions { questions: q, .. } => card_commands(question_entries(q[p.question as int], p.question, token), prefix),
    }
}

/// The card of a request goes out.
pub open spec fn card_dispatched(s: State, token: Seq<char>) -> State {
    let p = s.interactions[token];
    let prefix = panel_prefix_text(s.epoch, (s.next_panel + 1) as u64);
    begin(
        State {
            interactions: s.interactions.insert(token, PendingText { card_dispatched: true, ..p }),
            next_panel: (s.next_panel + 1) as u64,
            ..s
        },
    ).spawn(
        JobText::SendCard {
            token,
            chat: p.owner.chat,
            panel: card_of(p, token, prefix),
            commands: commands_of(p, token, prefix),
        },
    ).state
}

/// The cards of these requests go out while jobs fit; the rest wait for a
/// later round.
pub open spec fn cards_dispatched(s: State, tokens: Seq<Seq<char>>) -> State
    decreases tokens.len(),
{
    if tokens.len() == 0 || !s.can_spawn(false) {
        s
    } else if !s.interactions.contains_key(tokens[0]) {
        cards_dispatched(s, tokens.drop_first())
    } else if s.next_panel == u64::MAX {
        State {
            interactions: s.interactions.insert(
                tokens[0],
                PendingText { card_dispatched: true, ..s.interactions[tokens[0]] },
            ),
            ..s
        }
    } else {
        cards_dispatched(card_dispatched(s, tokens[0]), tokens.drop_first())
    }
}

pub open spec fn approvals_delivered(s: State) -> State {
    cards_dispatched(s, unsent(s.interactions, |p: PendingText| of_turn(s.active, p)))
}

/// One delivered card is brought up to date at a time: a list that was asked
/// for again first, else a card that shows a dead button.
pub open spec fn panels_refreshed(s: State, now: u64) -> State {
    if s.updating_panel || !s.can_spawn(false) {
        s
    } else if s.refreshes.len() > 0 {
        let r = s.refreshes[0];
        panel_sent(
            begin(State { refreshes: s.refreshes.drop_first(), updating_panel: true, ..s }),
            Some(r.source),
            r.owner,
            r.panel,
            r.commands,
            now,
        ).state
    } else {
        match first_outdated(s.views, s.actions, now, s.card_snapshot()) {
            None => s,
            Some(source) => {
                let live = live_buttons(s.views[source], source, s.actions, now, s.card_snapshot());
                begin(State { updating_panel: true, views: updated_views(s.views, source, live), ..s }).spawn(
                    JobText::UpdatePanel { source, panel: updated_panel(s.views[source], live) },
                ).state
            },
        }
    }
}

/// The files of a finished task are collected.
pub open spec fn files_delivered(s: State) -> State {
    if s.active is None && s.can_spawn(false) {
        match s.files {
            FileDeliveryText::Holding(task) => begin(State { files: FileDeliveryText::Delivering, ..s }).spawn(
                JobText::FinishFiles { task },
            ).state,
            _ => s,
        }
    } else {
        s
    }
}

/// A plan may be offered: nothing runs, waits or is being delivered.
pub open spec fn can_offer(s: State) -> bool {
    &&& s.active is None
    &&& s.files is Idle
    &&& s.admissions.queue.len() == 0
    &&& s.admissions.pending.len() == 0
    &&& s.plan_offer matches Some(o) && !o.sent
    &&& s.can_spawn(false)
}

pub open spec fn offer_owner(s: State, o: OfferText) -> OwnerText {
    OwnerText {
        user: o.task.session.user,
        chat: o.task.chat,
        directory: o.task.session.workspace,
        generation: s.generation(o.task.session.user),
        stop_snapshot: (s.next_task, None),
    }
}

/// The plan's card goes out, once.
pub open spec fn offer_delivered(s: State, now: u64) -> State {
    if !can_offer(s) {
        s
    } else {
        let o = OfferText { sent: true, ..s.plan_offer->Some_0 };
        if s.next_panel == u64::MAX {
            State { plan_offer: Some(o), ..s }
        } else {
            let prefix = panel_prefix_text(s.epoch, (s.next_panel + 1) as u64);
            panel_sent(
                begin(State { plan_offer: Some(o), next_panel: (s.next_panel + 1) as u64, ..s }),
                None,
                offer_owner(s, o),
                command_panel("Plan 已完成，请确认下一步"@, plan_body(o.text), plan_entries(o.token), prefix),
                card_commands(plan_entries(o.token), prefix),
                now,
            ).state
        }
    }
}

/// The next task may start: the one before has ended and its files are delivered.
pub open spec fn can_start(s: State) -> bool {
    &&& s.active is None
    &&& s.files is Idle
    &&& s.can_spawn(false)
    &&& s.admissions.active is None
    &&& !s.admissions.mutating
    &&& s.admissions.queue.len() > 0
}

pub open spec fn new_task(spec: TaskText, now: u64) -> ActiveText {
    ActiveText {
        kind: ActiveKindText::Task,
        spec,
        gate: None,
        turn: None,
        stopping: false,
        output: Seq::empty(),
        plan: None,
        truncated: false,
        started: now,
    }
}

pub open spec fn staged(s: State, task: Seq<char>) -> Seq<Attachment> {
    if s.resources.contains_key(task) {
        s.resources[task]
    } else {
        Seq::empty()
    }
}

/// The first queued task starts with its attachments. The user is told if the
/// outbox has room.
pub open spec fn next_started(s: State, now: u64) -> State {
    if !can_start(s) {
        s
    } else {
        let spec = s.admissions.queue[0];
        let t = State {
            admissions: Admissions {
                active: Some(spec),
                queue: s.admissions.queue.drop_first(),
                ..s.admissions
            },
            plan_offer: None,
            files: FileDeliveryText::Holding(spec),
            resources: s.resources.remove(spec.id),
            ..s
        };
        let u = begin(t).tell(spec.chat, "已开始执行；可发送 /status 或 /stop。"@).state;
        begin(State { active: Some(new_task(spec, now)), ..u }).spawn(
            JobText::Prepare { task: spec, attachments: staged(s, spec.id) },
        ).state
    }
}

/// What follows the expiry of stale requests.
pub open spec fn delivered(s: State, now: u64) -> State {
    next_started(offer_delivered(files_delivered(panels_refreshed(approvals_delivered(s), now)), now), now)
}

pub open spec fn after_maintenance(s: State, now: u64) -> Step {
    let t = stale_expired(tidied(archive_synced(s), now), now);
    if t.fault is Some {
        t
    } else {
        begin(delivered(t.state, now))
    }
}

/// A failure ends the walk over the rest.
proof fn expiry_stops(s: Step, tokens: Seq<Seq<char>>)
    requires
        s.fault is Some,
    ensures
        expired_all(s, tokens) == s,
    decreases tokens.len(),
{
    if tokens.len() > 0 {
        expiry_stops(expired_one(s, tokens[0]), tokens.drop_first());
    }
}

impl Runtime {
    fn sync_archive(&mut self)
        requires
            old(self).wf(),
        ensures
            final(self)@ == archive_synced(old(self)@),
            final(self).wf(),
    {
        proof {
            self.session_book.archived_threads.keys_are_ordered();
        }
        if self.session_book.archived_threads.len() > 0 && self.can_spawn(false) && self.tasks.scheduler.begin_invalidation() {
            self.cards.plan_offer = None;
            match self.session_book.archived_threads.pop_first() {
                Some((thread, _)) => {
                    proof {
                        assert(self@.archived =~= old(self)@.archived.remove(thread@));
                    }
                    self.spawn(Job::SyncArchive { thread });
                },
                None => {},
            }
        }
    }

    fn tidy(&mut self, now: u64)
        requires
            old(self).wf(),
        ensures
            final(self)@ == tidied(old(self)@, now),
            final(self).wf(),
    {
        let ghost s0 = self@;
        let expired = match &self.cards.plan_offer {
            Some(offer) => now >= offer.deadline,
            None => false,
        };
        if expired {
            self.cards.plan_offer = None;
        }
        proof {
            assert(self@.plan_offer == current_offer(s0.plan_offer, now));
        }
        let token: Option<&str> = match &self.cards.plan_offer {
            Some(offer) => Some(offer.token.as_str()),
            None => None,
        };
        self.cards.actions.retain_plan(token);
        proof {
            assert(self@.actions == kept(s0.actions, |k: Seq<char>, a: ActionText| plan_kept(a.command, offer_token(self@.plan_offer))));
        }
        let scheduler = &self.tasks.scheduler;
        let known = |k: &String, v: &Vec<Attachment>| -> (r: bool)
            ensures
                r == scheduler@.knows(k@),
        { scheduler.has_task(k.as_str()) };
        self.tasks.resources.retain(known, Ghost(|k: Seq<char>, v: Seq<Attachment>| s0.admissions.knows(k)));
        let ghost changes = self.approvals.file_changes@;
        let ghost p = |c: ItemChanges| takes(s0.active, c.turn);
        let active = &self.tasks.active;
        let live = |c: &ItemChanges| -> (r: bool)
            ensures
                r == takes(opt_active(*active), c.turn),
        {
            match active {
                Some(a) => a.accepts(&c.turn),
                None => false,
            }
        };
        keep(&mut self.approvals.file_changes, live, Ghost(p));
        proof {
            selection_maps(changes, p, |c: ItemChanges| c@, |c: ItemChangesText| takes(s0.active, c.turn));
            selection_length(changes, p);
        }
    }

    fn stale_now(&self, now: u64) -> (r: Vec<CardToken>)
        requires
            self.wf(),
        ensures
            token_texts(r@) == stale(self@.interactions, now, |p: PendingText| alive(self@.active, p)),
    {
        let ghost q = |p: PendingText| alive(self@.active, p);
        let f = |e: &Pending| -> (r: bool)
            ensures
                r == alive(self@.active, e@),
        { is_alive(&self.tasks.active, e) };
        proof {
            assert(decides(f, q));
        }
        self.approvals.interactions.stale_tokens(now, f)
    }

    fn expire_one(&mut self, token: &CardToken) -> (r: Result<(), RuntimeError>)
        requires
            old(self).wf(),
        ensures
            final(self).at(expired_one(begin(old(self)@), token@)),
            fault_of(r) == expired_one(begin(old(self)@), token@).fault,
    {
        let pending = match self.approvals.interactions.remove(token) {
            Some(pending) => pending,
            None => {
                proof {
                    assert(self@.interactions =~= old(self)@.interactions);
                }
                return Ok(());
            },
        };
        self.cards.actions.invalidate_approval(token.as_str());
        if pending.is_questions() {
            return match self.tell(
                pending.owner.chat.as_str(),
                "问答未完成且已超时或任务已结束/停止，正在停止桥接；未提交空答案，不会自动重跑。",
            ) {
                Ok(()) => Err(RuntimeError::Interaction("问答未完成，停止本次运行")),
                Err(e) => Err(e),
            };
        }
        let message = "审批已超时或任务已结束/停止，正在回传拒绝。";
        match &pending.source {
            Some(source) => {
                self.cards.views.note(source.as_str(), message);
            },
            None => {},
        }
        match self.tell(pending.owner.chat.as_str(), message) {
            Ok(()) => self.spawn_reply(pending, false),
            Err(e) => Err(e),
        }
    }

    fn expire_stale_approvals(&mut self, now: u64) -> (r: Result<(), RuntimeError>)
        requires
            old(self).wf(),
        ensures
            final(self).at(stale_expired(old(self)@, now)),
            fault_of(r) == stale_expired(old(self)@, now).fault,
    {
        let tokens = self.stale_now(now);
        let ghost all = token_texts(tokens@);
        let ghost goal = stale_expired(old(self)@, now);
        let mut i: usize = 0;
        proof {
            assert(all.skip(0) =~= all);
        }
        while i < tokens.len()
            invariant
                i <= tokens@.len(),
                all == token_texts(tokens@),
                self.wf(),
                goal == stale_expired(old(self)@, now),
                expired_all(begin(self@), all.skip(i as int)) == goal,
            decreases tokens.len() - i,
        {
            let ghost before = self@;
            proof {
                assert(all.skip(i as int)[0] == tokens@[i as int]@);
                assert(all.skip(i as int).drop_first() =~= all.skip(i + 1));
            }
            match self.expire_one(&tokens[i]) {
                Ok(()) => {},
                Err(e) => {
                    proof {
                        expiry_stops(expired_one(begin(before), all[i as int]), all.skip(i + 1));
                    }
                    return Err(e);
                },
            }
            i = i + 1;
        }
        proof {
            assert(all.skip(i as int).len() == 0);
        }
        Ok(())
    }

    fn unsent_now(&self) -> (r: Vec<CardToken>)
        requires
            self.wf(),
        ensures
            token_texts(r@) == unsent(self@.interactions, |p: PendingText| of_turn(self@.active, p)),
    {
        let ghost q = |p: PendingText| of_turn(self@.active, p);
        let f = |e: &Pending| -> (r: bool)
            ensures
                r == of_turn(self@.active, e@),
        {
            match &self.tasks.active {
                Some(active) => match &active.turn {
                    Some(turn) => turn.same(&e.request.turn),
                    None => false,
                },
                None => false,
            }
        };
        proof {
            assert(decides(f, q));
        }
        self.approvals.interactions.unsent_tokens(f)
    }

    /// Sends the card of one request; false when no card can be numbered.
    fn dispatch_card(&mut self, token: &CardToken) -> (r: bool)
        requires
            old(self).wf(),
            old(self)@.interactions.contains_key(token@),
            old(self)@.can_spawn(false),
        ensures
            final(self).wf(),
            r == (old(self)@.next_panel < u64::MAX),
            r ==> final(self)@ == card_dispatched(old(self)@, token@),
            !r ==> final(self)@ == (State {
                interactions: old(self)@.interactions.insert(
                    token@,
                    PendingText { card_dispatched: true, ..old(self)@.interactions[token@] },
                ),
                ..old(self)@
            }),
    {
        let ghost s0 = self@;
        match self.approvals.interactions.get_mut(token) {
            Some(pending) => {
                pending.card_dispatched = true;
            },
            None => {},
        }
        if self.cards.next_panel == u64::MAX {
            return false;
        }
        self.cards.next_panel = self.cards.next_panel + 1;
        let prefix = tokens::panel_prefix(self.settings.epoch, self.cards.next_panel);
        match self.approvals.interactions.get(token) {
            Some(pending) => {
                let (panel, commands) = match &pending.request.kind {
                    RequestKind::Approval(request) => crate::cards::approval(request, token.as_str(), prefix.as_str()),
                    RequestKind::Questions { questions, .. } => {
                        let total: usize = questions.len();
                        proof {
                            assert(s0.interactions[token@].asks());
                        }
                        crate::cards::question(
                            &questions[pending.question],
                            pending.question,
                            total,
                            token.as_str(),
                            prefix.as_str(),
                        )
                    },
                };
                let chat = pending.owner.chat.clone();
                self.spawn(Job::SendCard { token: token.as_str().to_owned(), chat, panel, commands });
            },
            None => {},
        }
        true
    }

    fn deliver_approval_cards(&mut self)
        requires
            old(self).wf(),
        ensures
            final(self)@ == approvals_delivered(old(self)@),
            final(self).wf(),
    {
        let tokens = self.unsent_now();
        let ghost all = token_texts(tokens@);
        let ghost goal = approvals_delivered(old(self)@);
        let mut i: usize = 0;
        proof {
            assert(all.skip(0) =~= all);
        }
        while i < tokens.len()
            invariant
                i <= tokens@.len(),
                all == token_texts(tokens@),
                self.wf(),
                goal == approvals_delivered(old(self)@),
                cards_dispatched(self@, all.skip(i as int)) == goal,
            decreases tokens.len() - i,
        {
            proof {
                assert(all.skip(i as int)[0] == tokens@[i as int]@);
                assert(all.skip(i as int).drop_first() =~= all.skip(i + 1));
            }
            if !self.can_spawn(false) {
                return;
            }
            if self.approvals.interactions.contains(&tokens[i]) {
                if !self.dispatch_card(&tokens[i]) {
                    return;
                }
            }
            i = i + 1;
        }
        proof {
            assert(all.skip(i as int).len() == 0);
        }
    }

    fn refresh_panels(&mut self, now: u64)
        requires
            old(self).wf(),
            clock(now),
        ensures
            final(self)@ == panels_refreshed(old(self)@, now),
            final(self).wf(),
    {
        let ghost s0 = self@;
        if self.cards.updating_panel || !self.can_spawn(false) {
            return;
        }
        let ghost queue = self.cards.refreshes@;
        match self.cards.refreshes.pop_front() {
            Some(refresh) => {
                proof {
                    assert(self@.refreshes =~= s0.refreshes.drop_first());
                    assert(s0.refreshes[0] == refresh@);
                }
                self.cards.updating_panel = true;
                self.send_panel(Some(refresh.source), refresh.owner, refresh.panel, refresh.commands, now);
                return;
            },
            None => {},
        }
        let snapshot = self.card_snapshot();
        match self.cards.views.next_update(&self.cards.actions, now, &snapshot) {
            Some((source, panel)) => {
                self.cards.updating_panel = true;
                self.spawn(Job::UpdatePanel { source, panel });
            },
            None => {},
        }
    }

    fn deliver_files(&mut self)
        requires
            old(self).wf(),
        ensures
            final(self)@ == files_delivered(old(self)@),
            final(self).wf(),
    {
        if self.tasks.active.is_some() || !self.can_spawn(false) {
            return;
        }
        let task = match &self.tasks.files {
            FileDelivery::Holding(task) => task.clone(),
            _ => {
                return;
            },
        };
        self.tasks.files = FileDelivery::Delivering;
        self.spawn(Job::FinishFiles { task });
    }

    fn files_idle(&self) -> (r: bool)
        ensures
            r == (self@.files is Idle),
    {
        match &self.tasks.files {
            FileDelivery::Idle => true,
            _ => false,
        }
    }

    fn deliver_plan_offer(&mut self, now: u64)
        requires
            old(self).wf(),
            clock(now),
        ensures
            final(self)@ == offer_delivered(old(self)@, now),
            final(self).wf(),
    {
        let ghost s0 = self@;
        if self.tasks.active.is_some() || !self.files_idle() {
            return;
        }
        if self.tasks.scheduler.queued() > 0 || self.tasks.scheduler.pending_admissions() > 0 {
            return;
        }
        let unsent = match &self.cards.plan_offer {
            Some(offer) => !offer.sent,
            None => false,
        };
        if !unsent || !self.can_spawn(false) {
            return;
        }
        match &mut self.cards.plan_offer {
            Some(offer) => {
                offer.sent = true;
            },
            None => {},
        }
        if self.cards.next_panel == u64::MAX {
            return;
        }
        self.cards.next_panel = self.cards.next_panel + 1;
        let prefix = tokens::panel_prefix(self.settings.epoch, self.cards.next_panel);
        let next_task: u64 = self.tasks.next_task;
        match &self.cards.plan_offer {
            Some(offer) => {
                let (panel, commands) = crate::plans::panel(offer, prefix.as_str());
                let owner = Owner {
                    user: offer.task.session.user.clone(),
                    chat: offer.task.chat.clone(),
                    directory: offer.task.session.workspace.clone(),
                    generation: self.generation(offer.task.session.user.as_str()),
                    stop_snapshot: (next_task, None),
                };
                self.send_panel(None, owner, panel, commands, now);
            },
            None => {},
        }
    }

    fn start_next_task(&mut self, now: u64)
        requires
            old(self).wf(),
        ensures
            final(self)@ == next_started(old(self)@, now),
            final(self).wf(),
    {
        let ghost s0 = self@;
        if self.tasks.active.is_some() || !self.files_idle() || !self.can_spawn(false) {
            return;
        }
        let spec = match self.tasks.scheduler.start_next() {
            Some(spec) => spec.clone(),
            None => {
                return;
            },
        };
        self.cards.plan_offer = None;
        self.tasks.files = FileDelivery::Holding(spec.clone());
        let attachments: Vec<Attachment> = match self.tasks.resources.remove(spec.id.as_str()) {
            Some(v) => v,
            None => Vec::new(),
        };
        proof {
            assert(attachments@ =~= staged(s0, spec@.id));
        }
        let _ = self.tell(spec.chat.as_str(), "已开始执行；可发送 /status 或 /stop。");
        let output = String::new();
        proof {
            assert(output@ =~= Seq::empty());
        }
        self.tasks.active = Some(
            Active {
                kind: ActiveKind::Task,
                spec: spec.clone(),
                gate: None,
                turn: None,
                stopping: false,
                output,
                plan: None,
                truncated: false,
                started: now,
            },
        );
        self.spawn(Job::Prepare { task: spec, attachments });
    }

    /// Bookkeeping that runs between every event. An error stops the run.
    pub fn maintain(&mut self, now: u64) -> (r: Result<(), RuntimeError>)
        requires
            old(self).wf(),
            clock(now),
        ensures
            final(self).at(after_maintenance(old(self)@, now)),
            fault_of(r) == after_maintenance(old(self)@, now).fault,
    {
        self.sync_archive();
        self.tidy(now);
        match self.expire_stale_approvals(now) {
            Ok(()) => {},
            Err(e) => {
                return Err(e);
            },
        }
        self.deliver_approval_cards();
        self.refresh_panels(now);
        self.deliver_files();
        self.deliver_plan_offer(now);
        self.start_next_task(now);
        Ok(())
    }
}

} // verus!
