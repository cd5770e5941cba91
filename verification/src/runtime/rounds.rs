//! What a round of maintenance gets done: everything that is due and fits.
use vstd::prelude::*;
use vstd::string::*;
use crate::cards::{first_outdated, says_what_it_runs};
use crate::interactions::{stale, unsent, PendingText};
use crate::model::TaskText;
use crate::plans::OfferText;
use crate::runtime::decisions::turn_runs;
use crate::runtime::executions::{ended_tasks_deliver_their_files, waiting_tasks_are_prepared};
use crate::runtime::inquiries::{noted_threads_are_synced, plan_cards_ask_their_user, waiting_requests_get_their_card};
use crate::runtime::maintain::{
    after_maintenance, approvals_delivered, archive_synced, card_dispatched, cards_dispatched, delivered, files_delivered,
    next_started,
    of_turn, offer_delivered, panels_refreshed, stale_expired, tidied,
};
use crate::runtime::state::{alive, begin, FileDeliveryText, JobText, State};
use crate::text::text_less_is_strict;
use crate::textmap::{is_order, order_exists, ordered};
use crate::view::PanelView;

verus! {

/// The jobs of `s` are still there, in front of those that came after.
pub open spec fn jobs_grow(s: State, t: State) -> bool {
    s.spawned.len() <= t.spawned.len() && t.spawned.take(s.spawned.len() as int) == s.spawned
}

proof fn jobs_grow_on(a: State, b: State, c: State)
    requires
        jobs_grow(a, b),
        jobs_grow(b, c),
    ensures
        jobs_grow(a, c),
{
    assert(c.spawned.take(a.spawned.len() as int) =~= c.spawned.take(b.spawned.len() as int).take(a.spawned.len() as int));
}

proof fn later_steps_keep_jobs(s: State, now: u64)
    ensures
        jobs_grow(s, panels_refreshed(s, now)),
        jobs_grow(s, files_delivered(s)),
        jobs_grow(s, offer_delivered(s, now)),
        jobs_grow(s, next_started(s, now)),
{
    assert(panels_refreshed(s, now).spawned.take(s.spawned.len() as int) =~= s.spawned);
    assert(files_delivered(s).spawned.take(s.spawned.len() as int) =~= s.spawned);
    assert(offer_delivered(s, now).spawned.take(s.spawned.len() as int) =~= s.spawned);
    assert(next_started(s, now).spawned.take(s.spawned.len() as int) =~= s.spawned);
}

proof fn dispatching_keeps_jobs(s: State, tokens: Seq<Seq<char>>)
    ensures
        jobs_grow(s, cards_dispatched(s, tokens)),
    decreases tokens.len(),
{
    assert(s.spawned.take(s.spawned.len() as int) =~= s.spawned);
    if tokens.len() > 0 && s.can_spawn(false) {
        if !s.interactions.contains_key(tokens[0]) {
            dispatching_keeps_jobs(s, tokens.drop_first());
        } else if s.next_panel != u64::MAX {
            let t = card_dispatched(s, tokens[0]);
            dispatching_keeps_jobs(t, tokens.drop_first());
            assert(t.spawned.take(s.spawned.len() as int) =~= s.spawned);
            jobs_grow_on(s, t, cards_dispatched(s, tokens));
        }
    }
}

proof fn deliveries_keep_jobs(s: State, now: u64)
    ensures
        jobs_grow(approvals_delivered(s), delivered(s, now)),
        jobs_grow(s, delivered(s, now)),
{
    let a = approvals_delivered(s);
    let b = panels_refreshed(a, now);
    let c = files_delivered(b);
    let d = offer_delivered(c, now);
    dispatching_keeps_jobs(s, unsent(s.interactions, |p: PendingText| of_turn(s.active, p)));
    later_steps_keep_jobs(a, now);
    later_steps_keep_jobs(b, now);
    later_steps_keep_jobs(c, now);
    later_steps_keep_jobs(d, now);
    jobs_grow_on(a, b, c);
    jobs_grow_on(a, c, d);
    jobs_grow_on(a, d, delivered(s, now));
    jobs_grow_on(s, a, delivered(s, now));
}

/// No request is due, and each is of the turn that runs.
pub open spec fn requests_in_time(s: State, now: u64) -> bool {
    &&& s.interactions.dom().finite()
    &&& forall|k: Seq<char>| #[trigger] s.interactions.contains_key(k) ==> now < s.interactions[k].deadline && turn_runs(
        s,
        s.interactions[k],
    )
}

proof fn nothing_is_stale(s: State, now: u64)
    requires
        requests_in_time(s, now),
    ensures
        stale_expired(s, now) == begin(s),
{
    let live = |p: PendingText| alive(s.active, p);
    let m = s.interactions;
    let pred = |k: Seq<char>| now >= m[k].deadline || !live(m[k]);
    order_exists(m.dom());
    let keys = ordered(m.dom());
    let due = keys.filter(pred);
    if due.len() > 0 {
        keys.lemma_filter_pred(pred, 0);
        assert(due.contains(due[0]));
        keys.lemma_filter_contains_rev(pred, due[0]);
        assert(m.dom().contains(due[0]));
        assert(m.contains_key(due[0]));
    }
    assert(stale(m, now, live).len() == 0);
}

proof fn round_of(s: State, now: u64)
    requires
        requests_in_time(s, now),
        s.archived.len() == 0,
    ensures
        after_maintenance(s, now).fault is None,
        after_maintenance(s, now).state == delivered(tidied(s, now), now),
{
    assert(archive_synced(s) == s);
    nothing_is_stale(tidied(s, now), now);
}

/// Nothing waits for a user, and no card is to be brought up to date.
pub open spec fn quiet(s: State) -> bool {
    &&& s.interactions =~= Map::<Seq<char>, PendingText>::empty()
    &&& s.refreshes.len() == 0
    &&& s.views =~= Map::<Seq<char>, PanelView>::empty()
    &&& s.archived.len() == 0
}

proof fn quiet_round_of(s: State, now: u64)
    requires
        quiet(s),
    ensures
        after_maintenance(s, now).fault is None,
        after_maintenance(s, now).state == next_started(offer_delivered(files_delivered(tidied(s, now)), now), now),
{
    assert(s.interactions.dom() =~= Set::empty());
    round_of(s, now);
    let t = tidied(s, now);
    order_exists(t.interactions.dom());
    let keys = ordered(t.interactions.dom());
    if keys.len() > 0 {
        assert(keys.contains(keys[0]));
    }
    reveal(Seq::filter);
    assert(unsent(t.interactions, |p: PendingText| of_turn(t.active, p)).len() == 0);
    assert(approvals_delivered(t) == t);
    let shown = ordered(t.views.dom());
    assert(t.views.dom() =~= Set::empty());
    order_exists(t.views.dom());
    if shown.len() > 0 {
        assert(shown.contains(shown[0]));
    }
    assert(first_outdated(t.views, t.actions, now, t.card_snapshot()) is None);
    assert(panels_refreshed(t, now) == t);
}

/// The first task that waits is started by the next round, with the attachments
/// that came with it.
pub proof fn rounds_start_the_next_task(s: State, now: u64)
    requires
        quiet(s),
        s.active is None,
        s.files is Idle,
        s.admissions.active is None,
        !s.admissions.mutating,
        s.admissions.queue.len() > 0,
        s.running + s.spawned.len() + 16 < 128,
    ensures
        ({
            let task = s.admissions.queue[0];
            let r = after_maintenance(s, now);
            &&& r.fault is None
            &&& r.state.spawned == s.spawned.push(
                JobText::Prepare {
                    task,
                    attachments: if s.resources.contains_key(task.id) {
                        s.resources[task.id]
                    } else {
                        Seq::empty()
                    },
                },
            )
            &&& r.state.active matches Some(a) && a.spec == task && a.kind is Task
            &&& r.state.admissions.active == Some(task)
            &&& r.state.admissions.queue == s.admissions.queue.drop_first()
        }),
{
    quiet_round_of(s, now);
    let t = tidied(s, now);
    assert(s.admissions.knows(s.admissions.queue[0].id)) by {
        assert(s.admissions.queue[0].id == s.admissions.queue[0].id);
    }
    assert(offer_delivered(files_delivered(t), now) == t);
    waiting_tasks_are_prepared(t, now);
}

/// The files of a task that ended are collected by the next round; no other task
/// starts before that.
pub proof fn rounds_deliver_files_first(s: State, task: TaskText, now: u64)
    requires
        quiet(s),
        s.active is None,
        s.files == FileDeliveryText::Holding(task),
        s.running + s.spawned.len() + 16 < 128,
    ensures
        after_maintenance(s, now).fault is None,
        after_maintenance(s, now).state.spawned == s.spawned.push(JobText::FinishFiles { task }),
        after_maintenance(s, now).state.active is None,
{
    quiet_round_of(s, now);
    ended_tasks_deliver_their_files(tidied(s, now), task);
}

/// A plan that is to be decided is offered by the next round in which nothing runs
/// or waits, with its three choices.
pub proof fn rounds_offer_the_plan(s: State, o: OfferText, now: u64)
    requires
        quiet(s),
        s.active is None,
        s.files is Idle,
        s.admissions.queue.len() == 0,
        s.admissions.pending.len() == 0,
        s.plan_offer == Some(o),
        !o.sent,
        now < o.deadline,
        s.running + s.spawned.len() + 16 < 128,
        s.next_panel < u64::MAX,
        now + 600_000_000_000 <= u64::MAX,
    ensures
        ({
            let r = after_maintenance(s, now);
            &&& r.fault is None
            &&& r.state.spawned.len() == s.spawned.len() + 1
            &&& r.state.spawned.last() matches JobText::SendPanel { owner, panel, commands, .. } && owner.user
                == o.task.session.user && owner.chat == o.task.chat && says_what_it_runs(
                panel,
                commands,
                seq![
                    ("确认并实施"@, "/plan-action "@ + o.token + " implement"@),
                    ("清空上下文后实施"@, "/plan-action "@ + o.token + " fresh"@),
                    ("继续讨论计划"@, "/plan-action "@ + o.token + " stay"@),
                ],
            )
            &&& r.state.plan_offer matches Some(p) && p.sent && p.text == o.text
        }),
{
    quiet_round_of(s, now);
    let t = tidied(s, now);
    plan_cards_ask_their_user(t, o, now);
}

/// A request that waits for its user without a card gets one in the next round,
/// sent to its owner's chat.
pub proof fn rounds_send_the_cards(s: State, token: Seq<char>, now: u64)
    requires
        requests_in_time(s, now),
        s.archived.len() == 0,
        s.interactions.contains_key(token),
        !s.interactions[token].card_dispatched,
        of_turn(s.active, s.interactions[token]),
        s.running + s.spawned.len() + s.interactions.dom().len() + 16 <= 128,
        s.next_panel + s.interactions.dom().len() < u64::MAX,
    ensures
        ({
            let r = after_maintenance(s, now);
            &&& r.fault is None
            &&& exists|k: int|
                s.spawned.len() <= k < r.state.spawned.len() && (#[trigger] r.state.spawned[k]) is SendCard
                    && r.state.spawned[k]->SendCard_token == token && r.state.spawned[k]->SendCard_chat
                    == s.interactions[token].owner.chat
        }),
{
    round_of(s, now);
    let t = tidied(s, now);
    let m = t.interactions;
    let valid = |p: PendingText| of_turn(t.active, p);
    let pred = |k: Seq<char>| !m[k].card_dispatched && valid(m[k]);
    order_exists(m.dom());
    let keys = ordered(m.dom());
    let tokens = unsent(m, valid);
    assert(keys.contains(token));
    let at = choose|i: int| 0 <= i < keys.len() && keys[i] == token;
    keys.lemma_filter_contains(pred, at);
    assert(tokens.contains(token));
    let i = choose|i: int| 0 <= i < tokens.len() && tokens[i] == token;
    assert forall|j: int| 0 <= j < tokens.len() implies m.contains_key(#[trigger] tokens[j]) by {
        assert(tokens.contains(tokens[j]));
        keys.lemma_filter_contains_rev(pred, tokens[j]);
        assert(m.dom().contains(tokens[j]));
    }
    keys.lemma_filter_len(pred);
    order_has_its_length(keys, m.dom());
    waiting_requests_get_their_card(t, tokens, i);
    deliveries_keep_jobs(t, now);
    let a = approvals_delivered(t);
    let r = after_maintenance(s, now).state;
    let k = choose|k: int|
        t.spawned.len() <= k < a.spawned.len() && (#[trigger] a.spawned[k]) is SendCard && a.spawned[k]->SendCard_token == token
            && a.spawned[k]->SendCard_chat == m[token].owner.chat;
    assert(r.spawned.take(a.spawned.len() as int)[k] == r.spawned[k]);
    assert(r.spawned[k] is SendCard);
}

proof fn order_has_its_length(keys: Seq<Seq<char>>, dom: Set<Seq<char>>)
    requires
        is_order(keys, dom),
        dom.finite(),
    ensures
        keys.len() == dom.len(),
{
    assert(keys.to_set() =~= dom) by {
        assert forall|k: Seq<char>| keys.to_set().contains(k) <==> dom.contains(k) by {
            assert(keys.to_set().contains(k) <==> keys.contains(k));
        }
    }
    assert(keys.no_duplicates()) by {
        assert forall|i: int, j: int| 0 <= i < keys.len() && 0 <= j < keys.len() && i != j implies keys[i] != keys[j] by {
            if i < j {
                text_less_is_strict(keys[i], keys[j]);
            } else {
                text_less_is_strict(keys[j], keys[i]);
            }
        }
    }
    keys.unique_seq_to_set();
}

/// An archived thread that is noted is synced by the next round in which no
/// session is in use.
pub proof fn rounds_sync_archived_threads(s: State, thread: Seq<char>, now: u64)
    requires
        s.interactions =~= Map::<Seq<char>, PendingText>::empty(),
        s.archived == Set::<Seq<char>>::empty().insert(thread),
        !s.admissions.mutating,
        s.admissions.active is None,
        s.running + s.spawned.len() + 16 < 128,
    ensures
        ({
            let r = after_maintenance(s, now);
            &&& r.fault is None
            &&& s.spawned.len() < r.state.spawned.len()
            &&& r.state.spawned[s.spawned.len() as int] == (JobText::SyncArchive { thread })
        }),
{
    noted_threads_are_synced(s, thread);
    let a = archive_synced(s);
    let t = tidied(a, now);
    assert(t.interactions.dom() =~= Set::empty());
    nothing_is_stale(t, now);
    deliveries_keep_jobs(t, now);
    let r = after_maintenance(s, now).state;
    assert(r.spawned.take(t.spawned.len() as int)[s.spawned.len() as int] == t.spawned[s.spawned.len() as int]);
}

} // verus!
