//! What the runtime's operations leave behind: each event that the run is driven
//! by has the effect that is stated of it, and no other.
use vstd::prelude::*;
use vstd::string::*;
use crate::events::Incoming;
use crate::interactions::in_hand;
use crate::model::Directory;
use crate::plans::OfferText;
use crate::ports::TurnRef;
use crate::requests::{KindText, Question};
use crate::runtime::answers::after_approve;
use crate::runtime::decisions::{
    approvals_are_answered_as_decided, asks_on_card, claim_by, clicked_options_are_the_answer, clicks, idle,
    implements, plan_open, plans_are_decided_as_clicked, taken, turn_runs,
};
use crate::runtime::effects::{after_done, after_shutdown};
use crate::runtime::input::{after_input, after_paired, opt_pairing, Pairing};
use crate::runtime::maintain::after_maintenance;
use crate::runtime::protocol::after_protocol;
use crate::runtime::state::{alive, fault_of, Done, Input, JobText, PlanChoice, Runtime, RuntimeError, Settings};
use crate::runtime::timers::after_tick;
use crate::sessions::SessionStoreError;
use crate::text::{decimal, texts};
use crate::textmap::TextMap;
use crate::words::is_word;

verus! {

/// An input, a completion, a message of the agent, a tick, a round of maintenance
/// and a pairing decision each have the effect that is stated of them.
pub proof fn events_take_effect(rt: &mut Runtime, input: Input, done: Done, incoming: Incoming, paired: Result<bool, SessionStoreError>, now: u64, r: Result<(), RuntimeError>)
    ensures
        forall|p: Result<Option<Pairing>, RuntimeError>|
            #[trigger] call_ensures(Runtime::handle_input, (rt, input, now), p) ==> final(rt)@ == after_input(
                old(rt)@,
                input@,
                now,
            ).0.state && (p matches Ok(asked) ==> opt_pairing(asked) == after_input(old(rt)@, input@, now).1),
        call_ensures(Runtime::handle_done, (rt, done, now), r) ==> final(rt)@ == after_done(old(rt)@, done, now).state && fault_of(
            r,
        ) == after_done(old(rt)@, done, now).fault,
        call_ensures(Runtime::handle_protocol, (rt, incoming, now), r) ==> final(rt)@ == after_protocol(
            old(rt)@,
            incoming,
            now,
        ).state && fault_of(r) == after_protocol(old(rt)@, incoming, now).fault,
        call_ensures(Runtime::handle_tick, (rt, now), r) ==> final(rt)@ == after_tick(old(rt)@, now).state && fault_of(r)
            == after_tick(old(rt)@, now).fault,
        call_ensures(Runtime::maintain, (rt, now), r) ==> final(rt)@ == after_maintenance(old(rt)@, now).state && fault_of(r)
            == after_maintenance(old(rt)@, now).fault,
        call_ensures(Runtime::handle_paired, (rt, input, paired), r) ==> final(rt)@ == after_paired(
            old(rt)@,
            input@,
            paired,
        ).state && fault_of(r) == after_paired(old(rt)@, input@, paired).fault,
{
}

/// The end of a run leaves what is stated of it, and names the turn that is to be
/// interrupted: the one that runs, if one does.
pub proof fn shutdowns_take_effect(rt: &mut Runtime, r: Option<TurnRef>)
    requires
        call_ensures(Runtime::shut_down, (rt,), r),
    ensures
        final(rt)@ == after_shutdown(old(rt)@),
        old(rt)@.active matches Some(a) ==> r == a.turn,
        old(rt)@.active is None ==> r is None,
{
}

/// The decision about an approval that its owner may decide, on its live card, is
/// the one reply that the agent gets: consent as consent, refusal as refusal.
pub proof fn approvals_reply_with_the_decision(
    rt: &mut Runtime,
    input: Input,
    token: String,
    allow: bool,
    source: String,
    now: u64,
    r: Result<(), RuntimeError>,
)
    requires
        call_ensures(Runtime::handle_approve, (rt, input, token, allow, Some(source), now), r),
        old(rt)@.interactions.contains_key(token@),
        old(rt)@.interactions[token@].kind is Approval,
        old(rt)@.interactions[token@].source == Some(source@),
        in_hand(old(rt)@.interactions[token@], claim_by(old(rt)@, input@, now)),
        turn_runs(old(rt)@, old(rt)@.interactions[token@]),
        old(rt)@.running + old(rt)@.spawned.len() < 128,
    ensures
        r is Ok,
        final(rt)@.spawned == old(rt)@.spawned.push(
            JobText::Reply { pending: old(rt)@.interactions[token@], allow },
        ),
        final(rt)@.interactions == old(rt)@.interactions.remove(token@),
        final(rt)@.sent == old(rt)@.sent,
        final(rt)@.receipts == taken(old(rt)@.receipts, input@.ack),
{
    reveal(after_approve);
    let p = old(rt)@.interactions[token@];
    assert(alive(old(rt)@.active, p));
}

/// A click on 拒绝 refuses and a click on 同意本次请求 allows, from the click to
/// the job that tells the agent.
pub proof fn clicks_reply_with_the_decision(
    rt: &mut Runtime,
    input: Input,
    button: Seq<char>,
    source: Seq<char>,
    token: Seq<char>,
    now: u64,
    r: Result<Option<Pairing>, RuntimeError>,
)
    requires
        call_ensures(Runtime::handle_input, (rt, input, now), r),
        clicks(old(rt)@, input@, button, source, now),
        is_word(token),
        old(rt)@.files !is Delivering,
        old(rt)@.interactions.contains_key(token),
        old(rt)@.interactions[token].kind is Approval,
        old(rt)@.interactions[token].source == Some(source),
        in_hand(old(rt)@.interactions[token], claim_by(old(rt)@, input@, now)),
        turn_runs(old(rt)@, old(rt)@.interactions[token]),
        old(rt)@.running + old(rt)@.spawned.len() < 128,
    ensures
        old(rt)@.actions[button].command == "/deny "@ + token ==> r is Ok && final(rt)@.spawned == old(rt)@.spawned.push(
            JobText::Reply { pending: old(rt)@.interactions[token], allow: false },
        ),
        old(rt)@.actions[button].command == "/approve "@ + token ==> r is Ok && final(rt)@.spawned == old(rt)@.spawned.push(
            JobText::Reply { pending: old(rt)@.interactions[token], allow: true },
        ),
{
    approvals_are_answered_as_decided(old(rt)@, input@, button, source, token, now);
}

/// A click on the button that numbers an option answers with that option's label,
/// from the click to what is recorded or submitted.
pub proof fn clicks_answer_with_the_option(
    rt: &mut Runtime,
    input: Input,
    button: Seq<char>,
    source: Seq<char>,
    token: Seq<char>,
    q: Question,
    n: nat,
    now: u64,
    r: Result<Option<Pairing>, RuntimeError>,
)
    requires
        call_ensures(Runtime::handle_input, (rt, input, now), r),
        clicks(old(rt)@, input@, button, source, now),
        is_word(token),
        asks_on_card(old(rt)@, input@, token, source, q, now),
        n < q.options@.len(),
        n <= usize::MAX,
        old(rt)@.actions[button].command == "/choice "@ + token + " "@ + decimal(old(rt)@.interactions[token].question) + " "@
            + decimal(n),
    ensures
        r is Ok,
        ({
            let before = old(rt)@.interactions[token];
            let last = before.kind matches KindText::Questions { questions, .. } && before.question + 1
                == questions.len();
            &&& last ==> final(rt)@.spawned.len() == old(rt)@.spawned.len() + 1 && (
            final(rt)@.spawned.last() matches JobText::Reply { pending, .. } && pending.answers.contains_key(q.id@)
                && pending.answers[q.id@] == seq![q.options@[n as int].label@])
            &&& !last ==> final(rt)@.interactions.contains_key(token) && final(rt)@.interactions[token].answers.contains_key(q.id@)
                && final(rt)@.interactions[token].answers[q.id@] == seq![q.options@[n as int].label@]
        }),
{
    clicked_options_are_the_answer(old(rt)@, input@, button, source, token, q, n, now);
}

/// A click on a plan's card decides as the button says: 继续讨论计划 starts no
/// task, the other two start one that carries the plan out.
pub proof fn clicks_decide_the_plan(
    rt: &mut Runtime,
    input: Input,
    button: Seq<char>,
    source: Seq<char>,
    o: OfferText,
    token: Seq<char>,
    now: u64,
    r: Result<Option<Pairing>, RuntimeError>,
)
    requires
        call_ensures(Runtime::handle_input, (rt, input, now), r),
        clicks(old(rt)@, input@, button, source, now),
        is_word(token),
        plan_open(old(rt)@, o, input@, token, now),
        idle(old(rt)@),
        old(rt)@.next_task < u64::MAX,
        old(rt)@.actions[button].command == "/plan-action "@ + token + " stay"@ || old(rt)@.actions[button].command
            == "/plan-action "@ + token + " implement"@ || old(rt)@.actions[button].command == "/plan-action "@ + token
            + " fresh"@,
    ensures
        r is Ok,
        final(rt)@.spawned.len() == old(rt)@.spawned.len() + 1,
        final(rt)@.spawned.last() matches JobText::PlanAction { choice, task, session, .. } && {
            let command = old(rt)@.actions[button].command;
            &&& session == o.task.session
            &&& command == "/plan-action "@ + token + " stay"@ ==> choice == PlanChoice::Stay && task is None
            &&& command == "/plan-action "@ + token + " implement"@ ==> choice == PlanChoice::Implement
            &&& command == "/plan-action "@ + token + " fresh"@ ==> choice == PlanChoice::Fresh
            &&& command != "/plan-action "@ + token + " stay"@ ==> (task matches Some(t) && implements(t, o, input@))
        },
{
    plans_are_decided_as_clicked(old(rt)@, input@, button, source, o, token, now);
}

/// A run begins idle: nothing runs, waits or was sent, and exactly the configured
/// users are admitted, each in the directory that was stored for that user.
pub proof fn runs_begin_idle(settings: Settings, rich: bool, directories: TextMap<Directory>, room: usize, now: u64, r: Runtime, user: Seq<char>)
    requires
        call_ensures(Runtime::new, (settings, rich, directories, room, now), r),
    ensures
        r@.active is None,
        r@.admissions.queue.len() == 0,
        r@.admissions.pending.len() == 0,
        !r@.admissions.mutating,
        r@.admissions.capacity == 64,
        r@.spawned.len() == 0,
        r@.sent.len() == 0,
        r@.running == 0,
        r@.room == room,
        r@.plan_offer is None,
        r@.files is Idle,
        r@.rich == rich,
        r@.epoch == settings.epoch,
        r@.root == settings.root@,
        r@.directory == settings.directory@,
        r@.sandbox == settings.sandbox,
        r@.open_access == settings.open_access,
        !r@.actions.contains_key(user),
        !r@.interactions.contains_key(user),
        r@.allowed.contains(user) <==> exists|i: int| 0 <= i < settings.allowed@.len() && (#[trigger] settings.allowed@[i])@ == user,
{
    let users = texts(settings.allowed@);
    if r@.allowed.contains(user) {
        let i = choose|i: int| 0 <= i < users.len() && users[i] == user;
        assert(settings.allowed@[i]@ == user);
    }
    if exists|i: int| 0 <= i < settings.allowed@.len() && (#[trigger] settings.allowed@[i])@ == user {
        let i = choose|i: int| 0 <= i < settings.allowed@.len() && (#[trigger] settings.allowed@[i])@ == user;
        assert(users[i] == user);
        assert(users.contains(user));
    }
}

} // verus!
