//! What becomes of a request of the agent: it waits for the user of the task
//! that runs, on a card whose buttons decide it, and the user is told what the
//! agent was told.
use vstd::prelude::*;
use vstd::string::*;
use crate::approval_card::{allowable, approval_body, approval_entries, approval_title, decision_card};
use crate::cards::{
    actions_fit, buttons_say_what_they_run, card_commands, command_panel, question_body, question_entries,
    registered_buttons_are_found, says_what_it_runs, supported, ActionText,
};
use crate::cards::{
    entries_text, list_entries_of, models_body, models_entries_of, pairs, threads_body, Action, Owner, OwnerText,
};
use crate::events::{AgentEvent, Incoming};
use crate::interactions::{item_open, PendingText, ReplyOutcome};
use crate::messaging::{DeliveryError, MessageId};
use crate::model::ExecutionMode;
use crate::ports::{same_turn, Model, TurnRef};
use crate::presentation::RequestText;
use crate::requests::{AgentRequest, ApprovalKind, FileChange, KindText, Question};
use crate::runtime::done_card::{
    after_approval_sent, after_listed, after_panel_sent, after_replied, current_entries, request_actions, request_bound,
};
use crate::runtime::flow::{command_list, fallback_text, lines, offers_plan, panel_entries};
use crate::runtime::maintain::{archive_synced, card_dispatched, cards_dispatched, expired_one, offer_delivered};
use crate::runtime::protocol::{after_protocol, after_request, changes_for, completed_kind};
use crate::runtime::state::{begin, ActiveText, ItemChangesText, JobText, ListedContent, State};
use crate::runtime::tokens::{approval_text, panel_prefix_text};
use crate::sessions::{start_sentence, thread_id_ok, ListedThread, StartError};
use crate::text::{begins_with, opt};
use crate::textmap::{order_exists, ordered};
use crate::view::PanelView;

verus! {

/// The turn is the one that the running task is at.
pub open spec fn turn_is_running(s: State, a: ActiveText, turn: TurnRef) -> bool {
    &&& s.active == Some(a)
    &&& !a.stopping
    &&& a.gate matches Some(g) && !g.terminal && g.epoch == turn.epoch && g.thread == turn.thread_id@ && (g.turn matches Some(t)
        ==> t.thread_id@ == turn.thread_id@ && t.turn_id@ == turn.turn_id@ && t.epoch == turn.epoch)
}

/// A request of the running turn waits for the task's own user, in the task's
/// chat and directory, for ten minutes, under the next token. Nothing is answered
/// in the user's place.
pub proof fn requests_wait_for_the_tasks_user(s: State, a: ActiveText, request: AgentRequest, reply: u64, now: u64)
    requires
        turn_is_running(s, a, request.turn),
        forall|k: Seq<char>| #[trigger] s.interactions.contains_key(k) ==> !(s.interactions[k].turn.turn_id@
            == request.turn.turn_id@ && s.interactions[k].item == request.item@),
        s.interactions.dom().len() < 32,
        s.next_token < u64::MAX,
        !s.interactions.contains_key(approval_text(s.epoch, (s.next_token + 1) as u64)),
        now + 600_000_000_000 <= u64::MAX,
        request.kind@ matches KindText::Questions { questions, .. } ==> a.spec.mode == ExecutionMode::Plan && 0 < questions.len()
            <= 32 && forall|i: int| 0 <= i < questions.len() ==> supported(#[trigger] questions[i]),
    ensures
        ({
            let r = after_protocol(s, Incoming::Request { request, reply }, now);
            let token = approval_text(s.epoch, (s.next_token + 1) as u64);
            let p = r.state.interactions[token];
            &&& r.fault is None
            &&& r.state.interactions.contains_key(token)
            &&& r.state.interactions.remove(token) == s.interactions
            &&& r.state.spawned == s.spawned
            &&& r.state.sent == s.sent
            &&& p.owner.user == a.spec.session.user
            &&& p.owner.chat == a.spec.chat
            &&& p.owner.directory == a.spec.session.workspace
            &&& p.turn == request.turn
            &&& p.item == request.item@
            &&& p.reply == reply
            &&& p.task == a.spec.id
            &&& p.deadline == now + 600_000_000_000
            &&& p.question == 0
            &&& p.answers == Map::<Seq<char>, Seq<Seq<char>>>::empty()
            &&& !p.waiting_text
            &&& !p.card_dispatched
            &&& p.source is None
            &&& request.kind@ is Questions ==> p.kind == request.kind@
            &&& request.kind@ matches KindText::Approval(r) ==> (p.kind matches KindText::Approval(q) && q.kind == r.kind && q.command
                == r.command && q.directory == r.directory && q.reason == r.reason && q.grant_root == r.grant_root
                && q.permissions == r.permissions && q.network_context == r.network_context && q.can_allow == r.can_allow && (
            r.kind != ApprovalKind::FileChange ==> q == r))
        }),
{
    reveal(after_request);
    let token = approval_text(s.epoch, (s.next_token + 1) as u64);
    reveal_strlit("approval-");
    assert(!item_open(s.interactions, request.turn, request.item@));
    assert(token.len() > 0);
    let r = after_protocol(s, Incoming::Request { request, reply }, now);
    assert(r.state.interactions.remove(token) =~= s.interactions);
}

/// A request of a turn that is not running is refused, and waits for nobody.
pub proof fn stray_approvals_are_refused(s: State, request: AgentRequest, reply: u64, now: u64)
    requires
        s.active matches Some(a) ==> a.stopping || a.gate is None || a.gate->Some_0.terminal || a.gate->Some_0.epoch
            != request.turn.epoch || a.gate->Some_0.thread != request.turn.thread_id@,
        request.kind@ is Approval,
        s.running + s.spawned.len() < 128,
    ensures
        ({
            let r = after_protocol(s, Incoming::Request { request, reply }, now);
            &&& r.fault is None
            &&& r.state.interactions == s.interactions
            &&& r.state.spawned == s.spawned.push(JobText::Deny { reply })
        }),
{
    reveal(after_request);
}

/// The buttons of an approval's card: its refusal always stands last; its
/// consent stands first, where the request may be allowed at all.
pub open spec fn decides_request(entries: Seq<(Seq<char>, Seq<char>)>, token: Seq<char>, allowed: bool) -> bool {
    &&& entries.last() == ("拒绝"@, "/deny "@ + token)
    &&& allowed ==> entries.len() == 2 && entries[0] == ("同意本次请求"@, "/approve "@ + token)
    &&& !allowed ==> entries.len() == 1
}

/// An approval's card goes to the chat of the request's owner and shows what is
/// asked for; its buttons say what they run.
pub proof fn approval_cards_ask_their_owner(s: State, token: Seq<char>, asked: crate::requests::ApprovalText)
    requires
        s.interactions.contains_key(token),
        s.interactions[token].kind == KindText::Approval(asked),
    ensures
        ({
            let r = card_dispatched(s, token);
            let entries = approval_entries(asked, token);
            let job = r.spawned.last();
            &&& r.spawned.len() == s.spawned.len() + 1
            &&& r.spawned.drop_last() == s.spawned
            &&& job matches JobText::SendCard { token: t, chat, panel, commands } && {
                &&& t == token
                &&& chat == s.interactions[token].owner.chat
                &&& panel.title == approval_title(asked)
                &&& panel.body == approval_body(asked)
                &&& says_what_it_runs(panel, commands, entries)
                &&& decides_request(entries, token, allowable(asked))
            }
            &&& r.interactions == s.interactions.insert(
                token,
                PendingText { card_dispatched: true, ..s.interactions[token] },
            )
        }),
{
    let prefix = panel_prefix_text(s.epoch, (s.next_panel + 1) as u64);
    let entries = approval_entries(asked, token);
    buttons_say_what_they_run(approval_title(asked), approval_body(asked), entries, prefix);
    let plain = command_panel(approval_title(asked), approval_body(asked), entries, prefix);
    let shown = decision_card(plain);
    assert forall|i: int| 0 <= i < entries.len() implies (#[trigger] shown.buttons[i]).label == entries[i].0
        && shown.buttons[i].token == card_commands(entries, prefix)[i].0 && card_commands(entries, prefix)[i].1 == entries[i].1 by {
        assert(shown.buttons[i].label == plain.buttons[i].label);
    }
    let r = card_dispatched(s, token);
    assert(r.spawned.drop_last() =~= s.spawned);
}

/// A question's card goes to the chat of the request's owner, shows the question
/// that is asked and offers its answers.
pub proof fn question_cards_ask_their_owner(s: State, token: Seq<char>, blocking: bool, questions: Seq<Question>)
    requires
        s.interactions.contains_key(token),
        s.interactions[token].kind == (KindText::Questions { blocking, questions }),
        s.interactions[token].question < questions.len(),
    ensures
        ({
            let r = card_dispatched(s, token);
            let n = s.interactions[token].question;
            let job = r.spawned.last();
            &&& r.spawned.len() == s.spawned.len() + 1
            &&& r.spawned.drop_last() == s.spawned
            &&& job matches JobText::SendCard { token: t, chat, panel, commands } && {
                &&& t == token
                &&& chat == s.interactions[token].owner.chat
                &&& panel.title == "Codex 问答"@
                &&& panel.body == question_body(questions[n as int], n, questions.len())
                &&& says_what_it_runs(panel, commands, question_entries(questions[n as int], n, token))
            }
        }),
{
    let prefix = panel_prefix_text(s.epoch, (s.next_panel + 1) as u64);
    let n = s.interactions[token].question;
    let q = questions[n as int];
    buttons_say_what_they_run("Codex 问答"@, question_body(q, n, questions.len()), question_entries(q, n, token), prefix);
    let r = card_dispatched(s, token);
    assert(r.spawned.drop_last() =~= s.spawned);
}

/// A button that was registered: it runs its command for the owner of the card
/// that shows it, on that card and until the request is due.
pub open spec fn runs_for_owner(actions: Map<Seq<char>, ActionText>, button: Seq<char>, command: Seq<char>, p: PendingText, source: Seq<char>) -> bool {
    &&& actions.contains_key(button)
    &&& actions[button].command == command
    &&& actions[button].user == p.owner.user
    &&& actions[button].chat == p.owner.chat
    &&& actions[button].directory == p.owner.directory
    &&& actions[button].source == source
    &&& actions[button].deadline == p.deadline
    &&& actions[button].stop_snapshot is None
}

/// Once a request's card was delivered, each of its buttons runs its own command
/// for the request's owner, and the request takes decisions from that card.
pub proof fn delivered_buttons_run_their_command(
    s: State,
    token: Seq<char>,
    panel: PanelView,
    commands: Seq<(Seq<char>, Seq<char>)>,
    id: MessageId,
    now: u64,
    i: int,
)
    requires
        s.interactions.contains_key(token),
        now < s.interactions[token].deadline,
        s.active matches Some(a) && !a.stopping && a.spec.id == s.interactions[token].task && (a.turn matches Some(t) && same_turn(
            t,
            s.interactions[token].turn,
        )),
        actions_fit(s.actions, commands.len(), now),
        forall|a: int, b: int| #![trigger commands[a], commands[b]] 0 <= a < b < commands.len() ==> commands[a].0 != commands[b].0,
        0 <= i < commands.len(),
    ensures
        ({
            let r = after_approval_sent(s, token, panel, commands, Ok(id), now);
            &&& r.fault is None
            &&& r.state.interactions == s.interactions.insert(
                token,
                PendingText { source: Some(id.0@), ..s.interactions[token] },
            )
            &&& runs_for_owner(r.state.actions, commands[i].0, commands[i].1, s.interactions[token], id.0@)
            &&& r.state.spawned == s.spawned
            &&& r.state.sent == s.sent
        }),
{
    reveal(after_approval_sent);
    reveal(request_bound);
    let p = PendingText { source: Some(id.0@), ..s.interactions[token] };
    let entries = request_actions(p, commands, id.0@);
    assert forall|a: int, b: int|
        #![trigger entries[a], entries[b]]
        0 <= a < b < entries.len() implies entries[a].0 != entries[b].0 by {
        assert(entries[a].0 == commands[a].0 && entries[b].0 == commands[b].0);
    }
    registered_buttons_are_found(crate::cards::live_actions(s.actions, now), entries, i);
    assert(entries[i].0 == commands[i].0);
    let r = after_approval_sent(s, token, panel, commands, Ok(id), now);
    assert(r.state.interactions =~= s.interactions.insert(token, p));
}

/// The user is told what the agent was told: a consent as one, a refusal as one,
/// answers as answers. Where nobody knows whether the agent got it, the user is
/// told that and the run stops.
pub proof fn users_are_told_what_was_replied(s: State, o: ReplyOutcome)
    requires
        s.room > 0,
        o.submitted,
    ensures
        o.result is Ok ==> ({
            let r = after_replied(s, o);
            &&& r.fault is None
            &&& r.state.spawned == s.spawned
            &&& o.questions ==> r.state.sent == s.sent.push(RequestText::Text(o.chat@, "已向 Codex 回传答案。"@))
            &&& !o.questions && o.allow ==> r.state.sent == s.sent.push(
                RequestText::Text(o.chat@, "已向 Codex 回传本次同意；执行结果请等待任务回复。"@),
            )
            &&& !o.questions && !o.allow ==> r.state.sent == s.sent.push(RequestText::Text(o.chat@, "已向 Codex 回传拒绝。"@))
        }),
        o.result is Err ==> ({
            let r = after_replied(s, o);
            &&& r.fault is Some
            &&& o.questions ==> r.state.sent == s.sent.push(
                RequestText::Text(o.chat@, "问答回传结果不确定，已停止连接，不会自动重试。"@),
            )
            &&& !o.questions ==> r.state.sent == s.sent.push(
                RequestText::Text(o.chat@, "审批回传结果不确定，已停止连接，不会自动重试。"@),
            )
        }),
{
}

/// A plan's card goes to the plan's user, in the plan's chat and directory, shows
/// the plan and offers the three choices about it.
pub proof fn plan_cards_ask_their_user(s: State, o: crate::plans::OfferText, now: u64)
    requires
        s.plan_offer == Some(o),
        !o.sent,
        s.active is None,
        s.files is Idle,
        s.admissions.queue.len() == 0,
        s.admissions.pending.len() == 0,
        s.running + s.spawned.len() + 16 < 128,
        s.next_panel < u64::MAX,
        now + 600_000_000_000 <= u64::MAX,
    ensures
        ({
            let r = offer_delivered(s, now);
            let job = r.spawned.last();
            &&& r.plan_offer == Some(crate::plans::OfferText { sent: true, ..o })
            &&& r.spawned.len() == s.spawned.len() + 1
            &&& r.spawned.drop_last() == s.spawned
            &&& job matches JobText::SendPanel { source, owner, panel, commands, deadline } && {
                &&& source is None
                &&& owner.user == o.task.session.user
                &&& owner.chat == o.task.chat
                &&& owner.directory == o.task.session.workspace
                &&& owner.stop_snapshot == (s.next_task, None::<Seq<char>>)
                &&& deadline == now + 600_000_000_000
                &&& begins_with(panel.body, o.text)
                &&& says_what_it_runs(
                    panel,
                    commands,
                    seq![
                        ("确认并实施"@, "/plan-action "@ + o.token + " implement"@),
                        ("清空上下文后实施"@, "/plan-action "@ + o.token + " fresh"@),
                        ("继续讨论计划"@, "/plan-action "@ + o.token + " stay"@),
                    ],
                )
            }
        }),
{
    let prefix = panel_prefix_text(s.epoch, (s.next_panel + 1) as u64);
    buttons_say_what_they_run(
        "Plan 已完成，请确认下一步"@,
        crate::plans::plan_body(o.text),
        crate::plans::plan_entries(o.token),
        prefix,
    );
    let r = offer_delivered(s, now);
    assert(r.spawned.drop_last() =~= s.spawned);
    assert(crate::plans::plan_body(o.text).take(o.text.len() as int) =~= o.text);
}

/// Once a panel was delivered, each button of a card that is still current runs
/// its own command, on that card.
pub proof fn delivered_panels_run_their_commands(
    s: State,
    refreshed: bool,
    panel: PanelView,
    entries: Seq<(Seq<char>, ActionText)>,
    id: MessageId,
    now: u64,
    i: int,
)
    requires
        forall|a: int| 0 <= a < entries.len() ==> (#[trigger] entries[a]).1.generation == s.generation(entries[a].1.user),
        forall|a: int, b: int| #![trigger entries[a], entries[b]] 0 <= a < b < entries.len() ==> entries[a].0 != entries[b].0,
        actions_fit(s.actions, entries.len(), now),
        0 <= i < entries.len(),
    ensures
        ({
            let r = after_panel_sent(s, refreshed, panel, entries, Ok(id), now);
            &&& r.fault is None
            &&& r.state.actions.contains_key(entries[i].0)
            &&& r.state.actions[entries[i].0] == (ActionText { source: id.0@, ..entries[i].1 })
            &&& r.state.spawned == s.spawned
            &&& r.state.sent == s.sent
        }),
{
    reveal(after_panel_sent);
    let pred = |e: (Seq<char>, ActionText)| e.1.generation == crate::runtime::state::generation_in(s.generations, e.1.user);
    all_current(entries, pred);
    let current = current_entries(s.generations, entries, id.0@);
    assert(current.len() == entries.len());
    assert forall|a: int, b: int|
        #![trigger current[a], current[b]]
        0 <= a < b < current.len() implies current[a].0 != current[b].0 by {
        assert(current[a].0 == entries[a].0 && current[b].0 == entries[b].0);
    }
    registered_buttons_are_found(crate::cards::live_actions(s.actions, now), current, i);
    assert(current[i].0 == entries[i].0);
}

proof fn all_current(s: Seq<(Seq<char>, ActionText)>, pred: spec_fn((Seq<char>, ActionText)) -> bool)
    requires
        forall|i: int| 0 <= i < s.len() ==> pred(#[trigger] s[i]),
    ensures
        s.filter(pred) == s,
    decreases s.len(),
{
    reveal(Seq::filter);
    if s.len() > 0 {
        all_current(s.drop_last(), pred);
        assert(s.drop_last().push(s.last()) =~= s);
    }
}

/// The button of a panel carries its command for the panel's owner until the
/// deadline. A stop or a plan's choice counts only while no task has started or
/// ended since the panel was made.
pub proof fn panel_buttons_carry_their_command(
    commands: Vec<(String, String)>,
    owner: Owner,
    deadline: u64,
    r: Vec<(String, Action)>,
    i: int,
)
    requires
        call_ensures(panel_entries, (commands, &owner, deadline), r),
        0 <= i < commands@.len(),
    ensures
        r@.len() == commands@.len(),
        r@[i].0@ == commands@[i].0@,
        r@[i].1@.command == commands@[i].1@,
        r@[i].1@.user == owner@.user,
        r@[i].1@.chat == owner@.chat,
        r@[i].1@.directory == owner@.directory,
        r@[i].1@.generation == owner@.generation,
        r@[i].1@.deadline == deadline,
        commands@[i].1@ == "/stop"@ || begins_with(commands@[i].1@, "/plan-action "@) ==> r@[i].1@.stop_snapshot == Some(
            owner@.stop_snapshot,
        ),
        commands@[i].1@ != "/stop"@ && !begins_with(commands@[i].1@, "/plan-action "@) ==> r@[i].1@.stop_snapshot is None,
{
    let shown = entries_text(r@);
    let given = pairs(commands@);
    assert(shown.len() == given.len());
    assert(shown[i] == (r@[i].0@, r@[i].1@));
    assert(given[i] == (commands@[i].0@, commands@[i].1@));
}

/// A file change that waits for its user shows the changes that were announced
/// for it, and of no other item.
pub proof fn announced_changes_are_shown(s: State, a: ActiveText, turn: TurnRef, item: String, changes: Vec<FileChange>, request: AgentRequest, now: u64)
    requires
        turn_is_running(s, a, turn),
        s.file_changes.len() == 0,
        forall|k: Seq<char>| #[trigger] s.interactions.contains_key(k) ==> !(s.interactions[k].turn.turn_id@ == turn.turn_id@
            && s.interactions[k].item == item@),
        request.kind@ matches KindText::Approval(r) && r.kind == ApprovalKind::FileChange,
    ensures
        ({
            let t = after_protocol(s, Incoming::Notification(AgentEvent::FileChanges { turn, item, changes }), now);
            let kind = completed_kind(t.state, request);
            &&& t.fault is None
            &&& t.state.spawned == s.spawned
            &&& t.state.sent == s.sent
            &&& request.turn == turn && request.item@ == item@ ==> (kind matches KindText::Approval(q) && q.changes == Some(changes@))
            &&& request.item@ != item@ ==> (kind matches KindText::Approval(q) && q.changes is None)
        }),
{
    assert(!item_open(s.interactions, turn, item@));
    let t = after_protocol(s, Incoming::Notification(AgentEvent::FileChanges { turn, item, changes }), now).state;
    assert(t.file_changes =~= seq![ItemChangesText { turn, item: item@, changes: changes@ }]);
    reveal_with_fuel(changes_for, 2);
    assert(t.file_changes.drop_first() =~= Seq::empty());
}

/// A second announcement for the same item is ambiguous: the changes are dropped,
/// and what waits for them is due at once.
pub proof fn ambiguous_changes_are_withdrawn(
    s: State,
    a: ActiveText,
    turn: TurnRef,
    item: String,
    changes: Vec<FileChange>,
    token: Seq<char>,
    now: u64,
)
    requires
        turn_is_running(s, a, turn),
        s.interactions.contains_key(token),
        s.interactions[token].turn == turn,
        s.interactions[token].item == item@,
    ensures
        ({
            let t = after_protocol(s, Incoming::Notification(AgentEvent::FileChanges { turn, item, changes }), now);
            &&& t.fault is None
            &&& t.state.interactions.contains_key(token)
            &&& t.state.interactions[token].deadline == now
            &&& t.state.file_changes.len() == s.file_changes.len()
        }),
{
    assert(item_open(s.interactions, turn, item@));
}

/// A list of threads goes to the user and chat that asked for it, in the session
/// that was listed; its buttons act on the listed threads.
pub proof fn lists_go_to_who_asked(s: State, entries: Vec<ListedThread>, archived: bool, owner: OwnerText, now: u64)
    requires
        s.next_panel < u64::MAX,
        s.running + s.spawned.len() + 16 < 128,
        now + 600_000_000_000 <= u64::MAX,
    ensures
        ({
            let r = after_listed(s, None, owner, Ok(ListedContent::Threads { entries, archived }), now);
            let job = r.state.spawned.last();
            &&& r.fault is None
            &&& r.state.spawned.len() == s.spawned.len() + 1
            &&& job matches JobText::SendPanel { source, owner: o, panel, commands, deadline } && {
                &&& source is None
                &&& o == owner
                &&& deadline == now + 600_000_000_000
                &&& archived ==> panel.title == "已归档会话"@
                &&& !archived ==> panel.title == "最近会话"@
                &&& says_what_it_runs(panel, commands, list_entries_of(entries@, archived))
            }
        }),
{
    reveal(after_listed);
    let prefix = panel_prefix_text(s.epoch, (s.next_panel + 1) as u64);
    buttons_say_what_they_run(
        if archived {
            "已归档会话"@
        } else {
            "最近会话"@
        },
        threads_body(entries@, archived),
        list_entries_of(entries@, archived),
        prefix,
    );
}

/// A list of models goes to the user and chat that asked for it; its buttons
/// select the listed models.
pub proof fn model_lists_go_to_who_asked(s: State, entries: Vec<Model>, current: Option<String>, owner: OwnerText, now: u64)
    requires
        s.next_panel < u64::MAX,
        s.running + s.spawned.len() + 16 < 128,
        now + 600_000_000_000 <= u64::MAX,
    ensures
        ({
            let r = after_listed(s, None, owner, Ok(ListedContent::Models { entries, current }), now);
            let job = r.state.spawned.last();
            &&& r.fault is None
            &&& r.state.spawned.len() == s.spawned.len() + 1
            &&& job matches JobText::SendPanel { source, owner: o, panel, commands, deadline } && {
                &&& source is None
                &&& o == owner
                &&& deadline == now + 600_000_000_000
                &&& panel.title == "可用模型"@
                &&& says_what_it_runs(panel, commands, models_entries_of(entries@, opt(current)))
            }
        }),
{
    reveal(after_listed);
    let prefix = panel_prefix_text(s.epoch, (s.next_panel + 1) as u64);
    buttons_say_what_they_run("可用模型"@, models_body(opt(current)), models_entries_of(entries@, opt(current)), prefix);
}

/// A text that was asked for is told in the chat it was asked in, and a list that
/// could not be read is reported there.
pub proof fn answers_to_questions_are_told(s: State, text: String, error: StartError, owner: OwnerText, refresh: Option<Seq<char>>, now: u64)
    requires
        s.room > 0,
    ensures
        after_listed(s, refresh, owner, Ok(ListedContent::Text(text)), now).state.sent == s.sent.push(
            RequestText::Text(owner.chat, text@),
        ),
        after_listed(s, refresh, owner, Err(error), now).state.sent == s.sent.push(
            RequestText::Text(owner.chat, "读取会话列表失败："@ + start_sentence(error)),
        ),
{
    reveal(after_listed);
}

/// A thread that was archived elsewhere is noted, once, for this run of the
/// agent only; the next quiet moment forgets its binding.
pub proof fn archived_threads_are_forgotten(s: State, thread: String, epoch: u64, now: u64)
    requires
        thread_id_ok(thread@),
        s.archived.finite(),
        s.archived.len() < 128,
    ensures
        epoch == s.epoch ==> ({
            let r = after_protocol(s, Incoming::Notification(AgentEvent::Archived { epoch, thread }), now);
            &&& r.fault is None
            &&& r.state.archived == s.archived.insert(thread@)
            &&& r.state.spawned == s.spawned
        }),
        epoch != s.epoch ==> after_protocol(s, Incoming::Notification(AgentEvent::Archived { epoch, thread }), now).state == s,
{
}

/// Where exactly one archived thread is noted and nothing is in the way, its
/// binding is forgotten next, and sessions are closed to other changes meanwhile.
pub proof fn noted_threads_are_synced(s: State, thread: Seq<char>)
    requires
        s.archived == Set::<Seq<char>>::empty().insert(thread),
        !s.admissions.mutating,
        s.admissions.active is None,
        s.running + s.spawned.len() + 16 < 128,
    ensures
        archive_synced(s).spawned == s.spawned.push(JobText::SyncArchive { thread }),
        archive_synced(s).archived =~= Set::<Seq<char>>::empty(),
        archive_synced(s).admissions.mutating,
{
    let only = ordered(s.archived);
    order_exists(s.archived);
    assert(s.archived.len() == 1);
    assert(s.archived.contains(thread));
    assert(only.contains(thread));
    assert(only.contains(only[0]));
    assert(s.archived.contains(only[0]));
}

/// A request that cannot be shown, because its card was not delivered, is
/// refused, and its user is told; nothing is allowed for want of a card.
pub proof fn undelivered_approvals_are_refused(
    s: State,
    token: Seq<char>,
    panel: PanelView,
    commands: Seq<(Seq<char>, Seq<char>)>,
    error: DeliveryError,
    now: u64,
)
    requires
        s.interactions.contains_key(token),
        s.interactions[token].kind is Approval,
        panel.title != "Codex 问答"@,
        s.room > 0,
        s.running + s.spawned.len() < 128,
    ensures
        ({
            let r = after_approval_sent(s, token, panel, commands, Err(error), now);
            &&& r.fault is None
            &&& r.state.interactions == s.interactions.remove(token)
            &&& r.state.spawned == s.spawned.push(JobText::Reply { pending: s.interactions[token], allow: false })
            &&& r.state.sent == s.sent.push(
                RequestText::Text(
                    s.interactions[token].owner.chat,
                    "审批卡片发送失败、已失效或登记已满，正在拒绝请求。"@,
                ),
            )
            &&& r.state.actions == s.actions
        }),
{
    reveal(after_approval_sent);
}

/// No more than 32 requests wait at a time: the next approval is refused, and the
/// task's user is told.
pub proof fn surplus_approvals_are_refused(s: State, a: ActiveText, request: AgentRequest, reply: u64, now: u64)
    requires
        turn_is_running(s, a, request.turn),
        request.kind@ is Approval,
        s.interactions.dom().len() >= 32,
        !item_open(s.interactions, request.turn, request.item@),
        s.room > 0,
        s.running + s.spawned.len() < 128,
    ensures
        ({
            let r = after_protocol(s, Incoming::Request { request, reply }, now);
            &&& r.fault is None
            &&& r.state.interactions == s.interactions
            &&& r.state.spawned == s.spawned.push(JobText::Deny { reply })
            &&& r.state.sent == s.sent.push(
                RequestText::Text(a.spec.chat, "审批请求重复或待处理数量已满，已拒绝该请求。"@),
            )
        }),
{
    reveal(after_request);
}

/// Questions are asked of a task that plans only; elsewhere they stop the run, and
/// no answer is made up.
pub proof fn questions_need_the_planning_mode(s: State, a: ActiveText, request: AgentRequest, reply: u64, now: u64)
    requires
        s.active == Some(a),
        a.spec.mode == ExecutionMode::Execute,
        request.kind@ is Questions,
    ensures
        ({
            let r = after_protocol(s, Incoming::Request { request, reply }, now);
            &&& r.fault is Some
            &&& r.state.interactions == s.interactions
            &&& r.state.spawned == s.spawned
        }),
{
    reveal(after_request);
}

/// A request that waits without a card gets one: every such request of the turn
/// that runs is sent to its owner, while there is room for all of them.
pub proof fn waiting_requests_get_their_card(s: State, tokens: Seq<Seq<char>>, i: int)
    requires
        0 <= i < tokens.len(),
        forall|j: int| 0 <= j < tokens.len() ==> s.interactions.contains_key(#[trigger] tokens[j]),
        s.running + s.spawned.len() + tokens.len() + 16 <= 128,
        s.next_panel + tokens.len() < u64::MAX,
    ensures
        ({
            let r = cards_dispatched(s, tokens);
            &&& r.interactions.contains_key(tokens[i])
            &&& r.interactions[tokens[i]].card_dispatched
            &&& exists|k: int|
                s.spawned.len() <= k < r.spawned.len() && (#[trigger] r.spawned[k]) is SendCard && r.spawned[k]->SendCard_token
                    == tokens[i] && r.spawned[k]->SendCard_chat == s.interactions[tokens[i]].owner.chat
        }),
    decreases tokens.len(),
{
    let next = card_dispatched(s, tokens[0]);
    let rest = tokens.drop_first();
    assert forall|j: int| 0 <= j < rest.len() implies next.interactions.contains_key(#[trigger] rest[j]) by {
        assert(rest[j] == tokens[j + 1]);
    }
    dispatching_keeps(next, rest, tokens[0], s.spawned.len() as int);
    if i > 0 {
        waiting_requests_get_their_card(next, rest, i - 1);
        assert(rest[i - 1] == tokens[i]);
        let r = cards_dispatched(s, tokens);
        let k = choose|k: int|
            next.spawned.len() <= k < r.spawned.len() && (#[trigger] r.spawned[k]) is SendCard && r.spawned[k]->SendCard_token
                == tokens[i] && r.spawned[k]->SendCard_chat == next.interactions[tokens[i]].owner.chat;
        assert(next.interactions[tokens[i]].owner.chat == s.interactions[tokens[i]].owner.chat);
        assert(s.spawned.len() <= k < r.spawned.len());
    } else {
        let r = cards_dispatched(s, tokens);
        let k = s.spawned.len() as int;
        assert(r.spawned[k] == next.spawned[k]);
        assert(r.spawned[k] is SendCard && r.spawned[k]->SendCard_token == tokens[0]);
    }
}

/// What was dispatched stays so while the rest follows.
proof fn dispatching_keeps(s: State, tokens: Seq<Seq<char>>, token: Seq<char>, k: int)
    requires
        s.interactions.contains_key(token),
        s.interactions[token].card_dispatched,
        0 <= k < s.spawned.len(),
    ensures
        ({
            let r = cards_dispatched(s, tokens);
            &&& r.interactions.contains_key(token)
            &&& r.interactions[token].card_dispatched
            &&& k < r.spawned.len()
            &&& r.spawned[k] == s.spawned[k]
        }),
    decreases tokens.len(),
{
    if tokens.len() > 0 && s.can_spawn(false) {
        if !s.interactions.contains_key(tokens[0]) {
            dispatching_keeps(s, tokens.drop_first(), token, k);
        } else if s.next_panel != u64::MAX {
            dispatching_keeps(card_dispatched(s, tokens[0]), tokens.drop_first(), token, k);
        }
    }
}

/// An approval that is due is refused: the agent is told, and so is the request's
/// owner; no button that decides it is left.
pub proof fn due_approvals_are_refused(s: State, token: Seq<char>)
    requires
        s.interactions.contains_key(token),
        s.interactions[token].kind is Approval,
        s.room > 0,
        s.running + s.spawned.len() < 128,
    ensures
        ({
            let r = expired_one(begin(s), token);
            &&& r.fault is None
            &&& r.state.spawned == s.spawned.push(JobText::Reply { pending: s.interactions[token], allow: false })
            &&& r.state.interactions == s.interactions.remove(token)
            &&& r.state.sent == s.sent.push(
                RequestText::Text(
                    s.interactions[token].owner.chat,
                    "审批已超时或任务已结束/停止，正在回传拒绝。"@,
                ),
            )
            &&& forall|k: Seq<char>| #[trigger]
                r.state.actions.contains_key(k) ==> r.state.actions[k].command != "/deny "@ + token
                    && r.state.actions[k].command != "/approve "@ + token
        }),
{
}

/// A panel that cannot be shown is told as text: its title, its body, and the
/// commands of its buttons. A plan's choices are never offered as text.
pub proof fn panels_fall_back_to_text(panel: PanelView, commands: Seq<(Seq<char>, Seq<char>)>, i: int)
    requires
        0 <= i < commands.len(),
    ensures
        begins_with(fallback_text(panel, commands), panel.title + "\n"@ + panel.body),
        begins_with(commands[i].1, "/plan-action "@) ==> fallback_text(panel, commands) == panel.title + "\n"@ + panel.body
            + "\n\n计划确认卡片发送失败，未开放实施；请继续讨论并重新生成计划。"@,
        (forall|j: int| 0 <= j < commands.len() ==> !begins_with((#[trigger] commands[j]).1, "/plan-action "@)) ==> fallback_text(
            panel,
            commands,
        ) == panel.title + "\n"@ + panel.body + "\n"@ + lines(command_list(commands)),
{
    let head = panel.title + "\n"@ + panel.body;
    assert(fallback_text(panel, commands).take(head.len() as int) =~= head);
    if begins_with(commands[i].1, "/plan-action "@) {
        assert(offers_plan(commands));
    }
}

/// A list that replaces another is queued for the message that it replaces, and
/// takes its turn there.
pub proof fn replacing_lists_wait_their_turn(s: State, source: Seq<char>, entries: Vec<ListedThread>, archived: bool, owner: OwnerText, now: u64)
    requires
        s.next_panel < u64::MAX,
        s.refreshes.len() < 128,
    ensures
        ({
            let r = after_listed(s, Some(source), owner, Ok(ListedContent::Threads { entries, archived }), now);
            &&& r.fault is None
            &&& r.state.spawned == s.spawned
            &&& r.state.refreshes.len() == s.refreshes.len() + 1
            &&& r.state.refreshes.drop_last() == s.refreshes
            &&& r.state.refreshes.last().source == source
            &&& r.state.refreshes.last().owner == owner
            &&& says_what_it_runs(
                r.state.refreshes.last().panel,
                r.state.refreshes.last().commands,
                list_entries_of(entries@, archived),
            )
        }),
{
    reveal(after_listed);
    let prefix = panel_prefix_text(s.epoch, (s.next_panel + 1) as u64);
    buttons_say_what_they_run(
        if archived {
            "已归档会话"@
        } else {
            "最近会话"@
        },
        threads_body(entries@, archived),
        list_entries_of(entries@, archived),
        prefix,
    );
    let r = after_listed(s, Some(source), owner, Ok(ListedContent::Threads { entries, archived }), now);
    assert(r.state.refreshes.drop_last() =~= s.refreshes);
}

} // verus!
