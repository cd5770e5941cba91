//! What users' decisions come to: a click on a delivered card carries out what
//! its button says, for the request, question or plan that the card is about.
use vstd::prelude::*;
use vstd::string::*;
use crate::cards::ActionText;
use crate::command::{command_of, decisions_are_read};
use crate::interactions::{
    answer_taken, chosen_options_are_recorded, in_hand, open_question, own_answers_wait_for_text, took_answer,
    typed_answers_are_recorded, ClaimText, OutcomeText, PendingText,
};
use crate::model::{DirectoryText, ExecutionMode, TaskText};
use crate::plans::{plan_entries, OfferText};
use crate::presentation::RequestText;
use crate::requests::{KindText, Question};
use crate::runtime::answers::{
    after_answer, after_approve, after_choice, after_plan_request, answer_hint, card_closed, clicked_answer, plan_taken, submitted,
    typed_answer,
};
use crate::runtime::errands::{plan_next, PlanErrand, PlanEvent, PlanText};
use crate::runtime::input::{after_click, after_command, after_input, after_message, after_text, keeps_offer};
use crate::runtime::state::{alive, begin, InputText, JobText, PlanChoice, State, Step};
use crate::sessions::{ChangeText, PreferenceChange};
use crate::text::{
    begins_with, blank, byte_count, decimal, decimal_is_digits, is_control, is_digit, is_space, trimmed_of_trimmed,
    written_numbers_are_read,
};
use crate::textmap::kept;
use crate::words::{first_word, four_fields_are_read, four_words, is_word, three_words, words};

verus! {

/// The directory that a user works in.
pub open spec fn working_directory(s: State, user: Seq<char>) -> DirectoryText {
    if s.directories.contains_key(user) {
        s.directories[user]
    } else {
        s.directory
    }
}

/// A click of an authorized user on a button that was delivered to that user,
/// in the chat and directory it was delivered to, in time, and with no task
/// started or ended since where the button depends on it.
pub open spec fn clicks(s: State, input: InputText, button: Seq<char>, source: Seq<char>, now: u64) -> bool {
    let a = s.actions[button];
    &&& input.id.len() > 0
    &&& input.user.len() > 0
    &&& input.chat.len() > 0
    &&& input.card == Some((button, source))
    &&& input.attachments.len() == 0
    &&& s.open_access || s.allowed.contains(input.user)
    &&& s.actions.contains_key(button)
    &&& a.user == input.user
    &&& a.chat == input.chat
    &&& a.directory.path == working_directory(s, input.user).path
    &&& a.source == source
    &&& now < a.deadline
    &&& a.stop_snapshot matches Some(seen) ==> seen == (
        s.next_task,
        match s.active {
            Some(x) => Some(x.spec.id),
            None => None,
        },
    )
}

/// A message of an authorized user that is neither a click nor has attachments,
/// and whose text has no white space at its ends.
pub open spec fn says(s: State, input: InputText, text: Seq<char>) -> bool {
    &&& input.id.len() > 0
    &&& input.user.len() > 0
    &&& input.chat.len() > 0
    &&& input.card is None
    &&& input.attachments.len() == 0
    &&& s.open_access || s.allowed.contains(input.user)
    &&& input.text == Some(text)
    &&& text.len() > 0
    &&& !is_space(text[0])
    &&& !is_space(text.last())
}

/// The request's turn is running for its task: it is not being stopped and has
/// not ended.
pub open spec fn turn_runs(s: State, p: PendingText) -> bool {
    s.active matches Some(a) && a.spec.id == p.task && !a.stopping && (a.gate matches Some(g) && !g.terminal && p.turn.epoch
        == g.epoch && p.turn.thread_id@ == g.thread && (g.turn matches Some(t) ==> t.thread_id@ == p.turn.thread_id@ && t.turn_id@
        == p.turn.turn_id@ && t.epoch == p.turn.epoch))
}

/// The claim that an input makes.
pub open spec fn claim_by(s: State, input: InputText, now: u64) -> ClaimText {
    ClaimText { user: input.user, chat: input.chat, directory: working_directory(s, input.user), now }
}

/// A click's command as an input of its own.
pub open spec fn command_input(input: InputText, button: Seq<char>, command: Seq<char>) -> InputText {
    InputText { card: None, id: "card:"@ + button, text: Some(command), ..input }
}

/// What is settled for an input that was taken.
pub open spec fn taken(receipts: Seq<(u64, bool)>, ack: Option<u64>) -> Seq<(u64, bool)> {
    match ack {
        Some(receipt) => receipts.push((receipt, true)),
        None => receipts,
    }
}

/// A text that differs from `prefix` somewhere does not begin with it.
pub proof fn begins_otherwise(text: Seq<char>, prefix: Seq<char>, i: int)
    requires
        0 <= i < prefix.len(),
        i < text.len() ==> text[i] != prefix[i],
    ensures
        !begins_with(text, prefix),
{
    if begins_with(text, prefix) {
        assert(text.take(prefix.len() as int)[i] == text[i]);
    }
}

/// A button does what its command would do if the user sent it, once: the
/// button is gone, and the command knows the card that it came from.
pub proof fn buttons_run_their_command(s: State, input: InputText, button: Seq<char>, source: Seq<char>, now: u64)
    requires
        clicks(s, input, button, source, now),
        s.actions[button].command != "/resume"@,
        s.actions[button].command != "/archived"@,
        s.actions[button].command != "/models"@,
    ensures
        after_input(s, input, now).1 is None,
        after_input(s, input, now).0 == after_text(
            State { actions: s.actions.remove(button), ..s },
            command_input(input, button, s.actions[button].command),
            Some(source),
            None,
            now,
        ),
{
    reveal(after_message);
    reveal(after_click);
}

proof fn routed(s: State, input: InputText, text: Seq<char>, source: Option<Seq<char>>, refresh: Option<Seq<char>>, now: u64)
    requires
        input.text == Some(text),
        text.len() > 0,
        !is_space(text[0]),
        !is_space(text.last()),
        s.files !is Delivering,
        !begins_with(text, "/plan-action "@),
        !begins_with(text, "/answer "@),
        !begins_with(text, "/answer-skip "@),
        !begins_with(text, "/choice "@),
    ensures
        after_text(s, input, source, refresh, now) == after_command(s, input, text, source, refresh, now),
{
    reveal(after_text);
    trimmed_of_trimmed(text);
}

proof fn alive_as_stated(s: State, p: PendingText)
    requires
        turn_runs(s, p),
    ensures
        alive(s.active, p),
{
}

proof fn approval_routed(s: State, input: InputText, token: Seq<char>, allow: bool, source: Option<Seq<char>>, now: u64)
    requires
        is_word(token),
        input.text == Some(if allow {
            "/approve "@ + token
        } else {
            "/deny "@ + token
        }),
        s.files !is Delivering,
    ensures
        after_text(s, input, source, None, now) == after_approve(State { plan_offer: None, ..s }, input, token, allow, source, now),
{
    let text = input.text->Some_0;
    reveal_strlit("/approve ");
    reveal_strlit("/deny ");
    reveal_strlit("/plan-action ");
    reveal_strlit("/answer ");
    reveal_strlit("/answer-skip ");
    reveal_strlit("/choice ");
    reveal_strlit("/");
    assert(text.last() == token.last());
    assert(!is_space(token[token.len() - 1]));
    begins_otherwise(text, "/plan-action "@, 1);
    begins_otherwise(text, "/answer "@, 2);
    begins_otherwise(text, "/answer-skip "@, 2);
    begins_otherwise(text, "/choice "@, 1);
    routed(s, input, text, source, None, now);
    decisions_are_read(token);
    reveal(after_command);
    assert(text.take(1) =~= "/"@);
    approval_is_no_query(text);
}

proof fn approval_is_no_query(text: Seq<char>)
    requires
        text.len() > 2,
        text[1] == 'd' || (text[1] == 'a' && text[2] == 'p'),
    ensures
        !keeps_offer(text),
{
    reveal_strlit("/status");
    reveal_strlit("/help");
    reveal_strlit("/stop");
    reveal_strlit("/model");
    reveal_strlit("/models");
    reveal_strlit("/resume");
    reveal_strlit("/archived");
    reveal_strlit("/plan");
    reveal_strlit("/cd");
}

/// What an approval's owner decides is what the agent is told. A click on the
/// live card of the request whose command is `/deny` makes one job, a reply that
/// refuses; one whose command is `/approve` makes one job, a reply that allows.
/// Either way the request is closed and nothing else is started or sent.
pub proof fn approvals_are_answered_as_decided(
    s: State,
    input: InputText,
    button: Seq<char>,
    source: Seq<char>,
    token: Seq<char>,
    now: u64,
)
    requires
        clicks(s, input, button, source, now),
        is_word(token),
        s.files !is Delivering,
        s.interactions.contains_key(token),
        s.interactions[token].kind is Approval,
        s.interactions[token].source == Some(source),
        in_hand(s.interactions[token], claim_by(s, input, now)),
        turn_runs(s, s.interactions[token]),
        s.running + s.spawned.len() < 128,
    ensures
        s.actions[button].command == "/deny "@ + token ==> ({
            let r = after_input(s, input, now).0;
            &&& r.fault is None
            &&& r.state.spawned == s.spawned.push(JobText::Reply { pending: s.interactions[token], allow: false })
            &&& r.state.interactions == s.interactions.remove(token)
            &&& r.state.sent == s.sent
            &&& r.state.receipts == taken(s.receipts, input.ack)
        }),
        s.actions[button].command == "/approve "@ + token ==> ({
            let r = after_input(s, input, now).0;
            &&& r.fault is None
            &&& r.state.spawned == s.spawned.push(JobText::Reply { pending: s.interactions[token], allow: true })
            &&& r.state.interactions == s.interactions.remove(token)
            &&& r.state.sent == s.sent
            &&& r.state.receipts == taken(s.receipts, input.ack)
        }),
{
    let command = s.actions[button].command;
    if command == "/deny "@ + token || command == "/approve "@ + token {
        reveal_strlit("/deny ");
        reveal_strlit("/approve ");
        reveal_strlit("/resume");
        reveal_strlit("/archived");
        reveal_strlit("/models");
        let allow = command == "/approve "@ + token;
        assert(("/deny "@ + token)[1] == 'd');
        assert(("/approve "@ + token)[2] == 'p');
        assert("/resume"@[1] == 'r' && "/archived"@[2] == 'r' && "/models"@[1] == 'm');
        buttons_run_their_command(s, input, button, source, now);
        let t = State { actions: s.actions.remove(button), ..s };
        let run = command_input(input, button, command);
        approval_routed(t, run, token, allow, Some(source), now);
        alive_as_stated(s, s.interactions[token]);
        reveal(after_approve);
        assert(("/deny "@ + token)[1] == 'd');
        assert(("/approve "@ + token)[1] == 'a');
    }
}

/// An approval that is typed, and not clicked, decides nothing.
pub proof fn typed_approvals_decide_nothing(s: State, input: InputText, token: Seq<char>, now: u64)
    requires
        is_word(token),
        says(s, input, "/approve "@ + token) || says(s, input, "/deny "@ + token),
        s.files !is Delivering,
    ensures
        after_input(s, input, now).0.state.spawned == s.spawned,
        after_input(s, input, now).0.state.interactions == s.interactions,
{
    reveal_strlit("/deny ");
    reveal_strlit("/approve ");
    reveal_strlit("/pair");
    let text = input.text->Some_0;
    let allow = text == "/approve "@ + token;
    assert(("/deny "@ + token)[1] == 'd');
    assert(("/approve "@ + token)[1] == 'a');
    decisions_are_read(token);
    not_pairing(text);
    reveal(after_message);
    approval_routed(s, input, token, allow, None, now);
    reveal(after_approve);
}

/// A command is no attempt to pair.
pub proof fn not_pairing(text: Seq<char>)
    requires
        command_of(text) is Some,
    ensures
        words(text).len() > 0 && words(text)[0] != "/pair"@,
{
    reveal_strlit("/pair");
    reveal_strlit("/approve");
    reveal_strlit("/deny");
    reveal_strlit("/cd-confirm");
    reveal_strlit("/model");
    reveal_strlit("/models");
    reveal_strlit("/plan");
    reveal_strlit("/resume");
    reveal_strlit("/archive");
    reveal_strlit("/archived");
    reveal_strlit("/unarchive");
    reveal_strlit("/cd");
    assert("/pair"@[2] == 'a' && "/plan"@[2] == 'l' && "/deny"@[2] == 'e');
}

/// A plan that its user may decide: in its chat and directory, in time.
pub open spec fn plan_open(s: State, o: OfferText, input: InputText, token: Seq<char>, now: u64) -> bool {
    &&& s.plan_offer == Some(o)
    &&& o.token == token
    &&& o.task.session.user == input.user
    &&& o.task.chat == input.chat
    &&& o.task.session.workspace.path == working_directory(s, input.user).path
    &&& now < o.deadline
}

/// Nothing runs, waits, is being admitted, changed or delivered, and there is
/// room for a user's job.
pub open spec fn idle(s: State) -> bool {
    &&& s.files !is Delivering
    &&& !s.admissions.mutating
    &&& s.admissions.active is None
    &&& s.admissions.queue.len() == 0
    &&& s.admissions.pending.len() == 0
    &&& s.running + s.spawned.len() + 16 < 128
}

proof fn plan_command_read(token: Seq<char>, word: Seq<char>, text: Seq<char>)
    requires
        is_word(token),
        is_word(word),
        text == "/plan-action "@ + token + " "@ + word,
    ensures
        words(text) == seq!["/plan-action"@, token, word],
        begins_with(text, "/plan-action "@),
        !is_space(text[0]),
        !is_space(text.last()),
        text.len() > 9,
        text[1] == 'p',
{
    reveal_strlit("/plan-action ");
    reveal_strlit("/plan-action");
    reveal_strlit(" ");
    assert("/plan-action "@ =~= "/plan-action"@ + " "@);
    assert(text =~= "/plan-action"@ + " "@ + token + " "@ + word);
    three_words("/plan-action"@, token, word);
    assert(text.take("/plan-action "@.len() as int) =~= "/plan-action "@);
    assert(text.last() == word.last());
    assert(!is_space(word[word.len() - 1]));
}

proof fn plan_routed(s: State, input: InputText, token: Seq<char>, word: Seq<char>, source: Option<Seq<char>>, now: u64)
    requires
        is_word(token),
        is_word(word),
        input.text == Some("/plan-action "@ + token + " "@ + word),
    ensures
        after_text(s, input, source, None, now) == after_plan_request(s, input, input.text->Some_0, source, now),
{
    let text = input.text->Some_0;
    plan_command_read(token, word, text);
    reveal(after_text);
    trimmed_of_trimmed(text);
}

/// The job that was started last.
pub open spec fn new_job(r: Step) -> JobText {
    r.state.spawned.last()
}

/// Each button of a plan's card does what it says. 继续讨论计划 makes a job
/// without a task that keeps to the plan; 确认并实施 and 清空上下文后实施 make a
/// job with a task in the plan's session and the user's chat, to be executed,
/// whose prompt holds the plan's text. The plan is decided by it and cannot be
/// decided again.
pub proof fn plans_are_decided_as_clicked(
    s: State,
    input: InputText,
    button: Seq<char>,
    source: Seq<char>,
    o: OfferText,
    token: Seq<char>,
    now: u64,
)
    requires
        clicks(s, input, button, source, now),
        is_word(token),
        plan_open(s, o, input, token, now),
        idle(s),
        s.next_task < u64::MAX,
        s.actions[button].command == "/plan-action "@ + token + " stay"@ || s.actions[button].command == "/plan-action "@ + token
            + " implement"@ || s.actions[button].command == "/plan-action "@ + token + " fresh"@,
    ensures
        ({
            let command = s.actions[button].command;
            let r = after_input(s, input, now).0;
            &&& r.fault is None
            &&& r.state.plan_offer is None
            &&& r.state.sent == s.sent
            &&& r.state.spawned.len() == s.spawned.len() + 1
            &&& r.state.spawned.drop_last() == s.spawned
            &&& new_job(r) is PlanAction
            &&& new_job(r)->PlanAction_session == o.task.session
            &&& new_job(r)->PlanAction_thread == o.thread
            &&& new_job(r)->PlanAction_input.user == input.user
            &&& new_job(r)->PlanAction_input.chat == input.chat
            &&& new_job(r)->PlanAction_input.ack == input.ack
            &&& command == "/plan-action "@ + token + " stay"@ ==> new_job(r)->choice == PlanChoice::Stay && new_job(r)->PlanAction_task is None
            &&& command == "/plan-action "@ + token + " implement"@ ==> new_job(r)->choice == PlanChoice::Implement
            &&& command == "/plan-action "@ + token + " fresh"@ ==> new_job(r)->choice == PlanChoice::Fresh
            &&& command != "/plan-action "@ + token + " stay"@ ==> ({
                &&& new_job(r)->PlanAction_task is Some
                &&& implements(new_job(r)->PlanAction_task->Some_0, o, input)
            })
        }),
{
    let command = s.actions[button].command;
    reveal_strlit(" stay");
    reveal_strlit(" implement");
    reveal_strlit(" fresh");
    reveal_strlit("stay");
    reveal_strlit("implement");
    reveal_strlit("fresh");
    reveal_strlit(" ");
    reveal_strlit("/resume");
    reveal_strlit("/archived");
    reveal_strlit("/models");
    let word = if command == "/plan-action "@ + token + " stay"@ {
        "stay"@
    } else if command == "/plan-action "@ + token + " implement"@ {
        "implement"@
    } else {
        "fresh"@
    };
    assert(" stay"@ =~= " "@ + "stay"@);
    assert(" implement"@ =~= " "@ + "implement"@);
    assert(" fresh"@ =~= " "@ + "fresh"@);
    assert(command =~= "/plan-action "@ + token + " "@ + word);
    let head = "/plan-action "@ + token;
    assert((head + " stay"@)[head.len() as int + 1] == 's');
    assert((head + " implement"@)[head.len() as int + 1] == 'i');
    assert((head + " fresh"@)[head.len() as int + 1] == 'f');
    assert("stay"@[0] == 's' && "implement"@[0] == 'i' && "fresh"@[0] == 'f');
    plan_command_read(token, word, command);
    assert("/resume"@.len() < 9 && "/models"@.len() < 9 && "/archived"@[1] == 'a');
    buttons_run_their_command(s, input, button, source, now);
    let t = State { actions: s.actions.remove(button), ..s };
    let run = command_input(input, button, command);
    plan_routed(t, run, token, word, Some(source), now);
    reveal(after_plan_request);
    let r = after_input(s, input, now).0;
    assert(words(command)[1] == token && words(command)[2] == word);
    assert(r.state.spawned.drop_last() =~= s.spawned);
    assert(begins_with("请实施以下已确认的计划：\n\n"@ + o.text, "请实施以下已确认的计划：\n\n"@)) by {
        assert(("请实施以下已确认的计划：\n\n"@ + o.text).take("请实施以下已确认的计划：\n\n"@.len() as int)
            =~= "请实施以下已确认的计划：\n\n"@);
    }
    if word != "stay"@ {
        let task = new_job(r)->PlanAction_task->Some_0;
        assert(task.prompt.skip("请实施以下已确认的计划：\n\n"@.len() as int) =~= o.text);
    }
}

/// The task carries out the plan: its prompt ends with the plan's text.
pub open spec fn implements(task: TaskText, o: OfferText, input: InputText) -> bool {
    &&& task.prompt.len() >= o.text.len()
    &&& task.prompt.skip(task.prompt.len() - o.text.len()) == o.text
    &&& begins_with(task.prompt, "请实施以下已确认的计划：\n\n"@)
    &&& task.mode == ExecutionMode::Execute
    &&& task.session == o.task.session
    &&& task.chat == input.chat
}

/// The buttons of a plan's card, by what they say and what they run.
pub proof fn plan_buttons_say_what_they_do(token: Seq<char>)
    ensures
        plan_entries(token) == seq![
            ("确认并实施"@, "/plan-action "@ + token + " implement"@),
            ("清空上下文后实施"@, "/plan-action "@ + token + " fresh"@),
            ("继续讨论计划"@, "/plan-action "@ + token + " stay"@),
        ],
{
}

/// Carrying out a choice: only 继续讨论 saves the planning mode as on, only a
/// fresh start clears the session, and it does so after the mode was saved.
pub proof fn choices_are_carried_out(errand: PlanErrand, setting: PreferenceChange, thread: Seq<char>, stage: PlanText, event: PlanEvent)
    requires
        call_ensures(PlanErrand::setting, (&errand,), setting),
    ensures
        errand.choice == PlanChoice::Stay ==> setting@ == ChangeText::Plan(true),
        errand.choice != PlanChoice::Stay ==> setting@ == ChangeText::Plan(false),
        stage !is Clearing && plan_next(thread, errand.choice, stage, event) is Clearing ==> errand.choice == PlanChoice::Fresh
            && stage is Setting && (event matches PlanEvent::Saved(Ok(_))),
        stage is Setting && (event matches PlanEvent::Saved(Ok(_))) ==> plan_next(thread, errand.choice, stage, event) == (
        if errand.choice == PlanChoice::Fresh {
            PlanText::Clearing
        } else {
            PlanText::Ended(Ok(true))
        }),
        stage is Clearing && (event matches PlanEvent::Cleared(Ok(_))) ==> plan_next(thread, errand.choice, stage, event)
            == PlanText::Ended(Ok(true)),
        stage !is Ended && (plan_next(thread, errand.choice, stage, event) matches PlanText::Ended(Ok(true))) ==> {
            ||| stage is Clearing && (event matches PlanEvent::Cleared(Ok(_)))
            ||| stage is Setting && errand.choice != PlanChoice::Fresh && (event matches PlanEvent::Saved(Ok(_)))
        },
{
}

proof fn choice_command_read(token: Seq<char>, index: nat, choice: Seq<char>, text: Seq<char>)
    requires
        is_word(token),
        is_word(choice),
        text == "/choice "@ + token + " "@ + decimal(index) + " "@ + choice,
    ensures
        words(text) == seq!["/choice"@, token, decimal(index), choice],
        begins_with(text, "/choice "@),
        !begins_with(text, "/plan-action "@),
        !begins_with(text, "/answer "@),
        !begins_with(text, "/answer-skip "@),
        !is_space(text[0]),
        !is_space(text.last()),
        text.len() > 9,
        text[1] == 'c',
{
    reveal_strlit("/choice ");
    reveal_strlit("/choice");
    reveal_strlit("/plan-action ");
    reveal_strlit("/answer ");
    reveal_strlit("/answer-skip ");
    reveal_strlit(" ");
    decimal_is_word(index);
    assert("/choice "@ =~= "/choice"@ + " "@);
    assert(text =~= "/choice"@ + " "@ + token + " "@ + decimal(index) + " "@ + choice);
    four_words("/choice"@, token, decimal(index), choice);
    assert(text.take("/choice "@.len() as int) =~= "/choice "@);
    begins_otherwise(text, "/plan-action "@, 1);
    begins_otherwise(text, "/answer "@, 1);
    begins_otherwise(text, "/answer-skip "@, 1);
    assert(text.last() == choice.last());
    assert(!is_space(choice[choice.len() - 1]));
}

/// A number is written as one word.
pub proof fn decimal_is_word(n: nat)
    ensures
        is_word(decimal(n)),
{
    decimal_is_digits(n);
    assert forall|i: int| 0 <= i < decimal(n).len() implies !is_space(#[trigger] decimal(n)[i]) by {
        assert(is_digit(decimal(n)[i]));
    }
}

/// The click is on the live card of an open question, which is `q`.
pub open spec fn asks_on_card(s: State, input: InputText, token: Seq<char>, source: Seq<char>, q: Question, now: u64) -> bool {
    &&& s.files !is Delivering
    &&& s.interactions.contains_key(token)
    &&& s.interactions[token].source == Some(source)
    &&& in_hand(s.interactions[token], claim_by(s, input, now))
    &&& turn_runs(s, s.interactions[token])
    &&& open_question(s.interactions[token], q)
    &&& s.interactions[token].question <= usize::MAX
    &&& s.running + s.spawned.len() < 128
}

/// The question is the last of its group.
pub open spec fn is_last(p: PendingText) -> bool {
    p.kind matches KindText::Questions { questions, .. } && p.question + 1 == questions.len()
}

/// `answer` was taken for question `q` of the request under `token`: where it
/// was the last question the group is submitted, once, with all its answers,
/// else the group stays and its other answers are kept.
pub open spec fn answer_went_in(s: State, r: Step, token: Seq<char>, q: Question, answer: Seq<char>) -> bool {
    let e = s.interactions[token];
    &&& r.fault is None
    &&& is_last(e) ==> {
        &&& r.state.interactions == s.interactions.remove(token)
        &&& r.state.spawned.len() == s.spawned.len() + 1
        &&& r.state.spawned.drop_last() == s.spawned
        &&& new_job(r) is Reply
        &&& took_answer(e, new_job(r)->pending, q, answer)
    }
    &&& !is_last(e) ==> {
        &&& r.state.interactions.contains_key(token)
        &&& r.state.interactions.remove(token) == s.interactions.remove(token)
        &&& r.state.spawned == s.spawned
        &&& took_answer(e, r.state.interactions[token], q, answer)
    }
}

proof fn answer_settles(
    s: State,
    t: Step,
    token: Seq<char>,
    q: Question,
    answer: Seq<char>,
    after: (Map<Seq<char>, PendingText>, OutcomeText),
    ack: Option<u64>,
)
    requires
        answer_taken(s.interactions, token, q, answer, after),
        t.fault is None,
        t.state.interactions == after.0,
        t.state.spawned == s.spawned,
        t.state.running == s.running,
        s.running + s.spawned.len() < 128,
    ensures
        answer_went_in(s, submitted(t, after.1).settle(ack, true), token, q, answer),
{
    let r = submitted(t, after.1).settle(ack, true);
    if is_last(s.interactions[token]) {
        assert(r.state.spawned.drop_last() =~= s.spawned);
    }
}

/// Clicking the button that numbers an option answers the question with the
/// label of that option.
pub proof fn clicked_options_are_the_answer(
    s: State,
    input: InputText,
    button: Seq<char>,
    source: Seq<char>,
    token: Seq<char>,
    q: Question,
    n: nat,
    now: u64,
)
    requires
        clicks(s, input, button, source, now),
        is_word(token),
        asks_on_card(s, input, token, source, q, now),
        n < q.options@.len(),
        n <= usize::MAX,
        s.actions[button].command == "/choice "@ + token + " "@ + decimal(s.interactions[token].question) + " "@ + decimal(n),
    ensures
        answer_went_in(s, after_input(s, input, now).0, token, q, q.options@[n as int].label@),
        after_input(s, input, now).0.state.sent == s.sent,
        after_input(s, input, now).0.state.receipts == taken(s.receipts, input.ack),
{
    let command = s.actions[button].command;
    let index = s.interactions[token].question;
    decimal_is_word(n);
    choice_command_read(token, index, decimal(n), command);
    reveal_strlit("/resume");
    reveal_strlit("/archived");
    reveal_strlit("/models");
    assert("/resume"@.len() < 9 && "/models"@.len() < 9 && "/archived"@[1] == 'a');
    buttons_run_their_command(s, input, button, source, now);
    let t = State { actions: s.actions.remove(button), ..s };
    let run = command_input(input, button, command);
    trimmed_of_trimmed(command);
    reveal(after_text);
    reveal(after_choice);
    written_numbers_are_read(index);
    assert(words(command)[1] == token && words(command)[2] == decimal(index) && words(command)[3] == decimal(n));
    let live = |p: PendingText| alive(t.active, p);
    assert(live(s.interactions[token]));
    chosen_options_are_recorded(s.interactions, token, claim_by(s, input, now), source, q, n, live);
    let after = clicked_answer(t, run, command, Some(source), now);
    let closed = card_closed(
        State { interactions: after.0, ..t },
        token,
        source,
        "本题已记录，其他按钮已失效。"@,
    );
    answer_settles(s, begin(closed), token, q, q.options@[n as int].label@, after, input.ack);
}

/// Choosing to answer in one's own words, where the question takes them, makes
/// that question wait for a text and answers nothing yet. The user is told how
/// to send it.
pub proof fn own_answers_are_asked_for(
    s: State,
    input: InputText,
    button: Seq<char>,
    source: Seq<char>,
    token: Seq<char>,
    q: Question,
    now: u64,
)
    requires
        clicks(s, input, button, source, now),
        is_word(token),
        asks_on_card(s, input, token, source, q, now),
        q.other || q.options@.len() == 0 || q.secret,
        s.room > 0,
        s.actions[button].command == "/choice "@ + token + " "@ + decimal(s.interactions[token].question) + " other"@,
    ensures
        ({
            let r = after_input(s, input, now).0;
            &&& r.fault is None
            &&& r.state.interactions == s.interactions.insert(
                token,
                PendingText { waiting_text: true, ..s.interactions[token] },
            )
            &&& r.state.spawned == s.spawned
            &&& r.state.sent.len() == s.sent.len() + 1
            &&& r.state.sent.last() is Text
            &&& r.state.sent.last()->Text_0 == input.chat
            &&& begins_with(
                r.state.sent.last()->Text_1,
                "请发送 /answer "@ + token + " "@ + decimal(s.interactions[token].question) + " <答案>"@,
            )
        }),
{
    let command = s.actions[button].command;
    let index = s.interactions[token].question;
    reveal_strlit("other");
    reveal_strlit(" other");
    reveal_strlit(" ");
    assert(" other"@ =~= " "@ + "other"@);
    assert(command =~= "/choice "@ + token + " "@ + decimal(index) + " "@ + "other"@);
    choice_command_read(token, index, "other"@, command);
    reveal_strlit("/resume");
    reveal_strlit("/archived");
    reveal_strlit("/models");
    assert("/resume"@.len() < 9 && "/models"@.len() < 9 && "/archived"@[1] == 'a');
    buttons_run_their_command(s, input, button, source, now);
    let t = State { actions: s.actions.remove(button), ..s };
    trimmed_of_trimmed(command);
    reveal(after_text);
    reveal(after_choice);
    written_numbers_are_read(index);
    assert(words(command)[1] == token && words(command)[2] == decimal(index) && words(command)[3] == "other"@);
    let live = |p: PendingText| alive(t.active, p);
    assert(live(s.interactions[token]));
    own_answers_wait_for_text(s.interactions, token, claim_by(s, input, now), source, q, live);
    hint_names_the_question(token, index);
}

proof fn hint_names_the_question(token: Seq<char>, question: nat)
    ensures
        begins_with(
            answer_hint(token, question),
            "请发送 /answer "@ + token + " "@ + decimal(question) + " <答案>"@,
        ),
{
    let tail = " <答案>\n仍可使用 /stop 停止任务；答案不会在确认回复或日志中回显，飞书聊天会保留你发送的内容。"@;
    reveal_strlit(" <答案>");
    reveal_strlit(" <答案>\n仍可使用 /stop 停止任务；答案不会在确认回复或日志中回显，飞书聊天会保留你发送的内容。");
    let head = "请发送 /answer "@ + token + " "@ + decimal(question);
    assert(tail.take(5) =~= " <答案>"@);
    assert((head + tail).take((head + " <答案>"@).len() as int) =~= head + " <答案>"@);
}

/// A typed answer to a question that waits for one is taken as it was typed,
/// with its blanks, and the user is told.
pub proof fn typed_answers_are_the_answer(s: State, input: InputText, token: Seq<char>, q: Question, answer: Seq<char>, now: u64)
    requires
        is_word(token),
        says(s, input, "/answer "@ + token + " "@ + decimal(s.interactions[token].question) + " "@ + answer),
        s.files !is Delivering,
        s.interactions.contains_key(token),
        s.interactions[token].waiting_text,
        in_hand(s.interactions[token], claim_by(s, input, now)),
        turn_runs(s, s.interactions[token]),
        open_question(s.interactions[token], q),
        s.interactions[token].question <= usize::MAX,
        s.running + s.spawned.len() < 128,
        s.room > 0,
        !blank(answer),
        byte_count(answer) <= 16384,
        forall|i: int| 0 <= i < answer.len() ==> !is_control(#[trigger] answer[i]) || answer[i] == '\n' || answer[i] == '\t',
    ensures
        answer_went_in(s, after_input(s, input, now).0, token, q, answer),
        after_input(s, input, now).0.state.sent == s.sent.push(RequestText::Text(input.chat, "答案已记录。"@)),
        after_input(s, input, now).0.state.receipts == taken(s.receipts, input.ack),
{
    let text = input.text->Some_0;
    let index = s.interactions[token].question;
    reveal_strlit("/answer ");
    reveal_strlit("/answer");
    reveal_strlit("/plan-action ");
    reveal_strlit("/answer-skip ");
    reveal_strlit("/pair");
    reveal_strlit("/");
    reveal_strlit(" ");
    assert("/answer "@ =~= "/answer"@ + " "@);
    assert(text =~= "/answer"@ + " "@ + token + " "@ + decimal(index) + " "@ + answer);
    decimal_is_word(index);
    written_numbers_are_read(index);
    four_fields_are_read("/answer"@, token, decimal(index), answer);
    begins_otherwise(text, "/plan-action "@, 1);
    begins_otherwise(text, "/answer-skip "@, 7);
    assert(text.take("/answer "@.len() as int) =~= "/answer "@);
    first_word("/answer"@, " "@ + token + " "@ + decimal(index) + " "@ + answer);
    assert(text =~= "/answer"@ + (" "@ + token + " "@ + decimal(index) + " "@ + answer));
    assert(words(text)[0] == "/answer"@);
    assert("/answer"@.len() != "/pair"@.len());
    trimmed_of_trimmed(text);
    reveal(after_message);
    reveal(after_text);
    reveal(after_answer);
    let live = |p: PendingText| alive(s.active, p);
    assert(live(s.interactions[token]));
    typed_answers_are_recorded(s.interactions, token, claim_by(s, input, now), q, answer, live);
    let after = typed_answer(s, input, text, None, now);
    let told = begin(State { interactions: after.0, ..s }).tell(input.chat, "答案已记录。"@);
    answer_settles(s, told, token, q, answer, after, input.ack);
}

/// The click cannot use this button: it is unknown, somebody else's, of another
/// chat, directory or card, too late, or overtaken by a task.
pub open spec fn dead_button(s: State, input: InputText, button: Seq<char>, source: Seq<char>, now: u64) -> bool {
    let a = s.actions[button];
    ||| !s.actions.contains_key(button)
    ||| a.user != input.user
    ||| a.chat != input.chat
    ||| a.directory.path != working_directory(s, input.user).path
    ||| a.source != source
    ||| now >= a.deadline
    ||| a.stop_snapshot matches Some(seen) && seen.0 != s.next_task
}

/// A button that cannot be used does nothing but say so.
pub proof fn dead_buttons_do_nothing(s: State, input: InputText, button: Seq<char>, source: Seq<char>, now: u64)
    requires
        input.id.len() > 0,
        input.user.len() > 0,
        input.chat.len() > 0,
        input.card == Some((button, source)),
        dead_button(s, input, button, source, now),
        s.room > 0,
        s.open_access || s.allowed.contains(input.user),
        input.attachments.len() == 0,
    ensures
        ({
            let r = after_input(s, input, now).0;
            &&& r.fault is None
            &&& r.state.sent == s.sent.push(
                RequestText::Text(input.chat, "卡片操作无效、已使用或已过期；请重新发送 /help 或 /cd <路径>。"@),
            )
            &&& r.state.receipts == taken(s.receipts, input.ack)
            &&& r.state == (State { sent: r.state.sent, receipts: r.state.receipts, room: r.state.room, ..s })
        }),
{
    reveal(after_message);
    reveal(after_click);
}

/// A click that may not decide an approval starts nothing, and the request stays
/// open: it was raised for somebody else, is not an approval, came on another
/// card, is due, or its turn is over.
pub proof fn undecided_approvals_stay_open(
    s: State,
    input: InputText,
    button: Seq<char>,
    source: Seq<char>,
    token: Seq<char>,
    now: u64,
)
    requires
        clicks(s, input, button, source, now),
        is_word(token),
        s.files !is Delivering,
        s.actions[button].command == "/approve "@ + token || s.actions[button].command == "/deny "@ + token,
        !s.interactions.contains_key(token) || s.interactions[token].kind !is Approval || s.interactions[token].source
            != Some(source) || !in_hand(s.interactions[token], claim_by(s, input, now)) || s.active is None
            || s.active->Some_0.stopping || s.active->Some_0.spec.id != s.interactions[token].task,
    ensures
        after_input(s, input, now).0.state.spawned == s.spawned,
        after_input(s, input, now).0.state.interactions == s.interactions,
{
    let command = s.actions[button].command;
    reveal_strlit("/deny ");
    reveal_strlit("/approve ");
    reveal_strlit("/resume");
    reveal_strlit("/archived");
    reveal_strlit("/models");
    let allow = command == "/approve "@ + token;
    assert(("/deny "@ + token)[1] == 'd');
    assert(("/approve "@ + token)[1] == 'a' && ("/approve "@ + token)[2] == 'p');
    assert("/resume"@[1] == 'r' && "/archived"@[2] == 'r' && "/models"@[1] == 'm');
    buttons_run_their_command(s, input, button, source, now);
    let t = State { actions: s.actions.remove(button), ..s };
    let run = command_input(input, button, command);
    approval_routed(t, run, token, allow, Some(source), now);
    reveal(after_approve);
}

/// A choice about a plan that is not open, or that comes while work is under way,
/// starts nothing.
pub proof fn closed_plans_start_nothing(
    s: State,
    input: InputText,
    button: Seq<char>,
    source: Seq<char>,
    token: Seq<char>,
    word: Seq<char>,
    now: u64,
)
    requires
        clicks(s, input, button, source, now),
        is_word(token),
        is_word(word),
        s.actions[button].command == "/plan-action "@ + token + " "@ + word,
        s.plan_offer is None || s.plan_offer->Some_0.token != token || s.plan_offer->Some_0.task.session.user != input.user
            || s.plan_offer->Some_0.task.chat != input.chat || now >= s.plan_offer->Some_0.deadline || s.files is Delivering
            || s.admissions.mutating || s.admissions.active is Some || s.admissions.queue.len() > 0 || (word != "implement"@ && word
            != "fresh"@ && word != "stay"@),
    ensures
        after_input(s, input, now).0.state.spawned == s.spawned,
        after_input(s, input, now).0.state.plan_offer == s.plan_offer,
        after_input(s, input, now).0.state.admissions == s.admissions,
{
    let command = s.actions[button].command;
    reveal_strlit("/resume");
    reveal_strlit("/archived");
    reveal_strlit("/models");
    plan_command_read(token, word, command);
    assert("/resume"@.len() < 9 && "/models"@.len() < 9 && "/archived"@[1] == 'a');
    buttons_run_their_command(s, input, button, source, now);
    let t = State { actions: s.actions.remove(button), ..s };
    let run = command_input(input, button, command);
    plan_routed(t, run, token, word, Some(source), now);
    reveal(after_plan_request);
    assert(words(command)[1] == token && words(command)[2] == word);
}

/// A list that is asked for from a list takes that card's place: the card's
/// buttons are void, and the new list goes to the same message.
pub proof fn lists_replace_lists(s: State, input: InputText, button: Seq<char>, source: Seq<char>, now: u64)
    requires
        clicks(s, input, button, source, now),
        s.actions[button].command == "/resume"@ || s.actions[button].command == "/archived"@ || s.actions[button].command
            == "/models"@,
        s.views.contains_key(source),
        s.views[source].title == "最近会话"@ || s.views[source].title == "已归档会话"@ || s.views[source].title == "可用模型"@,
    ensures
        ({
            let rest = State {
                actions: kept(s.actions.remove(button), |k: Seq<char>, a: ActionText| a.source != source),
                views: s.views.remove(source),
                ..s
            };
            after_input(s, input, now).0 == after_text(
                rest,
                command_input(input, button, s.actions[button].command),
                Some(source),
                Some(source),
                now,
            )
        }),
{
    reveal(after_message);
    reveal(after_click);
}

/// Once an approval is decided, no button that decides it is left, on any card.
pub proof fn decided_approvals_leave_no_buttons(
    s: State,
    input: InputText,
    button: Seq<char>,
    source: Seq<char>,
    token: Seq<char>,
    now: u64,
    other: Seq<char>,
)
    requires
        clicks(s, input, button, source, now),
        is_word(token),
        s.files !is Delivering,
        s.interactions.contains_key(token),
        s.interactions[token].kind is Approval,
        s.interactions[token].source == Some(source),
        in_hand(s.interactions[token], claim_by(s, input, now)),
        turn_runs(s, s.interactions[token]),
        s.actions[button].command == "/deny "@ + token || s.actions[button].command == "/approve "@ + token,
    ensures
        ({
            let left = after_input(s, input, now).0.state.actions;
            &&& left.contains_key(other) ==> s.actions.contains_key(other) && left[other] == s.actions[other]
            &&& left.contains_key(other) ==> left[other].command != "/deny "@ + token && left[other].command != "/approve "@ + token
            &&& s.actions.contains_key(other) && other != button && s.actions[other].command.len() > 0
                && s.actions[other].command[0] == '/' && s.actions[other].command.len() < 7 ==> left.contains_key(other)
        }),
{
    let command = s.actions[button].command;
    reveal_strlit("/deny ");
    reveal_strlit("/approve ");
    reveal_strlit("/choice ");
    reveal_strlit("/resume");
    reveal_strlit("/archived");
    reveal_strlit("/models");
    reveal_strlit(" ");
    let allow = command == "/approve "@ + token;
    assert(("/deny "@ + token)[1] == 'd');
    assert(("/approve "@ + token)[1] == 'a' && ("/approve "@ + token)[2] == 'p');
    assert("/resume"@[1] == 'r' && "/archived"@[2] == 'r' && "/models"@[1] == 'm');
    buttons_run_their_command(s, input, button, source, now);
    let t = State { actions: s.actions.remove(button), ..s };
    let run = command_input(input, button, command);
    approval_routed(t, run, token, allow, Some(source), now);
    alive_as_stated(s, s.interactions[token]);
    reveal(after_approve);
    assert(("/deny "@ + token).len() >= 7 && ("/approve "@ + token).len() >= 7 && ("/choice "@ + token + " "@).len() >= 7);
}

/// Once a plan is decided, no button of its card is left.
pub proof fn decided_plans_leave_no_buttons(s: State, input: InputText, choice: PlanChoice, source: Seq<char>, other: Seq<char>)
    requires
        s.plan_offer is Some,
    ensures
        ({
            let left = plan_taken(s, input, choice, source).state.actions;
            &&& left.contains_key(other) <==> s.actions.contains_key(other) && s.actions[other].source != source
            &&& left.contains_key(other) ==> left[other] == s.actions[other]
        }),
{
}

} // verus!
