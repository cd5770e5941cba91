//! Decisions of users: plan choices, answers to questions and approvals. Each
//! is bound to its owner, its card and the turn that asked for it.
use vstd::prelude::*;
use vstd::string::*;
use crate::cards::{answers, noted, ActionText, CardToken};
use crate::interactions::{
    approvable, button_answer, decides, text_answer, Choice, Claim, ClaimText, OutcomeText, Pending, PendingText, TextOutcome,
};
use crate::model::{same_path, DirectoryText, ExecutionMode, TaskSpec, TaskText};
use crate::plans::OfferText;
use crate::runtime::flow::replied;
use crate::runtime::limits;
use crate::runtime::state::{
    alive, begin, fault_of, is_alive, opt_active, Fault, FileDelivery, Input, InputText, Job, JobText, PlanChoice, Runtime,
    RuntimeError, State, Step,
};
use crate::runtime::tokens::{self, task_id_text};
use crate::scheduler::Admissions;
use crate::text::{
    begins_with, blank, byte_count, byte_len, chars_of, control, decimal, decimal_text, is_blank, is_control, opt, parse_usize,
    parsed, same, starts_with, texts,
};
use crate::textmap::kept;
use crate::words::{cut_four, four_fields, split_words, words};

verus! {

/// The user is told, and the input is taken; where the user cannot be told,
/// the input is rejected.
pub open spec fn answered_with(s: Step, input: InputText, text: Seq<char>) -> Step {
    s.tell(input.chat, text).settle(input.ack, true)
}

/// No task runs, waits or is being admitted, and nobody else changes sessions.
pub open spec fn can_mutate(a: Admissions) -> bool {
    !a.mutating && a.active is None && a.load() == 0
}

/// The choice that a word names.
pub open spec fn plan_choice(word: Seq<char>) -> Option<PlanChoice> {
    if word == "implement"@ {
        Some(PlanChoice::Implement)
    } else if word == "fresh"@ {
        Some(PlanChoice::Fresh)
    } else if word == "stay"@ {
        Some(PlanChoice::Stay)
    } else {
        None
    }
}

/// The offer may be decided: by its user, in its chat and directory, in time.
pub open spec fn offer_open(o: OfferText, token: Seq<char>, input: InputText, current: DirectoryText, now: u64) -> bool {
    &&& o.token == token
    &&& o.task.session.user == input.user
    &&& o.task.chat == input.chat
    &&& same_path(o.task.session.workspace, current)
    &&& now < o.deadline
}

/// The choice that a click on the plan's card makes, if it may make one.
pub open spec fn chosen_plan(s: State, input: InputText, text: Seq<char>, source: Option<Seq<char>>, now: u64) -> Option<PlanChoice> {
    let w = words(text);
    if w.len() == 3 && source is Some && (s.plan_offer matches Some(o) && offer_open(o, w[1], input, s.current(input.user), now)) {
        plan_choice(w[2])
    } else {
        None
    }
}

/// The task that implements a plan.
pub open spec fn plan_task(s: State, o: OfferText, input: InputText, id: Seq<char>) -> TaskText {
    TaskText {
        id,
        session: o.task.session,
        chat: input.chat,
        prompt: "请实施以下已确认的计划：\n\n"@ + o.text,
        model: None,
        mode: ExecutionMode::Execute,
    }
}

/// A plan's choice is taken once: its card is void, and the session-mutation
/// gate stays closed until the choice is carried out. Where the task cannot be
/// numbered, the input is rejected and the mutation gate opens again.
pub open spec fn plan_taken(s: State, input: InputText, choice: PlanChoice, source: Seq<char>) -> Step {
    let o = s.plan_offer->Some_0;
    let t = begin(
        State {
            admissions: Admissions { mutating: true, ..s.admissions },
            plan_offer: None,
            actions: kept(s.actions, |k: Seq<char>, a: ActionText| a.source != source),
            views: noted(s.views, source, "已收到选择；实际结果请查看单独回复。"@),
            ..s
        },
    );
    if s.next_task == u64::MAX {
        t.release().fail(Fault::Capacity("任务标识耗尽"@)).settle(input.ack, false)
    } else {
        let next = (s.next_task + 1) as u64;
        Step { state: State { next_task: next, ..t.state }, ..t }.spawn(
            JobText::PlanAction {
                input,
                session: o.task.session,
                thread: o.thread,
                choice,
                task: if choice == PlanChoice::Stay {
                    None
                } else {
                    Some(plan_task(s, o, input, task_id_text(s.epoch, next)))
                },
            },
        )
    }
}

#[verifier::opaque]
pub open spec fn after_plan_request(s: State, input: InputText, text: Seq<char>, source: Option<Seq<char>>, now: u64) -> Step {
    match chosen_plan(s, input, text, source, now) {
        None => answered_with(begin(s), input, "计划操作无效或已过期，请重新生成计划并使用原卡片。"@),
        Some(choice) => if s.files is Delivering || !can_mutate(s.admissions) {
            answered_with(begin(s), input, "有任务或成果交付进行中，请空闲后重新生成计划。"@)
        } else if !s.can_spawn(false) {
            answered_with(begin(s), input, "系统繁忙，请稍后重新生成计划。"@)
        } else {
            plan_taken(s, input, choice, source->Some_0)
        },
    }
}

/// A character that an answer must not hold.
pub open spec fn forbidden(c: char) -> bool {
    is_control(c) && c != '\n' && c != '\t'
}

/// An answer that may be recorded: not blank, not too long, no control
/// characters beside line feeds and tabs. A skip carries no answer.
pub open spec fn answer_ok(answer: Seq<char>, skip: bool) -> bool {
    if skip {
        answer.len() == 0
    } else {
        &&& !blank(answer)
        &&& byte_count(answer) <= limits::ANSWER_BYTES
        &&& forall|i: int| 0 <= i < answer.len() ==> !forbidden(#[trigger] answer[i])
    }
}

pub open spec fn claim_of(s: State, input: InputText, now: u64) -> ClaimText {
    ClaimText { user: input.user, chat: input.chat, directory: s.current(input.user), now }
}

/// What a typed answer does to the open requests.
pub open spec fn typed_answer(s: State, input: InputText, text: Seq<char>, source: Option<Seq<char>>, now: u64) -> (Map<Seq<char>, PendingText>, OutcomeText) {
    let skip = begins_with(text, "/answer-skip "@);
    let (_, token, index, answer) = four_fields(text);
    if source is None && input.attachments.len() == 0 && answer_ok(answer, skip) && parsed(index) is Some {
        text_answer(
            s.interactions,
            token,
            claim_of(s, input, now),
            parsed(index)->Some_0,
            answer,
            skip,
            |p: PendingText| alive(s.active, p),
        )
    } else {
        (s.interactions, OutcomeText::Invalid)
    }
}

/// A completed group is submitted.
pub open spec fn submitted(s: Step, outcome: OutcomeText) -> Step {
    match outcome {
        OutcomeText::Recorded { complete: true, finished: Some(p) } => replied(s, p, false),
        _ => s,
    }
}

#[verifier::opaque]
pub open spec fn after_answer(s: State, input: InputText, text: Seq<char>, source: Option<Seq<char>>, now: u64) -> Step {
    let (m, outcome) = typed_answer(s, input, text, source, now);
    let t = begin(State { interactions: m, ..s });
    if outcome is Recorded {
        submitted(t.tell(input.chat, "答案已记录。"@), outcome).settle(input.ack, true)
    } else {
        answered_with(
            t,
            input,
            "答案未接收：请先点击当前题的自行回答按钮，使用提示里的完整命令；答案须非空且不超过 16 KiB。"@,
        )
    }
}

/// The number that a word stands for; what is no number stands for none.
pub open spec fn number_or_none(word: Seq<char>) -> nat {
    match parsed(word) {
        Some(n) => n,
        None => usize::MAX as nat,
    }
}

/// What a click on a question's card does to the open requests.
pub open spec fn clicked_answer(s: State, input: InputText, text: Seq<char>, source: Option<Seq<char>>, now: u64) -> (Map<Seq<char>, PendingText>, OutcomeText) {
    let w = words(text);
    if w.len() == 4 && source is Some {
        button_answer(
            s.interactions,
            w[1],
            claim_of(s, input, now),
            source->Some_0,
            number_or_none(w[2]),
            w[3],
            |p: PendingText| alive(s.active, p),
        )
    } else {
        (s.interactions, OutcomeText::Invalid)
    }
}

/// The request's card is void and says why.
pub open spec fn card_closed(s: State, token: Seq<char>, source: Seq<char>, note: Seq<char>) -> State {
    State {
        actions: kept(s.actions, |k: Seq<char>, a: ActionText| !answers(a.command, token)),
        views: noted(s.views, source, note),
        ..s
    }
}

pub open spec fn answer_hint(token: Seq<char>, question: nat) -> Seq<char> {
    "请发送 /answer "@ + token + " "@ + decimal(question)
        + " <答案>\n仍可使用 /stop 停止任务；答案不会在确认回复或日志中回显，飞书聊天会保留你发送的内容。"@
}

/// What follows from a click on a question's card.
pub open spec fn choice_settled(s: State, input: InputText, token: Seq<char>, source: Seq<char>, outcome: OutcomeText) -> Step {
    match outcome {
        OutcomeText::Recorded { .. } => submitted(
            begin(card_closed(s, token, source, "本题已记录，其他按钮已失效。"@)),
            outcome,
        ).settle(input.ack, true),
        OutcomeText::WaitingText => answered_with(
            begin(card_closed(s, token, source, "已进入自行回答，请按单独提示发送答案。"@)),
            input,
            answer_hint(token, s.interactions[token].question),
        ),
        OutcomeText::Invalid => answered_with(begin(s), input, "问答操作无效或已过期，请使用当前问题卡片。"@),
    }
}

#[verifier::opaque]
pub open spec fn after_choice(s: State, input: InputText, text: Seq<char>, source: Option<Seq<char>>, now: u64) -> Step {
    let (m, outcome) = clicked_answer(s, input, text, source, now);
    choice_settled(State { interactions: m, ..s }, input, words(text)[1], source->Some_0, outcome)
}

/// The click may decide the approval.
pub open spec fn may_approve(s: State, input: InputText, token: Seq<char>, source: Option<Seq<char>>, now: u64) -> bool {
    source is Some && approvable(
        s.interactions,
        token,
        claim_of(s, input, now),
        source->Some_0,
        |p: PendingText| alive(s.active, p),
    )
}

#[verifier::opaque]
pub open spec fn after_approve(s: State, input: InputText, token: Seq<char>, allow: bool, source: Option<Seq<char>>, now: u64) -> Step {
    if may_approve(s, input, token, source, now) {
        replied(
            begin(
                card_closed(
                    State { interactions: s.interactions.remove(token), ..s },
                    token,
                    source->Some_0,
                    "审批选择已接收，回传结果请查看单独回复。"@,
                ),
            ),
            s.interactions[token],
            allow,
        ).settle(input.ack, true)
    } else {
        answered_with(begin(s), input, "审批无效或已过期；请仅使用当前任务的审批卡片按钮。"@)
    }
}

fn render_hint(token: &str, question: usize) -> (r: String)
    ensures
        r@ == answer_hint(token@, question as nat),
{
    let mut hint = "请发送 /answer ".to_owned();
    hint.append(token);
    hint.append(" ");
    hint.append(decimal_text(question as u64).as_str());
    hint.append(" <答案>\n仍可使用 /stop 停止任务；答案不会在确认回复或日志中回显，飞书聊天会保留你发送的内容。");
    hint
}

fn read_choice(word: &str) -> (r: Option<PlanChoice>)
    ensures
        r == plan_choice(word@),
{
    if same(word, "implement") {
        Some(PlanChoice::Implement)
    } else if same(word, "fresh") {
        Some(PlanChoice::Fresh)
    } else if same(word, "stay") {
        Some(PlanChoice::Stay)
    } else {
        None
    }
}

fn check_answer(answer: &str, skip: bool) -> (r: bool)
    ensures
        r == answer_ok(answer@, skip),
{
    if skip {
        return answer.is_empty();
    }
    if is_blank(answer) || byte_len(answer) > limits::ANSWER_BYTES {
        return false;
    }
    let chars = chars_of(answer);
    let mut i: usize = 0;
    while i < chars.len()
        invariant
            i <= chars@.len(),
            chars@ == answer@,
            forall|j: int| 0 <= j < i ==> !forbidden(#[trigger] chars@[j]),
        decreases chars.len() - i,
    {
        if control(chars[i]) && chars[i] != '\n' && chars[i] != '\t' {
            assert(forbidden(answer@[i as int]));
            return false;
        }
        i = i + 1;
    }
    true
}

impl Runtime {
    /// Tells the user and takes the input.
    pub fn answer_with(&mut self, input: Input, text: &str) -> (r: Result<(), RuntimeError>)
        requires
            old(self).wf(),
        ensures
            final(self).at(answered_with(begin(old(self)@), input@, text@)),
            fault_of(r) == answered_with(begin(old(self)@), input@, text@).fault,
    {
        let told = self.tell(input.chat.as_str(), text);
        self.conclude(input.ack, true, told)
    }

    fn choose_plan(&self, input: &Input, text: &str, clicked: bool, now: u64) -> (r: Option<PlanChoice>)
        requires
            self.wf(),
        ensures
            r == chosen_plan(
                self@,
                input@,
                text@,
                if clicked {
                    Some(Seq::empty())
                } else {
                    None
                },
                now,
            ),
    {
        let w = split_words(text);
        proof {
            assert(texts(w@).len() == w@.len());
            assert forall|i: int| 0 <= i < w@.len() implies words(text@)[i] == (#[trigger] w@[i])@ by {
                assert(texts(w@)[i] == w@[i]@);
            }
        }
        if w.len() != 3 || !clicked {
            return None;
        }
        let current = self.current(input.user.as_str());
        let open = match &self.cards.plan_offer {
            Some(offer) => same(offer.token.as_str(), w[1].as_str()) && same(
                offer.task.session.user.as_str(),
                input.user.as_str(),
            ) && same(offer.task.chat.as_str(), input.chat.as_str()) && offer.task.session.workspace.same(&current) && now
                < offer.deadline,
            None => false,
        };
        if !open {
            return None;
        }
        read_choice(w[2].as_str())
    }

    fn take_plan(&mut self, input: Input, choice: PlanChoice, source: &str) -> (r: Result<(), RuntimeError>)
        requires
            old(self).wf(),
            can_mutate(old(self)@.admissions),
            old(self)@.can_spawn(false),
            old(self)@.plan_offer is Some,
        ensures
            final(self).at(plan_taken(old(self)@, input@, choice, source@)),
            fault_of(r) == plan_taken(old(self)@, input@, choice, source@).fault,
    {
        self.tasks.scheduler.begin_session_mutation();
        let offer = match self.cards.plan_offer.take() {
            Some(offer) => offer,
            None => {
                return Err(RuntimeError::Internal("缺少计划"));
            },
        };
        self.cards.actions.invalidate_source(source);
        self.cards.views.note(source, "已收到选择；实际结果请查看单独回复。");
        if self.tasks.next_task == u64::MAX {
            self.release();
            return self.conclude(input.ack, false, Err(RuntimeError::Capacity("任务标识耗尽")));
        }
        self.tasks.next_task = self.tasks.next_task + 1;
        let task: Option<TaskSpec> = if choice == PlanChoice::Stay {
            None
        } else {
            let mut prompt = "请实施以下已确认的计划：\n\n".to_owned();
            prompt.append(offer.text.as_str());
            Some(
                TaskSpec {
                    id: tokens::task_id(self.settings.epoch, self.tasks.next_task),
                    session: offer.task.session.clone(),
                    chat: input.chat.clone(),
                    prompt,
                    model: None,
                    mode: ExecutionMode::Execute,
                },
            )
        };
        self.spawn(Job::PlanAction { input, session: offer.task.session, thread: offer.thread, choice, task });
        Ok(())
    }

    pub fn handle_plan_action(&mut self, input: Input, text: &str, source: Option<String>, now: u64) -> (r: Result<(), RuntimeError>)
        requires
            old(self).wf(),
        ensures
            final(self).at(after_plan_request(old(self)@, input@, text@, opt(source), now)),
            fault_of(r) == after_plan_request(old(self)@, input@, text@, opt(source), now).fault,
    {
        proof {
            reveal(after_plan_request);
        }
        let choice = self.choose_plan(&input, text, source.is_some(), now);
        match (choice, source) {
            (Some(choice), Some(source)) => {
                let delivering = match &self.tasks.files {
                    FileDelivery::Delivering => true,
                    _ => false,
                };
                if delivering || !self.tasks.scheduler.begin_session_mutation() {
                    return self.answer_with(input, "有任务或成果交付进行中，请空闲后重新生成计划。");
                }
                self.tasks.scheduler.end_session_mutation();
                if !self.can_spawn(false) {
                    return self.answer_with(input, "系统繁忙，请稍后重新生成计划。");
                }
                self.take_plan(input, choice, source.as_str())
            },
            _ => self.answer_with(input, "计划操作无效或已过期，请重新生成计划并使用原卡片。"),
        }
    }

    fn submit(&mut self, finished: Option<Pending>, complete: bool) -> (r: Result<(), RuntimeError>)
        requires
            old(self).wf(),
        ensures
            final(self).at(
                submitted(
                    begin(old(self)@),
                    OutcomeText::Recorded { complete, finished: crate::interactions::opt_pending(finished) },
                ),
            ),
            fault_of(r) == submitted(
                begin(old(self)@),
                OutcomeText::Recorded { complete, finished: crate::interactions::opt_pending(finished) },
            ).fault,
    {
        match finished {
            Some(pending) => if complete {
                self.spawn_reply(pending, false)
            } else {
                Ok(())
            },
            None => Ok(()),
        }
    }

    fn record_text(&mut self, input: &Input, text: &str, clicked: bool, now: u64) -> (r: TextOutcome)
        requires
            old(self).wf(),
        ensures
            ({
                let source: Option<Seq<char>> = if clicked {
                    Some(Seq::empty())
                } else {
                    None
                };
                &&& r@ == typed_answer(old(self)@, input@, text@, source, now).1
                &&& final(self)@ == (State {
                    interactions: typed_answer(old(self)@, input@, text@, source, now).0,
                    ..old(self)@
                })
                &&& final(self).wf()
            }),
    {
        let ghost s0 = self@;
        let skip = starts_with(text, "/answer-skip ");
        let (_, token, index, answer) = cut_four(text);
        if clicked || input.attachments.len() != 0 || !check_answer(answer.as_str(), skip) {
            return TextOutcome::Invalid;
        }
        match parse_usize(index.as_str()) {
            None => TextOutcome::Invalid,
            Some(n) => {
                let current = self.current(input.user.as_str());
                let claim = Claim { user: input.user.as_str(), chat: input.chat.as_str(), directory: &current, now };
                let active = &self.tasks.active;
                let f = |e: &Pending| -> (r: bool)
                    ensures
                        r == alive(opt_active(*active), e@),
                { is_alive(active, e) };
                proof {
                    assert(decides(f, |p: PendingText| alive(s0.active, p)));
                }
                self.approvals.interactions.answer_text(&CardToken::new(token), claim, n, answer.as_str(), skip, f)
            },
        }
    }

    pub fn handle_answer(&mut self, input: Input, text: &str, source: Option<String>, now: u64) -> (r: Result<(), RuntimeError>)
        requires
            old(self).wf(),
        ensures
            final(self).at(after_answer(old(self)@, input@, text@, opt(source), now)),
            fault_of(r) == after_answer(old(self)@, input@, text@, opt(source), now).fault,
    {
        proof {
            reveal(after_answer);
        }
        match self.record_text(&input, text, source.is_some(), now) {
            TextOutcome::Recorded { complete, finished } => {
                let done = match self.tell(input.chat.as_str(), "答案已记录。") {
                    Ok(()) => self.submit(finished, complete),
                    Err(e) => Err(e),
                };
                self.conclude(input.ack, true, done)
            },
            TextOutcome::Invalid => self.answer_with(
                input,
                "答案未接收：请先点击当前题的自行回答按钮，使用提示里的完整命令；答案须非空且不超过 16 KiB。",
            ),
        }
    }

    fn record_choice(&mut self, input: &Input, token: &CardToken, source: &str, index: usize, choice: &str, now: u64) -> (r: Choice)
        requires
            old(self).wf(),
        ensures
            ({
                let after = button_answer(
                    old(self)@.interactions,
                    token@,
                    claim_of(old(self)@, input@, now),
                    source@,
                    index as nat,
                    choice@,
                    |p: PendingText| alive(old(self)@.active, p),
                );
                &&& r@ == after.1
                &&& final(self)@ == (State { interactions: after.0, ..old(self)@ })
                &&& final(self).wf()
            }),
    {
        let ghost s0 = self@;
        let current = self.current(input.user.as_str());
        let claim = Claim { user: input.user.as_str(), chat: input.chat.as_str(), directory: &current, now };
        let active = &self.tasks.active;
        let f = |e: &Pending| -> (r: bool)
            ensures
                r == alive(opt_active(*active), e@),
        { is_alive(active, e) };
        proof {
            assert(decides(f, |p: PendingText| alive(s0.active, p)));
        }
        self.approvals.interactions.answer_choice(token, claim, source, index, choice, f)
    }

    /// Voids a request's card and says why.
    fn close_card(&mut self, token: &str, source: &str, note: &str)
        requires
            old(self).wf(),
        ensures
            final(self)@ == card_closed(old(self)@, token@, source@, note@),
            final(self).wf(),
    {
        self.cards.actions.invalidate_approval(token);
        self.cards.views.note(source, note);
    }

    pub fn handle_choice(&mut self, input: Input, text: &str, source: Option<String>, now: u64) -> (r: Result<(), RuntimeError>)
        requires
            old(self).wf(),
        ensures
            final(self).at(after_choice(old(self)@, input@, text@, opt(source), now)),
            fault_of(r) == after_choice(old(self)@, input@, text@, opt(source), now).fault,
    {
        proof {
            reveal(after_choice);
        }
        let w = split_words(text);
        proof {
            assert(texts(w@).len() == w@.len());
            assert forall|i: int| 0 <= i < w@.len() implies words(text@)[i] == (#[trigger] w@[i])@ by {
                assert(texts(w@)[i] == w@[i]@);
            }
        }
        let invalid = "问答操作无效或已过期，请使用当前问题卡片。";
        let source = match source {
            Some(source) => source,
            None => {
                return self.answer_with(input, invalid);
            },
        };
        if w.len() != 4 {
            return self.answer_with(input, invalid);
        }
        let index: usize = match parse_usize(w[2].as_str()) {
            Some(n) => n,
            None => usize::MAX,
        };
        let token = CardToken::new(w[1].clone());
        let choice = self.record_choice(&input, &token, source.as_str(), index, w[3].as_str(), now);
        self.settle_choice(input, &token, source.as_str(), choice)
    }

    fn settle_choice(&mut self, input: Input, token: &CardToken, source: &str, choice: Choice) -> (r: Result<(), RuntimeError>)
        requires
            old(self).wf(),
            choice is WaitingText ==> old(self)@.interactions.contains_key(token@),
        ensures
            final(self).at(choice_settled(old(self)@, input@, token@, source@, choice@)),
            fault_of(r) == choice_settled(old(self)@, input@, token@, source@, choice@).fault,
    {
        match choice {
            Choice::Recorded { complete, finished } => {
                self.close_card(token.as_str(), source, "本题已记录，其他按钮已失效。");
                let done = self.submit(finished, complete);
                self.conclude(input.ack, true, done)
            },
            Choice::WaitingText => {
                self.close_card(token.as_str(), source, "已进入自行回答，请按单独提示发送答案。");
                let question: usize = match self.approvals.interactions.get(token) {
                    Some(pending) => pending.question,
                    None => 0,
                };
                self.answer_with(input, render_hint(token.as_str(), question).as_str())
            },
            Choice::Invalid => self.answer_with(input, "问答操作无效或已过期，请使用当前问题卡片。"),
        }
    }

    fn take_approval(&mut self, input: &Input, token: &CardToken, source: &str, now: u64) -> (r: Option<Pending>)
        requires
            old(self).wf(),
        ensures
            final(self).wf(),
            r is Some <==> may_approve(old(self)@, input@, token@, Some(source@), now),
            match r {
                Some(p) => p@ == old(self)@.interactions[token@] && final(self)@ == (State {
                    interactions: old(self)@.interactions.remove(token@),
                    ..old(self)@
                }),
                None => final(self)@ == old(self)@,
            },
    {
        let ghost s0 = self@;
        let current = self.current(input.user.as_str());
        let claim = Claim { user: input.user.as_str(), chat: input.chat.as_str(), directory: &current, now };
        let active = &self.tasks.active;
        let f = |e: &Pending| -> (r: bool)
            ensures
                r == alive(opt_active(*active), e@),
        { is_alive(active, e) };
        proof {
            assert(decides(f, |p: PendingText| alive(s0.active, p)));
        }
        self.approvals.interactions.approve(token, claim, source, f)
    }

    pub fn handle_approve(&mut self, input: Input, token: String, allow: bool, source: Option<String>, now: u64) -> (r: Result<(), RuntimeError>)
        requires
            old(self).wf(),
        ensures
            final(self).at(after_approve(old(self)@, input@, token@, allow, opt(source), now)),
            fault_of(r) == after_approve(old(self)@, input@, token@, allow, opt(source), now).fault,
    {
        proof {
            reveal(after_approve);
        }
        let token = CardToken::new(token);
        let refusal = "审批无效或已过期；请仅使用当前任务的审批卡片按钮。";
        let source = match source {
            Some(source) => source,
            None => {
                return self.answer_with(input, refusal);
            },
        };
        match self.take_approval(&input, &token, source.as_str(), now) {
            Some(pending) => {
                self.close_card(token.as_str(), source.as_str(), "审批选择已接收，回传结果请查看单独回复。");
                let done = self.spawn_reply(pending, allow);
                self.conclude(input.ack, true, done)
            },
            None => self.answer_with(input, refusal),
        }
    }
}

} // verus!
