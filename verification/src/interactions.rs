//! The single interaction manager for approval and question flows.
//!
//! One owner per entry: the same user, chat and directory that received the
//! card, bound to the still-running turn that raised the request. Entries are
//! consumed before any asynchronous write, so an uncertain reply can never
//! re-enable an approval. Expired or stale entries still receive their
//! required denial. Vendor request IDs and answer text are never stored
//! beyond the pending answers the user explicitly provided.
use vstd::prelude::*;
use vstd::string::*;
use crate::cards::{CardToken, Owner, OwnerText};
use crate::lists::selection_agrees;
use crate::model::{same_path, Directory, DirectoryText};
use crate::ports::{same_turn, BackendError, TurnRef};
use crate::requests::{AgentReply, AgentRequest, Answers, KindText, Question, RequestKind};
use crate::runtime::limits;
use crate::text::{
    blank, decimal, decimal_is_digits, is_blank, is_digit, opt, parse_usize, parsed, same, texts, written_numbers_are_read, Texts,
};
use crate::textmap::{kept, ordered, TextMap};

verus! {

/// A request of the agent that waits for its user.
pub struct Pending {
    pub waiting_text: bool,
    pub answers: Answers,
    pub question: usize,
    pub request: AgentRequest,
    /// The transport's single-use reply slot.
    pub reply: u64,
    pub task: String,
    pub owner: Owner,
    pub deadline: u64,
    /// True once the current question or approval card has been dispatched.
    /// It remains true after delivery to prevent duplicate cards and resets
    /// only when a question advances to the next step.
    pub card_dispatched: bool,
    pub source: Option<String>,
}

/// A pending request by its texts.
pub struct PendingText {
    pub waiting_text: bool,
    pub answers: Map<Seq<char>, Seq<Seq<char>>>,
    pub question: nat,
    pub turn: TurnRef,
    pub item: Seq<char>,
    pub kind: KindText,
    pub reply: u64,
    pub task: Seq<char>,
    pub owner: OwnerText,
    pub deadline: u64,
    pub card_dispatched: bool,
    pub source: Option<Seq<char>>,
}

impl View for Pending {
    type V = PendingText;

    open spec fn view(&self) -> PendingText {
        PendingText {
            waiting_text: self.waiting_text,
            answers: self.answers@,
            question: self.question as nat,
            turn: self.request.turn,
            item: self.request.item@,
            kind: self.request.kind@,
            reply: self.reply,
            task: self.task@,
            owner: self.owner@,
            deadline: self.deadline,
            card_dispatched: self.card_dispatched,
            source: opt(self.source),
        }
    }
}

/// The presenting user's identity for one interaction attempt.
pub struct Claim<'a> {
    pub user: &'a str,
    pub chat: &'a str,
    pub directory: &'a Directory,
    pub now: u64,
}

/// A claim by its texts.
pub struct ClaimText {
    pub user: Seq<char>,
    pub chat: Seq<char>,
    pub directory: DirectoryText,
    pub now: u64,
}

impl<'a> View for Claim<'a> {
    type V = ClaimText;

    open spec fn view(&self) -> ClaimText {
        ClaimText { user: self.user@, chat: self.chat@, directory: self.directory@, now: self.now }
    }
}

impl PendingText {
    /// The questions of a question group.
    pub open spec fn questions(self) -> Option<Seq<Question>> {
        match self.kind {
            KindText::Questions { questions: q, .. } => Some(q),
            KindText::Approval(_) => None,
        }
    }

    /// Ownership covers the delivering user, chat, directory and deadline.
    pub open spec fn owned_by(self, c: ClaimText) -> bool {
        &&& self.owner.user == c.user
        &&& self.owner.chat == c.chat
        &&& same_path(self.owner.directory, c.directory)
        &&& c.now < self.deadline
    }

    /// A question of the group waits for its answer.
    pub open spec fn asks(self) -> bool {
        self.questions() matches Some(q) && self.question < q.len()
    }

    /// The question that waits for its answer.
    pub open spec fn asked(self) -> Question {
        self.questions()->Some_0[self.question as int]
    }

    /// The next answer completes the group.
    pub open spec fn at_last_question(self) -> bool {
        self.questions() matches Some(q) && self.question + 1 == q.len()
    }

    /// The answer is recorded. The next question has no card yet and waits for
    /// no text.
    pub open spec fn answered(self, answer: Seq<char>) -> PendingText {
        PendingText {
            waiting_text: false,
            answers: self.answers.insert(self.asked().id@, seq![answer]),
            question: self.question + 1,
            card_dispatched: false,
            source: None,
            ..self
        }
    }

    /// Every question of the group has an answer, and no answer is blank.
    pub open spec fn fully_answered(self) -> bool {
        match self.kind {
            KindText::Approval(_) => true,
            KindText::Questions { questions: q, .. } => q.len() > 0 && forall|i: int|
                0 <= i < q.len() ==> answered_in(#[trigger] q[i], self.answers),
        }
    }
}

/// The question has an answer, and none of its texts is blank.
pub open spec fn answered_in(q: Question, answers: Map<Seq<char>, Seq<Seq<char>>>) -> bool {
    &&& answers.contains_key(q.id@)
    &&& answers[q.id@].len() > 0
    &&& forall|i: int| 0 <= i < answers[q.id@].len() ==> !blank(#[trigger] answers[q.id@][i])
}

/// The question list of a request, when it is a question group.
pub fn questions_of(request: &AgentRequest) -> (r: Option<&Vec<Question>>)
    ensures
        match r {
            Some(q) => (request.kind@ matches KindText::Questions { questions, .. } && questions == q@),
            None => request.kind is Approval,
        },
{
    match &request.kind {
        RequestKind::Questions { questions, .. } => Some(questions),
        RequestKind::Approval(_) => None,
    }
}

impl Pending {
    fn owned_by(&self, claim: &Claim<'_>) -> (r: bool)
        ensures
            r == self@.owned_by(claim@),
    {
        same(self.owner.user.as_str(), claim.user) && same(self.owner.chat.as_str(), claim.chat)
            && self.owner.directory.same(claim.directory) && claim.now < self.deadline
    }

    pub fn is_questions(&self) -> (r: bool)
        ensures
            r == (self@.kind is Questions),
    {
        match &self.request.kind {
            RequestKind::Questions { .. } => true,
            RequestKind::Approval(_) => false,
        }
    }

    fn from_source(&self, source: &str) -> (r: bool)
        ensures
            r == (self@.source == Some(source@)),
    {
        match &self.source {
            Some(s) => same(s.as_str(), source),
            None => false,
        }
    }

    /// Records the answer to the question that waits for it.
    fn record(&mut self, answer: String)
        requires
            old(self)@.asks(),
        ensures
            final(self)@ == old(self)@.answered(answer@),
    {
        let id: String = match &self.request.kind {
            RequestKind::Questions { questions, .. } => {
                let total: usize = questions.len();
                assert(self.question < total);
                questions[self.question].id.clone()
            },
            RequestKind::Approval(_) => String::new(),
        };
        self.answers.insert(id, Texts::one(answer));
        self.question = self.question + 1;
        self.waiting_text = false;
        self.card_dispatched = false;
        self.source = None;
    }
}

/// Outcome of a text answer: recorded (possibly completing the group) or
/// invalid and rejected. A completed group returns its consumed entry so the
/// caller can submit the answers.
pub enum TextOutcome {
    Recorded { complete: bool, finished: Option<Pending> },
    Invalid,
}

/// Outcome of a button answer: waiting for free text, recorded (possibly
/// completing the group), or invalid and rejected. A completed group returns
/// its consumed entry so the caller can submit the answers.
pub enum Choice {
    WaitingText,
    Recorded { complete: bool, finished: Option<Pending> },
    Invalid,
}

/// Outcomes by their texts.
pub enum OutcomeText {
    WaitingText,
    Recorded { complete: bool, finished: Option<PendingText> },
    Invalid,
}

pub open spec fn opt_pending(p: Option<Pending>) -> Option<PendingText> {
    match p {
        Some(p) => Some(p@),
        None => None,
    }
}

impl View for TextOutcome {
    type V = OutcomeText;

    open spec fn view(&self) -> OutcomeText {
        match self {
            TextOutcome::Recorded { complete, finished } => OutcomeText::Recorded {
                complete: *complete,
                finished: opt_pending(*finished),
            },
            TextOutcome::Invalid => OutcomeText::Invalid,
        }
    }
}

impl View for Choice {
    type V = OutcomeText;

    open spec fn view(&self) -> OutcomeText {
        match self {
            Choice::WaitingText => OutcomeText::WaitingText,
            Choice::Recorded { complete, finished } => OutcomeText::Recorded {
                complete: *complete,
                finished: opt_pending(*finished),
            },
            Choice::Invalid => OutcomeText::Invalid,
        }
    }
}

/// Result of an asynchronous reply write. An uncertain result must stop the
/// run: the protocol state cannot distinguish "applied" from "not applied".
#[derive(Debug)]
pub struct ReplyOutcome {
    pub questions: bool,
    pub chat: String,
    pub allow: bool,
    pub result: Result<(), BackendError>,
    /// False when the group was incomplete and nothing was written.
    pub submitted: bool,
}

/// The test `f` accepts exactly the requests that satisfy `p`.
pub open spec fn decides<F: Fn(&Pending) -> bool>(f: F, p: spec_fn(PendingText) -> bool) -> bool {
    forall|e: &Pending, b: bool| #[trigger] call_ensures(f, (e,), b) ==> b == p(e@)
}

/// A request for this turn item is open.
pub open spec fn item_open(m: Map<Seq<char>, PendingText>, turn: TurnRef, item: Seq<char>) -> bool {
    exists|k: Seq<char>| #[trigger] m.contains_key(k) && same_turn(m[k].turn, turn) && m[k].item == item
}

/// The request's turn item is free: no request for it is open.
#[verifier::opaque]
pub open spec fn item_free(m: Map<Seq<char>, PendingText>, pending: PendingText) -> bool {
    !item_open(m, pending.turn, pending.item)
}

/// No two open requests share a turn item.
pub open spec fn distinct_items(m: Map<Seq<char>, PendingText>) -> bool {
    forall|j: Seq<char>, k: Seq<char>|
        #[trigger] m.contains_key(j) && #[trigger] m.contains_key(k) && same_turn(m[j].turn, m[k].turn) && m[j].item == m[k].item
            ==> j == k
}

/// A new request may be registered under the token.
pub open spec fn can_register(m: Map<Seq<char>, PendingText>, token: Seq<char>, turn: TurnRef, item: Seq<char>) -> bool {
    &&& token.len() > 0
    &&& m.dom().len() < limits::INTERACTIONS
    &&& !m.contains_key(token)
    &&& !item_open(m, turn, item)
}

/// The requests of a turn item are due.
pub open spec fn revoked(m: Map<Seq<char>, PendingText>, turn: TurnRef, item: Seq<char>, now: u64) -> Map<Seq<char>, PendingText> {
    m.map_values(
        |e: PendingText|
            if same_turn(e.turn, turn) && e.item == item {
                PendingText { deadline: now, ..e }
            } else {
                e
            },
    )
}

/// The registry after a request was offered under the token. A second request
/// for an open turn item is ambiguous: it is refused and revokes the first, by
/// a deadline that no claim meets.
pub open spec fn offered(m: Map<Seq<char>, PendingText>, token: Seq<char>, pending: PendingText) -> Map<Seq<char>, PendingText> {
    if item_open(m, pending.turn, pending.item) {
        revoked(m, pending.turn, pending.item, 0)
    } else if can_register(m, token, pending.turn, pending.item) {
        m.insert(token, pending)
    } else {
        m
    }
}

/// Tokens of requests that are due or no longer alive, in token order.
pub open spec fn stale(m: Map<Seq<char>, PendingText>, now: u64, alive: spec_fn(PendingText) -> bool) -> Seq<Seq<char>> {
    ordered(m.dom()).filter(|k: Seq<char>| now >= m[k].deadline || !alive(m[k]))
}

/// Tokens of requests that want a card, in token order.
pub open spec fn unsent(m: Map<Seq<char>, PendingText>, valid: spec_fn(PendingText) -> bool) -> Seq<Seq<char>> {
    ordered(m.dom()).filter(|k: Seq<char>| !m[k].card_dispatched && valid(m[k]))
}

/// Tokens of requests that are due, in token order.
pub open spec fn due(m: Map<Seq<char>, PendingText>, now: u64) -> Seq<Seq<char>> {
    ordered(m.dom()).filter(|k: Seq<char>| now >= m[k].deadline)
}

/// The registry and outcome after an answer was recorded for `token`.
pub open spec fn recorded(m: Map<Seq<char>, PendingText>, token: Seq<char>, next: PendingText, complete: bool) -> (Map<Seq<char>, PendingText>, OutcomeText) {
    if complete {
        (m.remove(token), OutcomeText::Recorded { complete, finished: Some(next) })
    } else {
        (m.insert(token, next), OutcomeText::Recorded { complete, finished: None })
    }
}

/// What a text answer does. Early, late, foreign or non-waiting answers are
/// rejected, and so is every attempt to skip.
pub open spec fn text_answer(
    m: Map<Seq<char>, PendingText>,
    token: Seq<char>,
    claim: ClaimText,
    index: nat,
    answer: Seq<char>,
    skip: bool,
    live: spec_fn(PendingText) -> bool,
) -> (Map<Seq<char>, PendingText>, OutcomeText) {
    let e = m[token];
    if m.contains_key(token) && e.waiting_text && index == e.question && e.owned_by(claim) && !skip && live(e) && e.asks() {
        recorded(m, token, e.answered(answer), e.at_last_question())
    } else {
        (m, OutcomeText::Invalid)
    }
}

/// What a button answer does. The click must come from the card that the
/// entry last delivered; `other` asks for free text where the question takes
/// it, anything else must number one of its options.
pub open spec fn button_answer(
    m: Map<Seq<char>, PendingText>,
    token: Seq<char>,
    claim: ClaimText,
    source: Seq<char>,
    index: nat,
    choice: Seq<char>,
    live: spec_fn(PendingText) -> bool,
) -> (Map<Seq<char>, PendingText>, OutcomeText) {
    let e = m[token];
    if !(m.contains_key(token) && e.owned_by(claim) && e.source == Some(source) && index == e.question && live(e) && e.asks()) {
        (m, OutcomeText::Invalid)
    } else {
        let q = e.asked();
        if choice == "other"@ {
            if q.other || q.options@.len() == 0 || q.secret {
                (m.insert(token, PendingText { waiting_text: true, ..e }), OutcomeText::WaitingText)
            } else {
                (m, OutcomeText::Invalid)
            }
        } else {
            match parsed(choice) {
                Some(n) => if n < q.options@.len() {
                    recorded(m, token, e.answered(q.options@[n as int].label@), e.at_last_question())
                } else {
                    (m, OutcomeText::Invalid)
                },
                None => (m, OutcomeText::Invalid),
            }
        }
    }
}

/// An approval that this click may decide.
pub open spec fn approvable(
    m: Map<Seq<char>, PendingText>,
    token: Seq<char>,
    claim: ClaimText,
    source: Seq<char>,
    live: spec_fn(PendingText) -> bool,
) -> bool {
    &&& m.contains_key(token)
    &&& m[token].kind is Approval
    &&& m[token].source == Some(source)
    &&& m[token].owned_by(claim)
    &&& live(m[token])
}

/// Open requests by their token.
pub struct Interactions {
    entries: TextMap<Pending>,
}

impl Default for Interactions {
    fn default() -> (r: Self)
        ensures
            r.wf(),
            r@ == Map::<Seq<char>, PendingText>::empty(),
    {
        Interactions { entries: TextMap::new() }
    }
}

/// Pending requests by their texts.
pub open spec fn pending_texts(v: Seq<Pending>) -> Seq<PendingText> {
    v.map_values(|p: Pending| p@)
}

/// Tokens by their texts.
pub open spec fn token_texts(v: Seq<CardToken>) -> Seq<Seq<char>> {
    v.map_values(|t: CardToken| t@)
}

impl Interactions {
    pub closed spec fn view(&self) -> Map<Seq<char>, PendingText> {
        self.entries@
    }

    pub closed spec fn wf(&self) -> bool {
        &&& self.entries.wf()
        &&& self.entries@.dom().len() <= limits::INTERACTIONS
        &&& distinct_items(self.entries@)
    }

    /// No two open requests share a turn item.
    pub proof fn items_are_distinct(&self)
        requires
            self.wf(),
        ensures
            distinct_items(self@),
    {
    }

    /// A bounded number of requests is open.
    pub proof fn is_bounded(&self)
        requires
            self.wf(),
        ensures
            self@.dom().finite(),
            self@.dom().len() <= limits::INTERACTIONS,
            ordered(self@.dom()).len() == self@.dom().len(),
    {
        self.entries.keys_are_ordered();
    }

    pub fn len(&self) -> (n: usize)
        requires
            self.wf(),
        ensures
            n == self@.dom().len(),
            n <= limits::INTERACTIONS,
    {
        self.entries.len()
    }

    pub fn is_empty(&self) -> (r: bool)
        requires
            self.wf(),
        ensures
            r == (self@.dom().len() == 0),
    {
        self.entries.len() == 0
    }

    pub fn contains(&self, token: &CardToken) -> (r: bool)
        requires
            self.wf(),
        ensures
            r == self@.contains_key(token@),
    {
        self.entries.contains(token.as_str())
    }

    pub fn get(&self, token: &CardToken) -> (r: Option<&Pending>)
        requires
            self.wf(),
        ensures
            r is Some <==> self@.contains_key(token@),
            r matches Some(p) ==> p@ == self@[token@],
    {
        self.entries.get(token.as_str())
    }

    /// The request of the token, to be changed. Its turn item is to stay.
    pub fn get_mut(&mut self, token: &CardToken) -> (r: Option<&mut Pending>)
        requires
            old(self).wf(),
        ensures
            match r {
                Some(p) => same_turn(final(p)@.turn, p@.turn) && final(p)@.item == p@.item ==> final(self).wf(),
                None => final(self).wf(),
            },
            match r {
                Some(p) => old(self)@.contains_key(token@) && p@ == old(self)@[token@] && final(self)@ == old(self)@.insert(
                    token@,
                    final(p)@,
                ),
                None => !old(self)@.contains_key(token@) && *final(self) == *old(self),
            },
    {
        proof {
            self.entries.keys_enumerate();
            if self@.contains_key(token@) {
                assert(self@.dom().insert(token@) =~= self@.dom());
            }
        }
        self.entries.get_mut(token.as_str())
    }

    pub fn remove(&mut self, token: &CardToken) -> (r: Option<Pending>)
        requires
            old(self).wf(),
        ensures
            final(self).wf(),
            final(self)@ == old(self)@.remove(token@),
            r is Some <==> old(self)@.contains_key(token@),
            r matches Some(p) ==> p@ == old(self)@[token@],
            r is Some ==> final(self)@.dom().len() < limits::INTERACTIONS,
            r matches Some(p) ==> item_free(final(self)@, p@),
    {
        proof {
            reveal(item_free);
            self.entries.keys_enumerate();
        }
        self.entries.remove(token.as_str())
    }

    /// Registration is bounded and refuses a second open request for the same
    /// turn item; duplicates are ambiguous and revoke what came before.
    pub fn insert(&mut self, token: CardToken, pending: Pending) -> (r: bool)
        requires
            old(self).wf(),
        ensures
            final(self).wf(),
            r == can_register(old(self)@, token@, pending@.turn, pending@.item),
            final(self)@ == offered(old(self)@, token@, pending@),
    {
        if self.item_is_open(&pending.request.turn, pending.request.item.as_str()) {
            self.expire_turn(&pending.request.turn, pending.request.item.as_str(), 0);
            return false;
        }
        if token.as_str().is_empty() || self.entries.len() >= limits::INTERACTIONS || self.entries.contains(token.as_str()) {
            return false;
        }
        let key = token.as_str().to_owned();
        self.entries.insert(key, pending);
        true
    }

    /// Puts a request back that was taken out for a change.
    pub fn insert_back(&mut self, token: CardToken, pending: Pending)
        requires
            old(self).wf(),
            old(self)@.dom().len() < limits::INTERACTIONS,
            item_free(old(self)@, pending@),
        ensures
            final(self).wf(),
            final(self)@ == old(self)@.insert(token@, pending@),
    {
        proof {
            reveal(item_free);
            self.entries.keys_enumerate();
        }
        let key = token.as_str().to_owned();
        self.entries.insert(key, pending);
    }

    /// A request is a duplicate when the same turn item already has one.
    pub fn item_is_open(&self, turn: &TurnRef, item: &str) -> (r: bool)
        requires
            self.wf(),
        ensures
            r == item_open(self@, *turn, item@),
    {
        proof {
            self.entries.keys_enumerate();
        }
        let n: usize = self.entries.len();
        let mut i: usize = 0;
        while i < n
            invariant
                self.wf(),
                n == self.entries.keys().len(),
                i <= n,
                forall|j: int|
                    0 <= j < i ==> !(same_turn(self@[#[trigger] self.entries.keys()[j]].turn, *turn)
                        && self@[self.entries.keys()[j]].item == item@),
            decreases n - i,
        {
            let p = self.entries.value_at(i);
            if p.request.turn.same(turn) && same(p.request.item.as_str(), item) {
                assert(self@.contains_key(self.entries.keys()[i as int]));
                return true;
            }
            i = i + 1;
        }
        proof {
            self.entries.keys_enumerate();
            assert forall|k: Seq<char>| #[trigger] self@.contains_key(k) implies !(same_turn(self@[k].turn, *turn) && self@[k].item == item@) by {
                let j = choose|j: int| 0 <= j < self.entries.keys().len() && self.entries.keys()[j] == k;
                assert(self@[self.entries.keys()[j]] == self@[k]);
            }
        }
        false
    }

    /// Revoke every open request for a turn by expiring it immediately.
    pub fn expire_turn(&mut self, turn: &TurnRef, item: &str, now: u64)
        requires
            old(self).wf(),
        ensures
            final(self).wf(),
            final(self)@ == revoked(old(self)@, *turn, item@, now),
    {
        let ghost m = self@;
        let ghost keys = self.entries.keys();
        let ghost all = revoked(m, *turn, item@, now);
        proof {
            self.entries.keys_enumerate();
        }
        let n: usize = self.entries.len();
        let mut i: usize = 0;
        while i < n
            invariant
                self.entries.wf(),
                self.entries.keys() == keys,
                n == keys.len(),
                i <= n,
                self.entries@.dom() == m.dom(),
                all == revoked(m, *turn, item@, now),
                forall|a: int, b: int| 0 <= a < b < keys.len() ==> #[trigger] keys[a] != #[trigger] keys[b],
                forall|j: int| 0 <= j < keys.len() ==> m.contains_key(#[trigger] keys[j]),
                forall|j: int| 0 <= j < i ==> self.entries@[#[trigger] keys[j]] == all[keys[j]],
                forall|j: int| i <= j < n ==> self.entries@[#[trigger] keys[j]] == m[keys[j]],
            decreases n - i,
        {
            let ghost before = self.entries@;
            let p = self.entries.value_at_mut(i);
            if p.request.turn.same(turn) && same(p.request.item.as_str(), item) {
                p.deadline = now;
            }
            proof {
                assert(self.entries@.dom() =~= m.dom());
            }
            i = i + 1;
        }
        proof {
            assert forall|k: Seq<char>| m.contains_key(k) implies self.entries@[k] == all[k] by {
                self.entries.keys_enumerate();
                assert(self.entries@.contains_key(k));
                let j = choose|j: int| 0 <= j < keys.len() && keys[j] == k;
                assert(self.entries@[keys[j]] == all[keys[j]]);
            }
            assert(self@ =~= all);
        }
    }

    /// Tokens whose deadline passed or whose owning task is no longer alive.
    /// Expired entries stay registered until `expire` removes them so their
    /// required denial is sent exactly once.
    pub fn stale_tokens<F: Fn(&Pending) -> bool>(&self, now: u64, alive: F) -> (r: Vec<CardToken>)
        requires
            self.wf(),
            forall|e: &Pending| #[trigger] call_requires(alive, (e,)),
        ensures
            forall|p: spec_fn(PendingText) -> bool|
                decides(alive, p) ==> token_texts(r@) == #[trigger] stale(self@, now, p),
    {
        let r = self.tokens_where(Scan::Stale, now, alive);
        proof {
            let m = self@;
            assert forall|p: spec_fn(PendingText) -> bool| decides(alive, p) implies token_texts(r@) == #[trigger] stale(m, now, p) by {
                assert(token_texts(r@) == scanned(m, Scan::Stale, now, p));
                selection_agrees(
                    ordered(m.dom()),
                    |k: Seq<char>| wanted(m[k], Scan::Stale, now, p(m[k])),
                    |k: Seq<char>| now >= m[k].deadline || !p(m[k]),
                );
            }
        }
        r
    }

    /// Tokens whose card still needs to be sent for a live turn.
    pub fn unsent_tokens<F: Fn(&Pending) -> bool>(&self, valid: F) -> (r: Vec<CardToken>)
        requires
            self.wf(),
            forall|e: &Pending| #[trigger] call_requires(valid, (e,)),
        ensures
            forall|p: spec_fn(PendingText) -> bool|
                decides(valid, p) ==> token_texts(r@) == #[trigger] unsent(self@, p),
    {
        let r = self.tokens_where(Scan::Unsent, 0, valid);
        proof {
            let m = self@;
            assert forall|p: spec_fn(PendingText) -> bool| decides(valid, p) implies token_texts(r@) == #[trigger] unsent(m, p) by {
                assert(token_texts(r@) == scanned(m, Scan::Unsent, 0, p));
                selection_agrees(
                    ordered(m.dom()),
                    |k: Seq<char>| wanted(m[k], Scan::Unsent, 0, p(m[k])),
                    |k: Seq<char>| !m[k].card_dispatched && p(m[k]),
                );
            }
        }
        r
    }

    fn tokens_where<F: Fn(&Pending) -> bool>(&self, scan: Scan, now: u64, f: F) -> (r: Vec<CardToken>)
        requires
            self.wf(),
            forall|e: &Pending| #[trigger] call_requires(f, (e,)),
        ensures
            forall|p: spec_fn(PendingText) -> bool| decides(f, p) ==> token_texts(r@) == #[trigger] scanned(self@, scan, now, p),
    {
        let ghost keys = self.entries.keys();
        let ghost m = self@;
        proof {
            self.entries.keys_are_ordered();
        }
        let n: usize = self.entries.len();
        let mut r: Vec<CardToken> = Vec::new();
        let mut i: usize = 0;
        proof {
            reveal(Seq::filter);
            assert(keys.take(0) =~= Seq::empty());
            assert(token_texts(r@) =~= Seq::empty());
        }
        while i < n
            invariant
                self.wf(),
                m == self@,
                keys == self.entries.keys(),
                n == keys.len(),
                i <= n,
                forall|e: &Pending| #[trigger] call_requires(f, (e,)),
                forall|p: spec_fn(PendingText) -> bool|
                    #[trigger] decides(f, p) ==> token_texts(r@) == keys.take(i as int).filter(|k: Seq<char>| wanted(m[k], scan, now, p(m[k]))),
            decreases n - i,
        {
            let ghost before = r@;
            let p = self.entries.value_at(i);
            let says = f(p);
            let hit = match scan {
                Scan::Stale => now >= p.deadline || !says,
                Scan::Unsent => !p.card_dispatched && says,
                Scan::Due => now >= p.deadline,
                Scan::All => true,
            };
            if hit {
                r.push(CardToken::new(self.entries.key_at(i).clone()));
            }
            proof {
                assert(keys.take(i + 1).drop_last() =~= keys.take(i as int));
                assert(keys.take(i + 1).last() == keys[i as int]);
                assert forall|q: spec_fn(PendingText) -> bool| #[trigger] decides(f, q) implies token_texts(r@) == keys.take(i + 1).filter(|k: Seq<char>| wanted(m[k], scan, now, q(m[k]))) by {
                    reveal(Seq::filter);
                    assert(hit == wanted(m[keys[i as int]], scan, now, q(m[keys[i as int]])));
                    assert(token_texts(before) == keys.take(i as int).filter(|k: Seq<char>| wanted(m[k], scan, now, q(m[k]))));
                    if hit {
                        assert(token_texts(r@) =~= token_texts(before).push(keys[i as int]));
                    }
                }
            }
            i = i + 1;
        }
        proof {
            assert(keys.take(i as int) =~= keys);
            assert forall|p: spec_fn(PendingText) -> bool| decides(f, p) implies token_texts(r@) == #[trigger] scanned(m, scan, now, p) by {
                assert(token_texts(r@) == keys.filter(|k: Seq<char>| wanted(m[k], scan, now, p(m[k]))));
            }
        }
        r
    }

    /// Record a text answer for the question the card is waiting on. Early,
    /// late, foreign or non-waiting answers are rejected; a completed group is
    /// removed and returned so the caller can submit the answers.
    pub fn answer_text<F: Fn(&Pending) -> bool>(&mut self, token: &CardToken, claim: Claim<'_>, index: usize, answer: &str, skip: bool, turn_live: F) -> (r: TextOutcome)
        requires
            old(self).wf(),
            forall|e: &Pending| #[trigger] call_requires(turn_live, (e,)),
        ensures
            final(self).wf(),
            forall|p: spec_fn(PendingText) -> bool|
                #[trigger] decides(turn_live, p) ==> (final(self)@, r@) == text_answer(
                    old(self)@,
                    token@,
                    claim@,
                    index as nat,
                    answer@,
                    skip,
                    p,
                ),
    {
        let ghost m = self@;
        let accepted = match self.entries.get(token.as_str()) {
            Some(pending) => pending.waiting_text && index == pending.question && pending.owned_by(&claim) && !skip
                && turn_live(pending) && match questions_of(&pending.request) {
                Some(questions) => pending.question < questions.len(),
                None => false,
            },
            None => false,
        };
        if !accepted {
            return TextOutcome::Invalid;
        }
        proof {
            self.entries.keys_enumerate();
        }
        match self.entries.remove(token.as_str()) {
            Some(mut pending) => {
                let ghost e = pending@;
                pending.record(answer.to_owned());
                let complete = match questions_of(&pending.request) {
                    Some(questions) => pending.question == questions.len(),
                    None => false,
                };
                if complete {
                    TextOutcome::Recorded { complete: true, finished: Some(pending) }
                } else {
                    let ghost next = pending@;
                    self.entries.insert(token.as_str().to_owned(), pending);
                    proof {
                        assert(self@ =~= m.insert(token@, next));
                        assert(self@.dom() =~= m.dom());
                    }
                    TextOutcome::Recorded { complete: false, finished: None }
                }
            },
            None => TextOutcome::Invalid,
        }
    }

    /// Record a button choice for the current question. The click must come
    /// from the card the entry last delivered. `other` switches the entry to
    /// text mode; anything else must name a valid option index.
    pub fn answer_choice<F: Fn(&Pending) -> bool>(&mut self, token: &CardToken, claim: Claim<'_>, source: &str, index: usize, choice: &str, turn_live: F) -> (r: Choice)
        requires
            old(self).wf(),
            forall|e: &Pending| #[trigger] call_requires(turn_live, (e,)),
        ensures
            final(self).wf(),
            forall|p: spec_fn(PendingText) -> bool|
                #[trigger] decides(turn_live, p) ==> (final(self)@, r@) == button_answer(
                    old(self)@,
                    token@,
                    claim@,
                    source@,
                    index as nat,
                    choice@,
                    p,
                ),
    {
        let ghost m = self@;
        let accepted = match self.entries.get(token.as_str()) {
            Some(pending) => pending.owned_by(&claim) && pending.from_source(source) && index == pending.question
                && turn_live(pending) && match questions_of(&pending.request) {
                Some(questions) => pending.question < questions.len(),
                None => false,
            },
            None => false,
        };
        if !accepted {
            return Choice::Invalid;
        }
        proof {
            self.entries.keys_enumerate();
        }
        match self.entries.remove(token.as_str()) {
            Some(mut pending) => {
                let ghost e = pending@;
                let other = same(choice, "other");
                let mut free = false;
                let mut label: Option<String> = None;
                match questions_of(&pending.request) {
                    Some(questions) => {
                        let question = &questions[pending.question];
                        free = question.other || question.options.len() == 0 || question.secret;
                        if !other {
                            match parse_usize(choice) {
                                Some(n) => {
                                    if n < question.options.len() {
                                        label = Some(question.options[n].label.clone());
                                    }
                                },
                                None => {},
                            }
                        }
                    },
                    None => {},
                }
                if other {
                    if free {
                        pending.waiting_text = true;
                    }
                    let ghost next = pending@;
                    self.entries.insert(token.as_str().to_owned(), pending);
                    proof {
                        assert(self@ =~= m.insert(token@, next));
                        assert(self@.dom() =~= m.dom());
                        if !free {
                            assert(self@ =~= m);
                        }
                    }
                    return if free {
                        Choice::WaitingText
                    } else {
                        Choice::Invalid
                    };
                }
                match label {
                    None => {
                        self.entries.insert(token.as_str().to_owned(), pending);
                        proof {
                            assert(self@ =~= m);
                        }
                        Choice::Invalid
                    },
                    Some(text) => {
                        pending.record(text);
                        let complete = match questions_of(&pending.request) {
                            Some(questions) => pending.question == questions.len(),
                            None => false,
                        };
                        if complete {
                            Choice::Recorded { complete: true, finished: Some(pending) }
                        } else {
                            let ghost next = pending@;
                            self.entries.insert(token.as_str().to_owned(), pending);
                            proof {
                                assert(self@ =~= m.insert(token@, next));
                                assert(self@.dom() =~= m.dom());
                            }
                            Choice::Recorded { complete: false, finished: None }
                        }
                    },
                }
            },
            None => Choice::Invalid,
        }
    }

    /// Consume an approval decision. The click must reference the card the
    /// entry last delivered; the entry is removed before the async write.
    pub fn approve<F: Fn(&Pending) -> bool>(&mut self, token: &CardToken, claim: Claim<'_>, source: &str, turn_live: F) -> (r: Option<Pending>)
        requires
            old(self).wf(),
            forall|e: &Pending| #[trigger] call_requires(turn_live, (e,)),
        ensures
            final(self).wf(),
            forall|p: spec_fn(PendingText) -> bool|
                #[trigger] decides(turn_live, p) ==> (r is Some <==> approvable(old(self)@, token@, claim@, source@, p)),
            match r {
                Some(pending) => old(self)@.contains_key(token@) && pending@ == old(self)@[token@] && final(self)@
                    == old(self)@.remove(token@),
                None => final(self)@ == old(self)@,
            },
    {
        match self.entries.get(token.as_str()) {
            None => {
                return None;
            },
            Some(pending) => {
                if pending.is_questions() || !pending.from_source(source) || !pending.owned_by(&claim) || !turn_live(pending) {
                    return None;
                }
            },
        }
        proof {
            self.entries.keys_enumerate();
        }
        self.entries.remove(token.as_str())
    }

    /// Remove and return every entry whose deadline has passed; the caller
    /// turns each into the required denial.
    pub fn expire(&mut self, now: u64) -> (r: Vec<Pending>)
        requires
            old(self).wf(),
        ensures
            final(self).wf(),
            pending_texts(r@) == due(old(self)@, now).map_values(|k: Seq<char>| old(self)@[k]),
            final(self)@ == kept(old(self)@, |k: Seq<char>, e: PendingText| now < e.deadline),
    {
        let any = |e: &Pending| -> (b: bool)
            ensures
                b,
        { true };
        let tokens = self.tokens_where(Scan::Due, now, any);
        let ghost m = self@;
        proof {
            self.entries.keys_are_ordered();
            self.entries.keys_enumerate();
            let q = |e: PendingText| true;
            assert(decides(any, q));
            assert(token_texts(tokens@) == scanned(m, Scan::Due, now, q));
            selection_agrees(
                ordered(m.dom()),
                |k: Seq<char>| wanted(m[k], Scan::Due, now, q(m[k])),
                |k: Seq<char>| now >= m[k].deadline,
            );
            assert(token_texts(tokens@) == due(m, now));
            selection_of_order(m, |k: Seq<char>| now >= m[k].deadline);
        }
        let r = self.remove_all(tokens);
        proof {
            let d = due(m, now);
            assert(self@ =~= kept(m, |k: Seq<char>, e: PendingText| now < e.deadline));
        }
        r
    }

    /// Remove every entry regardless of state; used on shutdown.
    pub fn drain(&mut self) -> (r: Vec<Pending>)
        requires
            old(self).wf(),
        ensures
            final(self).wf(),
            pending_texts(r@) == ordered(old(self)@.dom()).map_values(|k: Seq<char>| old(self)@[k]),
            final(self)@ == Map::<Seq<char>, PendingText>::empty(),
    {
        let any = |e: &Pending| -> (b: bool)
            ensures
                b,
        { true };
        let tokens = self.tokens_where(Scan::All, 0, any);
        let ghost m = self@;
        proof {
            self.entries.keys_are_ordered();
            self.entries.keys_enumerate();
            let q = |e: PendingText| true;
            assert(decides(any, q));
            let all = |k: Seq<char>| wanted(m[k], Scan::All, 0, q(m[k]));
            crate::lists::selection_length(ordered(m.dom()), all);
            assert(token_texts(tokens@) == scanned(m, Scan::All, 0, q));
            assert(token_texts(tokens@) == ordered(m.dom()));
            selection_of_order(m, all);
        }
        let r = self.remove_all(tokens);
        proof {
            assert(self@ =~= Map::<Seq<char>, PendingText>::empty());
        }
        r
    }

    fn remove_all(&mut self, tokens: Vec<CardToken>) -> (r: Vec<Pending>)
        requires
            old(self).wf(),
            forall|i: int| 0 <= i < tokens@.len() ==> old(self)@.contains_key(#[trigger] token_texts(tokens@)[i]),
            token_texts(tokens@).no_duplicates(),
        ensures
            final(self).wf(),
            pending_texts(r@) == token_texts(tokens@).map_values(|k: Seq<char>| old(self)@[k]),
            final(self)@ == old(self)@.remove_keys(token_texts(tokens@).to_set()),
    {
        let ghost m = self@;
        let ghost t = token_texts(tokens@);
        let mut r: Vec<Pending> = Vec::new();
        let mut i: usize = 0;
        proof {
            assert(pending_texts(r@) =~= t.take(0).map_values(|k: Seq<char>| m[k]));
            assert(m =~= m.remove_keys(t.take(0).to_set()));
        }
        while i < tokens.len()
            invariant
                i <= tokens@.len(),
                t == token_texts(tokens@),
                t.no_duplicates(),
                forall|j: int| 0 <= j < t.len() ==> m.contains_key(#[trigger] t[j]),
                self.wf(),
                self@ == m.remove_keys(t.take(i as int).to_set()),
                pending_texts(r@) == t.take(i as int).map_values(|k: Seq<char>| m[k]),
            decreases tokens.len() - i,
        {
            let ghost before = r@;
            proof {
                assert(t[i as int] == tokens@[i as int]@);
                assert(!t.take(i as int).to_set().contains(t[i as int]));
                self.entries.keys_enumerate();
            }
            match self.entries.remove(tokens[i].as_str()) {
                Some(pending) => {
                    r.push(pending);
                },
                None => {},
            }
            proof {
                assert(t.take(i + 1) =~= t.take(i as int).push(t[i as int]));
                assert(pending_texts(r@) =~= pending_texts(before).push(m[t[i as int]]));
                assert(t.take(i + 1).map_values(|k: Seq<char>| m[k]) =~= t.take(i as int).map_values(|k: Seq<char>| m[k]).push(m[t[i as int]]));
                pushed_set(t.take(i as int), t[i as int]);
                assert(self@ =~= m.remove_keys(t.take(i + 1).to_set()));
            }
            i = i + 1;
        }
        proof {
            assert(t.take(i as int) =~= t);
        }
        r
    }
}

/// Which requests a walk over the registry looks for.
#[derive(Clone, Copy)]
enum Scan {
    Stale,
    Unsent,
    Due,
    All,
}

spec fn wanted(e: PendingText, scan: Scan, now: u64, says: bool) -> bool {
    match scan {
        Scan::Stale => now >= e.deadline || !says,
        Scan::Unsent => !e.card_dispatched && says,
        Scan::Due => now >= e.deadline,
        Scan::All => true,
    }
}

spec fn scanned(m: Map<Seq<char>, PendingText>, scan: Scan, now: u64, p: spec_fn(PendingText) -> bool) -> Seq<Seq<char>> {
    ordered(m.dom()).filter(|k: Seq<char>| wanted(m[k], scan, now, p(m[k])))
}

pub proof fn pushed_set(s: Seq<Seq<char>>, x: Seq<char>)
    ensures
        s.push(x).to_set() == s.to_set().insert(x),
{
    let t = s.push(x);
    assert forall|k: Seq<char>| t.to_set().contains(k) <==> s.to_set().insert(x).contains(k) by {
        if t.contains(k) {
            let i = choose|i: int| 0 <= i < t.len() && t[i] == k;
            if i < s.len() {
                assert(s[i] == k);
            }
        }
        if s.contains(k) {
            let i = choose|i: int| 0 <= i < s.len() && s[i] == k;
            assert(t[i] == k);
        }
        if k == x {
            assert(t[s.len() as int] == x);
        }
    }
    assert(t.to_set() =~= s.to_set().insert(x));
}

proof fn selection_of_order(m: Map<Seq<char>, PendingText>, p: spec_fn(Seq<char>) -> bool)
    requires
        crate::textmap::is_order(ordered(m.dom()), m.dom()),
    ensures
        ({
            let s = ordered(m.dom()).filter(p);
            &&& s.no_duplicates()
            &&& forall|i: int| 0 <= i < s.len() ==> m.contains_key(#[trigger] s[i]) && p(s[i])
            &&& forall|k: Seq<char>| m.contains_key(k) && p(k) ==> s.contains(k)
        }),
{
    crate::textmap::order_selection(ordered(m.dom()), m.dom(), p);
}

/// The reply that a request gets. A group with missing or blank answers is
/// never submitted.
pub fn reply_for(pending: &Pending, allow: bool) -> (r: Option<AgentReply>)
    ensures
        r is Some <==> pending@.fully_answered(),
        r matches Some(reply) ==> match reply {
            AgentReply::Approve(given) => pending@.kind is Approval && given == allow,
            AgentReply::Answers(answers) => pending@.kind is Questions && answers@ == pending@.answers,
        },
{
    match &pending.request.kind {
        RequestKind::Approval(_) => Some(AgentReply::Approve(allow)),
        RequestKind::Questions { questions, .. } => {
            if questions.len() == 0 {
                return None;
            }
            let mut i: usize = 0;
            while i < questions.len()
                invariant
                    i <= questions@.len(),
                    (pending@.kind matches KindText::Questions { questions: q, .. } && q == questions@),
                    forall|j: int| 0 <= j < i ==> answered_in(#[trigger] questions@[j], pending@.answers),
                decreases questions.len() - i,
            {
                if !is_answered(&questions[i], &pending.answers) {
                    assert(!answered_in(questions@[i as int], pending@.answers));
                    return None;
                }
                i = i + 1;
            }
            Some(AgentReply::Answers(pending.answers.clone()))
        },
    }
}

fn is_answered(question: &Question, answers: &Answers) -> (r: bool)
    ensures
        r == answered_in(*question, answers@),
{
    match answers.get(question.id.as_str()) {
        None => false,
        Some(given) => {
            if given.items.len() == 0 {
                return false;
            }
            let mut i: usize = 0;
            while i < given.items.len()
                invariant
                    i <= given.items@.len(),
                    answers@.contains_key(question.id@),
                    given@ == answers@[question.id@],
                    forall|j: int| 0 <= j < i ==> !blank(#[trigger] given@[j]),
                decreases given.items.len() - i,
            {
                if is_blank(given.items[i].as_str()) {
                    assert(blank(given@[i as int]));
                    return false;
                }
                i = i + 1;
            }
            true
        },
    }
}

/// What became of a reply: `written` is the write's result, if one was made.
pub fn reply_outcome(pending: Pending, allow: bool, written: Option<Result<(), BackendError>>) -> (r: ReplyOutcome)
    ensures
        r.questions == (pending@.kind is Questions),
        r.chat@ == pending@.owner.chat,
        r.allow == allow,
        r.submitted == (written is Some),
        r.result == match written {
            Some(result) => result,
            None => Ok(()),
        },
{
    let questions = pending.is_questions();
    match written {
        Some(result) => ReplyOutcome { questions, chat: pending.owner.chat, allow, result, submitted: true },
        None => ReplyOutcome { questions, chat: pending.owner.chat, allow, result: Ok(()), submitted: false },
    }
}

/// What is decided is consumed: once an approval or the last answer of a group
/// was taken, the same token finds nothing, whoever presents it.
pub proof fn decision_consumes(
    m: Map<Seq<char>, PendingText>,
    token: Seq<char>,
    claim: ClaimText,
    source: Seq<char>,
    index: nat,
    text: Seq<char>,
    live: spec_fn(PendingText) -> bool,
)
    ensures
        !approvable(m.remove(token), token, claim, source, live),
        text_answer(m.remove(token), token, claim, index, text, false, live).1 is Invalid,
        button_answer(m.remove(token), token, claim, source, index, text, live).1 is Invalid,
        (text_answer(m, token, claim, index, text, false, live).1 matches OutcomeText::Recorded { complete: true, .. })
            ==> text_answer(m, token, claim, index, text, false, live).0 == m.remove(token),
        (button_answer(m, token, claim, source, index, text, live).1 matches OutcomeText::Recorded { complete: true, .. })
            ==> button_answer(m, token, claim, source, index, text, live).0 == m.remove(token),
{
}

/// Nobody but the owner, in time, in the owner's chat and directory and for a
/// live turn, changes anything; what is refused changes nothing.
pub proof fn foreign_claims_change_nothing(
    m: Map<Seq<char>, PendingText>,
    token: Seq<char>,
    claim: ClaimText,
    source: Seq<char>,
    index: nat,
    text: Seq<char>,
    skip: bool,
    live: spec_fn(PendingText) -> bool,
)
    requires
        m.contains_key(token) ==> !(m[token].owned_by(claim) && live(m[token])),
    ensures
        !approvable(m, token, claim, source, live),
        text_answer(m, token, claim, index, text, skip, live) == (m, OutcomeText::Invalid),
        button_answer(m, token, claim, source, index, text, live) == (m, OutcomeText::Invalid),
{
}

/// A second request for an open turn item takes effect on the first: nobody
/// can approve or answer it any more, and it is due.
pub proof fn duplicates_revoke(
    m: Map<Seq<char>, PendingText>,
    token: Seq<char>,
    pending: PendingText,
    first: Seq<char>,
    claim: ClaimText,
    source: Seq<char>,
    index: nat,
    text: Seq<char>,
    skip: bool,
    live: spec_fn(PendingText) -> bool,
)
    requires
        m.contains_key(first),
        same_turn(m[first].turn, pending.turn),
        m[first].item == pending.item,
    ensures
        !can_register(m, token, pending.turn, pending.item),
        ({
            let after = offered(m, token, pending);
            &&& after.dom() == m.dom()
            &&& claim.now >= after[first].deadline
            &&& !approvable(after, first, claim, source, live)
            &&& text_answer(after, first, claim, index, text, skip, live) == (after, OutcomeText::Invalid)
            &&& button_answer(after, first, claim, source, index, text, live) == (after, OutcomeText::Invalid)
        }),
{
    assert(item_open(m, pending.turn, pending.item));
    assert(offered(m, token, pending).dom() =~= m.dom());
}

/// A question waits for text only after `other` was chosen for it: once a
/// question is answered, by text or by button, the next one takes no text.
pub proof fn answers_end_the_wait(
    m: Map<Seq<char>, PendingText>,
    token: Seq<char>,
    claim: ClaimText,
    source: Seq<char>,
    index: nat,
    text: Seq<char>,
    later: ClaimText,
    next: nat,
    answer: Seq<char>,
    live: spec_fn(PendingText) -> bool,
)
    ensures
        (text_answer(m, token, claim, index, text, false, live).1 is Recorded) ==> ({
            let after = text_answer(m, token, claim, index, text, false, live).0;
            text_answer(after, token, later, next, answer, false, live) == (after, OutcomeText::Invalid)
        }),
        (button_answer(m, token, claim, source, index, text, live).1 is Recorded) ==> ({
            let after = button_answer(m, token, claim, source, index, text, live).0;
            text_answer(after, token, later, next, answer, false, live) == (after, OutcomeText::Invalid)
        }),
{
}

/// An expired request is reported once: what is due leaves, and nothing that
/// stays is due.
pub proof fn expiry_reports_once(m: Map<Seq<char>, PendingText>, now: u64)
    ensures
        ({
            let rest = kept(m, |k: Seq<char>, e: PendingText| now < e.deadline);
            forall|k: Seq<char>| #[trigger] rest.contains_key(k) ==> now < rest[k].deadline
        }),
        forall|k: Seq<char>|
            #[trigger] m.contains_key(k) && now >= m[k].deadline ==> !kept(
                m,
                |k: Seq<char>, e: PendingText| now < e.deadline,
            ).contains_key(k),
{
}

/// The claim is made by the user, in the chat and in the directory that the
/// request belongs to, before the request is due.
pub open spec fn in_hand(e: PendingText, claim: ClaimText) -> bool {
    &&& e.owner.user == claim.user
    &&& e.owner.chat == claim.chat
    &&& e.owner.directory.path == claim.directory.path
    &&& claim.now < e.deadline
}

/// The question that a group waits to have answered.
pub open spec fn open_question(e: PendingText, q: Question) -> bool {
    e.kind matches KindText::Questions { questions, .. } && e.question < questions.len() && questions[e.question as int] == q
}

/// The request as an answer left it: the finished one where the group is
/// complete, else the one that stays under its token.
pub open spec fn left_by(after: (Map<Seq<char>, PendingText>, OutcomeText), token: Seq<char>) -> PendingText {
    match after.1 {
        OutcomeText::Recorded { complete: true, finished: Some(p) } => p,
        _ => after.0[token],
    }
}

/// `answer` is now what question `q` of the request is answered with. The
/// answers to other questions, and the request itself, are as they were.
pub open spec fn took_answer(before: PendingText, after: PendingText, q: Question, answer: Seq<char>) -> bool {
    &&& after.answers.contains_key(q.id@)
    &&& after.answers[q.id@] == seq![answer]
    &&& forall|id: Seq<char>| id != q.id@ ==> (#[trigger] after.answers.contains_key(id) <==> before.answers.contains_key(id))
    &&& forall|id: Seq<char>| id != q.id@ && before.answers.contains_key(id) ==> #[trigger] after.answers[id] == before.answers[id]
    &&& after.question == before.question + 1
    &&& after.turn == before.turn
    &&& after.item == before.item
    &&& after.kind == before.kind
    &&& after.reply == before.reply
    &&& after.task == before.task
    &&& after.owner == before.owner
    &&& after.deadline == before.deadline
}

/// The answer was taken and completed the group exactly where it answered the
/// last question; a complete group leaves, and no other request changes.
pub open spec fn answer_taken(
    m: Map<Seq<char>, PendingText>,
    token: Seq<char>,
    q: Question,
    answer: Seq<char>,
    after: (Map<Seq<char>, PendingText>, OutcomeText),
) -> bool {
    let last = m[token].kind matches KindText::Questions { questions, .. } && m[token].question + 1 == questions.len();
    &&& after.1 is Recorded
    &&& after.1->complete == last
    &&& after.1->finished is Some <==> last
    &&& last ==> after.0 == m.remove(token)
    &&& !last ==> after.0.contains_key(token) && after.0.remove(token) == m.remove(token)
    &&& took_answer(m[token], left_by(after, token), q, answer)
}

/// A click on the button that numbers an option records the label of that
/// option, and no other, as the answer to the question it was asked for.
pub proof fn chosen_options_are_recorded(
    m: Map<Seq<char>, PendingText>,
    token: Seq<char>,
    claim: ClaimText,
    source: Seq<char>,
    q: Question,
    n: nat,
    live: spec_fn(PendingText) -> bool,
)
    requires
        m.contains_key(token),
        in_hand(m[token], claim),
        m[token].source == Some(source),
        live(m[token]),
        open_question(m[token], q),
        n < q.options@.len(),
        n <= usize::MAX,
    ensures
        answer_taken(
            m,
            token,
            q,
            q.options@[n as int].label@,
            button_answer(m, token, claim, source, m[token].question, decimal(n), live),
        ),
{
    written_numbers_are_read(n);
    decimal_is_digits(n);
    reveal_strlit("other");
    assert(is_digit(decimal(n)[0]));
    let after = button_answer(m, token, claim, source, m[token].question, decimal(n), live);
    assert(after.0.remove(token) =~= m.remove(token));
}

/// Options that read differently are answered differently.
pub proof fn options_are_told_apart(
    m: Map<Seq<char>, PendingText>,
    token: Seq<char>,
    claim: ClaimText,
    source: Seq<char>,
    q: Question,
    n: nat,
    k: nat,
    live: spec_fn(PendingText) -> bool,
)
    requires
        m.contains_key(token),
        in_hand(m[token], claim),
        m[token].source == Some(source),
        live(m[token]),
        open_question(m[token], q),
        n < q.options@.len(),
        k < q.options@.len(),
        n <= usize::MAX,
        k <= usize::MAX,
        q.options@[n as int].label@ != q.options@[k as int].label@,
    ensures
        left_by(button_answer(m, token, claim, source, m[token].question, decimal(n), live), token).answers[q.id@] != left_by(
            button_answer(m, token, claim, source, m[token].question, decimal(k), live),
            token,
        ).answers[q.id@],
{
    chosen_options_are_recorded(m, token, claim, source, q, n, live);
    chosen_options_are_recorded(m, token, claim, source, q, k, live);
    let a = q.options@[n as int].label@;
    let b = q.options@[k as int].label@;
    assert(seq![a][0] == a && seq![b][0] == b);
}

/// A typed answer to the question that waits for one is recorded as it was typed.
pub proof fn typed_answers_are_recorded(
    m: Map<Seq<char>, PendingText>,
    token: Seq<char>,
    claim: ClaimText,
    q: Question,
    answer: Seq<char>,
    live: spec_fn(PendingText) -> bool,
)
    requires
        m.contains_key(token),
        in_hand(m[token], claim),
        m[token].waiting_text,
        live(m[token]),
        open_question(m[token], q),
    ensures
        answer_taken(m, token, q, answer, text_answer(m, token, claim, m[token].question, answer, false, live)),
        text_answer(m, token, claim, m[token].question, answer, true, live) == (m, OutcomeText::Invalid),
{
    let after = text_answer(m, token, claim, m[token].question, answer, false, live);
    assert(after.0.remove(token) =~= m.remove(token));
}

/// `other` makes a question wait for typed text where it takes any: where it
/// says so, where it has no options and where it asks for a secret. Nothing is
/// answered by it. Elsewhere it is refused.
pub proof fn own_answers_wait_for_text(
    m: Map<Seq<char>, PendingText>,
    token: Seq<char>,
    claim: ClaimText,
    source: Seq<char>,
    q: Question,
    live: spec_fn(PendingText) -> bool,
)
    requires
        m.contains_key(token),
        in_hand(m[token], claim),
        m[token].source == Some(source),
        live(m[token]),
        open_question(m[token], q),
    ensures
        q.other || q.options@.len() == 0 || q.secret ==> button_answer(
            m,
            token,
            claim,
            source,
            m[token].question,
            "other"@,
            live,
        ) == (m.insert(token, PendingText { waiting_text: true, ..m[token] }), OutcomeText::WaitingText),
        !(q.other || q.options@.len() == 0 || q.secret) ==> button_answer(
            m,
            token,
            claim,
            source,
            m[token].question,
            "other"@,
            live,
        ) == (m, OutcomeText::Invalid),
{
}

/// A decision takes effect only in its owner's hand, on a live turn, for the
/// question that is asked, and a click only on the card that was delivered.
pub proof fn only_the_owner_decides(
    m: Map<Seq<char>, PendingText>,
    token: Seq<char>,
    claim: ClaimText,
    source: Seq<char>,
    index: nat,
    text: Seq<char>,
    skip: bool,
    live: spec_fn(PendingText) -> bool,
)
    ensures
        approvable(m, token, claim, source, live) <==> m.contains_key(token) && m[token].kind is Approval && in_hand(
            m[token],
            claim,
        ) && m[token].source == Some(source) && live(m[token]),
        text_answer(m, token, claim, index, text, skip, live).1 !is Invalid ==> m.contains_key(token) && m[token].kind is Questions
            && in_hand(m[token], claim) && m[token].waiting_text && index == m[token].question && !skip && live(m[token]),
        button_answer(m, token, claim, source, index, text, live).1 !is Invalid ==> m.contains_key(token)
            && m[token].kind is Questions && in_hand(m[token], claim) && m[token].source == Some(source) && index
            == m[token].question && live(m[token]),
        text_answer(m, token, claim, index, text, skip, live).1 is Invalid ==> text_answer(
            m,
            token,
            claim,
            index,
            text,
            skip,
            live,
        ).0 == m,
        button_answer(m, token, claim, source, index, text, live).1 is Invalid ==> button_answer(
            m,
            token,
            claim,
            source,
            index,
            text,
            live,
        ).0 == m,
{
}

/// What the user decided is what the agent is told: an approval carries the
/// decision, a question group its recorded answers, and a group that lacks an
/// answer is not submitted.
pub proof fn replies_carry_the_decision(pending: Pending, allow: bool, r: Option<AgentReply>)
    requires
        call_ensures(reply_for, (&pending, allow), r),
    ensures
        pending@.kind is Approval ==> r == Some(AgentReply::Approve(allow)),
        pending@.kind matches KindText::Questions { questions, .. } ==> {
            &&& r is None <==> questions.len() == 0 || exists|i: int| #![trigger questions[i]]
                0 <= i < questions.len() && !(pending@.answers.contains_key(questions[i].id@) && pending@.answers[questions[i].id@].len()
                    > 0 && forall|j: int|
                    0 <= j < pending@.answers[questions[i].id@].len() ==> !blank(#[trigger] pending@.answers[questions[i].id@][j]))
            &&& r is Some ==> r->Some_0 is Answers && r->Some_0->Answers_0@ == pending@.answers
        },
{
    if let KindText::Questions { questions, .. } = pending@.kind {
        assert forall|i: int| #![trigger questions[i]] 0 <= i < questions.len() implies (answered_in(
            questions[i],
            pending@.answers,
        ) <==> (pending@.answers.contains_key(questions[i].id@) && pending@.answers[questions[i].id@].len() > 0 && forall|j: int|
            0 <= j < pending@.answers[questions[i].id@].len() ==> !blank(#[trigger] pending@.answers[questions[i].id@][j]))) by {
        }
    }
}

/// The outcome of a reply goes to the chat of the request's owner and says
/// what was decided and what became of it.
pub proof fn outcomes_report_the_reply(pending: Pending, allow: bool, written: Option<Result<(), BackendError>>, r: ReplyOutcome)
    requires
        call_ensures(reply_outcome, (pending, allow, written), r),
    ensures
        r.chat@ == pending.owner@.chat,
        r.allow == allow,
        r.questions <==> pending.request.kind is Questions,
        r.submitted <==> written is Some,
        written is Some ==> r.result == written->Some_0,
        written is None ==> r.result is Ok,
{
}

} // verus!
