//! Backend protocol event handling: notifications fold into the active
//! execution; requests become interactions or immediate denials.
use vstd::prelude::*;
use vstd::string::*;
use crate::cards::{question_supported, supported, Owner, OwnerText};
use crate::diagnostics::{Event, Status};
use crate::events::{AgentEvent, Incoming};
use crate::execution::{replay, Gate};
use crate::interactions::{offered, item_open, revoked, Pending, PendingText};
use crate::model::ExecutionMode;
use crate::ports::{same_turn, TurnRef};
use crate::requests::{AgentRequest, Answers, ApprovalKind, ApprovalText, FileChange, KindText, Question, RequestKind};
use crate::runtime::flow::{clock, folded, folded_all, interrupted};
use crate::runtime::limits;
use crate::runtime::state::{
    begin, fault_of, ActiveKind, ActiveKindText, ActiveText, Fault, ItemChanges, ItemChangesText, Job, JobText, Runtime,
    RuntimeError, State, Step,
};
use crate::runtime::tokens::{self, approval_text};
use crate::sessions::{thread_id_ok, valid_thread_id};
use crate::text::same;

verus! {

/// These changes were announced for this turn item.
pub open spec fn is_item(c: ItemChangesText, turn: TurnRef, item: Seq<char>) -> bool {
    same_turn(c.turn, turn) && c.item == item
}

pub open spec fn has_item(v: Seq<ItemChangesText>, turn: TurnRef, item: Seq<char>) -> bool {
    exists|i: int| 0 <= i < v.len() && is_item(#[trigger] v[i], turn, item)
}

/// The changes announced for a turn item.
pub open spec fn changes_for(v: Seq<ItemChangesText>, turn: TurnRef, item: Seq<char>) -> Option<Seq<FileChange>>
    decreases v.len(),
{
    if v.len() == 0 {
        None
    } else if is_item(v[0], turn, item) {
        Some(v[0].changes)
    } else {
        changes_for(v.drop_first(), turn, item)
    }
}

/// The announcement of a turn item is emptied.
pub open spec fn emptied(v: Seq<ItemChangesText>, turn: TurnRef, item: Seq<char>) -> Seq<ItemChangesText> {
    v.map_values(
        |c: ItemChangesText|
            if is_item(c, turn, item) {
                ItemChangesText { changes: Seq::empty(), ..c }
            } else {
                c
            },
    )
}

/// A file-change approval shows the changes announced for its item.
pub open spec fn completed_kind(s: State, request: AgentRequest) -> KindText {
    match request.kind@ {
        KindText::Approval(a) => if a.kind == ApprovalKind::FileChange {
            KindText::Approval(
                ApprovalText { changes: changes_for(s.file_changes, request.turn, request.item@), ..a },
            )
        } else {
            KindText::Approval(a)
        },
        k => k,
    }
}

/// The running task's chat is told, if a task runs.
pub open spec fn tell_active(s: Step, text: Seq<char>) -> Step {
    match s.state.active {
        Some(a) => s.tell(a.spec.chat, text),
        None => s,
    }
}

/// The user of the running task owns the request.
pub open spec fn request_owner(s: State, a: ActiveText) -> OwnerText {
    OwnerText {
        user: a.spec.session.user,
        chat: a.spec.chat,
        directory: a.spec.session.workspace,
        generation: s.generation(a.spec.session.user),
        stop_snapshot: s.card_snapshot(),
    }
}

pub open spec fn new_pending(s: State, a: ActiveText, request: AgentRequest, reply: u64, now: u64) -> PendingText {
    PendingText {
        waiting_text: false,
        answers: Map::empty(),
        question: 0,
        turn: request.turn,
        item: request.item@,
        kind: completed_kind(s, request),
        reply,
        task: a.spec.id,
        owner: request_owner(s, a),
        deadline: (now + limits::INTERACTION_TIMEOUT) as u64,
        card_dispatched: false,
        source: None,
    }
}

/// The request is registered under the next token.
pub open spec fn registered(s: Step, pending: PendingText) -> Step {
    if s.state.next_token == u64::MAX {
        s.fail(Fault::Capacity("审批编号耗尽"@))
    } else {
        let n = (s.state.next_token + 1) as u64;
        let token = approval_text(s.state.epoch, n);
        Step {
            state: State {
                next_token: n,
                interactions: offered(s.state.interactions, token, pending),
                ..s.state
            },
            ..s
        }
    }
}

/// A request that is not registered is refused: an approval gets its denial,
/// a question stops the run, since no answer is ever made up.
pub open spec fn refused(s: Step, kind: KindText, reply: u64) -> Step {
    if s.fault is Some {
        s
    } else if kind is Questions {
        s.fail(Fault::Interaction("问答请求无效或数量超过上限，未提交空答案"@))
    } else if s.state.jobs() >= limits::BACKGROUND_JOBS {
        s.fail(Fault::Capacity("控制回传容量耗尽，停止运行"@))
    } else {
        s.spawn(JobText::Deny { reply })
    }
}

pub open spec fn countable(questions: Seq<Question>) -> bool {
    0 < questions.len() <= limits::QUESTIONS_PER_REQUEST
}

pub open spec fn all_supported(questions: Seq<Question>) -> bool {
    forall|i: int| 0 <= i < questions.len() ==> supported(#[trigger] questions[i])
}

/// Questions are taken from a live turn of a task in plan mode only.
pub open spec fn plan_mode_live(s: State, turn: TurnRef) -> bool {
    s.active matches Some(a) && a.spec.mode == ExecutionMode::Plan && a.accepts(turn)
}

/// A second request for an open turn item is ambiguous and revokes the first.
pub open spec fn superseded(s: Step, turn: TurnRef, item: Seq<char>, now: u64) -> Step {
    if item_open(s.state.interactions, turn, item) {
        Step { state: State { interactions: revoked(s.state.interactions, turn, item, now), ..s.state }, ..s }
    } else {
        s
    }
}

/// What a request does that can be shown: it waits for its user, unless its turn
/// is over, its item is open already or too many wait.
pub open spec fn turn_request(s: Step, s0: State, request: AgentRequest, reply: u64, now: u64) -> Step {
    let kind = completed_kind(s0, request);
    if s0.turn_is_live(request.turn) {
        let a = s0.active->Some_0;
        if !item_open(s0.interactions, request.turn, request.item@) && s0.interactions.dom().len() < limits::INTERACTIONS {
            registered(s, new_pending(s0, a, request, reply, now))
        } else {
            refused(
                superseded(s, request.turn, request.item@, now).tell(
                    a.spec.chat,
                    "审批请求重复或待处理数量已满，已拒绝该请求。"@,
                ),
                kind,
                reply,
            )
        }
    } else {
        refused(s, kind, reply)
    }
}

/// What a request of the agent does.
#[verifier::opaque]
pub open spec fn after_request(s0: State, request: AgentRequest, reply: u64, now: u64) -> Step {
    let kind = completed_kind(s0, request);
    let s = match kind {
        KindText::Questions { questions: q, .. } => begin(s0).record(
            Event::QuestionReceived,
            Status::Succeeded,
            match s0.active {
                Some(a) => Some(a.spec.id),
                None => None,
            },
            q.len(),
        ),
        KindText::Approval(_) => begin(s0),
    };
    if kind is Questions && !plan_mode_live(s0, request.turn) {
        tell_active(s, "普通执行模式不支持 Codex 问答请求；请在 Plan 模式下重新发起。"@).fail(
            Fault::Interaction("问答模式或执行身份无效，未提交空答案"@),
        )
    } else if kind matches KindText::Questions { questions: q, .. } && !all_supported(q) {
        tell_active(s, "问答详情超过展示上限，停止本次运行；未提交空答案。"@).fail(
            Fault::Interaction("问答无法完整展示"@),
        )
    } else if kind matches KindText::Questions { questions: q, .. } && !countable(q) {
        refused(tell_active(s, "问答请求无效，停止本次运行；未提交空答案。"@), kind, reply)
    } else {
        turn_request(s, s0, request, reply, now)
    }
}

/// A thread was archived elsewhere: its binding is to be cleared.
pub open spec fn after_archived(s: State, epoch: u64, thread: Seq<char>) -> Step {
    if epoch != s.epoch {
        begin(s)
    } else if !thread_id_ok(thread) {
        begin(s).fail(Fault::Backend("归档通知会话 ID 无效"@))
    } else if !s.archived.contains(thread) && s.archived.len() >= limits::ARCHIVED_THREADS {
        begin(s).fail(Fault::Capacity("待同步归档通知超过上限，停止运行"@))
    } else {
        begin(State { archived: s.archived.insert(thread), plan_offer: None, ..s })
    }
}

/// File changes are announced. A second announcement for an item is ambiguous
/// and revokes its approvals.
pub open spec fn after_changes(s: State, turn: TurnRef, item: Seq<char>, changes: Seq<FileChange>, now: u64) -> State {
    if !s.turn_is_live(turn) {
        s
    } else if has_item(s.file_changes, turn, item) || item_open(s.interactions, turn, item) {
        State {
            interactions: revoked(s.interactions, turn, item, now),
            file_changes: emptied(s.file_changes, turn, item),
            ..s
        }
    } else if s.file_changes.len() < limits::FILE_CHANGE_ITEMS {
        State { file_changes: s.file_changes.push(ItemChangesText { turn, item, changes }), ..s }
    } else {
        s
    }
}

/// The compaction whose turn this may be.
pub open spec fn awaits_turn(s: State, turn: TurnRef) -> bool {
    s.active matches Some(a) && a.gate is Some && turn.epoch == s.epoch && (a.kind matches ActiveKindText::Compact {
        thread: Some(t),
        ..
    } && t == turn.thread_id@)
}

pub open spec fn bound_gate(g: Gate, turn: TurnRef) -> Gate {
    Gate { turn: Some(turn), early: Seq::empty(), terminal: replay(g.early, turn).1, ..g }
}

/// The running execution is bound to its turn; what arrived early follows.
pub open spec fn bound(s: State, turn: TurnRef, mismatch: Seq<char>, refusal: Seq<char>, now: u64) -> Step {
    let a = s.active->Some_0;
    let g = a.gate->Some_0;
    if !g.can_bind(turn) {
        begin(State { active: Some(ActiveText { turn: Some(turn), ..a }), ..s }).fail(Fault::Interaction(mismatch))
    } else {
        let t = begin(
            State { active: Some(ActiveText { turn: Some(turn), gate: Some(bound_gate(g, turn)), ..a }), ..s },
        );
        let u = if a.stopping {
            interrupted(t, turn, refusal)
        } else {
            t
        };
        folded_all(u, replay(g.early, turn).0, now)
    }
}

#[verifier::opaque]
pub open spec fn after_started(s: State, turn: TurnRef, now: u64) -> Step {
    if !awaits_turn(s, turn) {
        begin(s)
    } else {
        match s.active->Some_0.turn {
            Some(current) => if same_turn(current, turn) {
                begin(s)
            } else {
                begin(s).fail(Fault::Maintenance("压缩期间出现其他执行，停止运行"@))
            },
            None => bound(s, turn, "压缩执行身份不匹配"@, "控制容量耗尽，无法停止压缩"@, now),
        }
    }
}

/// An event for the running execution: its gate decides whether it counts.
#[verifier::opaque]
pub open spec fn after_event(s: State, event: AgentEvent, now: u64) -> Step {
    match s.active {
        Some(a) => match a.gate {
            Some(g) => {
                let next = State { active: Some(ActiveText { gate: Some(g.after(event).0), ..a }), ..s };
                if g.overflows(event) {
                    begin(next).fail(Fault::Backend("Codex 提前事件过多"@))
                } else if g.after(event).1 {
                    folded(begin(next), event, now)
                } else {
                    begin(next)
                }
            },
            None => begin(s),
        },
        None => begin(s),
    }
}

pub open spec fn after_notification(s: State, event: AgentEvent, now: u64) -> Step {
    match event {
        AgentEvent::Archived { epoch, thread } => after_archived(s, epoch, thread@),
        AgentEvent::FileChanges { turn, item, changes } => begin(after_changes(s, turn, item@, changes@, now)),
        AgentEvent::Started { turn } => after_started(s, turn, now),
        _ => after_event(s, event, now),
    }
}

pub open spec fn after_protocol(s: State, incoming: Incoming, now: u64) -> Step {
    match incoming {
        Incoming::Notification(event) => after_notification(s, event, now),
        Incoming::Request { request, reply } => after_request(s, request, reply, now),
    }
}

fn clone_changes(v: &Vec<FileChange>) -> (r: Vec<FileChange>)
    ensures
        r@ == v@,
{
    let mut out: Vec<FileChange> = Vec::new();
    let mut i: usize = 0;
    while i < v.len()
        invariant
            i <= v@.len(),
            out@ == v@.take(i as int),
        decreases v.len() - i,
    {
        out.push(v[i].clone());
        proof {
            assert(v@.take(i + 1) =~= v@.take(i as int).push(v@[i as int]));
        }
        i = i + 1;
    }
    proof {
        assert(v@.take(i as int) =~= v@);
    }
    out
}

/// Announcements by their texts.
pub open spec fn item_texts(v: Seq<ItemChanges>) -> Seq<ItemChangesText> {
    v.map_values(|c: ItemChanges| c@)
}

fn empty_item(v: &mut Vec<ItemChanges>, turn: &TurnRef, item: &str)
    ensures
        item_texts(final(v)@) == emptied(item_texts(old(v)@), *turn, item@),
{
    let ghost o = v@;
    let ghost goal = emptied(item_texts(o), *turn, item@);
    let mut i: usize = 0;
    while i < v.len()
        invariant
            i <= v@.len() == o.len(),
            goal == emptied(item_texts(o), *turn, item@),
            forall|j: int| 0 <= j < i ==> (#[trigger] v@[j])@ == goal[j],
            forall|j: int| i <= j < o.len() ==> #[trigger] v@[j] == o[j],
        decreases v.len() - i,
    {
        let hit = v[i].turn.same(turn) && same(v[i].item.as_str(), item);
        if hit {
            let none: Vec<FileChange> = Vec::new();
            v[i].changes = none;
            proof {
                assert(v@[i as int]@.changes =~= Seq::empty());
            }
        }
        i = i + 1;
    }
    proof {
        assert(item_texts(v@) =~= goal);
    }
}

impl Runtime {
    fn changes_of(&self, turn: &TurnRef, item: &str) -> (r: Option<Vec<FileChange>>)
        ensures
            match r {
                Some(c) => changes_for(self@.file_changes, *turn, item@) == Some(c@),
                None => changes_for(self@.file_changes, *turn, item@) is None,
            },
    {
        let ghost all = self@.file_changes;
        let mut i: usize = 0;
        proof {
            assert(all.skip(0) =~= all);
        }
        while i < self.approvals.file_changes.len()
            invariant
                i <= self.approvals.file_changes@.len(),
                all == self@.file_changes,
                changes_for(all.skip(i as int), *turn, item@) == changes_for(all, *turn, item@),
            decreases self.approvals.file_changes.len() - i,
        {
            let entry = &self.approvals.file_changes[i];
            proof {
                assert(all.skip(i as int)[0] == entry@);
                assert(all.skip(i as int).drop_first() =~= all.skip(i + 1));
            }
            if entry.turn.same(turn) && same(entry.item.as_str(), item) {
                return Some(clone_changes(&entry.changes));
            }
            i = i + 1;
        }
        None
    }

    fn announced(&self, turn: &TurnRef, item: &str) -> (r: bool)
        ensures
            r == has_item(self@.file_changes, *turn, item@),
    {
        let mut i: usize = 0;
        while i < self.approvals.file_changes.len()
            invariant
                i <= self.approvals.file_changes@.len(),
                forall|j: int| 0 <= j < i ==> !is_item(#[trigger] self@.file_changes[j], *turn, item@),
            decreases self.approvals.file_changes.len() - i,
        {
            let entry = &self.approvals.file_changes[i];
            if entry.turn.same(turn) && same(entry.item.as_str(), item) {
                assert(is_item(self@.file_changes[i as int], *turn, item@));
                return true;
            }
            i = i + 1;
        }
        false
    }

    /// Tells the running task's chat, if a task runs.
    fn tell_active(&mut self, text: &str) -> (r: Result<(), RuntimeError>)
        requires
            old(self).wf(),
        ensures
            final(self).at(tell_active(begin(old(self)@), text@)),
            fault_of(r) == tell_active(begin(old(self)@), text@).fault,
    {
        let chat = match &self.tasks.active {
            Some(active) => active.spec.chat.clone(),
            None => {
                return Ok(());
            },
        };
        self.tell(chat.as_str(), text)
    }

    fn refuse(&mut self, questions: bool, reply: u64, Ghost(kind): Ghost<KindText>) -> (r: Result<(), RuntimeError>)
        requires
            old(self).wf(),
            questions == (kind is Questions),
        ensures
            final(self).at(refused(begin(old(self)@), kind, reply)),
            fault_of(r) == refused(begin(old(self)@), kind, reply).fault,
    {
        if questions {
            return Err(RuntimeError::Interaction("问答请求无效或数量超过上限，未提交空答案"));
        }
        if self.jobs.len() >= limits::BACKGROUND_JOBS {
            return Err(RuntimeError::Capacity("控制回传容量耗尽，停止运行"));
        }
        self.spawn(Job::Deny { reply });
        Ok(())
    }

    fn register(&mut self, request: AgentRequest, reply: u64, now: u64, Ghost(given): Ghost<AgentRequest>, Ghost(s0): Ghost<State>) -> (r: Result<(), RuntimeError>)
        requires
            old(self).wf(),
            clock(now),
            old(self)@ == (State { records: old(self)@.records, ..s0 }),
            s0.active is Some,
            request.turn == given.turn,
            request.item@ == given.item@,
            request.kind@ == completed_kind(s0, given),
            request.kind@ matches KindText::Questions { questions: q, .. } ==> q.len() > 0,
        ensures
            final(self).at(registered(begin(old(self)@), new_pending(s0, s0.active->Some_0, given, reply, now))),
            fault_of(r) == registered(begin(old(self)@), new_pending(s0, s0.active->Some_0, given, reply, now)).fault,
    {
        if self.approvals.next_token == u64::MAX {
            return Err(RuntimeError::Capacity("审批编号耗尽"));
        }
        self.approvals.next_token = self.approvals.next_token + 1;
        let token = tokens::approval(self.settings.epoch, self.approvals.next_token);
        let stop_snapshot = self.card_snapshot();
        let (task, owner) = match &self.tasks.active {
            Some(active) => (
                active.spec.id.clone(),
                Owner {
                    user: active.spec.session.user.clone(),
                    chat: active.spec.chat.clone(),
                    directory: active.spec.session.workspace.clone(),
                    generation: self.generation(active.spec.session.user.as_str()),
                    stop_snapshot,
                },
            ),
            None => {
                return Ok(());
            },
        };
        let pending = Pending {
            waiting_text: false,
            answers: Answers::new(),
            question: 0,
            request,
            reply,
            task,
            owner,
            deadline: now + limits::INTERACTION_TIMEOUT,
            card_dispatched: false,
            source: None,
        };
        let ghost p = pending@;
        let ghost expected = new_pending(s0, s0.active->Some_0, given, reply, now);
        proof {
            assert(p == expected);
        }
        self.approvals.interactions.insert(token, pending);
        Ok(())
    }

    /// A request of the agent: it becomes an interaction, or it is refused.
    pub fn handle_request(&mut self, request: AgentRequest, reply: u64, now: u64) -> (r: Result<(), RuntimeError>)
        requires
            old(self).wf(),
            clock(now),
        ensures
            final(self).at(after_request(old(self)@, request, reply, now)),
            fault_of(r) == after_request(old(self)@, request, reply, now).fault,
    {
        proof {
            reveal(after_request);
        }
        let ghost s0 = self@;
        let ghost given = request;
        let mut request = request;
        let questions = match &mut request.kind {
            RequestKind::Approval(approval) => {
                if approval.kind == ApprovalKind::FileChange {
                    approval.changes = self.changes_of(&request.turn, request.item.as_str());
                }
                false
            },
            RequestKind::Questions { .. } => true,
        };
        let ghost kind = completed_kind(s0, given);
        assert(request.kind@ == kind);
        if questions {
            let task = match &self.tasks.active {
                Some(active) => Some(active.spec.id.clone()),
                None => None,
            };
            let count: usize = match &request.kind {
                RequestKind::Questions { questions, .. } => questions.len(),
                RequestKind::Approval(_) => 0,
            };
            self.record(Event::QuestionReceived, Status::Succeeded, task, count);
            let live = match &self.tasks.active {
                Some(active) => active.spec.mode == ExecutionMode::Plan && active.accepts(&request.turn),
                None => false,
            };
            if !live {
                match self.tell_active("普通执行模式不支持 Codex 问答请求；请在 Plan 模式下重新发起。") {
                    Ok(()) => {},
                    Err(e) => {
                        return Err(e);
                    },
                }
                return Err(RuntimeError::Interaction("问答模式或执行身份无效，未提交空答案"));
            }
            let (shown, counted) = match &request.kind {
                RequestKind::Questions { questions, .. } => (
                    Self::supported_all(questions),
                    questions.len() > 0 && questions.len() <= limits::QUESTIONS_PER_REQUEST,
                ),
                RequestKind::Approval(_) => (true, true),
            };
            if !shown {
                match self.tell_active("问答详情超过展示上限，停止本次运行；未提交空答案。") {
                    Ok(()) => {},
                    Err(e) => {
                        return Err(e);
                    },
                }
                return Err(RuntimeError::Interaction("问答无法完整展示"));
            }
            if !counted {
                match self.tell_active("问答请求无效，停止本次运行；未提交空答案。") {
                    Ok(()) => {},
                    Err(e) => {
                        return Err(e);
                    },
                }
                return self.refuse(true, reply, Ghost(kind));
            }
        }
        self.turn_request(request, questions, reply, now, Ghost(given), Ghost(s0))
    }

    /// A request that can be shown waits for its user, or it is refused.
    fn turn_request(&mut self, request: AgentRequest, questions: bool, reply: u64, now: u64, Ghost(given): Ghost<AgentRequest>, Ghost(s0): Ghost<State>) -> (r: Result<(), RuntimeError>)
        requires
            old(self).wf(),
            clock(now),
            old(self)@ == (State { records: old(self)@.records, ..s0 }),
            request.turn == given.turn,
            request.item@ == given.item@,
            request.kind@ == completed_kind(s0, given),
            questions == (request.kind@ is Questions),
            request.kind@ matches KindText::Questions { questions: q, .. } ==> q.len() > 0,
        ensures
            final(self).at(turn_request(begin(old(self)@), s0, given, reply, now)),
            fault_of(r) == turn_request(begin(old(self)@), s0, given, reply, now).fault,
    {
        let ghost kind = completed_kind(s0, given);
        if !self.turn_is_live(&request.turn) {
            return self.refuse(questions, reply, Ghost(kind));
        }
        if self.approvals.interactions.item_is_open(&request.turn, request.item.as_str()) {
            self.approvals.interactions.expire_turn(&request.turn, request.item.as_str(), now);
        } else if self.approvals.interactions.len() < limits::INTERACTIONS {
            return self.register(request, reply, now, Ghost(given), Ghost(s0));
        }
        match self.tell_active("审批请求重复或待处理数量已满，已拒绝该请求。") {
            Ok(()) => {},
            Err(e) => {
                return Err(e);
            },
        }
        self.refuse(questions, reply, Ghost(kind))
    }

    fn supported_all(questions: &Vec<Question>) -> (r: bool)
        ensures
            r == all_supported(questions@),
    {
        let mut i: usize = 0;
        while i < questions.len()
            invariant
                i <= questions@.len(),
                forall|j: int| 0 <= j < i ==> supported(#[trigger] questions@[j]),
            decreases questions.len() - i,
        {
            if !question_supported(&questions[i]) {
                assert(!supported(questions@[i as int]));
                return false;
            }
            i = i + 1;
        }
        true
    }

    fn archived(&mut self, epoch: u64, thread: String) -> (r: Result<(), RuntimeError>)
        requires
            old(self).wf(),
        ensures
            final(self).at(after_archived(old(self)@, epoch, thread@)),
            fault_of(r) == after_archived(old(self)@, epoch, thread@).fault,
    {
        if epoch != self.settings.epoch {
            return Ok(());
        }
        if !valid_thread_id(thread.as_str()) {
            return Err(RuntimeError::Backend("归档通知会话 ID 无效"));
        }
        if !self.session_book.archived_threads.contains(thread.as_str())
            && self.session_book.archived_threads.len() >= limits::ARCHIVED_THREADS {
            return Err(RuntimeError::Capacity("待同步归档通知超过上限，停止运行"));
        }
        self.session_book.archived_threads.insert(thread, ());
        self.cards.plan_offer = None;
        proof {
            assert(self@.archived =~= old(self)@.archived.insert(thread@));
        }
        Ok(())
    }

    fn file_changes(&mut self, turn: TurnRef, item: String, changes: Vec<FileChange>, now: u64)
        requires
            old(self).wf(),
        ensures
            final(self).wf(),
            final(self)@ == after_changes(old(self)@, turn, item@, changes@, now),
    {
        if !self.turn_is_live(&turn) {
            return;
        }
        // Duplicate item snapshots are ambiguous: revoke pending approvals.
        if self.announced(&turn, item.as_str()) || self.approvals.interactions.item_is_open(&turn, item.as_str()) {
            self.approvals.interactions.expire_turn(&turn, item.as_str(), now);
            empty_item(&mut self.approvals.file_changes, &turn, item.as_str());
        } else if self.approvals.file_changes.len() < limits::FILE_CHANGE_ITEMS {
            let ghost before = self@.file_changes;
            self.approvals.file_changes.push(ItemChanges { turn, item, changes });
            proof {
                assert(self@.file_changes =~= before.push(ItemChangesText { turn, item: item@, changes: changes@ }));
            }
        }
    }

    /// Binds the running execution to its turn and replays what came early.
    pub fn bind_turn(&mut self, turn: TurnRef, mismatch: &'static str, refusal: &'static str, now: u64) -> (r: Result<(), RuntimeError>)
        requires
            old(self).wf(),
            clock(now),
            old(self)@.active matches Some(a) && a.gate is Some,
        ensures
            final(self).at(bound(old(self)@, turn, mismatch@, refusal@, now)),
            fault_of(r) == bound(old(self)@, turn, mismatch@, refusal@, now).fault,
    {
        let mut stopping = false;
        let mut early: Option<Vec<AgentEvent>> = None;
        match &mut self.tasks.active {
            Some(active) => {
                stopping = active.stopping;
                active.turn = Some(turn.clone());
                match &mut active.gate {
                    Some(gate) => match gate.bind(turn.clone()) {
                        Ok(events) => {
                            early = Some(events);
                        },
                        Err(_) => {},
                    },
                    None => {},
                }
            },
            None => {},
        }
        match early {
            None => Err(RuntimeError::Interaction(mismatch)),
            Some(events) => {
                if stopping {
                    match self.spawn_interrupt(turn, refusal) {
                        Ok(()) => {},
                        Err(e) => {
                            proof {
                                faulted_fold(interrupted(begin(bound_state(old(self)@, turn)), turn, refusal@), events@, now);
                            }
                            return Err(e);
                        },
                    }
                }
                self.events(events, now)
            },
        }
    }

    fn compaction_started(&mut self, turn: TurnRef, now: u64) -> (r: Result<(), RuntimeError>)
        requires
            old(self).wf(),
            clock(now),
        ensures
            final(self).at(after_started(old(self)@, turn, now)),
            fault_of(r) == after_started(old(self)@, turn, now).fault,
    {
        proof {
            reveal(after_started);
        }
        let mut current: Option<bool> = None;
        match &self.tasks.active {
            Some(active) => {
                let expected = match &active.kind {
                    ActiveKind::Compact { thread: Some(thread), .. } => same(thread.as_str(), turn.thread_id.as_str()),
                    _ => false,
                };
                if active.gate.is_none() || turn.epoch != self.settings.epoch || !expected {
                    return Ok(());
                }
                if let Some(bound) = &active.turn {
                    current = Some(bound.same(&turn));
                }
            },
            None => {
                return Ok(());
            },
        }
        match current {
            Some(true) => Ok(()),
            Some(false) => Err(RuntimeError::Maintenance("压缩期间出现其他执行，停止运行")),
            None => self.bind_turn(turn, "压缩执行身份不匹配", "控制容量耗尽，无法停止压缩", now),
        }
    }

    fn execution_event(&mut self, event: AgentEvent, now: u64) -> (r: Result<(), RuntimeError>)
        requires
            old(self).wf(),
            clock(now),
        ensures
            final(self).at(after_event(old(self)@, event, now)),
            fault_of(r) == after_event(old(self)@, event, now).fault,
    {
        proof {
            reveal(after_event);
        }
        let mut passed: Option<AgentEvent> = None;
        match &mut self.tasks.active {
            Some(active) => match &mut active.gate {
                Some(gate) => match gate.event(event) {
                    Ok(e) => {
                        passed = e;
                    },
                    Err(_) => {
                        return Err(RuntimeError::Backend("Codex 提前事件过多"));
                    },
                },
                None => {
                    return Ok(());
                },
            },
            None => {
                return Ok(());
            },
        }
        match passed {
            Some(e) => self.event(e, now),
            None => Ok(()),
        }
    }

    pub fn handle_notification(&mut self, notification: AgentEvent, now: u64) -> (r: Result<(), RuntimeError>)
        requires
            old(self).wf(),
            clock(now),
        ensures
            final(self).at(after_notification(old(self)@, notification, now)),
            fault_of(r) == after_notification(old(self)@, notification, now).fault,
    {
        match notification {
            AgentEvent::Archived { epoch, thread } => self.archived(epoch, thread),
            AgentEvent::FileChanges { turn, item, changes } => {
                self.file_changes(turn, item, changes, now);
                Ok(())
            },
            AgentEvent::Started { turn } => self.compaction_started(turn, now),
            other => self.execution_event(other, now),
        }
    }

    pub fn handle_protocol(&mut self, incoming: Incoming, now: u64) -> (r: Result<(), RuntimeError>)
        requires
            old(self).wf(),
            clock(now),
        ensures
            final(self).at(after_protocol(old(self)@, incoming, now)),
            fault_of(r) == after_protocol(old(self)@, incoming, now).fault,
    {
        match incoming {
            Incoming::Notification(event) => self.handle_notification(event, now),
            Incoming::Request { request, reply } => self.handle_request(request, reply, now),
        }
    }
}

spec fn bound_state(s: State, turn: TurnRef) -> State {
    let a = s.active->Some_0;
    State {
        active: Some(ActiveText { turn: Some(turn), gate: Some(bound_gate(a.gate->Some_0, turn)), ..a }),
        ..s
    }
}

proof fn faulted_fold(s: Step, events: Seq<AgentEvent>, now: u64)
    requires
        s.fault is Some,
    ensures
        folded_all(s, events, now) == s,
    decreases events.len(),
{
    reveal(folded);
    if events.len() > 0 {
        faulted_fold(s, events.drop_last(), now);
    }
}

} // verus!
