//! Bounded serial admission: at most one task runs, reserved messages keep
//! their order, and a session mutation excludes everything else.
use vstd::prelude::*;
use std::collections::VecDeque;
use crate::lists::{keep, selection_maps};
use crate::model::{same_session, SessionKey, SessionText, TaskSpec, TaskText};
use crate::text::same;

verus! {

/// Durable acceptance is deliberately separate from executing side effects.
pub trait MessageJournal {
    type Error;

    /// Returns false for a duplicate. Must not report success before persistence.
    fn claim_message(&mut self, id: &str) -> Result<bool, Self::Error>;
}

#[derive(Debug, PartialEq, Eq)]
pub enum AdmissionError<E> {
    Full,
    SessionMutation,
    MissingId,
    Pending,
    Persistence(E),
}

/// What a journal's answer to a claim makes of an admission.
pub open spec fn admitted<E>(claimed: Result<bool, E>) -> Result<bool, AdmissionError<E>> {
    match claimed {
        Ok(newly) => Ok(newly),
        Err(e) => Err(AdmissionError::Persistence(e)),
    }
}

impl<E> AdmissionError<E> {
    /// The sentence shown for the error.
    pub fn message(&self) -> (r: String)
        ensures
            r@ == match *self {
                AdmissionError::Full => "任务队列已满，请稍后重新发送"@,
                AdmissionError::SessionMutation => "对话操作中，请稍后重新发送"@,
                AdmissionError::MissingId => "消息 ID 不能为空"@,
                AdmissionError::Pending => "该消息正在保存接收状态"@,
                AdmissionError::Persistence(_) => "消息状态保存失败"@,
            },
    {
        match self {
            AdmissionError::Full => "任务队列已满，请稍后重新发送".to_owned(),
            AdmissionError::SessionMutation => "对话操作中，请稍后重新发送".to_owned(),
            AdmissionError::MissingId => "消息 ID 不能为空".to_owned(),
            AdmissionError::Pending => "该消息正在保存接收状态".to_owned(),
            AdmissionError::Persistence(_) => "消息状态保存失败".to_owned(),
        }
    }
}

struct Slot {
    id: u64,
    message: String,
    task: TaskSpec,
    ready: Option<bool>,
}

/// A message whose claim is being persisted. `ready` holds the claim's result
/// once it is known.
pub struct Reservation {
    pub id: u64,
    pub message: Seq<char>,
    pub task: TaskText,
    pub ready: Option<bool>,
}

impl View for Slot {
    type V = Reservation;

    closed spec fn view(&self) -> Reservation {
        Reservation { id: self.id, message: self.message@, task: self.task@, ready: self.ready }
    }
}

spec fn slots(v: Seq<Slot>) -> Seq<Reservation> {
    v.map_values(|s: Slot| s@)
}

/// Tasks by their texts.
pub open spec fn task_texts(v: Seq<TaskSpec>) -> Seq<TaskText> {
    v.map_values(|t: TaskSpec| t@)
}

/// A task by its texts, if there is one.
pub open spec fn opt_task(t: Option<TaskSpec>) -> Option<TaskText> {
    match t {
        Some(t) => Some(t@),
        None => None,
    }
}

/// Owned by one application task; callers do not mutate it concurrently.
pub struct Scheduler {
    capacity: usize,
    queue: VecDeque<TaskSpec>,
    active: Option<TaskSpec>,
    mutating: bool,
    pending: Vec<Slot>,
    next_admission: u64,
}

/// Opaque identity for a pending disk operation. The owner must commit or abort
/// it when the supervised storage operation finishes, including cancellation.
pub struct AdmissionTicket(u64);

impl AdmissionTicket {
    pub closed spec fn id(&self) -> u64 {
        self.0
    }
}

/// The model of a scheduler.
pub struct Admissions {
    pub capacity: nat,
    pub queue: Seq<TaskText>,
    pub active: Option<TaskText>,
    pub mutating: bool,
    pub pending: Seq<Reservation>,
    pub next: u64,
}

/// Whether some pending reservation has this ticket.
pub open spec fn is_pending(pending: Seq<Reservation>, id: u64) -> bool {
    exists|i: int| 0 <= i < pending.len() && (#[trigger] pending[i]).id == id
}

/// Whether some pending reservation is of this message.
pub open spec fn message_pending(pending: Seq<Reservation>, message: Seq<char>) -> bool {
    exists|i: int| 0 <= i < pending.len() && (#[trigger] pending[i]).message == message
}

/// `pending` with the result of one ticket's claim recorded.
pub open spec fn decided(pending: Seq<Reservation>, id: u64, claimed: bool) -> Seq<Reservation> {
    pending.map_values(
        |r: Reservation|
            if r.id == id {
                Reservation { ready: Some(claimed), ..r }
            } else {
                r
            },
    )
}

/// `pending` without one ticket.
pub open spec fn without(pending: Seq<Reservation>, id: u64) -> Seq<Reservation> {
    pending.filter(|r: Reservation| r.id != id)
}

/// Decided reservations leave from the front: a claimed one is queued, a
/// duplicate is dropped; the first undecided one holds back those behind it.
pub open spec fn drained(a: Admissions) -> Admissions
    decreases a.pending.len(),
{
    if a.pending.len() > 0 && a.pending[0].ready is Some {
        let queue = if a.pending[0].ready == Some(true) {
            a.queue.push(a.pending[0].task)
        } else {
            a.queue
        };
        drained(Admissions { queue, pending: a.pending.drop_first(), ..a })
    } else {
        a
    }
}

/// A message's claim may be persisted: it has an id, no session mutates, it is
/// not pending already and there is room.
pub open spec fn can_reserve(a: Admissions, message: Seq<char>) -> bool {
    &&& message.len() > 0
    &&& !a.mutating
    &&& !message_pending(a.pending, message)
    &&& a.load() < a.capacity
    &&& a.next != u64::MAX
}

/// The message is reserved under the next ticket.
pub open spec fn reserved(a: Admissions, message: Seq<char>, task: TaskText) -> Admissions {
    Admissions {
        pending: a.pending.push(Reservation { id: a.next, message, task, ready: None }),
        next: (a.next + 1) as u64,
        ..a
    }
}

/// The claim of a ticket is decided.
pub open spec fn committed(a: Admissions, id: u64, claimed: bool) -> Admissions {
    if is_pending(a.pending, id) {
        drained(Admissions { pending: decided(a.pending, id, claimed), ..a })
    } else {
        a
    }
}

/// A ticket is given up.
pub open spec fn aborted(a: Admissions, id: u64) -> Admissions {
    drained(Admissions { pending: without(a.pending, id), ..a })
}

/// Neither queued nor pending work of a session remains.
pub open spec fn cancelled(a: Admissions, session: SessionText) -> Admissions {
    Admissions {
        queue: a.queue.filter(|t: TaskText| !same_session(t.session, session)),
        pending: a.pending.filter(|r: Reservation| !same_session(r.task.session, session)),
        ..a
    }
}

impl Admissions {
    pub open spec fn load(self) -> nat {
        self.queue.len() + self.pending.len()
    }

    /// Tickets are distinct and in reservation order, no message is pending
    /// twice, queue and reservations together stay within capacity, and no task
    /// runs while a session is changed.
    pub open spec fn bounded(self) -> bool {
        &&& self.load() <= self.capacity
        &&& self.capacity <= usize::MAX
        &&& forall|i: int, j: int|
            0 <= i < j < self.pending.len() ==> (#[trigger] self.pending[i]).id < (#[trigger] self.pending[j]).id
        &&& forall|i: int| 0 <= i < self.pending.len() ==> (#[trigger] self.pending[i]).id < self.next
        &&& forall|i: int, j: int|
            0 <= i < j < self.pending.len() ==> (#[trigger] self.pending[i]).message != (
            #[trigger] self.pending[j]).message
        &&& self.mutating ==> self.active is None
    }

    /// The invariant between operations: bounded, and no decided reservation
    /// stands at the front.
    pub open spec fn wf(self) -> bool {
        &&& self.bounded()
        &&& self.pending.len() > 0 ==> self.pending[0].ready is None
    }

    /// A task has this id: running, queued or reserved.
    pub open spec fn knows(self, id: Seq<char>) -> bool {
        ||| self.active matches Some(t) && t.id == id
        ||| exists|i: int| 0 <= i < self.queue.len() && (#[trigger] self.queue[i]).id == id
        ||| exists|i: int| 0 <= i < self.pending.len() && (#[trigger] self.pending[i]).task.id == id
    }
}

impl Scheduler {
    pub closed spec fn view(&self) -> Admissions {
        Admissions {
            capacity: self.capacity as nat,
            queue: task_texts(self.queue@),
            active: opt_task(self.active),
            mutating: self.mutating,
            pending: slots(self.pending@),
            next: self.next_admission,
        }
    }

    pub open spec fn wf(&self) -> bool {
        self@.wf()
    }

    pub fn new(capacity: usize) -> (r: Self)
        ensures
            r.wf(),
            r@ == (Admissions {
                capacity: capacity as nat,
                queue: Seq::empty(),
                active: None,
                mutating: false,
                pending: Seq::empty(),
                next: 0,
            }),
    {
        let r = Scheduler {
            capacity,
            queue: VecDeque::new(),
            active: None,
            mutating: false,
            pending: Vec::new(),
            next_admission: 0,
        };
        proof {
            assert(r@.queue =~= Seq::empty());
            assert(r@.pending =~= Seq::empty());
        }
        r
    }

    /// Claims a message in the journal and queues its task. The journal is
    /// asked only when the task could be queued.
    pub fn admit_task<J: MessageJournal>(&mut self, journal: &mut J, message: &str, task: TaskSpec) -> (r: Result<bool, AdmissionError<J::Error>>)
        requires
            old(self).wf(),
        ensures
            final(self).wf(),
            r is Err && r->Err_0 is MissingId <==> message@.len() == 0,
            r is Err && r->Err_0 is SessionMutation <==> message@.len() > 0 && old(self)@.mutating,
            r is Err && r->Err_0 is Full <==> message@.len() > 0 && !old(self)@.mutating
                && old(self)@.load() >= old(self)@.capacity,
            r is Err && r->Err_0 is Pending <==> message@.len() > 0 && !old(self)@.mutating
                && old(self)@.load() < old(self)@.capacity && old(self)@.pending.len() > 0,
            r is Err && !(r->Err_0 is Persistence) ==> *final(journal) == *old(journal),
            r is Ok || r->Err_0 is Persistence ==> exists|j: &mut J, claimed: Result<bool, J::Error>|
                {
                    &&& *j == *old(journal)
                    &&& *final(j) == *final(journal)
                    &&& #[trigger] call_ensures(J::claim_message, (j, message), claimed)
                    &&& r == admitted(claimed)
                },
            final(self)@ == (if r matches Ok(true) {
                Admissions { queue: old(self)@.queue.push(task@), ..old(self)@ }
            } else {
                old(self)@
            }),
    {
        if message.is_empty() {
            return Err(AdmissionError::MissingId);
        }
        if self.mutating {
            return Err(AdmissionError::SessionMutation);
        }
        if self.queue.len() + self.pending.len() >= self.capacity {
            return Err(AdmissionError::Full);
        }
        if self.pending.len() > 0 {
            return Err(AdmissionError::Pending);
        }
        let claimed = journal.claim_message(message);
        self.admit_claimed(claimed, task)
    }

    /// What becomes of a task once the journal has answered its claim.
    pub fn admit_claimed<E>(&mut self, claimed: Result<bool, E>, task: TaskSpec) -> (r: Result<bool, AdmissionError<E>>)
        requires
            old(self).wf(),
            old(self)@.load() < old(self)@.capacity,
        ensures
            final(self).wf(),
            r == admitted(claimed),
            final(self)@ == (if claimed == Ok::<bool, E>(true) {
                Admissions { queue: old(self)@.queue.push(task@), ..old(self)@ }
            } else {
                old(self)@
            }),
    {
        match claimed {
            Err(e) => Err(AdmissionError::Persistence(e)),
            Ok(false) => Ok(false),
            Ok(true) => {
                self.queue.push_back(task);
                proof {
                    assert(self@.queue =~= old(self)@.queue.push(task@));
                }
                Ok(true)
            },
        }
    }

    /// Reserve bounded capacity synchronously, then perform disk I/O outside
    /// this state owner. Stop and status remain available while persistence runs.
    pub fn reserve(&mut self, message: String, task: TaskSpec) -> (r: Result<AdmissionTicket, AdmissionError<()>>)
        requires
            old(self).wf(),
        ensures
            final(self).wf(),
            r is Ok <==> can_reserve(old(self)@, message@),
            match r {
                Ok(ticket) => ticket.id() == old(self)@.next && final(self)@ == reserved(old(self)@, message@, task@),
                Err(_) => final(self)@ == old(self)@,
            },
            r is Err && r->Err_0 is MissingId <==> message@.len() == 0,
            r is Err && r->Err_0 is SessionMutation <==> message@.len() > 0 && old(self)@.mutating,
            r is Err && r->Err_0 is Pending <==> message@.len() > 0 && !old(self)@.mutating && message_pending(
                old(self)@.pending,
                message@,
            ),
            r is Err && r->Err_0 is Full <==> message@.len() > 0 && !old(self)@.mutating && !message_pending(
                old(self)@.pending,
                message@,
            ) && (old(self)@.load() >= old(self)@.capacity || old(self)@.next == u64::MAX),
            !(r is Err && r->Err_0 is Persistence),
    {
        if message.as_str().is_empty() {
            return Err(AdmissionError::MissingId);
        }
        if self.mutating {
            return Err(AdmissionError::SessionMutation);
        }
        let mut i: usize = 0;
        while i < self.pending.len()
            invariant
                *self == *old(self),
                self.wf(),
                message@.len() > 0,
                !self@.mutating,
                i <= self.pending@.len(),
                forall|j: int| 0 <= j < i ==> (#[trigger] self@.pending[j]).message != message@,
            decreases self.pending.len() - i,
        {
            if same(self.pending[i].message.as_str(), message.as_str()) {
                assert(self@.pending[i as int].message == message@);
                return Err(AdmissionError::Pending);
            }
            i = i + 1;
        }
        if self.queue.len() + self.pending.len() >= self.capacity {
            return Err(AdmissionError::Full);
        }
        let id: u64 = self.next_admission;
        if id == u64::MAX {
            return Err(AdmissionError::Full);
        }
        self.next_admission = id + 1;
        self.pending.push(Slot { id, message, task, ready: None });
        proof {
            assert(self@.pending =~= old(self)@.pending.push(
                Reservation { id, message: message@, task: task@, ready: None },
            ));
        }
        Ok(AdmissionTicket(id))
    }

    /// Call only with the result of the journal claim. An absent ticket may have
    /// been cancelled by the user; its late disk completion cannot enqueue work.
    pub fn commit_admission(&mut self, ticket: AdmissionTicket, newly_claimed: bool) -> (r: bool)
        requires
            old(self).wf(),
        ensures
            final(self).wf(),
            r == (newly_claimed && is_pending(old(self)@.pending, ticket.id())),
            final(self)@ == committed(old(self)@, ticket.id(), newly_claimed),
    {
        let mut i: usize = 0;
        while i < self.pending.len()
            invariant
                *self == *old(self),
                self.wf(),
                i <= self.pending@.len(),
                forall|j: int| 0 <= j < i ==> (#[trigger] self@.pending[j]).id != ticket.0,
            decreases self.pending.len() - i,
        {
            if self.pending[i].id == ticket.0 {
                assert(self@.pending[i as int].id == ticket.0);
                self.pending[i].ready = Some(newly_claimed);
                proof {
                    let o = old(self)@.pending;
                    assert(self@.pending =~= decided(o, ticket.0, newly_claimed));
                    assert forall|a: int| 0 <= a < self@.pending.len() implies (#[trigger] self@.pending[a]).id == o[a].id && self@.pending[a].message == o[a].message by {}
                    assert(is_pending(o, ticket.0));
                    assert(self@.bounded());
                }
                self.drain_admissions();
                return newly_claimed;
            }
            i = i + 1;
        }
        false
    }

    pub fn abort_admission(&mut self, ticket: AdmissionTicket)
        requires
            old(self).wf(),
        ensures
            final(self).wf(),
            final(self)@ == aborted(old(self)@, ticket.id()),
    {
        let others = |r: &Slot| -> (k: bool)
            ensures
                k == (r@.id != ticket.0),
        { r.id != ticket.0 };
        self.keep_pending(others, Ghost(|r: Reservation| r.id != ticket.0));
        proof {
            assert(without(old(self)@.pending, ticket.0) == old(self)@.pending.filter(|r: Reservation| r.id != ticket.0));
        }
        self.drain_admissions();
    }

    fn keep_pending<F: Fn(&Slot) -> bool>(&mut self, f: F, Ghost(p): Ghost<spec_fn(Reservation) -> bool>)
        requires
            old(self)@.bounded(),
            forall|r: &Slot| #[trigger] call_requires(f, (r,)),
            forall|r: &Slot, k: bool| #[trigger] call_ensures(f, (r,), k) ==> k == p(r@),
        ensures
            final(self)@ == (Admissions { pending: old(self)@.pending.filter(p), ..old(self)@ }),
            final(self)@.bounded(),
    {
        proof {
            filter_keeps_order(self@.pending, p, self.next_admission);
            selection_maps(self.pending@, |s: Slot| p(s@), |s: Slot| s@, p);
        }
        keep(&mut self.pending, f, Ghost(|s: Slot| p(s@)));
    }

    fn drain_admissions(&mut self)
        requires
            old(self)@.bounded(),
        ensures
            final(self).wf(),
            final(self)@ == drained(old(self)@),
    {
        // Disk jobs may finish out of order; keep the order of admission.
        while self.pending.len() > 0 && self.pending[0].ready.is_some()
            invariant
                self@.bounded(),
                drained(self@) == drained(old(self)@),
            decreases self.pending.len(),
        {
            let ghost before = self@;
            assert(before.pending[0].ready == self.pending@[0].ready);
            let r = self.pending.remove(0);
            proof {
                assert(self@.pending =~= before.pending.drop_first());
                assert(r@ == before.pending[0]);
            }
            if let Some(true) = r.ready {
                self.queue.push_back(r.task);
                proof {
                    assert(self@.queue =~= before.queue.push(before.pending[0].task));
                }
            }
            proof {
                let next = if before.pending[0].ready == Some(true) {
                    before.queue.push(before.pending[0].task)
                } else {
                    before.queue
                };
                assert(self@ == (Admissions { queue: next, pending: before.pending.drop_first(), ..before }));
            }
        }
    }

    pub fn start_next(&mut self) -> (r: Option<&TaskSpec>)
        requires
            old(self).wf(),
        ensures
            final(self).wf(),
            r is Some <==> old(self)@.active is None && !old(self)@.mutating && old(self)@.queue.len() > 0,
            match r {
                Some(t) => t@ == old(self)@.queue[0] && final(self)@ == (Admissions {
                    active: Some(t@),
                    queue: old(self)@.queue.drop_first(),
                    ..old(self)@
                }),
                None => final(self)@ == old(self)@,
            },
    {
        if self.active.is_some() || self.mutating {
            return None;
        }
        self.active = self.queue.pop_front();
        proof {
            if old(self)@.queue.len() > 0 {
                assert(self@.queue =~= old(self)@.queue.drop_first());
            }
        }
        self.active.as_ref()
    }

    /// A stale completion cannot free a newer task's execution slot.
    pub fn finish(&mut self, task_id: &str) -> (r: bool)
        requires
            old(self).wf(),
        ensures
            final(self).wf(),
            r == (old(self)@.active matches Some(t) && t.id == task_id@),
            final(self)@ == (if r {
                Admissions { active: None, ..old(self)@ }
            } else {
                old(self)@
            }),
    {
        let hit = match &self.active {
            Some(t) => same(t.id.as_str(), task_id),
            None => false,
        };
        if hit {
            self.active = None;
        }
        hit
    }

    /// Drops the session's waiting work and says how many entries left.
    pub fn cancel_queued(&mut self, session: &SessionKey) -> (n: usize)
        requires
            old(self).wf(),
        ensures
            final(self).wf(),
            final(self)@ == drained(cancelled(old(self)@, session@)),
            n == old(self)@.load() - final(self)@.load(),
    {
        let before: usize = self.queue.len() + self.pending.len();
        let ghost o = self.queue@;
        let ghost p = |t: TaskSpec| !same_session(t@.session, session@);
        let mut kept: VecDeque<TaskSpec> = VecDeque::new();
        let mut i: usize = 0;
        proof {
            reveal(Seq::filter);
            assert(o.take(0).filter(p) =~= Seq::empty());
            assert(o.skip(0) =~= o);
        }
        while self.queue.len() > 0
            invariant
                p == (|t: TaskSpec| !same_session(t@.session, session@)),
                i <= o.len(),
                o.len() <= usize::MAX,
                self.queue@ == o.skip(i as int),
                kept@ == o.take(i as int).filter(p),
                kept@.len() <= i,
                self@ == (Admissions { queue: task_texts(self.queue@), ..old(self)@ }),
            decreases self.queue.len(),
        {
            match self.queue.pop_front() {
                Some(t) => {
                    proof {
                        assert(t == o[i as int]);
                        reveal(Seq::filter);
                        assert(o.take(i + 1).drop_last() =~= o.take(i as int));
                        assert(self.queue@ =~= o.skip(i + 1));
                    }
                    if !t.session.same(session) {
                        kept.push_back(t);
                    }
                    i = i + 1;
                },
                None => {},
            }
        }
        self.queue = kept;
        proof {
            assert(o.take(i as int) =~= o);
            o.lemma_filter_len(p);
            selection_maps(o, p, |t: TaskSpec| t@, |t: TaskText| !same_session(t.session, session@));
            old(self)@.pending.lemma_filter_len(|r: Reservation| !same_session(r.task.session, session@));
        }
        let others = |r: &Slot| -> (k: bool)
            ensures
                k == !same_session(r@.task.session, session@),
        { !r.task.session.same(session) };
        self.keep_pending(others, Ghost(|r: Reservation| !same_session(r.task.session, session@)));
        proof {
            assert(self@ == cancelled(old(self)@, session@));
            drained_shrinks(self@);
        }
        self.drain_admissions();
        before - self.queue.len() - self.pending.len()
    }

    /// Whether a session may be changed now: nothing runs, waits or is being
    /// admitted, and no session is being changed.
    pub fn is_idle(&self) -> (r: bool)
        requires
            self.wf(),
        ensures
            r == (!self@.mutating && self@.active is None && self@.load() == 0),
    {
        !self.mutating && self.active.is_none() && self.queue.len() == 0 && self.pending.len() == 0
    }

    pub fn begin_session_mutation(&mut self) -> (r: bool)
        requires
            old(self).wf(),
        ensures
            final(self).wf(),
            r == (!old(self)@.mutating && old(self)@.active is None && old(self)@.load() == 0),
            final(self)@ == (Admissions { mutating: old(self)@.mutating || r, ..old(self)@ }),
    {
        let idle = self.is_idle();
        if idle {
            self.mutating = true;
        }
        idle
    }

    pub fn end_session_mutation(&mut self)
        requires
            old(self).wf(),
        ensures
            final(self).wf(),
            final(self)@ == (Admissions { mutating: false, ..old(self)@ }),
    {
        self.mutating = false;
    }

    /// Backend invalidations precede queued work, but never race active preparation
    /// or another session mutation. Pending admissions only persist task claims.
    pub fn begin_invalidation(&mut self) -> (r: bool)
        requires
            old(self).wf(),
        ensures
            final(self).wf(),
            r == (!old(self)@.mutating && old(self)@.active is None),
            final(self)@ == (Admissions { mutating: old(self)@.mutating || r, ..old(self)@ }),
    {
        if self.mutating || self.active.is_some() {
            return false;
        }
        self.mutating = true;
        true
    }

    pub fn queued(&self) -> (n: usize)
        requires
            self.wf(),
        ensures
            n == self@.queue.len(),
    {
        self.queue.len()
    }

    pub fn has_task(&self, id: &str) -> (r: bool)
        requires
            self.wf(),
        ensures
            r == self@.knows(id@),
    {
        if let Some(t) = &self.active {
            if same(t.id.as_str(), id) {
                return true;
            }
        }
        let mut i: usize = 0;
        while i < self.queue.len()
            invariant
                i <= self.queue@.len(),
                forall|j: int| 0 <= j < i ==> (#[trigger] self@.queue[j]).id != id@,
            decreases self.queue.len() - i,
        {
            if same(self.queue[i].id.as_str(), id) {
                assert(self@.queue[i as int].id == id@);
                return true;
            }
            i = i + 1;
        }
        let mut k: usize = 0;
        while k < self.pending.len()
            invariant
                k <= self.pending@.len(),
                forall|j: int| 0 <= j < k ==> (#[trigger] self@.pending[j]).task.id != id@,
            decreases self.pending.len() - k,
        {
            if same(self.pending[k].task.id.as_str(), id) {
                assert(self@.pending[k as int].task.id == id@);
                return true;
            }
            k = k + 1;
        }
        false
    }

    pub fn pending_admissions(&self) -> (n: usize)
        requires
            self.wf(),
        ensures
            n == self@.pending.len(),
    {
        self.pending.len()
    }
}

proof fn drained_shrinks(a: Admissions)
    ensures
        drained(a).load() <= a.load(),
    decreases a.pending.len(),
{
    if a.pending.len() > 0 && a.pending[0].ready is Some {
        let queue = if a.pending[0].ready == Some(true) {
            a.queue.push(a.pending[0].task)
        } else {
            a.queue
        };
        drained_shrinks(Admissions { queue, pending: a.pending.drop_first(), ..a });
    }
}

spec fn ordered(s: Seq<Reservation>, next: u64) -> bool {
    &&& forall|i: int, j: int| 0 <= i < j < s.len() ==> (#[trigger] s[i]).id < (#[trigger] s[j]).id
    &&& forall|i: int| 0 <= i < s.len() ==> (#[trigger] s[i]).id < next
    &&& forall|i: int, j: int| 0 <= i < j < s.len() ==> (#[trigger] s[i]).message != (#[trigger] s[j]).message
}

proof fn filter_keeps_order(s: Seq<Reservation>, p: spec_fn(Reservation) -> bool, next: u64)
    requires
        ordered(s, next),
    ensures
        ordered(s.filter(p), next),
        s.filter(p).len() <= s.len(),
        forall|i: int| 0 <= i < s.filter(p).len() ==> s.contains(#[trigger] s.filter(p)[i]),
    decreases s.len(),
{
    reveal(Seq::filter);
    if s.len() > 0 {
        let h = s.drop_last();
        filter_keeps_order(h, p, next);
        let f = h.filter(p);
        assert forall|i: int| 0 <= i < f.len() implies s.contains(#[trigger] f[i]) && f[i].id < s.last().id
            && f[i].message != s.last().message by {
            let k = choose|k: int| 0 <= k < h.len() && h[k] == f[i];
            assert(h.contains(f[i]));
            assert(s[k] == f[i]);
        }
        assert(s[s.len() - 1] == s.last());
    }
}

/// The tasks of the claimed reservations of `pending`, in reservation order.
pub open spec fn claimed_tasks(pending: Seq<Reservation>) -> Seq<TaskText> {
    pending.filter(|r: Reservation| r.ready == Some(true)).map_values(|r: Reservation| r.task)
}

/// Admission is first in, first out, in whatever order the claims were decided:
/// what leaves the reservations is their longest decided prefix, and its claimed
/// tasks join the queue's end in the order in which they were reserved.
pub proof fn admission_keeps_reservation_order(a: Admissions) -> (n: nat)
    ensures
        n <= a.pending.len(),
        forall|i: int| 0 <= i < n ==> (#[trigger] a.pending[i]).ready is Some,
        n < a.pending.len() ==> a.pending[n as int].ready is None,
        drained(a) == (Admissions {
            queue: a.queue + claimed_tasks(a.pending.take(n as int)),
            pending: a.pending.skip(n as int),
            ..a
        }),
    decreases a.pending.len(),
{
    let claimed = |r: Reservation| r.ready == Some(true);
    let task = |r: Reservation| r.task;
    if a.pending.len() > 0 && a.pending[0].ready is Some {
        let rest = a.pending.drop_first();
        let queue = if a.pending[0].ready == Some(true) {
            a.queue.push(a.pending[0].task)
        } else {
            a.queue
        };
        let m = admission_keeps_reservation_order(Admissions { queue, pending: rest, ..a });
        let n = m + 1;
        let head = seq![a.pending[0]];
        assert(a.pending.take(n as int) =~= head + rest.take(m as int));
        assert(a.pending.skip(n as int) =~= rest.skip(m as int));
        Seq::filter_distributes_over_add(head, rest.take(m as int), claimed);
        reveal(Seq::filter);
        assert(head.drop_last() =~= Seq::empty());
        assert(head.drop_last().filter(claimed) =~= Seq::empty());
        assert(head.filter(claimed) =~= (if claimed(head[0]) { head } else { Seq::empty() }));
        assert(claimed_tasks(head) =~= (if claimed(head[0]) { seq![head[0].task] } else { Seq::empty() }));
        assert(claimed_tasks(a.pending.take(n as int)) =~= claimed_tasks(head) + claimed_tasks(rest.take(m as int)));
        assert(a.queue + claimed_tasks(a.pending.take(n as int)) =~= queue + claimed_tasks(rest.take(m as int)));
        assert forall|i: int| 0 <= i < n implies (#[trigger] a.pending[i]).ready is Some by {
            if i > 0 {
                assert(rest[i - 1] == a.pending[i]);
            }
        }
        if n < a.pending.len() {
            assert(rest[m as int] == a.pending[n as int]);
        }
        n
    } else {
        reveal(Seq::filter);
        assert(claimed_tasks(a.pending.take(0)) =~= Seq::empty());
        assert(a.queue + claimed_tasks(a.pending.take(0)) =~= a.queue);
        assert(a.pending.skip(0) =~= a.pending);
        0
    }
}

/// After a cancellation nothing of the session waits any more, whatever was
/// decided about its claims.
pub proof fn cancellation_leaves_no_work(a: Admissions, session: SessionText)
    ensures
        ({
            let b = drained(cancelled(a, session));
            &&& forall|i: int| 0 <= i < b.queue.len() ==> !same_session((#[trigger] b.queue[i]).session, session)
            &&& forall|i: int|
                0 <= i < b.pending.len() ==> !same_session((#[trigger] b.pending[i]).task.session, session)
        }),
{
    let c = cancelled(a, session);
    let q = |t: TaskText| !same_session(t.session, session);
    let p = |r: Reservation| !same_session(r.task.session, session);
    assert forall|i: int| 0 <= i < c.queue.len() implies !same_session((#[trigger] c.queue[i]).session, session) by {
        a.queue.lemma_filter_pred(q, i);
    }
    assert forall|i: int| 0 <= i < c.pending.len() implies !same_session((#[trigger] c.pending[i]).task.session, session) by {
        a.pending.lemma_filter_pred(p, i);
    }
    drained_keeps(c, session);
}

proof fn drained_keeps(a: Admissions, session: SessionText)
    requires
        forall|i: int| 0 <= i < a.queue.len() ==> !same_session((#[trigger] a.queue[i]).session, session),
        forall|i: int| 0 <= i < a.pending.len() ==> !same_session((#[trigger] a.pending[i]).task.session, session),
    ensures
        forall|i: int|
            0 <= i < drained(a).queue.len() ==> !same_session((#[trigger] drained(a).queue[i]).session, session),
        forall|i: int|
            0 <= i < drained(a).pending.len() ==> !same_session((#[trigger] drained(a).pending[i]).task.session, session),
    decreases a.pending.len(),
{
    if a.pending.len() > 0 && a.pending[0].ready is Some {
        let queue = if a.pending[0].ready == Some(true) {
            a.queue.push(a.pending[0].task)
        } else {
            a.queue
        };
        drained_keeps(Admissions { queue, pending: a.pending.drop_first(), ..a }, session);
    }
}

/// No task is active while the session-mutation gate is closed.
pub proof fn closed_gates_run_nothing(a: Admissions)
    requires
        a.wf(),
        a.mutating,
    ensures
        a.active is None,
{
}

/// Admission leaves the session-mutation gate as it is.
pub proof fn admission_keeps_the_gate(a: Admissions, id: u64, claimed: bool)
    ensures
        drained(a).mutating == a.mutating,
        committed(a, id, claimed).mutating == a.mutating,
        aborted(a, id).mutating == a.mutating,
{
    draining_keeps_the_gate(a);
    draining_keeps_the_gate(Admissions { pending: decided(a.pending, id, claimed), ..a });
    draining_keeps_the_gate(Admissions { pending: without(a.pending, id), ..a });
}

proof fn draining_keeps_the_gate(a: Admissions)
    ensures
        drained(a).mutating == a.mutating,
    decreases a.pending.len(),
{
    if a.pending.len() > 0 && a.pending[0].ready is Some {
        let queue = if a.pending[0].ready == Some(true) {
            a.queue.push(a.pending[0].task)
        } else {
            a.queue
        };
        draining_keeps_the_gate(Admissions { queue, pending: a.pending.drop_first(), ..a });
    }
}

/// A ticket that is given up at once leaves nothing but its number.
pub proof fn tickets_given_up_leave_nothing(a: Admissions, message: Seq<char>, task: TaskText)
    requires
        a.wf(),
        can_reserve(a, message),
    ensures
        aborted(reserved(a, message, task), a.next) == (Admissions { next: (a.next + 1) as u64, ..a }),
{
    let p = |r: Reservation| r.id != a.next;
    let last = Reservation { id: a.next, message, task, ready: None };
    let all = a.pending.push(last);
    assert(all.drop_last() =~= a.pending);
    reveal(Seq::filter);
    assert(all.filter(p) == a.pending.filter(p));
    selection_of_all(a.pending, p);
    assert(without(all, a.next) == a.pending);
}

proof fn selection_of_all(s: Seq<Reservation>, p: spec_fn(Reservation) -> bool)
    requires
        forall|i: int| 0 <= i < s.len() ==> p(#[trigger] s[i]),
    ensures
        s.filter(p) == s,
    decreases s.len(),
{
    reveal(Seq::filter);
    if s.len() > 0 {
        let h = s.drop_last();
        assert forall|i: int| 0 <= i < h.len() implies p(#[trigger] h[i]) by {
            assert(h[i] == s[i]);
        }
        selection_of_all(h, p);
        assert(s.last() == s[s.len() - 1]);
        assert(h.push(s.last()) =~= s);
    }
}

/// An aborted ticket is gone: a commit that arrives late finds nothing to queue.
pub proof fn aborted_ticket_cannot_return(a: Admissions, id: u64)
    ensures
        !is_pending(without(a.pending, id), id),
        !is_pending(drained(Admissions { pending: without(a.pending, id), ..a }).pending, id),
{
    let p = |r: Reservation| r.id != id;
    let b = Admissions { pending: without(a.pending, id), ..a };
    assert forall|i: int| 0 <= i < b.pending.len() implies (#[trigger] b.pending[i]).id != id by {
        a.pending.lemma_filter_pred(p, i);
    }
    let n = admission_keeps_reservation_order(b);
}

/// Cancelling one session's work leaves the queued work of all others, in order.
pub proof fn cancellation_keeps_the_work_of_others(a: Admissions, session: SessionText) -> (k: nat)
    ensures
        ({
            let b = drained(cancelled(a, session));
            let others = a.queue.filter(
                |t: TaskText| !(t.session.user == session.user && t.session.workspace.path == session.workspace.path),
            );
            &&& k == others.len()
            &&& k <= b.queue.len()
            &&& b.queue.take(k as int) == others
            &&& b.active == a.active
        }),
{
    let c = cancelled(a, session);
    let n = admission_keeps_reservation_order(c);
    let others = a.queue.filter(
        |t: TaskText| !(t.session.user == session.user && t.session.workspace.path == session.workspace.path),
    );
    let p = |t: TaskText| !same_session(t.session, session);
    let q = |t: TaskText| !(t.session.user == session.user && t.session.workspace.path == session.workspace.path);
    same_selection(a.queue, p, q);
    assert(drained(c).queue.take(others.len() as int) =~= others);
    others.len()
}

proof fn same_selection(s: Seq<TaskText>, p: spec_fn(TaskText) -> bool, q: spec_fn(TaskText) -> bool)
    requires
        forall|t: TaskText| p(t) == #[trigger] q(t),
    ensures
        s.filter(p) == s.filter(q),
    decreases s.len(),
{
    reveal(Seq::filter);
    if s.len() > 0 {
        same_selection(s.drop_last(), p, q);
        assert(p(s.last()) == q(s.last()));
    }
}

/// A claim that is decided first queues its task behind the ones that wait, or,
/// where it is a repetition, nothing; either way it is not pending any more.
pub proof fn decided_claims_queue_their_task(a: Admissions)
    requires
        a.wf(),
        a.pending.len() > 0,
    ensures
        ({
            let task = a.pending[0].task;
            let ticket = a.pending[0].id;
            let yes = committed(a, ticket, true);
            let no = committed(a, ticket, false);
            &&& yes.queue.len() > a.queue.len()
            &&& yes.queue.take(a.queue.len() as int) == a.queue
            &&& yes.queue[a.queue.len() as int] == task
            &&& a.pending.len() == 1 ==> yes.queue == a.queue.push(task) && yes.pending.len() == 0
            &&& a.pending.len() == 1 ==> no.queue == a.queue && no.pending.len() == 0
            &&& yes.active == a.active && no.active == a.active
        }),
{
    let ticket = a.pending[0].id;
    assert(is_pending(a.pending, ticket));
    let y = Admissions { pending: decided(a.pending, ticket, true), ..a };
    let n = Admissions { pending: decided(a.pending, ticket, false), ..a };
    let y1 = Admissions { queue: a.queue.push(a.pending[0].task), pending: y.pending.drop_first(), ..a };
    let n1 = Admissions { pending: n.pending.drop_first(), ..a };
    let i = admission_keeps_reservation_order(y1);
    let j = admission_keeps_reservation_order(n1);
    assert(drained(y) == drained(y1));
    assert(drained(n) == drained(n1));
    let yes = committed(a, ticket, true);
    assert(yes.queue.take(a.queue.len() as int) =~= a.queue);
    reveal(Seq::filter);
    if a.pending.len() == 1 {
        assert(y1.pending.take(0) =~= Seq::empty());
        assert(n1.pending.take(0) =~= Seq::empty());
        assert(claimed_tasks(y1.pending.take(0)) =~= Seq::empty());
        assert(claimed_tasks(n1.pending.take(0)) =~= Seq::empty());
        assert(yes.queue =~= a.queue.push(a.pending[0].task));
        assert(committed(a, ticket, false).queue =~= a.queue);
    }
}

} // verus!
