//! Execution identity gate. Handles notifications arriving before turn/start's
//! response without assigning them to whatever task happens to be current.
use vstd::prelude::*;
use std::collections::VecDeque;
use crate::events::AgentEvent;
use crate::ports::{same_turn, BackendError, TurnRef};
use crate::text::same;

verus! {

pub struct Execution {
    epoch: u64,
    thread: String,
    turn: Option<TurnRef>,
    early: VecDeque<AgentEvent>,
    capacity: usize,
    terminal: bool,
}

/// The model of an execution: the epoch and thread it was started for, the
/// turn it is bound to, the events kept until then, and whether it has ended.
pub struct Gate {
    pub epoch: u64,
    pub thread: Seq<char>,
    pub turn: Option<TurnRef>,
    pub early: Seq<AgentEvent>,
    pub capacity: nat,
    pub terminal: bool,
}

/// The turn that an execution event belongs to.
pub open spec fn identity(event: AgentEvent) -> Option<TurnRef> {
    match event {
        AgentEvent::Output { turn, .. } => Some(turn),
        AgentEvent::Plan { turn, .. } => Some(turn),
        AgentEvent::Finished { turn, .. } => Some(turn),
        _ => None,
    }
}

/// What a bound execution passes on of the buffered events: those of its turn,
/// up to and with the first completion. The flag tells whether one was met.
pub open spec fn replay(early: Seq<AgentEvent>, turn: TurnRef) -> (Seq<AgentEvent>, bool)
    decreases early.len(),
{
    if early.len() == 0 {
        (Seq::empty(), false)
    } else {
        let (out, done) = replay(early.drop_last(), turn);
        let event = early.last();
        if done || !(identity(event) matches Some(t) && same_turn(t, turn)) {
            (out, done)
        } else {
            (out.push(event), event is Finished)
        }
    }
}

impl Gate {
    /// The event is of this execution's epoch and thread.
    pub open spec fn concerns(self, event: AgentEvent) -> bool {
        identity(event) matches Some(t) && t.epoch == self.epoch && t.thread_id@ == self.thread
    }

    /// Events are buffered only before the binding, only of this epoch and
    /// thread, and never more than the capacity; an ended execution keeps none.
    pub open spec fn wf(self) -> bool {
        &&& self.early.len() <= self.capacity
        &&& self.turn is Some || self.terminal ==> self.early.len() == 0
        &&& self.turn matches Some(t) ==> t.epoch == self.epoch && t.thread_id@ == self.thread && t.turn_id@.len() > 0
        &&& forall|i: int| 0 <= i < self.early.len() ==> self.concerns(#[trigger] self.early[i])
    }

    /// A turn that this execution could be bound to.
    pub open spec fn can_bind(self, turn: TurnRef) -> bool {
        &&& !self.terminal
        &&& self.turn is None
        &&& turn.epoch == self.epoch
        &&& turn.thread_id@ == self.thread
        &&& turn.turn_id@.len() > 0
    }

    /// A request of this turn may be held for this execution.
    pub open spec fn accepts(self, turn: TurnRef) -> bool {
        &&& !self.terminal
        &&& turn.epoch == self.epoch
        &&& turn.thread_id@ == self.thread
        &&& self.turn matches Some(bound) ==> same_turn(bound, turn)
    }

    /// The state after an event, and whether the event is passed on.
    pub open spec fn after(self, event: AgentEvent) -> (Gate, bool) {
        if self.terminal || !self.concerns(event) {
            (self, false)
        } else {
            match self.turn {
                Some(turn) => {
                    if same_turn(identity(event)->Some_0, turn) {
                        (Gate { terminal: event is Finished, ..self }, true)
                    } else {
                        (self, false)
                    }
                },
                None => {
                    if self.early.len() >= self.capacity {
                        (Gate { terminal: true, early: Seq::empty(), ..self }, false)
                    } else {
                        (Gate { early: self.early.push(event), ..self }, false)
                    }
                },
            }
        }
    }

    /// Buffering one more event would exceed the capacity.
    pub open spec fn overflows(self, event: AgentEvent) -> bool {
        !self.terminal && self.concerns(event) && self.turn is None && self.early.len() >= self.capacity
    }
}

impl Execution {
    pub closed spec fn view(&self) -> Gate {
        Gate {
            epoch: self.epoch,
            thread: self.thread@,
            turn: self.turn,
            early: self.early@,
            capacity: self.capacity as nat,
            terminal: self.terminal,
        }
    }

    pub open spec fn wf(&self) -> bool {
        self@.wf()
    }

    pub fn starting(epoch: u64, thread: String, capacity: usize) -> (r: Self)
        ensures
            r.wf(),
            r@ == (Gate {
                epoch,
                thread: thread@,
                turn: None,
                early: Seq::empty(),
                capacity: capacity as nat,
                terminal: false,
            }),
    {
        Execution { epoch, thread, turn: None, early: VecDeque::new(), capacity, terminal: false }
    }

    /// Events with unrelated identities never enter this execution's buffers.
    pub fn event(&mut self, event: AgentEvent) -> (r: Result<Option<AgentEvent>, BackendError>)
        requires
            old(self).wf(),
        ensures
            final(self).wf(),
            final(self)@ == old(self)@.after(event).0,
            r == (if old(self)@.overflows(event) {
                Err::<Option<AgentEvent>, BackendError>(BackendError::Incompatible)
            } else if old(self)@.after(event).1 {
                Ok(Some(event))
            } else {
                Ok(None)
            }),
    {
        let concerned = match &event {
            AgentEvent::Output { turn, .. } => self.concerned(turn),
            AgentEvent::Plan { turn, .. } => self.concerned(turn),
            AgentEvent::Finished { turn, .. } => self.concerned(turn),
            _ => false,
        };
        if self.terminal || !concerned {
            return Ok(None);
        }
        if let Some(turn) = &self.turn {
            let own = match &event {
                AgentEvent::Output { turn: t, .. } => t.same(turn),
                AgentEvent::Plan { turn: t, .. } => t.same(turn),
                AgentEvent::Finished { turn: t, .. } => t.same(turn),
                _ => false,
            };
            if !own {
                return Ok(None);
            }
            if let AgentEvent::Finished { .. } = &event {
                self.terminal = true;
            }
            Ok(Some(event))
        } else {
            if self.early.len() >= self.capacity {
                self.terminal = true;
                self.early.clear();
                return Err(BackendError::Incompatible);
            }
            self.early.push_back(event);
            Ok(None)
        }
    }

    fn concerned(&self, turn: &TurnRef) -> (r: bool)
        ensures
            r == (turn.epoch == self@.epoch && turn.thread_id@ == self@.thread),
    {
        turn.epoch == self.epoch && same(turn.thread_id.as_str(), self.thread.as_str())
    }

    /// Bind exactly once to the acknowledged turn, then replay matching events.
    pub fn bind(&mut self, turn: TurnRef) -> (r: Result<Vec<AgentEvent>, BackendError>)
        requires
            old(self).wf(),
        ensures
            final(self).wf(),
            r is Ok <==> old(self)@.can_bind(turn),
            match r {
                Ok(events) => events@ == replay(old(self)@.early, turn).0 && final(self)@ == (Gate {
                    turn: Some(turn),
                    early: Seq::empty(),
                    terminal: replay(old(self)@.early, turn).1,
                    ..old(self)@
                }),
                Err(e) => e == BackendError::Incompatible && final(self)@ == old(self)@,
            },
    {
        if self.terminal || self.turn.is_some() || !self.concerned(&turn) || turn.turn_id.as_str().is_empty() {
            return Err(BackendError::Incompatible);
        }
        let ghost o = self.early@;
        let ghost start = self@;
        let ghost t = turn;
        self.turn = Some(turn);
        let mut buffered: VecDeque<AgentEvent> = VecDeque::new();
        std::mem::swap(&mut buffered, &mut self.early);
        let mut effects: Vec<AgentEvent> = Vec::new();
        let ghost mut n: int = 0;
        proof {
            assert(o.skip(0) =~= o);
        }
        while buffered.len() > 0
            invariant
                0 <= n <= o.len(),
                buffered@ == o.skip(n),
                start.wf(),
                start.early == o,
                start.can_bind(t),
                effects@ == replay(o.take(n), t).0,
                self.wf(),
                self@ == (Gate { turn: Some(t), early: Seq::empty(), terminal: replay(o.take(n), t).1, ..start }),
            decreases buffered.len(),
        {
            match buffered.pop_front() {
                Some(event) => {
                    proof {
                        assert(event == o[n]);
                        assert(start.concerns(o[n]));
                        assert(o.take(n + 1).drop_last() =~= o.take(n));
                        assert(o.take(n + 1).last() == event);
                        assert(buffered@ =~= o.skip(n + 1));
                        n = n + 1;
                    }
                    match self.event(event) {
                        Ok(Some(kept)) => {
                            effects.push(kept);
                        },
                        Ok(None) => {},
                        Err(e) => {
                            return Err(e);
                        },
                    }
                },
                None => {},
            }
        }
        proof {
            assert(o.take(n) =~= o);
        }
        Ok(effects)
    }

    /// An uncertain RPC failure never creates an implicit retry path.
    pub fn disconnect(&mut self)
        requires
            old(self).wf(),
        ensures
            final(self).wf(),
            final(self)@ == (Gate { terminal: true, early: Seq::empty(), ..old(self)@ }),
    {
        self.terminal = true;
        self.early.clear();
    }

    pub fn is_terminal(&self) -> (r: bool)
        ensures
            r == self@.terminal,
    {
        self.terminal
    }

    /// Before the start response, requests may wait but must not be approved.
    pub fn accepts_request(&self, turn: &TurnRef) -> (r: bool)
        ensures
            r == self@.accepts(*turn),
    {
        !self.terminal && self.concerned(turn) && match &self.turn {
            Some(bound) => bound.same(turn),
            None => true,
        }
    }
}

/// Once ended, an execution stays ended and passes nothing on; it cannot be bound.
pub proof fn terminal_is_final(g: Gate, event: AgentEvent, turn: TurnRef)
    requires
        g.terminal,
    ensures
        g.after(event).0 == g,
        !g.after(event).1,
        !g.overflows(event),
        !g.can_bind(turn),
        !g.accepts(turn),
{
}

/// A bound execution cannot be bound again, and whatever it passes on is of
/// the turn that it is bound to.
pub proof fn binding_is_single(g: Gate, event: AgentEvent, turn: TurnRef)
    requires
        g.turn is Some,
    ensures
        !g.can_bind(turn),
        g.after(event).0.turn == g.turn,
        g.after(event).1 ==> (identity(event) matches Some(t) && same_turn(t, g.turn->Some_0)),
{
}

/// Overflowing the buffer ends the execution for good: no turn can be bound to it.
pub proof fn overflow_cannot_rebind(g: Gate, event: AgentEvent, turn: TurnRef)
    requires
        g.overflows(event),
    ensures
        g.after(event).0.terminal,
        !g.after(event).0.can_bind(turn),
{
}

/// What a binding replays is of the bound turn alone, in arrival order, and
/// nothing follows its completion.
pub proof fn replay_is_of_the_turn(early: Seq<AgentEvent>, turn: TurnRef)
    ensures
        ({
            let (out, done) = replay(early, turn);
            &&& forall|i: int|
                0 <= i < out.len() ==> (identity(#[trigger] out[i]) matches Some(t) && same_turn(t, turn))
            &&& forall|i: int| 0 <= i < out.len() - 1 ==> !(#[trigger] out[i] is Finished)
            &&& done <==> out.len() > 0 && out.last() is Finished
            &&& !done ==> out == early.filter(|e: AgentEvent| identity(e) matches Some(t) && same_turn(t, turn))
        }),
    decreases early.len(),
{
    let p = |e: AgentEvent| identity(e) matches Some(t) && same_turn(t, turn);
    reveal(Seq::filter);
    if early.len() > 0 {
        replay_is_of_the_turn(early.drop_last(), turn);
    } else {
        assert(early.filter(p) =~= Seq::empty());
    }
}

} // verus!
