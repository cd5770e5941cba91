//! The runtime's boundary: finished jobs come in, and what the runtime wants
//! done is taken out. Shutting down leaves one denial per open request.
use vstd::prelude::*;
use vstd::string::*;
use crate::interactions::{pending_texts, PendingText};
use crate::ports::TurnRef;
use crate::presentation::{Request, RequestText};
use crate::runtime::done_card::after_card_done;
use crate::runtime::done_session::{after_session_done, generation_room};
use crate::runtime::done_task::after_task_done;
use crate::runtime::flow::clock;
use crate::runtime::limits;
use crate::runtime::state::{
    begin, fault_of, Done, FileDelivery, FileDeliveryText, Job, JobText, Record, Runtime, RuntimeError, State, Step,
};
use crate::textmap::ordered;

verus! {

/// One job less runs.
pub open spec fn job_ended(s: State) -> State {
    State {
        running: if s.running > 0 {
            (s.running - 1) as nat
        } else {
            0
        },
        ..s
    }
}

pub open spec fn after_done(s: State, done: Done, now: u64) -> Step {
    let t = job_ended(s);
    match done {
        Done::Session(d) => after_session_done(t, d, now),
        Done::Task(d) => after_task_done(t, d, now),
        Done::Card(d) => after_card_done(t, d, now),
        Done::Delivery(_) => begin(State { files: FileDeliveryText::Idle, ..t }),
    }
}

/// The running task's user is told that it will not be run again.
pub open spec fn farewell(s: State) -> State {
    match s.active {
        Some(a) => if s.room > 0 {
            begin(State { active: None, ..s }).put(
                RequestText::Answer { task: a.spec.id, chat: a.spec.chat, text: "桥接已停止；未完成任务不会自动重跑。"@ },
            ).state
        } else {
            State { active: None, ..s }
        },
        None => s,
    }
}

/// Every open request is denied, in token order.
pub open spec fn denials(m: Map<Seq<char>, PendingText>) -> Seq<JobText> {
    ordered(m.dom()).map_values(|k: Seq<char>| JobText::Reply { pending: m[k], allow: false })
}

/// The state in which a run ends. Background jobs are abandoned; what is left
/// to do is the farewell and one denial for each open request.
pub open spec fn after_shutdown(s: State) -> State {
    State { running: 0, spawned: denials(s.interactions), interactions: Map::empty(), ..farewell(s) }
}

impl Runtime {
    /// One background job finished.
    pub fn handle_done(&mut self, done: Done, now: u64) -> (r: Result<(), RuntimeError>)
        requires
            old(self).wf(),
            clock(now),
            done matches Done::Session(d) ==> generation_room(old(self)@, d),
        ensures
            final(self).at(after_done(old(self)@, done, now)),
            fault_of(r) == after_done(old(self)@, done, now).fault,
    {
        if self.jobs.running > 0 {
            self.jobs.running = self.jobs.running - 1;
        }
        match done {
            Done::Session(done) => self.handle_session_done(done, now),
            Done::Task(done) => self.handle_task_done(done, now),
            Done::Card(done) => self.handle_card_done(done, now),
            Done::Delivery(_) => {
                self.tasks.files = FileDelivery::Idle;
                Ok(())
            },
        }
    }

    /// The jobs to start; from now on they run.
    pub fn take_jobs(&mut self) -> (r: Vec<Job>)
        requires
            old(self).wf(),
        ensures
            r@.map_values(|j: Job| j@) == old(self)@.spawned,
            final(self)@ == (State { running: old(self)@.jobs(), spawned: Seq::empty(), ..old(self)@ }),
            final(self).wf(),
    {
        self.jobs.running = self.jobs.running + self.jobs.spawned.len();
        let mut out: Vec<Job> = Vec::new();
        std::mem::swap(&mut out, &mut self.jobs.spawned);
        proof {
            assert(self@.spawned =~= Seq::empty());
        }
        out
    }

    /// The messages for the sender.
    pub fn take_sent(&mut self) -> (r: Vec<Request>)
        requires
            old(self).wf(),
        ensures
            r@.map_values(|q: Request| q@) == old(self)@.sent,
            final(self)@ == (State { sent: Seq::empty(), ..old(self)@ }),
            final(self).wf(),
    {
        let mut out: Vec<Request> = Vec::new();
        std::mem::swap(&mut out, &mut self.outbox.sent);
        proof {
            assert(self@.sent =~= Seq::empty());
        }
        out
    }

    /// The settled receipts.
    pub fn take_receipts(&mut self) -> (r: Vec<(u64, bool)>)
        requires
            old(self).wf(),
        ensures
            r@ == old(self)@.receipts,
            final(self)@ == (State { receipts: Seq::empty(), ..old(self)@ }),
            final(self).wf(),
    {
        let mut out: Vec<(u64, bool)> = Vec::new();
        std::mem::swap(&mut out, &mut self.receipts);
        out
    }

    /// The diagnostic records to write.
    pub fn take_records(&mut self) -> (r: Vec<Record>)
        requires
            old(self).wf(),
        ensures
            r@.map_values(|q: Record| q@) == old(self)@.records,
            final(self)@ == (State { records: Seq::empty(), ..old(self)@ }),
            final(self).wf(),
    {
        let mut out: Vec<Record> = Vec::new();
        std::mem::swap(&mut out, &mut self.records);
        proof {
            assert(self@.records =~= Seq::empty());
        }
        out
    }

    /// How many more messages the sender takes, and whether a preview is still
    /// on its way.
    pub fn sender_is_at(&mut self, room: usize, busy: bool)
        requires
            old(self).wf(),
        ensures
            final(self)@ == (State { room: room as nat, progress_busy: busy, ..old(self)@ }),
            final(self).wf(),
    {
        self.outbox.room = room;
        self.progress.busy = busy;
    }

    /// Ends the run. The result is the turn to interrupt, if one runs.
    pub fn shut_down(&mut self) -> (r: Option<TurnRef>)
        requires
            old(self).wf(),
        ensures
            final(self)@ == after_shutdown(old(self)@),
            final(self).wf(),
            r == match old(self)@.active {
                Some(a) => a.turn,
                None => None,
            },
    {
        let ghost s0 = self@;
        let turn = match self.tasks.active.take() {
            Some(active) => {
                if self.outbox.room > 0 {
                    self.put(
                        Request::Answer {
                            task: active.spec.id,
                            chat: active.spec.chat,
                            text: "桥接已停止；未完成任务不会自动重跑。".to_owned(),
                        },
                    );
                }
                active.turn
            },
            None => None,
        };
        proof {
            assert(self@ == farewell(s0));
            self.approvals.interactions.is_bounded();
        }
        self.jobs.running = 0;
        self.jobs.spawned = Vec::new();
        let mut open = self.approvals.interactions.drain();
        let ghost m = s0.interactions;
        let ghost all = pending_texts(open@);
        let ghost quiet = State { running: 0, spawned: Seq::empty(), interactions: Map::empty(), ..farewell(s0) };
        proof {
            assert(self@.spawned =~= Seq::empty());
            assert(all.len() == m.dom().len());
            assert(all.skip(0) =~= all);
            assert(denials(m).take(0) =~= Seq::empty());
        }
        let ghost mut n: int = 0;
        while open.len() > 0
            invariant
                0 <= n <= all.len(),
                all.len() <= limits::INTERACTIONS,
                all == ordered(m.dom()).map_values(|k: Seq<char>| m[k]),
                pending_texts(open@) == all.skip(n),
                self.wf(),
                self@ == (State { spawned: denials(m).take(n), ..quiet }),
                quiet.running == 0,
            decreases open.len(),
        {
            let ghost rest = open@;
            let pending = open.remove(0);
            proof {
                assert(pending_texts(rest)[0] == rest[0]@);
                assert(pending_texts(rest).len() == rest.len());
                assert(all.skip(n).len() == all.len() - n);
                assert(all.skip(n)[0] == all[n]);
                assert(pending_texts(open@) =~= pending_texts(rest).skip(1));
                assert(all.skip(n).skip(1) =~= all.skip(n + 1));
                assert(denials(m)[n] == (JobText::Reply { pending: pending@, allow: false }));
                assert(denials(m).take(n + 1) =~= denials(m).take(n).push(denials(m)[n]));
                n = n + 1;
            }
            self.spawn(Job::Reply { pending, allow: false });
        }
        proof {
            assert(all.skip(n).len() == 0);
            assert(denials(m).take(n) =~= denials(m));
        }
        turn
    }
}

} // verus!
