//! Admission receipts: one settled decision per inbound input.
//!
//! Every input carries one `Ack`, which names the transport's receipt. The
//! runtime settles it on every path — accept or reject — and the transport
//! turns the decision into the event receipt. A receipt that is still open when
//! its run ends is rejected: [`Receipts`] keeps which ones are.
use vstd::prelude::*;

verus! {

/// Exactly-once admission receipt for one input. The first settle wins.
#[derive(Debug, PartialEq, Eq)]
pub struct Ack(Option<u64>);

impl View for Ack {
    type V = Option<u64>;

    closed spec fn view(&self) -> Option<u64> {
        self.0
    }
}

impl Ack {
    /// A receipt nobody observes; for synthetic inputs.
    pub fn detached() -> (r: Self)
        ensures
            r@ is None,
    {
        Ack(None)
    }

    /// Wrap the transport-side receipt for one received event.
    pub fn from_receipt(receipt: Option<u64>) -> (r: Self)
        ensures
            r@ == receipt,
    {
        Ack(receipt)
    }

    /// Settle the admission decision: the receipt and the decision to send.
    /// Later settles are no-ops.
    pub fn settle(&mut self, accepted: bool) -> (r: Option<(u64, bool)>)
        ensures
            final(self)@ is None,
            r == match old(self)@ {
                Some(receipt) => Some((receipt, accepted)),
                None => None,
            },
    {
        match self.0.take() {
            Some(receipt) => Some((receipt, accepted)),
            None => None,
        }
    }
}

/// The receipts of a run. A number names one receipt and is never used again;
/// a receipt is open until it is decided.
pub struct Receipts {
    next: u64,
    open: Vec<u64>,
}

/// The receipts of a run by their numbers.
pub struct ReceiptsText {
    pub next: u64,
    pub open: Set<u64>,
}

/// A receipt is decided: `None` when it was decided before.
pub open spec fn decided(r: ReceiptsText, receipt: u64, accepted: bool) -> (ReceiptsText, Option<bool>) {
    if r.open.contains(receipt) {
        (ReceiptsText { open: r.open.remove(receipt), ..r }, Some(accepted))
    } else {
        (r, None)
    }
}

impl Default for Receipts {
    fn default() -> (r: Self)
        ensures
            r.wf(),
            r@ == (ReceiptsText { next: 0, open: Set::empty() }),
    {
        let r = Receipts { next: 0, open: Vec::new() };
        proof {
            assert(r@.open =~= Set::empty());
        }
        r
    }
}

impl Receipts {
    pub closed spec fn view(&self) -> ReceiptsText {
        ReceiptsText { next: self.next, open: self.open@.to_set() }
    }

    /// Open receipts have been numbered, each once.
    pub closed spec fn wf(&self) -> bool {
        &&& self.open@.no_duplicates()
        &&& forall|i: int| 0 <= i < self.open@.len() ==> (#[trigger] self.open@[i]) < self.next
    }

    /// Open receipts have been numbered.
    pub proof fn open_receipts_are_numbered(&self, receipt: u64)
        requires
            self.wf(),
            self@.open.contains(receipt),
        ensures
            receipt < self@.next,
    {
        assert(self.open@.contains(receipt));
    }

    /// Numbers a receipt that the transport waits for; `None` when the numbers
    /// are exhausted.
    pub fn register(&mut self) -> (r: Option<(u64, Ack)>)
        requires
            old(self).wf(),
        ensures
            final(self).wf(),
            match r {
                Some((id, ack)) => old(self)@.next < u64::MAX && id == old(self)@.next && ack@ == Some(id) && final(self)@ == (ReceiptsText {
                    next: (old(self)@.next + 1) as u64,
                    open: old(self)@.open.insert(old(self)@.next),
                }),
                None => old(self)@.next == u64::MAX && final(self)@ == old(self)@,
            },
    {
        if self.next == u64::MAX {
            return None;
        }
        let id: u64 = self.next;
        let ghost before = self.open@;
        self.next = id + 1;
        self.open.push(id);
        proof {
            assert forall|n: u64| #[trigger] self.open@.to_set().contains(n) <==> before.to_set().insert(id).contains(n) by {
                if before.contains(n) {
                    let i = choose|i: int| 0 <= i < before.len() && before[i] == n;
                    assert(self.open@[i] == n);
                }
                assert(self.open@[before.len() as int] == id);
            }
            assert(self.open@.to_set() =~= before.to_set().insert(id));
        }
        Some((id, Ack::from_receipt(Some(id))))
    }

    /// Decides a receipt: the decision to send, the first time only.
    pub fn decide(&mut self, receipt: u64, accepted: bool) -> (r: Option<bool>)
        requires
            old(self).wf(),
        ensures
            final(self).wf(),
            (final(self)@, r) == decided(old(self)@, receipt, accepted),
    {
        let mut i: usize = 0;
        while i < self.open.len()
            invariant
                *self == *old(self),
                self.wf(),
                i <= self.open@.len(),
                forall|j: int| 0 <= j < i ==> (#[trigger] self.open@[j]) != receipt,
            decreases self.open.len() - i,
        {
            if self.open[i] == receipt {
                let ghost before = self.open@;
                self.open.remove(i);
                proof {
                    let after = self.open@;
                    assert(after =~= before.remove(i as int));
                    assert(before[i as int] == receipt);
                    assert forall|n: u64| #[trigger] after.to_set().contains(n) <==> before.to_set().remove(receipt).contains(n) by {
                        if after.contains(n) {
                            let j = choose|j: int| 0 <= j < after.len() && after[j] == n;
                            let k = if j < i {
                                j
                            } else {
                                j + 1
                            };
                            assert(before[k] == n);
                        }
                        if before.contains(n) && n != receipt {
                            let k = choose|k: int| 0 <= k < before.len() && before[k] == n;
                            let j = if k < i {
                                k
                            } else {
                                k - 1
                            };
                            assert(after[j] == n);
                        }
                    }
                    assert(after.to_set() =~= before.to_set().remove(receipt));
                    assert forall|j: int| 0 <= j < after.len() implies (#[trigger] after[j]) < self.next by {
                        let k = if j < i {
                            j
                        } else {
                            j + 1
                        };
                        assert(after[j] == before[k]);
                    }
                }
                return Some(accepted);
            }
            i = i + 1;
        }
        proof {
            assert(!self.open@.contains(receipt));
        }
        None
    }

    /// Ends the run: every receipt that is still open, each to be rejected.
    pub fn close(&mut self) -> (r: Vec<u64>)
        requires
            old(self).wf(),
        ensures
            final(self).wf(),
            final(self)@ == (ReceiptsText { open: Set::empty(), ..old(self)@ }),
            r@.no_duplicates(),
            r@.to_set() == old(self)@.open,
    {
        let mut r: Vec<u64> = Vec::new();
        std::mem::swap(&mut r, &mut self.open);
        proof {
            assert(self@.open =~= Set::empty());
        }
        r
    }
}

/// A receipt is decided exactly once: the first decision wins, and neither a
/// later one nor the end of the run decides it again.
pub proof fn receipts_are_decided_once(r: ReceiptsText, receipt: u64, first: bool, later: bool)
    requires
        r.open.contains(receipt),
    ensures
        decided(r, receipt, first).1 == Some(first),
        !decided(r, receipt, first).0.open.contains(receipt),
        decided(decided(r, receipt, first).0, receipt, later) == (decided(r, receipt, first).0, None::<bool>),
{
}

} // verus!
