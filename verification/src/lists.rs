//! Order-keeping selection on vectors.
use vstd::prelude::*;

verus! {

/// Keeps the elements that `f` accepts, in order; `p` says which those are.
pub fn keep<T, F: Fn(&T) -> bool>(v: &mut Vec<T>, f: F, Ghost(p): Ghost<spec_fn(T) -> bool>)
    requires
        forall|x: &T| #[trigger] call_requires(f, (x,)),
        forall|x: &T, k: bool| #[trigger] call_ensures(f, (x,), k) ==> k == p(*x),
    ensures
        final(v)@ == old(v)@.filter(p),
{
    let ghost o = v@;
    let ghost mut done: int = 0;
    let mut i: usize = 0;
    proof {
        reveal(Seq::filter);
        assert(o.take(0).filter(p) =~= o.take(0));
        assert(o.skip(0) =~= o);
        assert(v@.take(0) =~= o.take(0).filter(p));
    }
    while i < v.len()
        invariant
            0 <= done <= o.len(),
            i <= v@.len(),
            forall|x: &T| #[trigger] call_requires(f, (x,)),
            forall|x: &T, k: bool| #[trigger] call_ensures(f, (x,), k) ==> k == p(*x),
            v@.take(i as int) == o.take(done).filter(p),
            v@.skip(i as int) == o.skip(done),
        decreases v@.len() - i,
    {
        let ghost before = v@;
        proof {
            assert(before.skip(i as int).len() == o.skip(done).len());
            assert(before.skip(i as int)[0] == o.skip(done)[0]);
            assert(o.take(done + 1).drop_last() =~= o.take(done));
            reveal(Seq::filter);
            assert(o.take(done + 1).last() == before[i as int]);
            assert(before.skip(i as int).drop_first() =~= before.skip(i + 1));
            assert(o.skip(done).drop_first() =~= o.skip(done + 1));
        }
        let accepted = f(&v[i]);
        if accepted {
            proof {
                assert(before.take(i + 1) =~= before.take(i as int).push(before[i as int]));
            }
            i = i + 1;
        } else {
            v.remove(i);
            proof {
                assert(v@.take(i as int) =~= before.take(i as int));
                assert(v@.skip(i as int) =~= before.skip(i + 1));
            }
        }
        proof {
            done = done + 1;
        }
    }
    proof {
        assert(v@.take(i as int) =~= v@);
        assert(o.skip(done).len() == 0);
        assert(o.take(done) =~= o);
    }
}

/// An element of a selection is an element of the whole that was accepted.
pub proof fn selected<T>(s: Seq<T>, p: spec_fn(T) -> bool, i: int)
    requires
        0 <= i < s.filter(p).len(),
    ensures
        s.contains(s.filter(p)[i]),
        p(s.filter(p)[i]),
    decreases s.len(),
{
    reveal(Seq::filter);
    if s.len() > 0 {
        let h = s.drop_last();
        if i < h.filter(p).len() {
            selected(h, p, i);
            let j = choose|j: int| 0 <= j < h.len() && h[j] == h.filter(p)[i];
            assert(s[j] == h[j]);
        } else {
            assert(s[s.len() - 1] == s.filter(p)[i]);
        }
    }
}

/// A selection begins with the first element that is accepted.
pub proof fn first_selected<T>(s: Seq<T>, p: spec_fn(T) -> bool, i: int)
    requires
        0 <= i < s.len(),
        p(s[i]),
        forall|j: int| 0 <= j < i ==> !p(#[trigger] s[j]),
    ensures
        s.filter(p).len() > 0,
        s.filter(p)[0] == s[i],
    decreases s.len(),
{
    reveal(Seq::filter);
    let h = s.drop_last();
    if i < h.len() {
        assert(h[i] == s[i]);
        assert forall|j: int| 0 <= j < i implies !p(#[trigger] h[j]) by {
            assert(h[j] == s[j]);
        }
        first_selected(h, p, i);
    } else {
        none_selected(h, p);
    }
}

/// Nothing is selected when nothing is accepted.
pub proof fn none_selected<T>(s: Seq<T>, p: spec_fn(T) -> bool)
    requires
        forall|j: int| 0 <= j < s.len() ==> !p(#[trigger] s[j]),
    ensures
        s.filter(p) == Seq::<T>::empty(),
    decreases s.len(),
{
    reveal(Seq::filter);
    if s.len() > 0 {
        let h = s.drop_last();
        assert forall|j: int| 0 <= j < h.len() implies !p(#[trigger] h[j]) by {
            assert(h[j] == s[j]);
        }
        none_selected(h, p);
        assert(!p(s[s.len() - 1]));
    }
}

/// Selecting by two conditions that agree on the elements selects the same.
pub proof fn selection_agrees<T>(s: Seq<T>, p: spec_fn(T) -> bool, q: spec_fn(T) -> bool)
    requires
        forall|i: int| 0 <= i < s.len() ==> p(#[trigger] s[i]) == q(s[i]),
    ensures
        s.filter(p) == s.filter(q),
    decreases s.len(),
{
    reveal(Seq::filter);
    if s.len() > 0 {
        selection_agrees(s.drop_last(), p, q);
    }
}

/// A selection is as long as the whole exactly when every element is accepted.
pub proof fn selection_length<T>(s: Seq<T>, p: spec_fn(T) -> bool)
    ensures
        s.filter(p).len() <= s.len(),
        s.filter(p).len() == s.len() <==> forall|i: int| 0 <= i < s.len() ==> p(#[trigger] s[i]),
        s.filter(p).len() == s.len() ==> s.filter(p) == s,
    decreases s.len(),
{
    reveal(Seq::filter);
    if s.len() > 0 {
        let h = s.drop_last();
        selection_length(h, p);
        if s.filter(p).len() == s.len() {
            assert(s.filter(p) =~= s);
            assert forall|i: int| 0 <= i < s.len() implies p(#[trigger] s[i]) by {
                if i < h.len() {
                    assert(h[i] == s[i]);
                }
            }
        } else if forall|i: int| 0 <= i < s.len() ==> p(#[trigger] s[i]) {
            assert forall|i: int| 0 <= i < h.len() implies p(#[trigger] h[i]) by {
                assert(h[i] == s[i]);
            }
            assert(p(s[s.len() - 1]));
        }
    }
}

/// Selecting and mapping commute when the selection depends on the image alone.
pub proof fn selection_maps<T, U>(s: Seq<T>, p: spec_fn(T) -> bool, f: spec_fn(T) -> U, q: spec_fn(U) -> bool)
    requires
        forall|i: int| 0 <= i < s.len() ==> p(#[trigger] s[i]) == q(f(s[i])),
    ensures
        s.filter(p).map_values(f) == s.map_values(f).filter(q),
    decreases s.len(),
{
    reveal(Seq::filter);
    if s.len() > 0 {
        let h = s.drop_last();
        assert forall|i: int| 0 <= i < h.len() implies p(#[trigger] h[i]) == q(f(h[i])) by {
            assert(h[i] == s[i]);
        }
        selection_maps(h, p, f, q);
        assert(s.map_values(f).drop_last() =~= h.map_values(f));
        assert(s[s.len() - 1] == s.last());
        if p(s.last()) {
            assert(s.filter(p).map_values(f) =~= h.filter(p).map_values(f).push(f(s.last())));
        }
    } else {
        assert(s.filter(p).map_values(f) =~= s.map_values(f).filter(q));
    }
}

} // verus!
