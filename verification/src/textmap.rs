//! A map keyed by text that enumerates its keys in text order.
use vstd::prelude::*;
use crate::lists::{selected, selection_agrees};
use crate::text::{rank, text_less, text_less_is_strict, text_less_is_total, text_less_is_transitive, Rank};

verus! {

/// Entries are held in strictly increasing key order.
pub struct TextMap<V> {
    entries: Vec<(String, V)>,
}

spec fn index_of<V>(entries: Seq<(String, V)>, key: Seq<char>) -> int {
    choose|i: int| 0 <= i < entries.len() && (#[trigger] entries[i]).0@ == key
}

spec fn holds<V>(entries: Seq<(String, V)>, key: Seq<char>) -> bool {
    exists|i: int| 0 <= i < entries.len() && (#[trigger] entries[i]).0@ == key
}

spec fn sorted<V>(entries: Seq<(String, V)>) -> bool {
    forall|i: int, j: int|
        0 <= i < j < entries.len() ==> text_less((#[trigger] entries[i]).0@, (#[trigger] entries[j]).0@)
}

spec fn content<V: View>(entries: Seq<(String, V)>) -> Map<Seq<char>, V::V> {
    Map::new(|k: Seq<char>| holds(entries, k), |k: Seq<char>| entries[index_of(entries, k)].1@)
}

proof fn index_is_unique<V>(entries: Seq<(String, V)>, i: int)
    requires
        sorted(entries),
        0 <= i < entries.len(),
    ensures
        holds(entries, entries[i].0@),
        index_of(entries, entries[i].0@) == i,
{
    let k = index_of(entries, entries[i].0@);
    if k < i {
        text_less_is_strict(entries[k].0@, entries[i].0@);
    } else if i < k {
        text_less_is_strict(entries[i].0@, entries[k].0@);
    }
}

impl<V: View> TextMap<V> {
    /// The entries as a map.
    pub closed spec fn view(&self) -> Map<Seq<char>, V::V> {
        content(self.entries@)
    }

    /// The keys in increasing order.
    pub closed spec fn keys(&self) -> Seq<Seq<char>> {
        self.entries@.map_values(|e: (String, V)| e.0@)
    }

    /// Keys are strictly increasing.
    pub closed spec fn wf(&self) -> bool {
        sorted(self.entries@)
    }

    /// The stored value of a key.
    pub closed spec fn at(&self, key: Seq<char>) -> V {
        self.entries@[index_of(self.entries@, key)].1
    }

    /// The keys are the domain in its order.
    pub proof fn keys_are_ordered(&self)
        requires
            self.wf(),
        ensures
            self.keys() == ordered(self@.dom()),
            is_order(self.keys(), self@.dom()),
            self@.dom().finite(),
            self@.dom().len() == self.keys().len(),
    {
        self.keys_enumerate();
        assert forall|k: Seq<char>| self.keys().contains(k) <==> self@.dom().contains(k) by {
            if self.keys().contains(k) {
                let i = choose|i: int| 0 <= i < self.keys().len() && self.keys()[i] == k;
                assert(self@.contains_key(self.keys()[i]));
            }
            if self@.dom().contains(k) {
                assert(self@.contains_key(k));
            }
        }
        assert(is_order(self.keys(), self@.dom()));
        order_is_unique(self.keys(), ordered(self@.dom()), self@.dom());
    }

    /// The keys enumerate the map's domain once each, in strictly increasing order.
    pub proof fn keys_enumerate(&self)
        requires
            self.wf(),
        ensures
            self@.dom().finite(),
            self@.dom().len() == self.keys().len(),
            forall|i: int| 0 <= i < self.keys().len() ==> self@.contains_key(#[trigger] self.keys()[i]),
            forall|k: Seq<char>| #[trigger] self@.contains_key(k) ==> self.keys().contains(k),
            forall|i: int, j: int|
                0 <= i < j < self.keys().len() ==> text_less(#[trigger] self.keys()[i], #[trigger] self.keys()[j]),
    {
        let keys = self.keys();
        assert forall|i: int| 0 <= i < keys.len() implies self@.contains_key(#[trigger] keys[i]) by {
            index_is_unique(self.entries@, i);
        }
        assert forall|k: Seq<char>| #[trigger] self@.contains_key(k) implies keys.contains(k) by {
            let i = index_of(self.entries@, k);
            assert(keys[i] == k);
        }
        assert(keys.no_duplicates()) by {
            assert forall|i: int, j: int| 0 <= i < keys.len() && 0 <= j < keys.len() && i != j implies keys[i] != keys[j] by {
                if i < j {
                    text_less_is_strict(self.entries@[i].0@, self.entries@[j].0@);
                } else {
                    text_less_is_strict(self.entries@[j].0@, self.entries@[i].0@);
                }
            }
        }
        assert(self@.dom() =~= keys.to_set());
        keys.unique_seq_to_set();
    }

    pub fn new() -> (r: Self)
        ensures
            r.wf(),
            r@ == Map::<Seq<char>, V::V>::empty(),
            r.keys() == Seq::<Seq<char>>::empty(),
    {
        let r = TextMap { entries: Vec::new() };
        proof {
            assert(r@ =~= Map::<Seq<char>, V::V>::empty());
            assert(r.keys() =~= Seq::<Seq<char>>::empty());
        }
        r
    }

    pub fn len(&self) -> (n: usize)
        requires
            self.wf(),
        ensures
            n == self.keys().len(),
            n == self@.dom().len(),
            self@.dom().finite(),
    {
        proof {
            self.keys_enumerate();
        }
        self.entries.len()
    }

    pub fn key_at(&self, i: usize) -> (k: &String)
        requires
            i < self.keys().len(),
        ensures
            k@ == self.keys()[i as int],
    {
        &self.entries[i].0
    }

    pub fn value_at(&self, i: usize) -> (v: &V)
        requires
            self.wf(),
            i < self.keys().len(),
        ensures
            self@.contains_key(self.keys()[i as int]),
            v@ == self@[self.keys()[i as int]],
            *v == self.at(self.keys()[i as int]),
    {
        proof {
            index_is_unique(self.entries@, i as int);
        }
        &self.entries[i].1
    }

    /// The place of `key`, or the place where it would stand.
    fn seek(&self, key: &str) -> (r: (bool, usize))
        requires
            self.wf(),
        ensures
            r.1 <= self.entries@.len(),
            r.0 ==> r.1 < self.entries@.len() && self.entries@[r.1 as int].0@ == key@,
            r.0 == holds(self.entries@, key@),
            forall|j: int| 0 <= j < r.1 ==> text_less((#[trigger] self.entries@[j]).0@, key@),
            !r.0 ==> forall|j: int| r.1 <= j < self.entries@.len() ==> text_less(key@, (#[trigger] self.entries@[j]).0@),
    {
        let mut i: usize = 0;
        while i < self.entries.len()
            invariant
                self.wf(),
                i <= self.entries@.len(),
                forall|j: int| 0 <= j < i ==> text_less((#[trigger] self.entries@[j]).0@, key@),
            decreases self.entries.len() - i,
        {
            match rank(self.entries[i].0.as_str(), key) {
                Rank::Less => {},
                Rank::Equal => {
                    return (true, i);
                },
                Rank::Greater => {
                    proof {
                        assert forall|j: int| i <= j < self.entries@.len() implies text_less(key@, (#[trigger] self.entries@[j]).0@) by {
                            if i < j {
                                text_less_is_transitive(key@, self.entries@[i as int].0@, self.entries@[j].0@);
                            }
                        }
                        assert forall|j: int| 0 <= j < self.entries@.len() implies (#[trigger] self.entries@[j]).0@ != key@ by {
                            if j < i {
                                text_less_is_strict(self.entries@[j].0@, key@);
                            } else {
                                text_less_is_strict(key@, self.entries@[j].0@);
                            }
                        }
                    }
                    return (false, i);
                },
            }
            i = i + 1;
        }
        proof {
            assert forall|j: int| 0 <= j < self.entries@.len() implies (#[trigger] self.entries@[j]).0@ != key@ by {
                text_less_is_strict(self.entries@[j].0@, key@);
            }
        }
        (false, i)
    }

    pub fn contains(&self, key: &str) -> (r: bool)
        requires
            self.wf(),
        ensures
            r == self@.contains_key(key@),
    {
        self.seek(key).0
    }

    pub fn get(&self, key: &str) -> (r: Option<&V>)
        requires
            self.wf(),
        ensures
            r is Some <==> self@.contains_key(key@),
            r matches Some(v) ==> v@ == self@[key@] && *v == self.at(key@),
    {
        let (found, i) = self.seek(key);
        if found {
            proof {
                index_is_unique(self.entries@, i as int);
            }
            Some(&self.entries[i].1)
        } else {
            None
        }
    }

    /// Gives mutable access to the value of a key that is present.
    pub fn get_mut(&mut self, key: &str) -> (r: Option<&mut V>)
        requires
            old(self).wf(),
        ensures
            final(self).wf(),
            final(self).keys() == old(self).keys(),
            match r {
                Some(v) => old(self)@.contains_key(key@) && v@ == old(self)@[key@] && final(self)@ == old(self)@.insert(key@, final(v)@),
                None => !old(self)@.contains_key(key@) && *final(self) == *old(self),
            },
    {
        let (found, i) = self.seek(key);
        if found {
            let ghost before = self.entries@;
            proof {
                index_is_unique(before, i as int);
                assert forall|v: V| #[trigger] content(before.update(i as int, (before[i as int].0, v))) == content(before).insert(key@, v@) by {
                    update_content(before, i as int, v);
                }
                assert forall|v: V| #![trigger before.update(i as int, (before[i as int].0, v))]
                    before.update(i as int, (before[i as int].0, v)).map_values(|e: (String, V)| e.0@) == before.map_values(|e: (String, V)| e.0@)
                    && sorted(before.update(i as int, (before[i as int].0, v))) by {
                    assert(before.update(i as int, (before[i as int].0, v)).map_values(|e: (String, V)| e.0@) =~= before.map_values(|e: (String, V)| e.0@));
                }
            }
            Some(&mut self.entries[i].1)
        } else {
            None
        }
    }

    /// Gives mutable access to the value at a place in key order.
    pub fn value_at_mut(&mut self, i: usize) -> (r: &mut V)
        requires
            old(self).wf(),
            i < old(self).keys().len(),
        ensures
            final(self).wf(),
            final(self).keys() == old(self).keys(),
            old(self)@.contains_key(old(self).keys()[i as int]),
            r@ == old(self)@[old(self).keys()[i as int]],
            *r == old(self).at(old(self).keys()[i as int]),
            final(self)@ == old(self)@.insert(old(self).keys()[i as int], final(r)@),
    {
        let ghost before = self.entries@;
        let ghost key = before[i as int].0@;
        proof {
            index_is_unique(before, i as int);
            assert forall|v: V| #[trigger] content(before.update(i as int, (before[i as int].0, v))) == content(before).insert(key, v@) by {
                update_content(before, i as int, v);
            }
            assert forall|v: V| #![trigger before.update(i as int, (before[i as int].0, v))]
                before.update(i as int, (before[i as int].0, v)).map_values(|e: (String, V)| e.0@) == before.map_values(|e: (String, V)| e.0@)
                && sorted(before.update(i as int, (before[i as int].0, v))) by {
                assert(before.update(i as int, (before[i as int].0, v)).map_values(|e: (String, V)| e.0@) =~= before.map_values(|e: (String, V)| e.0@));
            }
        }
        &mut self.entries[i].1
    }

    pub fn insert(&mut self, key: String, value: V)
        requires
            old(self).wf(),
        ensures
            final(self).wf(),
            final(self)@ == old(self)@.insert(key@, value@),
    {
        let (found, i) = self.seek(key.as_str());
        let ghost before = self.entries@;
        if found {
            let mut e = (key, value);
            proof {
                update_content(before, i as int, value);
                index_is_unique(before, i as int);
            }
            self.entries[i] = e;
            proof {
                let after = self.entries@;
                assert(sorted(after));
                assert forall|k: Seq<char>| holds(after, k) == holds(before, k) by {
                    same_keys_hold(before, after, k);
                    same_keys_hold(after, before, k);
                }
                assert(content(after) =~= content(before).insert(key@, value@)) by {
                    assert forall|k: Seq<char>| #[trigger] content(before).contains_key(k) implies content(after)[k] == content(before).insert(key@, value@)[k] by {
                        let n = index_of(before, k);
                        index_is_unique(after, n);
                        index_is_unique(before, n);
                    }
                }
            }
        } else {
            self.entries.insert(i, (key, value));
            proof {
                let after = self.entries@;
                assert forall|a: int, b: int| 0 <= a < b < after.len() implies text_less((#[trigger] after[a]).0@, (#[trigger] after[b]).0@) by {
                    let x = if a < i { before[a].0@ } else { before[a - 1].0@ };
                }
                assert(content(after) =~= content(before).insert(key@, value@)) by {
                    index_is_unique(after, i as int);
                    assert forall|k: Seq<char>| content(before).contains_key(k) && k != key@ implies holds(after, k) && content(after)[k] == content(before)[k] by {
                        let n = index_of(before, k);
                        let m = if n < i { n } else { n + 1 };
                        assert(after[m] == before[n]);
                        index_is_unique(after, m);
                    }
                    assert forall|k: Seq<char>| holds(after, k) && k != key@ implies holds(before, k) by {
                        let m = index_of(after, k);
                        let n = if m < i { m } else { m - 1 };
                        assert(before[n] == after[m]);
                    }
                }
            }
        }
    }

    pub fn remove(&mut self, key: &str) -> (r: Option<V>)
        requires
            old(self).wf(),
        ensures
            final(self).wf(),
            final(self)@ == old(self)@.remove(key@),
            r is Some <==> old(self)@.contains_key(key@),
            r matches Some(v) ==> v@ == old(self)@[key@] && v == old(self).at(key@),
            r is None ==> *final(self) == *old(self),
    {
        let (found, i) = self.seek(key);
        let ghost before = self.entries@;
        if found {
            proof {
                index_is_unique(before, i as int);
            }
            let e = self.entries.remove(i);
            proof {
                remove_content(before, i as int);
            }
            Some(e.1)
        } else {
            proof {
                assert(content(before).remove(key@) =~= content(before));
            }
            None
        }
    }

    /// Takes out the entry with the least key.
    pub fn pop_first(&mut self) -> (r: Option<(String, V)>)
        requires
            old(self).wf(),
        ensures
            final(self).wf(),
            r is None <==> old(self).keys().len() == 0,
            r is None ==> *final(self) == *old(self),
            r matches Some(e) ==> {
                &&& e.0@ == old(self).keys()[0]
                &&& old(self)@.contains_key(e.0@)
                &&& e.1@ == old(self)@[e.0@]
                &&& final(self)@ == old(self)@.remove(e.0@)
                &&& final(self).keys() == old(self).keys().drop_first()
            },
    {
        if self.entries.len() == 0 {
            return None;
        }
        let ghost before = self.entries@;
        proof {
            index_is_unique(before, 0);
        }
        let e = self.entries.remove(0);
        proof {
            remove_content(before, 0);
            assert(self.keys() =~= before.map_values(|e: (String, V)| e.0@).drop_first());
        }
        Some(e)
    }

    /// Keeps the entries that `f` accepts; `p` says which those are.
    pub fn retain<F: Fn(&String, &V) -> bool>(&mut self, f: F, Ghost(p): Ghost<spec_fn(Seq<char>, V::V) -> bool>)
        requires
            old(self).wf(),
            forall|k: &String, v: &V| #[trigger] call_requires(f, (k, v)),
            forall|k: &String, v: &V, r: bool| #[trigger] call_ensures(f, (k, v), r) ==> r == p(k@, v@),
        ensures
            final(self).wf(),
            final(self)@ == kept(old(self)@, p),
            final(self).keys() == old(self).keys().filter(|k: Seq<char>| p(k, old(self)@[k])),
    {
        let ghost o = self.entries@;
        let ghost q = |e: (String, V)| p(e.0@, e.1@);
        let mut i: usize = 0;
        let ghost mut done: int = 0;
        proof {
            reveal(Seq::filter);
            assert(o.take(0).filter(q) =~= o.take(0));
            assert(o.skip(0) =~= o);
            assert(self.entries@.take(0) =~= o.take(0).filter(q));
        }
        while i < self.entries.len()
            invariant
                0 <= done <= o.len(),
                i <= self.entries@.len(),
                q == (|e: (String, V)| p(e.0@, e.1@)),
                forall|k: &String, v: &V| #[trigger] call_requires(f, (k, v)),
                forall|k: &String, v: &V, r: bool| #[trigger] call_ensures(f, (k, v), r) ==> r == p(k@, v@),
                self.entries@.take(i as int) == o.take(done).filter(q),
                self.entries@.skip(i as int) == o.skip(done),
            decreases self.entries@.len() - i,
        {
            let ghost before = self.entries@;
            proof {
                assert(before.skip(i as int).len() == o.skip(done).len());
                assert(before.skip(i as int)[0] == o.skip(done)[0]);
                assert(o.take(done + 1).drop_last() =~= o.take(done));
                reveal(Seq::filter);
                assert(o.take(done + 1).last() == before[i as int]);
                assert(before.skip(i as int).drop_first() =~= before.skip(i + 1));
                assert(o.skip(done).drop_first() =~= o.skip(done + 1));
            }
            let keep = f(&self.entries[i].0, &self.entries[i].1);
            if keep {
                proof {
                    assert(before.take(i + 1) =~= before.take(i as int).push(before[i as int]));
                }
                i = i + 1;
            } else {
                self.entries.remove(i);
                proof {
                    assert(self.entries@.take(i as int) =~= before.take(i as int));
                    assert(self.entries@.skip(i as int) =~= before.skip(i + 1));
                }
            }
            proof {
                done = done + 1;
            }
        }
        proof {
            assert(self.entries@.take(i as int) =~= self.entries@);
            assert(o.skip(done).len() == 0);
            assert(o.take(done) =~= o);
            filter_content(o, p);
        }
    }
}

/// `keys` lists `dom` once each, in strictly increasing order.
pub open spec fn is_order(keys: Seq<Seq<char>>, dom: Set<Seq<char>>) -> bool {
    &&& forall|k: Seq<char>| #[trigger] keys.contains(k) <==> dom.contains(k)
    &&& forall|i: int, j: int| 0 <= i < j < keys.len() ==> text_less(#[trigger] keys[i], #[trigger] keys[j])
}

/// A finite set of texts in increasing order.
pub open spec fn ordered(dom: Set<Seq<char>>) -> Seq<Seq<char>> {
    choose|keys: Seq<Seq<char>>| is_order(keys, dom)
}

/// How many of the first texts come before `k`.
spec fn place(keys: Seq<Seq<char>>, k: Seq<char>) -> nat
    decreases keys.len(),
{
    if keys.len() > 0 && text_less(keys[0], k) {
        place(keys.drop_first(), k) + 1
    } else {
        0
    }
}

proof fn place_splits(keys: Seq<Seq<char>>, k: Seq<char>)
    requires
        forall|i: int, j: int| 0 <= i < j < keys.len() ==> text_less(#[trigger] keys[i], #[trigger] keys[j]),
        !keys.contains(k),
    ensures
        place(keys, k) <= keys.len(),
        forall|i: int| 0 <= i < place(keys, k) ==> text_less(#[trigger] keys[i], k),
        forall|i: int| place(keys, k) <= i < keys.len() ==> text_less(k, #[trigger] keys[i]),
    decreases keys.len(),
{
    if keys.len() > 0 {
        let rest = keys.drop_first();
        assert forall|i: int, j: int| 0 <= i < j < rest.len() implies text_less(#[trigger] rest[i], #[trigger] rest[j]) by {
            assert(rest[i] == keys[i + 1] && rest[j] == keys[j + 1]);
        }
        assert(!rest.contains(k)) by {
            if rest.contains(k) {
                let i = choose|i: int| 0 <= i < rest.len() && rest[i] == k;
                assert(keys[i + 1] == k);
            }
        }
        if text_less(keys[0], k) {
            place_splits(rest, k);
            assert forall|i: int| 0 <= i < place(keys, k) implies text_less(#[trigger] keys[i], k) by {
                if i > 0 {
                    assert(keys[i] == rest[i - 1]);
                }
            }
            assert forall|i: int| place(keys, k) <= i < keys.len() implies text_less(k, #[trigger] keys[i]) by {
                assert(keys[i] == rest[i - 1]);
            }
        } else {
            assert(keys.contains(keys[0]));
            text_less_is_total(keys[0], k);
            assert forall|i: int| 0 <= i < keys.len() implies text_less(k, #[trigger] keys[i]) by {
                if i > 0 {
                    text_less_is_transitive(k, keys[0], keys[i]);
                }
            }
        }
    }
}

/// A finite set of texts has an increasing order.
pub proof fn order_exists(dom: Set<Seq<char>>)
    requires
        dom.finite(),
    ensures
        is_order(ordered(dom), dom),
    decreases dom.len(),
{
    if dom.len() == 0 {
        let keys = Seq::<Seq<char>>::empty();
        assert(dom =~= Set::empty());
        assert(is_order(keys, dom));
    } else {
        let k = dom.choose();
        let rest = dom.remove(k);
        order_exists(rest);
        let o = ordered(rest);
        assert(!o.contains(k));
        place_splits(o, k);
        let n = place(o, k) as int;
        let keys = o.insert(n, k);
        assert forall|i: int, j: int| 0 <= i < j < keys.len() implies text_less(#[trigger] keys[i], #[trigger] keys[j]) by {
            let a = if i < n {
                o[i]
            } else if i == n {
                k
            } else {
                o[i - 1]
            };
            let b = if j < n {
                o[j]
            } else if j == n {
                k
            } else {
                o[j - 1]
            };
            assert(keys[i] == a && keys[j] == b);
        }
        assert forall|x: Seq<char>| #[trigger] keys.contains(x) <==> dom.contains(x) by {
            if keys.contains(x) {
                let i = choose|i: int| 0 <= i < keys.len() && keys[i] == x;
                if i < n {
                    assert(o.contains(o[i]));
                } else if i > n {
                    assert(o.contains(o[i - 1]));
                }
            }
            if dom.contains(x) {
                if x == k {
                    assert(keys[n] == k);
                } else {
                    assert(rest.contains(x));
                    assert(o.contains(x));
                    let i = choose|i: int| 0 <= i < o.len() && o[i] == x;
                    if i < n {
                        assert(keys[i] == x);
                    } else {
                        assert(keys[i + 1] == x);
                    }
                }
            }
        }
        assert(is_order(keys, dom));
    }
}

/// A set of texts has one increasing order.
pub proof fn order_is_unique(a: Seq<Seq<char>>, b: Seq<Seq<char>>, dom: Set<Seq<char>>)
    requires
        is_order(a, dom),
        is_order(b, dom),
    ensures
        a == b,
    decreases a.len(),
{
    if a.len() == 0 {
        if b.len() > 0 {
            assert(b.contains(b[0]));
            assert(a.contains(b[0]));
        }
        assert(a =~= b);
    } else {
        assert(a.contains(a[0]));
        assert(b.contains(a[0]));
        let i = choose|i: int| 0 <= i < b.len() && b[i] == a[0];
        assert(b.contains(b[0]));
        assert(a.contains(b[0]));
        let j = choose|j: int| 0 <= j < a.len() && a[j] == b[0];
        if i > 0 && j > 0 {
            text_less_is_strict(a[0], a[j]);
            text_less_is_strict(b[0], b[i]);
        }
        assert(a[0] == b[0]);
        order_of_rest(a, dom);
        order_of_rest(b, dom);
        order_is_unique(a.drop_first(), b.drop_first(), dom.remove(a[0]));
        assert(a =~= seq![a[0]] + a.drop_first());
        assert(b =~= seq![b[0]] + b.drop_first());
    }
}

/// A selection from an order lists each selected element of the set once.
pub proof fn order_selection(keys: Seq<Seq<char>>, dom: Set<Seq<char>>, p: spec_fn(Seq<char>) -> bool)
    requires
        is_order(keys, dom),
    ensures
        keys.filter(p).no_duplicates(),
        is_order(keys.filter(p), dom.filter(p)),
        forall|i: int| 0 <= i < keys.filter(p).len() ==> dom.contains(#[trigger] keys.filter(p)[i]) && p(keys.filter(p)[i]),
        forall|k: Seq<char>| dom.contains(k) && p(k) ==> #[trigger] keys.filter(p).contains(k),
    decreases keys.len(),
{
    let s = keys.filter(p);
    reveal(Seq::filter);
    if keys.len() > 0 {
        let h = keys.drop_last();
        let last = keys.last();
        let rest = dom.remove(last);
        assert forall|k: Seq<char>| #[trigger] h.contains(k) <==> rest.contains(k) by {
            if h.contains(k) {
                let i = choose|i: int| 0 <= i < h.len() && h[i] == k;
                assert(keys[i] == k);
                assert(keys.contains(k));
                text_less_is_strict(keys[i], keys[keys.len() - 1]);
            }
            if rest.contains(k) {
                assert(keys.contains(k));
                let i = choose|i: int| 0 <= i < keys.len() && keys[i] == k;
                assert(h[i] == k);
            }
        }
        order_selection(h, rest, p);
        let t = h.filter(p);
        assert forall|i: int| 0 <= i < t.len() implies text_less(#[trigger] t[i], last) by {
            selected(h, p, i);
            let j = choose|j: int| 0 <= j < h.len() && h[j] == t[i];
            assert(keys[j] == t[i]);
            assert(keys[keys.len() - 1] == last);
        }
        assert(keys.contains(last)) by {
            assert(keys[keys.len() - 1] == last);
        }
        if p(last) {
            assert(s == t.push(last));
            assert(s[t.len() as int] == last);
        }
        assert forall|k: Seq<char>| dom.contains(k) && p(k) implies #[trigger] s.contains(k) by {
            if k != last {
                assert(rest.contains(k));
                assert(t.contains(k));
                let i = choose|i: int| 0 <= i < t.len() && t[i] == k;
                assert(s[i] == k);
            }
        }
        assert forall|i: int| 0 <= i < s.len() implies dom.contains(#[trigger] s[i]) && p(s[i]) by {
            if i < t.len() {
                assert(s[i] == t[i]);
                assert(rest.contains(t[i]));
            }
        }
        assert forall|k: Seq<char>| #[trigger] s.contains(k) <==> dom.filter(p).contains(k) by {
            if s.contains(k) {
                let i = choose|i: int| 0 <= i < s.len() && s[i] == k;
                assert(dom.contains(s[i]));
            }
        }
    } else {
        assert forall|k: Seq<char>| #[trigger] s.contains(k) <==> dom.filter(p).contains(k) by {
            assert(!keys.contains(k));
        }
        assert forall|k: Seq<char>| dom.contains(k) && p(k) implies #[trigger] s.contains(k) by {
            assert(keys.contains(k));
        }
    }
    assert forall|i: int, j: int| 0 <= i < s.len() && 0 <= j < s.len() && i != j implies s[i] != s[j] by {
        if i < j {
            text_less_is_strict(s[i], s[j]);
        } else {
            text_less_is_strict(s[j], s[i]);
        }
    }
}

proof fn order_of_rest(a: Seq<Seq<char>>, dom: Set<Seq<char>>)
    requires
        is_order(a, dom),
        a.len() > 0,
    ensures
        is_order(a.drop_first(), dom.remove(a[0])),
{
    let r = a.drop_first();
    assert forall|k: Seq<char>| #[trigger] r.contains(k) <==> dom.remove(a[0]).contains(k) by {
        if r.contains(k) {
            let i = choose|i: int| 0 <= i < r.len() && r[i] == k;
            assert(a[i + 1] == k);
            assert(a.contains(k));
            text_less_is_strict(a[0], a[i + 1]);
        }
        if dom.remove(a[0]).contains(k) {
            assert(a.contains(k));
            let i = choose|i: int| 0 <= i < a.len() && a[i] == k;
            assert(r[i - 1] == k);
        }
    }
}

/// The entries of a map that satisfy `p`.
pub open spec fn kept<V>(m: Map<Seq<char>, V>, p: spec_fn(Seq<char>, V) -> bool) -> Map<Seq<char>, V> {
    m.restrict(Set::new(|k: Seq<char>| m.contains_key(k) && p(k, m[k])))
}

proof fn same_keys_hold<V>(a: Seq<(String, V)>, b: Seq<(String, V)>, k: Seq<char>)
    requires
        a.len() == b.len(),
        forall|i: int| 0 <= i < a.len() ==> (#[trigger] a[i]).0@ == b[i].0@,
    ensures
        holds(a, k) ==> holds(b, k),
{
    if holds(a, k) {
        let i = index_of(a, k);
        assert(b[i].0@ == a[i].0@);
    }
}

proof fn update_content<V: View>(s: Seq<(String, V)>, i: int, v: V)
    requires
        sorted(s),
        0 <= i < s.len(),
    ensures
        content(s.update(i, (s[i].0, v))) == content(s).insert(s[i].0@, v@),
        sorted(s.update(i, (s[i].0, v))),
{
    let t = s.update(i, (s[i].0, v));
    assert(sorted(t));
    index_is_unique(t, i);
    assert forall|k: Seq<char>| holds(t, k) == holds(s, k) by {
        same_keys_hold(s, t, k);
        same_keys_hold(t, s, k);
    }
    index_is_unique(s, i);
    assert(content(t) =~= content(s).insert(s[i].0@, v@)) by {
        assert forall|k: Seq<char>| #[trigger] content(s).contains_key(k) implies content(t)[k] == content(s).insert(s[i].0@, v@)[k] by {
            let n = index_of(s, k);
            index_is_unique(t, n);
        }
    }
}

proof fn remove_content<V: View>(s: Seq<(String, V)>, i: int)
    requires
        sorted(s),
        0 <= i < s.len(),
    ensures
        sorted(s.remove(i)),
        content(s.remove(i)) == content(s).remove(s[i].0@),
{
    let t = s.remove(i);
    assert forall|a: int, b: int| 0 <= a < b < t.len() implies text_less((#[trigger] t[a]).0@, (#[trigger] t[b]).0@) by {
        let x = if a < i { a } else { a + 1 };
        let y = if b < i { b } else { b + 1 };
        assert(t[a] == s[x] && t[b] == s[y]);
    }
    assert(content(t) =~= content(s).remove(s[i].0@)) by {
        assert forall|k: Seq<char>| holds(t, k) implies holds(s, k) && k != s[i].0@ && content(t)[k] == content(s)[k] by {
            let m = index_of(t, k);
            let n = if m < i { m } else { m + 1 };
            assert(s[n] == t[m]);
            index_is_unique(s, n);
            index_is_unique(s, i);
        }
        assert forall|k: Seq<char>| holds(s, k) && k != s[i].0@ implies holds(t, k) by {
            let n = index_of(s, k);
            let m = if n < i { n } else { n - 1 };
            assert(t[m] == s[n]);
        }
    }
}

proof fn filter_content<V: View>(s: Seq<(String, V)>, p: spec_fn(Seq<char>, V::V) -> bool)
    requires
        sorted(s),
    ensures
        ({
            let t = s.filter(|e: (String, V)| p(e.0@, e.1@));
            &&& sorted(t)
            &&& content(t) == kept(content(s), p)
            &&& t.map_values(|e: (String, V)| e.0@) == s.map_values(|e: (String, V)| e.0@).filter(
                |k: Seq<char>| p(k, content(s)[k]),
            )
        }),
    decreases s.len(),
{
    let q = |e: (String, V)| p(e.0@, e.1@);
    let f = |e: (String, V)| e.0@;
    let t = s.filter(q);
    let g = |k: Seq<char>| p(k, content(s)[k]);
    reveal(Seq::filter);
    if s.len() == 0 {
        assert(content(t) =~= kept(content(s), p));
        assert(t.map_values(f) =~= s.map_values(f).filter(g));
    } else {
        let h = s.drop_last();
        filter_content(h, p);
        let n = s.len() - 1;
        index_is_unique(s, n);
        let th = h.filter(q);
        assert forall|i: int| 0 <= i < th.len() implies text_less((#[trigger] th[i]).0@, s[n].0@) by {
            selected(h, q, i);
            assert(h.contains(th[i]));
        }
        assert(sorted(t));
        assert(content(s) =~= content(h).insert(s[n].0@, s[n].1@)) by {
            grow_content(h, s[n]);
            assert(h.push(s[n]) =~= s);
        }
        assert forall|k: Seq<char>| holds(h, k) implies k != s[n].0@ by {
            text_less_is_strict(h[index_of(h, k)].0@, s[n].0@);
        }
        if q(s[n]) {
            grow_content(th, s[n]);
            assert(content(t) =~= kept(content(s), p));
        } else {
            assert(content(t) =~= kept(content(s), p));
        }
        let gh = |k: Seq<char>| p(k, content(h)[k]);
        assert(s.map_values(f).drop_last() =~= h.map_values(f));
        assert forall|i: int| 0 <= i < h.map_values(f).len() implies g(#[trigger] h.map_values(f)[i]) == gh(h.map_values(f)[i]) by {
            index_is_unique(h, i);
        }
        selection_agrees(h.map_values(f), g, gh);
        if q(s[n]) {
            assert(t.map_values(f) =~= th.map_values(f).push(s[n].0@));
        }
    }
}

proof fn grow_content<V: View>(h: Seq<(String, V)>, e: (String, V))
    requires
        sorted(h.push(e)),
    ensures
        content(h.push(e)) == content(h).insert(e.0@, e.1@),
{
    let s = h.push(e);
    index_is_unique(s, h.len() as int);
    assert forall|i: int, j: int| 0 <= i < j < h.len() implies text_less((#[trigger] h[i]).0@, (#[trigger] h[j]).0@) by {
        assert(s[i] == h[i] && s[j] == h[j]);
    }
    assert(content(s) =~= content(h).insert(e.0@, e.1@)) by {
        assert forall|k: Seq<char>| holds(h, k) implies holds(s, k) && (k != e.0@ ==> content(s)[k] == content(h)[k]) by {
            let i = index_of(h, k);
            assert(s[i] == h[i]);
            index_is_unique(s, i);
        }
        assert forall|k: Seq<char>| holds(s, k) && k != e.0@ implies holds(h, k) by {
            let i = index_of(s, k);
            assert(h[i] == s[i]);
        }
    }
}

} // verus!
