//! A map from texts to values, kept in the order of its keys.

use std::sync::Arc;

use vstd::prelude::*;

use crate::text;

verus! {

/// The order of texts: the first character in which they differ decides, and a
/// text stands before its continuations.
pub open spec fn before(a: Seq<char>, b: Seq<char>) -> bool
    decreases a.len(),
{
    if b.len() == 0 {
        false
    } else if a.len() == 0 {
        true
    } else if a[0] != b[0] {
        a[0] < b[0]
    } else {
        before(a.drop_first(), b.drop_first())
    }
}

/// No text stands before itself.
pub proof fn before_is_irreflexive(a: Seq<char>)
    ensures
        !before(a, a),
    decreases a.len(),
{
    if a.len() > 0 {
        before_is_irreflexive(a.drop_first());
    }
}

/// The order of texts is transitive.
pub proof fn before_is_transitive(a: Seq<char>, b: Seq<char>, c: Seq<char>)
    requires
        before(a, b),
        before(b, c),
    ensures
        before(a, c),
    decreases a.len(),
{
    if a.len() > 0 && a[0] == b[0] && b[0] == c[0] {
        before_is_transitive(a.drop_first(), b.drop_first(), c.drop_first());
    }
}

/// Of two different texts one stands before the other.
pub proof fn before_is_total(a: Seq<char>, b: Seq<char>)
    ensures
        a == b || before(a, b) || before(b, a),
    decreases a.len(),
{
    if a.len() > 0 && b.len() > 0 && a[0] == b[0] {
        before_is_total(a.drop_first(), b.drop_first());
        if a.drop_first() == b.drop_first() {
            assert(a == seq![a[0]] + a.drop_first());
            assert(b == seq![b[0]] + b.drop_first());
        }
    } else if a.len() == 0 && b.len() == 0 {
        assert(a == b);
    }
}

/// Whether `a` stands before `b`.
fn stands_before(a: &str, b: &str) -> (r: bool)
    ensures
        r == before(a@, b@),
{
    let left = text::chars_of(a);
    let right = text::chars_of(b);
    let mut i: usize = 0;
    assert(a@.skip(0) == a@);
    assert(b@.skip(0) == b@);
    while i < left.len() && i < right.len()
        invariant
            i <= left.len(),
            i <= right.len(),
            left@ == a@,
            right@ == b@,
            before(a@, b@) == before(a@.skip(i as int), b@.skip(i as int)),
        decreases left.len() - i,
    {
        if left[i] != right[i] {
            return left[i] < right[i];
        }
        assert(a@.skip(i as int).drop_first() == a@.skip(i + 1));
        assert(b@.skip(i as int).drop_first() == b@.skip(i + 1));
        i += 1;
    }
    i < right.len()
}

/// A map keyed by text. Every key occurs once, and the entries stand in the order
/// of their keys.
#[derive(Debug, PartialEq, Eq)]
pub struct StringMap<V> {
    entries: Vec<(String, V)>,
}

/// Whether the entries hold a value for the key.
spec fn holds_key<V>(entries: Seq<(String, V)>, key: Seq<char>) -> bool {
    exists|i: int| 0 <= i < entries.len() && (#[trigger] entries[i]).0@ == key
}

/// Where the entries hold the value for the key.
spec fn key_index<V>(entries: Seq<(String, V)>, key: Seq<char>) -> int {
    choose|i: int| 0 <= i < entries.len() && (#[trigger] entries[i]).0@ == key
}

/// Whether the entries stand in the order of their keys.
spec fn in_key_order<V>(entries: Seq<(String, V)>) -> bool {
    forall|i: int, j: int|
        0 <= i < j < entries.len() ==> before((#[trigger] entries[i]).0@, (#[trigger] entries[j]).0@)
}

/// The map that a sequence of entries stands for.
spec fn entries_map<V>(entries: Seq<(String, V)>) -> Map<Seq<char>, V> {
    Map::new(
        |key: Seq<char>| holds_key(entries, key),
        |key: Seq<char>| entries[key_index(entries, key)].1,
    )
}

impl<V> View for StringMap<V> {
    type V = Map<Seq<char>, V>;

    closed spec fn view(&self) -> Map<Seq<char>, V> {
        entries_map(self.entries@)
    }
}

/// In ordered entries a key stands at one place only.
proof fn lemma_key_index<V>(entries: Seq<(String, V)>, i: int)
    requires
        in_key_order(entries),
        0 <= i < entries.len(),
    ensures
        holds_key(entries, entries[i].0@),
        key_index(entries, entries[i].0@) == i,
        entries_map(entries).dom().contains(entries[i].0@),
        entries_map(entries)[entries[i].0@] == entries[i].1,
{
    let key = entries[i].0@;
    let at = key_index(entries, key);
    assert(entries[at].0@ == key);
    before_is_irreflexive(key);
    if at < i {
        assert(before(entries[at].0@, entries[i].0@));
    } else if i < at {
        assert(before(entries[i].0@, entries[at].0@));
    }
}

impl<V> StringMap<V> {
    #[verifier::type_invariant]
    spec fn ordered(self) -> bool {
        in_key_order(self.entries@)
    }

    /// The empty map.
    pub fn new() -> (r: Self)
        ensures
            r@ == Map::<Seq<char>, V>::empty(),
    {
        let r = StringMap { entries: Vec::new() };
        assert(r@ =~= Map::<Seq<char>, V>::empty());
        r
    }

    /// The place of a key, or where it would have to stand.
    fn place(&self, key: &str) -> (r: (usize, bool))
        ensures
            r.0 <= self.entries@.len(),
            r.1 ==> r.0 < self.entries@.len() && self.entries@[r.0 as int].0@ == key@,
            !r.1 ==> !holds_key(self.entries@, key@),
            forall|k: int| 0 <= k < r.0 ==> before((#[trigger] self.entries@[k]).0@, key@),
            !r.1 ==> forall|k: int|
                r.0 <= k < self.entries@.len() ==> before(key@, (#[trigger] self.entries@[k]).0@),
    {
        proof {
            use_type_invariant(self);
        }
        let mut i: usize = 0;
        while i < self.entries.len()
            invariant
                i <= self.entries@.len(),
                in_key_order(self.entries@),
                forall|k: int| 0 <= k < i ==> before((#[trigger] self.entries@[k]).0@, key@),
            decreases self.entries@.len() - i,
        {
            let here = self.entries[i].0.as_str();
            if text::same(here, key) {
                return (i, true);
            }
            if !stands_before(here, key) {
                proof {
                    before_is_total(here@, key@);
                    assert forall|k: int| i <= k < self.entries@.len() implies before(
                        key@,
                        (#[trigger] self.entries@[k]).0@,
                    ) by {
                        if k > i {
                            before_is_transitive(
                                key@,
                                self.entries@[i as int].0@,
                                self.entries@[k].0@,
                            );
                        }
                    }
                    before_is_irreflexive(key@);
                }
                return (i, false);
            }
            i += 1;
        }
        proof {
            before_is_irreflexive(key@);
        }
        (i, false)
    }

    /// The value for a key.
    pub fn get(&self, key: &str) -> (r: Option<&V>)
        ensures
            r is Some <==> self@.dom().contains(key@),
            r matches Some(value) ==> *value == self@[key@],
    {
        proof {
            use_type_invariant(self);
        }
        let (at, found) = self.place(key);
        if found {
            proof {
                lemma_key_index(self.entries@, at as int);
            }
            Some(&self.entries[at].1)
        } else {
            None
        }
    }

    /// Whether the map holds a value for a key.
    pub fn contains_key(&self, key: &str) -> (r: bool)
        ensures
            r == self@.dom().contains(key@),
    {
        self.get(key).is_some()
    }

    /// Whether the map is empty.
    pub fn is_empty(&self) -> (r: bool)
        ensures
            r == (self@ == Map::<Seq<char>, V>::empty()),
    {
        proof {
            use_type_invariant(self);
            if self.entries@.len() > 0 {
                lemma_key_index(self.entries@, 0);
            } else {
                assert(self@ =~= Map::<Seq<char>, V>::empty());
            }
        }
        self.entries.len() == 0
    }

    /// The keys, in their order.
    pub fn keys(&self) -> (r: Vec<String>)
        ensures
            forall|key: Seq<char>|
                #![trigger self@.dom().contains(key)]
                self@.dom().contains(key) <==> exists|i: int|
                    0 <= i < r@.len() && (#[trigger] r@[i])@ == key,
            forall|i: int, j: int|
                0 <= i < j < r@.len() ==> before((#[trigger] r@[i])@, (#[trigger] r@[j])@),
    {
        proof {
            use_type_invariant(self);
        }
        let mut out: Vec<String> = Vec::new();
        let mut i: usize = 0;
        while i < self.entries.len()
            invariant
                i <= self.entries@.len(),
                out@.len() == i,
                forall|k: int| 0 <= k < i ==> (#[trigger] out@[k])@ == self.entries@[k].0@,
            decreases self.entries@.len() - i,
        {
            out.push(self.entries[i].0.clone());
            i += 1;
        }
        proof {
            assert forall|key: Seq<char>| #[trigger] self@.dom().contains(key) implies exists|k: int|
                0 <= k < out@.len() && (#[trigger] out@[k])@ == key by {
                let k = key_index(self.entries@, key);
                assert(self.entries@[k].0@ == key);
                assert(out@[k]@ == key);
            }
            assert forall|key: Seq<char>|
                (exists|k: int| 0 <= k < out@.len() && (#[trigger] out@[k])@ == key) implies
                #[trigger] self@.dom().contains(key) by {
                let k = choose|k: int| 0 <= k < out@.len() && (#[trigger] out@[k])@ == key;
                lemma_key_index(self.entries@, k);
            }
        }
        out
    }

    /// Sets the value for a key; a value that was there is replaced.
    pub fn insert(&mut self, key: String, value: V)
        ensures
            final(self)@ == old(self)@.insert(key@, value),
    {
        proof {
            use_type_invariant(&*self);
        }
        let (at, found) = self.place(key.as_str());
        let ghost was = self.entries@;
        let ghost text = key@;
        let mut entries: Vec<(String, V)> = Vec::new();
        std::mem::swap(&mut entries, &mut self.entries);
        if found {
            entries.set(at, (key, value));
        } else {
            entries.insert(at, (key, value));
        }
        proof {
            let now = entries@;
            if found {
                assert(now == was.update(at as int, now[at as int]));
            } else {
                assert(now == was.insert(at as int, now[at as int]));
            }
            assert(now[at as int].0@ == text);
            assert forall|i: int, j: int| 0 <= i < j < now.len() implies before(
                (#[trigger] now[i]).0@,
                (#[trigger] now[j]).0@,
            ) by {
                let (a, b) = if found {
                    (i, j)
                } else {
                    (if i < at { i } else { i - 1 }, if j < at { j } else { j - 1 })
                };
                if i != at {
                    assert(now[i].0@ == was[a].0@);
                }
                if j != at {
                    assert(now[j].0@ == was[b].0@);
                }
                if found {
                    assert(was[at as int].0@ == text);
                }
            }
            assert(in_key_order(now));
            let expected = entries_map(was).insert(text, value);
            lemma_key_index(now, at as int);
            assert forall|k: Seq<char>| #[trigger] entries_map(now).dom().contains(k)
                <==> expected.dom().contains(k) by {
                if entries_map(now).dom().contains(k) && k != text {
                    let i = key_index(now, k);
                    assert(now[i].0@ == k);
                    let a = if found || i < at { i } else { i - 1 };
                    assert(was[a].0@ == k);
                    lemma_key_index(was, a);
                }
                if entries_map(was).dom().contains(k) {
                    let i = key_index(was, k);
                    assert(was[i].0@ == k);
                    let a = if found || i < at { i } else { i + 1 };
                    assert(now[a].0@ == k);
                    lemma_key_index(now, a);
                }
            }
            assert forall|k: Seq<char>| #[trigger] entries_map(now).dom().contains(k) implies
                entries_map(now)[k] == expected[k] by {
                if k != text {
                    let i = key_index(now, k);
                    assert(now[i].0@ == k);
                    let a = if found || i < at { i } else { i - 1 };
                    assert(was[a] == now[i]);
                    lemma_key_index(was, a);
                }
            }
            assert(entries_map(now) =~= expected);
        }
        self.entries = entries;
    }
}

impl<V: Copy> StringMap<V> {
    /// A map that holds the same.
    pub fn copied(&self) -> (r: Self)
        ensures
            r@ == self@,
    {
        proof {
            use_type_invariant(self);
        }
        let mut entries: Vec<(String, V)> = Vec::new();
        let mut i: usize = 0;
        while i < self.entries.len()
            invariant
                i <= self.entries@.len(),
                entries@ == self.entries@.take(i as int),
            decreases self.entries@.len() - i,
        {
            let entry = &self.entries[i];
            entries.push((entry.0.clone(), entry.1));
            assert(entries@[i as int] == self.entries@[i as int]);
            i += 1;
        }
        assert(entries@ == self.entries@);
        StringMap { entries }
    }
}

impl Clone for StringMap<String> {
    fn clone(&self) -> (r: Self)
        ensures
            r@ == self@,
    {
        proof {
            use_type_invariant(self);
        }
        let mut entries: Vec<(String, String)> = Vec::new();
        let mut i: usize = 0;
        while i < self.entries.len()
            invariant
                i <= self.entries@.len(),
                entries@ == self.entries@.take(i as int),
            decreases self.entries@.len() - i,
        {
            let entry = &self.entries[i];
            entries.push((entry.0.clone(), entry.1.clone()));
            assert(entries@[i as int] == self.entries@[i as int]);
            i += 1;
        }
        assert(entries@ == self.entries@);
        StringMap { entries }
    }
}

impl<T> Clone for StringMap<Arc<T>> {
    fn clone(&self) -> (r: Self)
        ensures
            r@ == self@,
    {
        proof {
            use_type_invariant(self);
        }
        let mut entries: Vec<(String, Arc<T>)> = Vec::new();
        let mut i: usize = 0;
        while i < self.entries.len()
            invariant
                i <= self.entries@.len(),
                entries@ == self.entries@.take(i as int),
            decreases self.entries@.len() - i,
        {
            let entry = &self.entries[i];
            entries.push((entry.0.clone(), Arc::clone(&entry.1)));
            assert(entries@[i as int] == self.entries@[i as int]);
            i += 1;
        }
        assert(entries@ == self.entries@);
        StringMap { entries }
    }
}

} // verus!
