//! Maps keyed by strings, held in ascending key order.

use vstd::prelude::*;
use crate::text::chars_of;

verus! {

/// `a` comes before `b` in the dictionary order of their characters, which
/// is the order in which the standard library sorts strings.
pub open spec fn precedes(a: Seq<char>, b: Seq<char>) -> bool
    decreases a.len(),
{
    if b.len() == 0 {
        false
    } else if a.len() == 0 {
        true
    } else if a[0] != b[0] {
        a[0] < b[0]
    } else {
        precedes(a.skip(1), b.skip(1))
    }
}

/// Each key comes before the one after it.
pub open spec fn ascending<V>(entries: Seq<(Seq<char>, V)>) -> bool {
    forall|i: int| 0 <= i < entries.len() - 1 ==> precedes(#[trigger] entries[i].0, entries[i + 1].0)
}

/// Decides `precedes` on two character vectors.
pub fn chars_precede(a: &Vec<char>, b: &Vec<char>) -> (r: bool)
    ensures
        r == precedes(a@, b@),
{
    let mut i: usize = 0;
    assert(a@.skip(0) == a@ && b@.skip(0) == b@);
    loop
        invariant
            i <= a.len(),
            i <= b.len(),
            precedes(a@, b@) == precedes(a@.skip(i as int), b@.skip(i as int)),
        decreases a.len() - i,
    {
        if i >= b.len() {
            return false;
        }
        if i >= a.len() {
            return true;
        }
        let x = a[i];
        let y = b[i];
        if x != y {
            return x < y;
        }
        proof {
            assert(a@.skip(i as int).skip(1) == a@.skip(i + 1));
            assert(b@.skip(i as int).skip(1) == b@.skip(i + 1));
        }
        i += 1;
    }
}

/// Decides `precedes` on two strings.
pub fn str_precedes(a: &str, b: &str) -> (r: bool)
    ensures
        r == precedes(a@, b@),
{
    let x = chars_of(a);
    let y = chars_of(b);
    chars_precede(&x, &y)
}

/// Whether two character vectors hold the same characters.
pub fn chars_equal(a: &Vec<char>, b: &Vec<char>) -> (r: bool)
    ensures
        r == (a@ == b@),
{
    if a.len() != b.len() {
        return false;
    }
    let mut i: usize = 0;
    while i < a.len()
        invariant
            i <= a.len(),
            a.len() == b.len(),
            forall|j: int| 0 <= j < i ==> a@[j] == b@[j],
        decreases a.len() - i,
    {
        if a[i] != b[i] {
            return false;
        }
        i += 1;
    }
    assert(a@ =~= b@);
    true
}

/// Whether two strings hold the same characters.
pub fn str_equal(a: &str, b: &str) -> (r: bool)
    ensures
        r == (a@ == b@),
{
    let x = chars_of(a);
    let y = chars_of(b);
    chars_equal(&x, &y)
}

/// Nothing comes before itself.
pub proof fn lemma_precedes_irreflexive(a: Seq<char>)
    ensures
        !precedes(a, a),
    decreases a.len(),
{
    if a.len() > 0 {
        lemma_precedes_irreflexive(a.skip(1));
    }
}

/// What comes before something that comes before `c` comes before `c`.
pub proof fn lemma_precedes_transitive(a: Seq<char>, b: Seq<char>, c: Seq<char>)
    requires
        precedes(a, b),
        precedes(b, c),
    ensures
        precedes(a, c),
    decreases a.len(),
{
    if a.len() > 0 && a[0] == b[0] && b[0] == c[0] {
        lemma_precedes_transitive(a.skip(1), b.skip(1), c.skip(1));
    }
}

/// Of two different strings one comes before the other.
pub proof fn lemma_precedes_total(a: Seq<char>, b: Seq<char>)
    ensures
        a == b || precedes(a, b) || precedes(b, a),
    decreases a.len(),
{
    if a.len() > 0 && b.len() > 0 && a[0] == b[0] {
        lemma_precedes_total(a.skip(1), b.skip(1));
        if a.skip(1) == b.skip(1) {
            assert(a =~= seq![a[0]] + a.skip(1));
            assert(b =~= seq![b[0]] + b.skip(1));
        }
    } else if a.len() == 0 && b.len() == 0 {
        assert(a =~= b);
    }
}

/// In an ascending sequence every key comes before all the later ones, so
/// that no key occurs twice.
pub proof fn lemma_ascending_pairs<V>(entries: Seq<(Seq<char>, V)>, i: int, j: int)
    requires
        ascending(entries),
        0 <= i < j < entries.len(),
    ensures
        precedes(entries[i].0, entries[j].0),
        entries[i].0 != entries[j].0,
    decreases j - i,
{
    if i + 1 < j {
        lemma_ascending_pairs(entries, i, j - 1);
        lemma_precedes_transitive(entries[i].0, entries[j - 1].0, entries[j].0);
    }
    lemma_precedes_irreflexive(entries[i].0);
}

/// Some entry has the key `key`.
pub open spec fn has_key<V>(entries: Seq<(Seq<char>, V)>, key: Seq<char>) -> bool {
    exists|i: int| 0 <= i < entries.len() && #[trigger] entries[i].0 == key
}

/// The position of an entry with the key `key`, where there is one.
pub open spec fn position_of<V>(entries: Seq<(Seq<char>, V)>, key: Seq<char>) -> int {
    choose|i: int| 0 <= i < entries.len() && #[trigger] entries[i].0 == key
}

/// The map that a sequence of entries stands for: a key is bound when some
/// entry has it, to the value of such an entry.
pub open spec fn bindings<V>(entries: Seq<(Seq<char>, V)>) -> Map<Seq<char>, V> {
    Map::new(
        |k: Seq<char>| has_key(entries, k),
        |k: Seq<char>| entries[position_of(entries, k)].1,
    )
}

/// An ascending sequence binds the key of each of its entries to the value
/// of that entry.
pub proof fn lemma_bindings_at<V>(entries: Seq<(Seq<char>, V)>, i: int)
    requires
        ascending(entries),
        0 <= i < entries.len(),
    ensures
        bindings(entries).contains_key(entries[i].0),
        bindings(entries)[entries[i].0] == entries[i].1,
{
    let k = entries[i].0;
    let j = position_of(entries, k);
    if j < i {
        lemma_ascending_pairs(entries, j, i);
    } else if i < j {
        lemma_ascending_pairs(entries, i, j);
    }
}

/// A map from strings to values of `V`.  Its entries are kept in ascending
/// order of their keys, so that equal maps hold equal sequences of entries.
#[derive(Debug, PartialEq, Eq)]
pub struct StringMap<V> {
    entries: Vec<(String, V)>,
}

impl<V> StringMap<V> {
    /// The entries, keys as character sequences, in ascending key order.
    pub closed spec fn entries(&self) -> Seq<(Seq<char>, V)> {
        self.entries@.map_values(|e: (String, V)| (e.0@, e.1))
    }

    /// The map that the entries stand for.
    pub open spec fn view(&self) -> Map<Seq<char>, V> {
        bindings(self.entries())
    }

    #[verifier::type_invariant]
    spec fn in_order(&self) -> bool {
        ascending(self.entries())
    }

    /// The map without entries.
    pub fn new() -> (m: StringMap<V>)
        ensures
            m.entries() == Seq::<(Seq<char>, V)>::empty(),
    {
        let m = StringMap { entries: Vec::new() };
        assert(m.entries() =~= Seq::<(Seq<char>, V)>::empty());
        m
    }

    /// The number of entries.
    pub fn len(&self) -> (n: usize)
        ensures
            n == self.entries().len(),
            ascending(self.entries()),
    {
        proof {
            use_type_invariant(self);
        }
        self.entries.len()
    }

    /// Whether the map has no entry.
    pub fn is_empty(&self) -> (b: bool)
        ensures
            b == (self.entries().len() == 0),
    {
        self.entries.len() == 0
    }

    /// The key of the entry at position `i` in ascending key order.
    pub fn key(&self, i: usize) -> (k: &str)
        requires
            i < self.entries().len(),
        ensures
            k@ == self.entries()[i as int].0,
    {
        self.entries[i].0.as_str()
    }

    /// The value of the entry at position `i` in ascending key order.
    pub fn value(&self, i: usize) -> (v: &V)
        requires
            i < self.entries().len(),
        ensures
            *v == self.entries()[i as int].1,
    {
        &self.entries[i].1
    }

    /// The value bound to `key`, if one is.
    pub fn get(&self, key: &str) -> (r: Option<&V>)
        ensures
            match r {
                Some(v) => self@.contains_key(key@) && self@[key@] == *v,
                None => !self@.contains_key(key@),
            },
    {
        proof {
            use_type_invariant(self);
        }
        let wanted = chars_of(key);
        let mut i: usize = 0;
        while i < self.entries.len()
            invariant
                i <= self.entries.len(),
                ascending(self.entries()),
                wanted@ == key@,
                forall|j: int| 0 <= j < i ==> (#[trigger] self.entries()[j]).0 != key@,
            decreases self.entries.len() - i,
        {
            let here = chars_of(self.entries[i].0.as_str());
            if chars_equal(&here, &wanted) {
                proof {
                    assert(self.entries()[i as int].0 == key@);
                    lemma_bindings_at(self.entries(), i as int);
                }
                return Some(&self.entries[i].1);
            }
            assert(self.entries()[i as int].0 != key@);
            i += 1;
        }
        None
    }

    /// The map that binds `key` to `value` and is otherwise as `self`; a value
    /// that `key` was bound to is dropped.
    pub fn insert(self, key: String, value: V) -> (m: StringMap<V>)
        ensures
            ascending(m.entries()),
            m@ == self@.insert(key@, value),
    {
        proof {
            use_type_invariant(&self);
        }
        let ghost before = self.entries();
        let mut entries = self.entries;
        assert(entries@.map_values(|e: (String, V)| (e.0@, e.1)) == before);
        let wanted = chars_of(key.as_str());
        let mut i: usize = 0;
        while i < entries.len() && chars_precede(&chars_of(entries[i].0.as_str()), &wanted)
            invariant
                i <= entries.len(),
                entries@.map_values(|e: (String, V)| (e.0@, e.1)) == before,
                wanted@ == key@,
                forall|j: int| 0 <= j < i ==> precedes((#[trigger] before[j]).0, key@),
            decreases entries.len() - i,
        {
            assert(before[i as int].0 == entries[i as int].0@);
            i += 1;
        }
        if i < entries.len() && chars_equal(&chars_of(entries[i].0.as_str()), &wanted) {
            entries.set(i, (key, value));
            proof {
                let after = entries@.map_values(|e: (String, V)| (e.0@, e.1));
                assert(before[i as int].0 == key@);
                assert(after =~= before.update(i as int, (key@, value)));
                lemma_update_bindings(before, i as int, value);
            }
        } else {
            entries.insert(i, (key, value));
            proof {
                let after = entries@.map_values(|e: (String, V)| (e.0@, e.1));
                assert(after =~= before.insert(i as int, (key@, value)));
                if i < before.len() {
                    assert(before[i as int].0 != key@);
                    assert(!precedes(before[i as int].0, key@));
                    lemma_precedes_total(before[i as int].0, key@);
                }
                lemma_insert_bindings(before, i as int, key@, value);
            }
        }
        StringMap { entries }
    }
}

impl<V: Clone> Clone for StringMap<V> {
    /// A map with the same keys, each bound to a clone of its value.
    fn clone(&self) -> (m: StringMap<V>)
        ensures
            m.entries().len() == self.entries().len(),
            forall|i: int|
                0 <= i < self.entries().len() ==> (#[trigger] m.entries()[i]).0
                    == self.entries()[i].0 && cloned(self.entries()[i].1, m.entries()[i].1),
    {
        proof {
            use_type_invariant(self);
        }
        let mut entries: Vec<(String, V)> = Vec::new();
        let mut i: usize = 0;
        while i < self.entries.len()
            invariant
                i <= self.entries.len(),
                entries.len() == i,
                forall|j: int|
                    0 <= j < i ==> (#[trigger] entries@[j]).0@ == self.entries@[j].0@ && cloned(
                        self.entries@[j].1,
                        entries@[j].1,
                    ),
            decreases self.entries.len() - i,
        {
            let key = self.entries[i].0.clone();
            let value = self.entries[i].1.clone();
            entries.push((key, value));
            i += 1;
        }
        proof {
            let after = entries@.map_values(|e: (String, V)| (e.0@, e.1));
            assert forall|j: int| 0 <= j < after.len() - 1 implies precedes(
                #[trigger] after[j].0,
                after[j + 1].0,
            ) by {
                assert(after[j].0 == self.entries()[j].0);
                assert(after[j + 1].0 == self.entries()[j + 1].0);
            }
        }
        StringMap { entries }
    }
}

/// Replacing the value of one entry rebinds its key and nothing else.
pub proof fn lemma_update_bindings<V>(entries: Seq<(Seq<char>, V)>, i: int, value: V)
    requires
        ascending(entries),
        0 <= i < entries.len(),
    ensures
        ascending(entries.update(i, (entries[i].0, value))),
        bindings(entries.update(i, (entries[i].0, value))) == bindings(entries).insert(
            entries[i].0,
            value,
        ),
{
    let key = entries[i].0;
    let after = entries.update(i, (key, value));
    assert(ascending(after)) by {
        assert forall|j: int| 0 <= j < after.len() - 1 implies precedes(
            #[trigger] after[j].0,
            after[j + 1].0,
        ) by {
            assert(after[j].0 == entries[j].0);
            assert(after[j + 1].0 == entries[j + 1].0);
        }
    }
    let m = bindings(entries).insert(key, value);
    assert forall|k: Seq<char>| bindings(after).contains_key(k) <==> m.contains_key(k) by {
        if bindings(after).contains_key(k) {
            let j = position_of(after, k);
            assert(entries[j].0 == k);
        }
        if m.contains_key(k) && k != key {
            let j = position_of(entries, k);
            assert(after[j].0 == k);
        }
        if k == key {
            assert(after[i].0 == k);
        }
    }
    assert forall|k: Seq<char>| bindings(after).contains_key(k) implies bindings(after)[k] == m[k] by {
        let j = position_of(after, k);
        lemma_bindings_at(after, j);
        if j != i {
            assert(entries[j].0 == k);
            lemma_bindings_at(entries, j);
            if j < i {
                lemma_ascending_pairs(entries, j, i);
            } else {
                lemma_ascending_pairs(entries, i, j);
            }
        }
    }
    assert(bindings(after) =~= m);
}

/// Putting an entry between the keys that come before its key and those that
/// come after binds its key and nothing else.
pub proof fn lemma_insert_bindings<V>(entries: Seq<(Seq<char>, V)>, i: int, key: Seq<char>, value: V)
    requires
        ascending(entries),
        0 <= i <= entries.len(),
        forall|j: int| 0 <= j < i ==> precedes((#[trigger] entries[j]).0, key),
        i < entries.len() ==> precedes(key, entries[i].0),
    ensures
        ascending(entries.insert(i, (key, value))),
        bindings(entries.insert(i, (key, value))) == bindings(entries).insert(key, value),
{
    let after = entries.insert(i, (key, value));
    assert(ascending(after)) by {
        assert forall|j: int| 0 <= j < after.len() - 1 implies precedes(
            #[trigger] after[j].0,
            after[j + 1].0,
        ) by {
            if j + 1 < i {
                assert(after[j] == entries[j] && after[j + 1] == entries[j + 1]);
            } else if j + 1 == i {
                assert(after[j] == entries[j]);
            } else if j == i {
                assert(after[j + 1] == entries[i]);
            } else {
                assert(after[j] == entries[j - 1] && after[j + 1] == entries[j]);
            }
        }
    }
    let m = bindings(entries).insert(key, value);
    assert forall|k: Seq<char>| bindings(after).contains_key(k) <==> m.contains_key(k) by {
        if bindings(after).contains_key(k) {
            let j = position_of(after, k);
            if j < i {
                assert(entries[j].0 == k);
            } else if j > i {
                assert(entries[j - 1].0 == k);
            }
        }
        if m.contains_key(k) && k != key {
            let j = position_of(entries, k);
            if j < i {
                assert(after[j].0 == k);
            } else {
                assert(after[j + 1].0 == k);
            }
        }
        if k == key {
            assert(after[i].0 == k);
        }
    }
    assert forall|k: Seq<char>| bindings(after).contains_key(k) implies bindings(after)[k] == m[k] by {
        let j = position_of(after, k);
        lemma_bindings_at(after, j);
        if j < i {
            assert(entries[j] == after[j]);
            lemma_bindings_at(entries, j);
            lemma_ascending_pairs(after, j, i);
        } else if j > i {
            assert(entries[j - 1] == after[j]);
            lemma_bindings_at(entries, j - 1);
            lemma_ascending_pairs(after, i, j);
        }
    }
    assert(bindings(after) =~= m);
}

/// In an ascending sequence the last key comes after every other key.
proof fn lemma_last_key_is_greatest<V>(entries: Seq<(Seq<char>, V)>, key: Seq<char>)
    requires
        ascending(entries),
        has_key(entries, key),
    ensures
        key == entries.last().0 || precedes(key, entries.last().0),
{
    let i = position_of(entries, key);
    if i < entries.len() - 1 {
        lemma_ascending_pairs(entries, i, entries.len() - 1);
    }
}

/// Without its last entry an ascending sequence binds what it bound before,
/// but for the key of that entry.
pub proof fn lemma_drop_last_bindings<V>(entries: Seq<(Seq<char>, V)>)
    requires
        ascending(entries),
        entries.len() > 0,
    ensures
        ascending(entries.drop_last()),
        bindings(entries.drop_last()) == bindings(entries).remove(entries.last().0),
{
    let shorter = entries.drop_last();
    let last = entries.len() - 1;
    assert(ascending(shorter)) by {
        assert forall|j: int| 0 <= j < shorter.len() - 1 implies precedes(
            #[trigger] shorter[j].0,
            shorter[j + 1].0,
        ) by {
            assert(shorter[j].0 == entries[j].0);
            assert(shorter[j + 1].0 == entries[j + 1].0);
        }
    }
    let m = bindings(entries).remove(entries.last().0);
    assert forall|k: Seq<char>| bindings(shorter).contains_key(k) <==> m.contains_key(k) by {
        if bindings(shorter).contains_key(k) {
            let j = position_of(shorter, k);
            assert(entries[j].0 == k);
            lemma_ascending_pairs(entries, j, last);
        }
        if m.contains_key(k) {
            let j = position_of(entries, k);
            assert(j != last);
            assert(shorter[j].0 == k);
        }
    }
    assert forall|k: Seq<char>| bindings(shorter).contains_key(k) implies bindings(shorter)[k]
        == m[k] by {
        let j = position_of(shorter, k);
        assert(has_key(shorter, k));
        assert(shorter[j].0 == k);
        lemma_bindings_at(shorter, j);
        assert(entries[j] == shorter[j]);
        lemma_bindings_at(entries, j);
        assert(m.contains_key(k));
        assert(k != entries.last().0);
    }
    assert(bindings(shorter) =~= m);
}

/// Ascending sequences that stand for the same map are the same sequence.
pub proof fn lemma_entries_of_equal_maps<V>(a: Seq<(Seq<char>, V)>, b: Seq<(Seq<char>, V)>)
    requires
        ascending(a),
        ascending(b),
        bindings(a) == bindings(b),
    ensures
        a == b,
    decreases a.len(),
{
    if a.len() == 0 {
        if b.len() > 0 {
            assert(has_key(b, b[0].0));
            assert(bindings(b).contains_key(b[0].0));
            assert(has_key(a, b[0].0));
        }
        assert(a =~= b);
    } else {
        let ka = a.last().0;
        assert(has_key(a, a[a.len() - 1].0));
        assert(bindings(a).contains_key(ka));
        assert(has_key(b, ka));
        let kb = b.last().0;
        assert(has_key(b, b[b.len() - 1].0));
        assert(bindings(b).contains_key(kb));
        assert(has_key(a, kb));
        lemma_last_key_is_greatest(b, ka);
        lemma_last_key_is_greatest(a, kb);
        if ka != kb {
            lemma_precedes_transitive(ka, kb, ka);
            lemma_precedes_irreflexive(ka);
        }
        lemma_bindings_at(a, a.len() - 1);
        lemma_bindings_at(b, b.len() - 1);
        assert(a.last() == b.last());
        lemma_drop_last_bindings(a);
        lemma_drop_last_bindings(b);
        lemma_entries_of_equal_maps(a.drop_last(), b.drop_last());
        assert(a =~= a.drop_last().push(a.last()));
        assert(b =~= b.drop_last().push(b.last()));
    }
}

} // verus!
