//! A map from text to values.

use vstd::prelude::*;

use crate::text::same_text;

verus! {

/// A map from text to values, in which each key occurs once.
#[derive(Debug)]
pub struct StringMap<V> {
    entries: Vec<(String, V)>,
}

/// The position of `key` among the entries, or their number where it is not there.
spec fn position<V>(entries: Seq<(String, V)>, key: Seq<char>) -> int
    decreases entries.len(),
{
    if entries.len() == 0 || entries[0].0@ == key {
        0
    } else {
        1 + position(entries.drop_first(), key)
    }
}

proof fn lemma_position<V>(entries: Seq<(String, V)>, key: Seq<char>)
    ensures
        0 <= position(entries, key) <= entries.len(),
        position(entries, key) < entries.len() ==> entries[position(entries, key)].0@ == key,
        forall|i: int| 0 <= i < position(entries, key) ==> (#[trigger] entries[i]).0@ != key,
    decreases entries.len(),
{
    if entries.len() == 0 || entries[0].0@ == key {
    } else {
        let rest = entries.drop_first();
        lemma_position(rest, key);
        assert forall|i: int| 0 <= i < position(entries, key) implies (#[trigger] entries[i]).0@
            != key by {
            if i > 0 {
                assert(entries[i] == rest[i - 1]);
            }
        }
        assert(position(rest, key) < rest.len() ==> rest[position(rest, key)]
            == entries[position(entries, key)]);
    }
}

/// Whether no two entries share a key.
pub open spec fn distinct<V>(entries: Seq<(String, V)>) -> bool {
    forall|i: int, j: int|
        0 <= i < j < entries.len() ==> (#[trigger] entries[i]).0@ != (#[trigger] entries[j]).0@
}

/// The entries as a map.
pub open spec fn entry_map<V>(entries: Seq<(String, V)>) -> Map<Seq<char>, V> {
    Map::new(
        |key: Seq<char>| exists|i: int| 0 <= i < entries.len() && (#[trigger] entries[i]).0@ == key,
        |key: Seq<char>|
            entries[choose|i: int| 0 <= i < entries.len() && (#[trigger] entries[i]).0@ == key].1,
    )
}

/// The map that keys and values are put into one after the other, a later value in place of an
/// earlier one under the same key.
pub open spec fn inserted<V>(entries: Seq<(Seq<char>, V)>) -> Map<Seq<char>, V>
    decreases entries.len(),
{
    if entries.len() == 0 {
        Map::empty()
    } else {
        inserted(entries.drop_last()).insert(entries.last().0, entries.last().1)
    }
}

/// What the map holds under the key of one of its entries.
pub proof fn lemma_entry<V>(entries: Seq<(String, V)>, i: int)
    requires
        distinct(entries),
        0 <= i < entries.len(),
    ensures
        entry_map(entries).contains_key(entries[i].0@),
        entry_map(entries)[entries[i].0@] == entries[i].1,
{
    let key = entries[i].0@;
    let j = choose|j: int| 0 <= j < entries.len() && (#[trigger] entries[j]).0@ == key;
    assert(entries[i].0@ == key);
    if j < i {
        assert(entries[j].0@ != entries[i].0@);
    } else if i < j {
        assert(entries[i].0@ != entries[j].0@);
    }
}

impl<V> View for StringMap<V> {
    type V = Map<Seq<char>, V>;

    closed spec fn view(&self) -> Map<Seq<char>, V> {
        entry_map(self.entries@)
    }
}

impl<V: DeepView> DeepView for StringMap<V> {
    type V = Map<Seq<char>, V::V>;

    open spec fn deep_view(&self) -> Map<Seq<char>, V::V> {
        self@.map_values(|v: V| v.deep_view())
    }
}

impl<V> StringMap<V> {
    #[verifier::type_invariant]
    spec fn keys_distinct(self) -> bool {
        distinct(self.entries@)
    }

    /// The empty map.
    pub fn new() -> (r: Self)
        ensures
            r@ == Map::<Seq<char>, V>::empty(),
    {
        let r = StringMap { entries: Vec::new() };
        assert(r@ =~= Map::<Seq<char>, V>::empty());
        r
    }

    /// The position of `key`, or the number of entries where it is not there.
    fn find(&self, key: &str) -> (r: usize)
        ensures
            r == position(self.entries@, key@),
    {
        let mut i: usize = 0;
        proof {
            lemma_position(self.entries@, key@);
        }
        while i < self.entries.len()
            invariant
                0 <= i <= self.entries.len(),
                i <= position(self.entries@, key@) <= self.entries.len(),
                forall|j: int| 0 <= j < i ==> (#[trigger] self.entries@[j]).0@ != key@,
                forall|j: int|
                    0 <= j < position(self.entries@, key@) ==> (#[trigger] self.entries@[j]).0@
                        != key@,
                position(self.entries@, key@) < self.entries.len() ==> self.entries@[position(
                    self.entries@,
                    key@,
                )].0@ == key@,
            decreases self.entries.len() - i,
        {
            if same_text(self.entries[i].0.as_str(), key) {
                return i;
            }
            i += 1;
        }
        i
    }

    /// The keys with their values.
    pub fn entries(&self) -> (r: &Vec<(String, V)>)
        ensures
            distinct(r@),
            self@ == entry_map(r@),
    {
        proof {
            use_type_invariant(self);
        }
        &self.entries
    }

    /// Whether the map holds a value under `key`.
    pub fn contains_key(&self, key: &str) -> (r: bool)
        ensures
            r == self@.contains_key(key@),
    {
        proof {
            use_type_invariant(self);
            lemma_position(self.entries@, key@);
        }
        let i: usize = self.find(key);
        if i < self.entries.len() {
            proof {
                lemma_entry(self.entries@, i as int);
            }
            true
        } else {
            false
        }
    }

    /// The value under `key`.
    pub fn get(&self, key: &str) -> (r: Option<&V>)
        ensures
            r == (if self@.contains_key(key@) {
                Some(&self@[key@])
            } else {
                None
            }),
    {
        proof {
            use_type_invariant(self);
            lemma_position(self.entries@, key@);
        }
        let i: usize = self.find(key);
        if i < self.entries.len() {
            proof {
                lemma_entry(self.entries@, i as int);
            }
            Some(&self.entries[i].1)
        } else {
            None
        }
    }

    /// Takes the value under `key` out of the map.
    pub fn remove(&mut self, key: &str) -> (r: Option<V>)
        ensures
            final(self)@ == old(self)@.remove(key@),
            r == (if old(self)@.contains_key(key@) {
                Some(old(self)@[key@])
            } else {
                None
            }),
    {
        proof {
            use_type_invariant(&*self);
            lemma_position(self.entries@, key@);
        }
        let i: usize = self.find(key);
        let mut entries: Vec<(String, V)> = Vec::new();
        std::mem::swap(&mut entries, &mut self.entries);
        let ghost before = entries@;
        let r = if i < entries.len() {
            let (_, value) = entries.remove(i);
            proof {
                lemma_entry(before, i as int);
            }
            Some(value)
        } else {
            None
        };
        proof {
            lemma_removed(before, entries@, i as int, key@);
        }
        self.entries = entries;
        r
    }

    /// Puts `value` under `key`, in place of the value that was there.
    pub fn insert(&mut self, key: String, value: V)
        ensures
            final(self)@ == old(self)@.insert(key@, value),
    {
        let _ = self.remove(key.as_str());
        proof {
            use_type_invariant(&*self);
        }
        let mut entries: Vec<(String, V)> = Vec::new();
        std::mem::swap(&mut entries, &mut self.entries);
        let ghost before = entries@;
        let ghost text = key@;
        entries.push((key, value));
        proof {
            assert(entries@.drop_last() =~= before);
            lemma_pushed(before, entries@, text, value);
        }
        self.entries = entries;
    }
}

impl<V: Clone> Clone for StringMap<V> {
    fn clone(&self) -> (r: Self)
        ensures
            r@.dom() == self@.dom(),
            forall|key: Seq<char>| #[trigger]
                self@.contains_key(key) ==> cloned(self@[key], r@[key]),
    {
        proof {
            use_type_invariant(self);
        }
        let mut entries: Vec<(String, V)> = Vec::new();
        let mut i: usize = 0;
        while i < self.entries.len()
            invariant
                0 <= i <= self.entries.len(),
                entries.len() == i,
                forall|j: int|
                    0 <= j < i ==> (#[trigger] entries@[j]).0@ == self.entries@[j].0@ && cloned(
                        self.entries@[j].1,
                        entries@[j].1,
                    ),
            decreases self.entries.len() - i,
        {
            entries.push((self.entries[i].0.clone(), self.entries[i].1.clone()));
            i += 1;
        }
        let ghost copy = entries@;
        proof {
            let own = self.entries@;
            assert forall|j: int, k: int| 0 <= j < k < copy.len() implies (#[trigger] copy[j]).0@ != (
            #[trigger] copy[k]).0@ by {
                assert(own[j].0@ != own[k].0@);
            }
            assert forall|key: Seq<char>|
                entry_map(copy).contains_key(key) == #[trigger] entry_map(own).contains_key(key) by {
                if entry_map(copy).contains_key(key) {
                    let j = choose|j: int| 0 <= j < copy.len() && (#[trigger] copy[j]).0@ == key;
                    assert(own[j].0@ == key);
                }
                if entry_map(own).contains_key(key) {
                    let j = choose|j: int| 0 <= j < own.len() && (#[trigger] own[j]).0@ == key;
                    assert(copy[j].0@ == key);
                }
            }
            assert forall|key: Seq<char>| #[trigger] entry_map(own).contains_key(key) implies cloned(
                entry_map(own)[key],
                entry_map(copy)[key],
            ) by {
                let j = choose|j: int| 0 <= j < own.len() && (#[trigger] own[j]).0@ == key;
                assert(copy[j].0@ == key);
                lemma_entry(own, j);
                lemma_entry(copy, j);
            }
            assert(entry_map(copy).dom() =~= entry_map(own).dom());
        }
        StringMap { entries }
    }
}

proof fn lemma_removed<V>(
    before: Seq<(String, V)>,
    after: Seq<(String, V)>,
    i: int,
    key: Seq<char>,
)
    requires
        distinct(before),
        i == position(before, key),
        after == (if i < before.len() {
            before.remove(i)
        } else {
            before
        }),
    ensures
        distinct(after),
        entry_map(after) == entry_map(before).remove(key),
{
    lemma_position(before, key);
    let shift = |j: int| if i < before.len() && j >= i { j + 1 } else { j };
    assert forall|j: int| 0 <= j < after.len() implies #[trigger] after[j] == before[shift(j)]
        && after[j].0@ != key by {
        assert(after[j] == before[shift(j)]);
        if i < before.len() {
            if shift(j) < i {
                assert(before[shift(j)].0@ != before[i].0@);
            } else {
                assert(before[i].0@ != before[shift(j)].0@);
            }
        } else {
            assert(before[j].0@ != key);
        }
    }
    assert forall|j: int, k: int| 0 <= j < k < after.len() implies (#[trigger] after[j]).0@ != (
    #[trigger] after[k]).0@ by {
        assert(before[shift(j)].0@ != before[shift(k)].0@);
    }
    let a = entry_map(after);
    let b = entry_map(before).remove(key);
    assert forall|k: Seq<char>| a.contains_key(k) == b.contains_key(k) by {
        if a.contains_key(k) {
            let j = choose|j: int| 0 <= j < after.len() && (#[trigger] after[j]).0@ == k;
            assert(before[shift(j)].0@ == k);
        }
        if b.contains_key(k) {
            let j = choose|j: int| 0 <= j < before.len() && (#[trigger] before[j]).0@ == k;
            assert(i < before.len() ==> j != i);
            let l = if i < before.len() && j > i { j - 1 } else { j };
            assert(after[l].0@ == k);
        }
    }
    assert forall|k: Seq<char>| a.contains_key(k) implies a[k] == b[k] by {
        let j = choose|j: int| 0 <= j < after.len() && (#[trigger] after[j]).0@ == k;
        lemma_entry(after, j);
        lemma_entry(before, shift(j));
    }
    assert(a =~= b);
}

proof fn lemma_pushed<V>(
    before: Seq<(String, V)>,
    after: Seq<(String, V)>,
    key: Seq<char>,
    value: V,
)
    requires
        distinct(before),
        !entry_map(before).contains_key(key),
        after.len() == before.len() + 1,
        after.drop_last() == before,
        after.last().0@ == key,
        after.last().1 == value,
    ensures
        distinct(after),
        entry_map(after) == entry_map(before).insert(key, value),
{
    let n = before.len() as int;
    assert forall|j: int| 0 <= j < n implies #[trigger] after[j] == before[j] && before[j].0@ != key by {
        assert(after.drop_last()[j] == after[j]);
        lemma_entry(before, j);
    }
    assert forall|j: int, k: int| 0 <= j < k < after.len() implies (#[trigger] after[j]).0@ != (
    #[trigger] after[k]).0@ by {
        if k < n {
            assert(before[j].0@ != before[k].0@);
        }
    }
    let a = entry_map(after);
    let b = entry_map(before).insert(key, value);
    assert forall|k: Seq<char>| a.contains_key(k) == b.contains_key(k) by {
        if a.contains_key(k) {
            let j = choose|j: int| 0 <= j < after.len() && (#[trigger] after[j]).0@ == k;
            if j < n {
                assert(before[j].0@ == k);
            }
        }
        if b.contains_key(k) {
            if k == key {
                assert(after[n].0@ == k);
            } else {
                let j = choose|j: int| 0 <= j < before.len() && (#[trigger] before[j]).0@ == k;
                assert(after[j].0@ == k);
            }
        }
    }
    assert forall|k: Seq<char>| a.contains_key(k) implies a[k] == b[k] by {
        let j = choose|j: int| 0 <= j < after.len() && (#[trigger] after[j]).0@ == k;
        lemma_entry(after, j);
        if j < n {
            lemma_entry(before, j);
        }
    }
    assert(a =~= b);
}

/// Under each key stands the value that was put there last, and under a key that was not used
/// nothing stands.
pub proof fn law_inserted<V>(entries: Seq<(Seq<char>, V)>, i: int, key: Seq<char>)
    ensures
        0 <= i < entries.len() && entries[i].0 == key && (forall|j: int|
            i < j < entries.len() ==> (#[trigger] entries[j]).0 != key) ==> inserted(
            entries,
        ).contains_key(key) && inserted(entries)[key] == entries[i].1,
        (forall|j: int| 0 <= j < entries.len() ==> (#[trigger] entries[j]).0 != key) ==> !inserted(
            entries,
        ).contains_key(key),
    decreases entries.len(),
{
    if entries.len() > 0 {
        let rest = entries.drop_last();
        let n = entries.len() - 1;
        law_inserted(rest, i, key);
        if 0 <= i < n && entries[i].0 == key && (forall|j: int|
            i < j < entries.len() ==> (#[trigger] entries[j]).0 != key) {
            assert(entries[n].0 != key);
            assert forall|j: int| i < j < rest.len() implies (#[trigger] rest[j]).0 != key by {
                assert(entries[j].0 != key);
            }
        }
        if forall|j: int| 0 <= j < entries.len() ==> (#[trigger] entries[j]).0 != key {
            assert(entries[n].0 != key);
            assert forall|j: int| 0 <= j < rest.len() implies (#[trigger] rest[j]).0 != key by {
                assert(entries[j].0 != key);
            }
        }
    }
}

} // verus!
