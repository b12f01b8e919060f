//! A map and a set keyed by strings, kept as plain vectors.
//!
//! Both are seen as mathematical collections over the characters of their keys.
use vstd::prelude::*;

use crate::text;

verus! {

/// A map from strings to values.
#[derive(Debug)]
pub struct StringMap<V> {
    entries: Vec<(String, V)>,
}

/// Some entry has the key `k`.
spec fn has_key<V>(entries: Seq<(String, V)>, k: Seq<char>) -> bool {
    exists|i: int| 0 <= i < entries.len() && (#[trigger] entries[i]).0@ == k
}

/// An entry with the key `k`.
spec fn key_index<V>(entries: Seq<(String, V)>, k: Seq<char>) -> int {
    choose|i: int| 0 <= i < entries.len() && (#[trigger] entries[i]).0@ == k
}

/// No two entries share a key.
spec fn distinct_keys<V>(entries: Seq<(String, V)>) -> bool {
    forall|i: int, j: int|
        0 <= i < j < entries.len() ==> (#[trigger] entries[i]).0@ != (#[trigger] entries[j]).0@
}

/// The map that the entries stand for.
spec fn entry_map<V>(entries: Seq<(String, V)>) -> Map<Seq<char>, V> {
    Map::new(|k: Seq<char>| has_key(entries, k), |k: Seq<char>| entries[key_index(entries, k)].1)
}

proof fn lemma_entry<V>(entries: Seq<(String, V)>, i: int)
    requires
        distinct_keys(entries),
        0 <= i < entries.len(),
    ensures
        has_key(entries, entries[i].0@),
        key_index(entries, entries[i].0@) == i,
        entry_map(entries).contains_key(entries[i].0@),
        entry_map(entries)[entries[i].0@] == entries[i].1,
{
    let k = entries[i].0@;
    assert(entries[i].0@ == k);
    let j = key_index(entries, k);
    assert(0 <= j < entries.len() && entries[j].0@ == k);
    if j < i {
        assert(entries[j].0@ != entries[i].0@);
    }
    if i < j {
        assert(entries[i].0@ != entries[j].0@);
    }
}

proof fn lemma_pushed<V>(entries: Seq<(String, V)>, key: String, value: V)
    requires
        distinct_keys(entries),
        !has_key(entries, key@),
    ensures
        distinct_keys(entries.push((key, value))),
        entry_map(entries.push((key, value))) == entry_map(entries).insert(key@, value),
{
    let grown = entries.push((key, value));
    assert forall|i: int, j: int| 0 <= i < j < grown.len() implies (#[trigger] grown[i]).0@ != (
    #[trigger] grown[j]).0@ by {
        if j == entries.len() {
            assert(grown[i] == entries[i]);
        }
    }
    assert forall|k: Seq<char>| has_key(grown, k) == (has_key(entries, k) || k == key@) by {
        if has_key(entries, k) {
            let i = key_index(entries, k);
            assert(grown[i] == entries[i]);
        }
        if k == key@ {
            assert(grown[entries.len() as int].0@ == k);
        }
        if has_key(grown, k) {
            let i = key_index(grown, k);
            if i < entries.len() {
                assert(grown[i] == entries[i]);
            }
        }
    }
    assert forall|k: Seq<char>| has_key(grown, k) implies entry_map(grown)[k] == entry_map(
        entries,
    ).insert(key@, value)[k] by {
        let i = key_index(grown, k);
        lemma_entry(grown, i);
        if i < entries.len() {
            assert(grown[i] == entries[i]);
            lemma_entry(entries, i);
        }
    }
    assert(entry_map(grown) =~= entry_map(entries).insert(key@, value));
}

proof fn lemma_removed<V>(entries: Seq<(String, V)>, at: int)
    requires
        distinct_keys(entries),
        0 <= at < entries.len(),
    ensures
        distinct_keys(entries.remove(at)),
        entry_map(entries.remove(at)) == entry_map(entries).remove(entries[at].0@),
{
    let shrunk = entries.remove(at);
    let key = entries[at].0@;
    assert forall|i: int| 0 <= i < shrunk.len() implies #[trigger] shrunk[i] == entries[if i < at {
        i
    } else {
        i + 1
    }] by {}
    assert forall|i: int, j: int| 0 <= i < j < shrunk.len() implies (#[trigger] shrunk[i]).0@ != (
    #[trigger] shrunk[j]).0@ by {
        let x = if i < at {
            i
        } else {
            i + 1
        };
        let y = if j < at {
            j
        } else {
            j + 1
        };
        assert(entries[x].0@ != entries[y].0@);
    }
    assert forall|k: Seq<char>| has_key(shrunk, k) == (has_key(entries, k) && k != key) by {
        if has_key(shrunk, k) {
            let i = key_index(shrunk, k);
            let x = if i < at {
                i
            } else {
                i + 1
            };
            assert(entries[x].0@ == k);
            if x < at {
                assert(entries[x].0@ != entries[at].0@);
            } else {
                assert(entries[at].0@ != entries[x].0@);
            }
        }
        if has_key(entries, k) && k != key {
            let x = key_index(entries, k);
            let i = if x < at {
                x
            } else {
                x - 1
            };
            assert(shrunk[i].0@ == k);
        }
    }
    assert forall|k: Seq<char>| has_key(shrunk, k) implies entry_map(shrunk)[k] == entry_map(
        entries,
    )[k] by {
        let i = key_index(shrunk, k);
        lemma_entry(shrunk, i);
        lemma_entry(
            entries,
            if i < at {
                i
            } else {
                i + 1
            },
        );
    }
    assert(entry_map(shrunk) =~= entry_map(entries).remove(key));
}

proof fn lemma_keys<V>(entries: Seq<(String, V)>)
    requires
        distinct_keys(entries),
    ensures
        ({
            let keys = entries.map_values(|e: (String, V)| e.0@);
            &&& keys.no_duplicates()
            &&& keys.to_set() == entry_map(entries).dom()
            &&& entry_map(entries).dom().finite()
            &&& entry_map(entries).dom().len() == entries.len()
        }),
{
    let keys = entries.map_values(|e: (String, V)| e.0@);
    assert forall|i: int, j: int|
        0 <= i < keys.len() && 0 <= j < keys.len() && i != j implies keys[i] != keys[j] by {
        if i < j {
            assert(entries[i].0@ != entries[j].0@);
        } else {
            assert(entries[j].0@ != entries[i].0@);
        }
    }
    assert forall|k: Seq<char>| keys.contains(k) == has_key(entries, k) by {
        if keys.contains(k) {
            let i = choose|i: int| 0 <= i < keys.len() && keys[i] == k;
            assert(entries[i].0@ == k);
        }
        if has_key(entries, k) {
            let i = key_index(entries, k);
            assert(keys[i] == k);
        }
    }
    assert(keys.to_set() =~= entry_map(entries).dom());
    keys.unique_seq_to_set();
}

impl<V> View for StringMap<V> {
    type V = Map<Seq<char>, V>;

    closed spec fn view(&self) -> Map<Seq<char>, V> {
        entry_map(self.entries@)
    }
}

impl<V> StringMap<V> {
    #[verifier::type_invariant]
    spec fn keys_are_distinct(self) -> bool {
        distinct_keys(self.entries@)
    }

    /// The empty map.
    pub fn new() -> (r: Self)
        ensures
            r@ == Map::<Seq<char>, V>::empty(),
    {
        let entries: Vec<(String, V)> = Vec::new();
        assert(entry_map(entries@) =~= Map::<Seq<char>, V>::empty());
        StringMap { entries }
    }

    /// The position of the entry with the key `key`, or the number of entries.
    fn position(&self, key: &str) -> (r: usize)
        ensures
            r <= self.entries@.len(),
            r < self.entries@.len() ==> self.entries@[r as int].0@ == key@,
            r < self.entries@.len() <==> has_key(self.entries@, key@),
    {
        let mut i: usize = 0;
        while i < self.entries.len()
            invariant
                i <= self.entries@.len(),
                forall|j: int| 0 <= j < i ==> (#[trigger] self.entries@[j]).0@ != key@,
            decreases self.entries@.len() - i,
        {
            if text::same_text(self.entries[i].0.as_str(), key) {
                return i;
            }
            i += 1;
        }
        i
    }

    /// The value stored under `key`.
    pub fn get(&self, key: &str) -> (r: Option<&V>)
        ensures
            match r {
                Some(v) => self@.contains_key(key@) && *v == self@[key@],
                None => !self@.contains_key(key@),
            },
    {
        proof {
            use_type_invariant(self);
        }
        let i: usize = self.position(key);
        if i < self.entries.len() {
            proof {
                lemma_entry(self.entries@, i as int);
            }
            Some(&self.entries[i].1)
        } else {
            None
        }
    }

    /// Whether a value is stored under `key`.
    pub fn contains_key(&self, key: &str) -> (r: bool)
        ensures
            r == self@.contains_key(key@),
    {
        self.position(key) < self.entries.len()
    }

    /// Removes the entry with the key `key` and returns its value.
    pub fn remove(&mut self, key: &str) -> (r: Option<V>)
        ensures
            final(self)@ == old(self)@.remove(key@),
            r == (if old(self)@.contains_key(key@) {
                Some(old(self)@[key@])
            } else {
                None
            }),
    {
        proof {
            use_type_invariant(&*self);
        }
        let i: usize = self.position(key);
        if i < self.entries.len() {
            proof {
                lemma_entry(self.entries@, i as int);
                lemma_removed(self.entries@, i as int);
            }
            let mut entries: Vec<(String, V)> = Vec::new();
            std::mem::swap(&mut entries, &mut self.entries);
            let (_, value) = entries.remove(i);
            self.entries = entries;
            Some(value)
        } else {
            assert(self@.remove(key@) =~= self@);
            None
        }
    }

    /// Stores `value` under `key`, in place of what was there.
    pub fn insert(&mut self, key: String, value: V)
        ensures
            final(self)@ == old(self)@.insert(key@, value),
    {
        let _ = self.remove(key.as_str());
        proof {
            use_type_invariant(&*self);
            assert(!self@.contains_key(key@));
            lemma_pushed(self.entries@, key, value);
        }
        let ghost without = self@;
        let mut entries: Vec<(String, V)> = Vec::new();
        std::mem::swap(&mut entries, &mut self.entries);
        entries.push((key, value));
        self.entries = entries;
        assert(without.insert(key@, value) =~= old(self)@.insert(key@, value));
    }

    /// Removes every entry.
    pub fn clear(&mut self)
        ensures
            final(self)@ == Map::<Seq<char>, V>::empty(),
    {
        self.entries = Vec::new();
        assert(self@ =~= Map::<Seq<char>, V>::empty());
    }

    /// The number of entries.
    pub fn len(&self) -> (r: usize)
        ensures
            self@.dom().finite(),
            r == self@.dom().len(),
    {
        proof {
            use_type_invariant(self);
            lemma_keys(self.entries@);
        }
        self.entries.len()
    }

    /// Whether there is no entry.
    pub fn is_empty(&self) -> (r: bool)
        ensures
            r == (self@ == Map::<Seq<char>, V>::empty()),
    {
        proof {
            if self.entries@.len() > 0 {
                assert(self.entries@[0].0@ == self.entries@[0].0@);
                assert(has_key(self.entries@, self.entries@[0].0@));
                assert(self@.contains_key(self.entries@[0].0@));
            } else {
                assert(self@ =~= Map::<Seq<char>, V>::empty());
            }
        }
        self.entries.len() == 0
    }

    /// The keys, each once.
    pub fn keys(&self) -> (r: Vec<String>)
        ensures
            r@.map_values(|k: String| k@).no_duplicates(),
            r@.map_values(|k: String| k@).to_set() == self@.dom(),
            forall|i: int| 0 <= i < r@.len() ==> self@.contains_key((#[trigger] r@[i])@),
            forall|k: Seq<char>|
                self@.contains_key(k) ==> exists|i: int|
                    0 <= i < r@.len() && (#[trigger] r@[i])@ == k,
    {
        proof {
            use_type_invariant(self);
            lemma_keys(self.entries@);
        }
        let mut r: Vec<String> = Vec::new();
        let mut i: usize = 0;
        while i < self.entries.len()
            invariant
                i <= self.entries@.len(),
                r@.len() == i,
                forall|j: int| 0 <= j < i ==> (#[trigger] r@[j])@ == self.entries@[j].0@,
            decreases self.entries@.len() - i,
        {
            r.push(self.entries[i].0.clone());
            i += 1;
        }
        proof {
            assert(r@.map_values(|k: String| k@) =~= self.entries@.map_values(
                |e: (String, V)| e.0@,
            ));
            assert forall|j: int| 0 <= j < r@.len() implies self@.contains_key((#[trigger] r@[j])@)
                by {
                lemma_entry(self.entries@, j);
            }
            assert forall|k: Seq<char>| self@.contains_key(k) implies exists|j: int|
                0 <= j < r@.len() && (#[trigger] r@[j])@ == k by {
                let j = key_index(self.entries@, k);
                assert(r@[j]@ == k);
            }
        }
        r
    }

    /// The value whose key comes first in the order of strings.
    pub fn first_value(&self) -> (r: Option<&V>)
        ensures
            match r {
                Some(v) => exists|k: Seq<char>|
                    #[trigger] is_first_key(self@, k) && *v == self@[k],
                None => self@ == Map::<Seq<char>, V>::empty(),
            },
    {
        if self.is_empty() {
            return None;
        }
        proof {
            use_type_invariant(self);
        }
        let mut best: usize = 0;
        let mut i: usize = 1;
        assert(self.entries@.len() > 0) by {
            if self.entries@.len() == 0 {
                assert(self@ =~= Map::<Seq<char>, V>::empty());
            }
        }
        proof {
            text::law_text_order_is_total(self.entries@[0].0@, self.entries@[0].0@);
        }
        while i < self.entries.len()
            invariant
                1 <= i <= self.entries@.len(),
                best < i,
                forall|j: int|
                    0 <= j < i ==> !text::text_less(
                        (#[trigger] self.entries@[j]).0@,
                        self.entries@[best as int].0@,
                    ),
            decreases self.entries@.len() - i,
        {
            if text::comes_before(self.entries[i].0.as_str(), self.entries[best].0.as_str()) {
                proof {
                    let new = self.entries@[i as int].0@;
                    let old_best = self.entries@[best as int].0@;
                    text::law_text_order_is_total(new, new);
                    assert forall|j: int| 0 <= j < i implies !text::text_less(
                        (#[trigger] self.entries@[j]).0@,
                        new,
                    ) by {
                        if text::text_less(self.entries@[j].0@, new) {
                            text::lemma_bytes_less_transitive(
                                vstd::utf8::encode_utf8(self.entries@[j].0@),
                                vstd::utf8::encode_utf8(new),
                                vstd::utf8::encode_utf8(old_best),
                            );
                        }
                    }
                }
                best = i;
            }
            i += 1;
        }
        proof {
            let k = self.entries@[best as int].0@;
            lemma_entry(self.entries@, best as int);
            assert forall|other: Seq<char>| self@.contains_key(other) implies !text::text_less(
                other,
                k,
            ) by {
                let j = key_index(self.entries@, other);
                assert(self.entries@[j].0@ == other);
            }
            assert(is_first_key(self@, k));
        }
        Some(&self.entries[best].1)
    }
}

/// `k` is the key of `m` that comes first in the order of strings.
pub open spec fn is_first_key<V>(m: Map<Seq<char>, V>, k: Seq<char>) -> bool {
    m.contains_key(k) && forall|other: Seq<char>| m.contains_key(other) ==> !text::text_less(other, k)
}

/// A map has one first key at most.
pub proof fn lemma_first_key_unique<V>(m: Map<Seq<char>, V>, a: Seq<char>, b: Seq<char>)
    requires
        is_first_key(m, a),
        is_first_key(m, b),
    ensures
        a == b,
{
    text::law_text_order_is_total(a, b);
}

/// A map that holds some key has a first one.
pub proof fn law_some_key_comes_first<V>(m: Map<Seq<char>, V>, some: Seq<char>)
    requires
        m.dom().finite(),
        m.contains_key(some),
    ensures
        exists|k: Seq<char>| #[trigger] is_first_key(m, k),
    decreases m.dom().len(),
{
    let rest = m.remove(some);
    assert(rest.dom() =~= m.dom().remove(some));
    text::law_text_order_is_total(some, some);
    if rest.dom().len() == 0 {
        assert(rest.dom() =~= Set::empty());
        assert forall|other: Seq<char>| m.contains_key(other) implies !text::text_less(
            other,
            some,
        ) by {
            if other != some {
                assert(rest.dom().contains(other));
            }
        }
        assert(is_first_key(m, some));
    } else {
        let another = rest.dom().choose();
        assert(rest.contains_key(another));
        law_some_key_comes_first(rest, another);
        let first = choose|k: Seq<char>| #[trigger] is_first_key(rest, k);
        assert(is_first_key(rest, first));
        let best = if text::text_less(some, first) {
            some
        } else {
            first
        };
        assert forall|other: Seq<char>| m.contains_key(other) implies !text::text_less(
            other,
            best,
        ) by {
            if other != some {
                assert(rest.contains_key(other));
                assert(!text::text_less(other, first));
                if best == some && text::text_less(other, some) {
                    text::lemma_bytes_less_transitive(
                        vstd::utf8::encode_utf8(other),
                        vstd::utf8::encode_utf8(some),
                        vstd::utf8::encode_utf8(first),
                    );
                }
            }
        }
        assert(is_first_key(m, best));
    }
}

/// A set of strings.
#[derive(Debug)]
pub struct StringSet {
    members: StringMap<()>,
}

impl View for StringSet {
    type V = Set<Seq<char>>;

    closed spec fn view(&self) -> Set<Seq<char>> {
        self.members@.dom()
    }
}

impl StringSet {
    /// The empty set.
    pub fn new() -> (r: Self)
        ensures
            r@ == Set::<Seq<char>>::empty(),
    {
        let r = StringSet { members: StringMap::new() };
        assert(r@ =~= Set::<Seq<char>>::empty());
        r
    }

    /// The set of the given strings.
    pub fn from_vec(items: Vec<String>) -> (r: Self)
        ensures
            r@ == items@.map_values(|s: String| s@).to_set(),
    {
        let mut r = StringSet::new();
        let mut i: usize = 0;
        let ghost texts = items@.map_values(|s: String| s@);
        assert(texts.take(0).to_set() =~= Set::<Seq<char>>::empty());
        while i < items.len()
            invariant
                i <= items@.len(),
                texts == items@.map_values(|s: String| s@),
                r@ == texts.take(i as int).to_set(),
            decreases items@.len() - i,
        {
            let _ = r.insert(items[i].clone());
            proof {
                let next = texts.take(i + 1);
                assert(next == texts.take(i as int).push(texts[i as int]));
                assert forall|k: Seq<char>| next.contains(k) == (texts.take(i as int).contains(k)
                    || k == texts[i as int]) by {
                    if texts.take(i as int).contains(k) {
                        let j = texts.take(i as int).index_of(k);
                        assert(next[j] == k);
                    }
                    if k == texts[i as int] {
                        assert(next[i as int] == k);
                    }
                    if next.contains(k) {
                        let j = next.index_of(k);
                        if j < i {
                            assert(texts.take(i as int)[j] == k);
                        }
                    }
                }
                assert(next.to_set() =~= texts.take(i as int).to_set().insert(texts[i as int]));
            }
            i += 1;
        }
        assert(texts.take(texts.len() as int) == texts);
        r
    }

    /// Whether `item` is a member.
    pub fn contains(&self, item: &str) -> (r: bool)
        ensures
            r == self@.contains(item@),
    {
        self.members.contains_key(item)
    }

    /// Adds `item`; the result tells whether it was not a member before.
    pub fn insert(&mut self, item: String) -> (r: bool)
        ensures
            final(self)@ == old(self)@.insert(item@),
            r == !old(self)@.contains(item@),
    {
        if self.members.contains_key(item.as_str()) {
            assert(self@.insert(item@) =~= self@);
            false
        } else {
            self.members.insert(item, ());
            assert(self@ =~= old(self)@.insert(item@));
            true
        }
    }

    /// Removes `item`; the result tells whether it was a member.
    pub fn remove(&mut self, item: &str) -> (r: bool)
        ensures
            final(self)@ == old(self)@.remove(item@),
            r == old(self)@.contains(item@),
    {
        let r: bool = self.members.remove(item).is_some();
        assert(self@ =~= old(self)@.remove(item@));
        r
    }

    /// Removes every member.
    pub fn clear(&mut self)
        ensures
            final(self)@ == Set::<Seq<char>>::empty(),
    {
        self.members.clear();
        assert(self@ =~= Set::<Seq<char>>::empty());
    }

    /// Whether there is no member.
    pub fn is_empty(&self) -> (r: bool)
        ensures
            r == (self@ == Set::<Seq<char>>::empty()),
    {
        let r: bool = self.members.is_empty();
        proof {
            if r {
                assert(self@ =~= Set::<Seq<char>>::empty());
            } else if self@ == Set::<Seq<char>>::empty() {
                assert(self.members@ =~= Map::<Seq<char>, ()>::empty());
            }
        }
        r
    }

    /// The members, each once.
    pub fn to_vec(&self) -> (r: Vec<String>)
        ensures
            r@.map_values(|k: String| k@).no_duplicates(),
            r@.map_values(|k: String| k@).to_set() == self@,
    {
        self.members.keys()
    }
}

} // verus!
