//! A map from names to values that remembers the order in which its names
//! were first inserted.

use vstd::prelude::*;
use crate::text::{str_eq, texts};

verus! {

/// A map keyed by strings. No name occurs twice; the names keep the order of
/// their first insertion, and inserting under a known name replaces the value
/// in place.
#[derive(Debug)]
pub struct NameMap<V> {
    entries: Vec<(String, V)>,
}

/// The names of a sequence of entries, in order.
pub open spec fn entry_names<V>(entries: Seq<(String, V)>) -> Seq<Seq<char>> {
    entries.map_values(|e: (String, V)| e.0@)
}

/// The map of character sequences that a map of strings stands for.
pub open spec fn text_map(m: Map<Seq<char>, String>) -> Map<Seq<char>, Seq<char>> {
    m.map_values(|s: String| s@)
}

/// The map that a sequence of keyed entries builds when each entry in turn is
/// stored under its key: a key stands for the value of the last entry that
/// has it.
pub open spec fn collected<V>(entries: Seq<(Seq<char>, V)>) -> Map<Seq<char>, V>
    decreases entries.len(),
{
    if entries.len() == 0 {
        Map::empty()
    } else {
        collected(entries.drop_last()).insert(entries.last().0, entries.last().1)
    }
}

/// The keys of a sequence of keyed entries, in order.
pub open spec fn entry_keys<V>(entries: Seq<(Seq<char>, V)>) -> Seq<Seq<char>> {
    entries.map_values(|e: (Seq<char>, V)| e.0)
}

/// The distinct keys of a sequence, each at the place of its first occurrence.
pub open spec fn first_seen(keys: Seq<Seq<char>>) -> Seq<Seq<char>>
    decreases keys.len(),
{
    if keys.len() == 0 {
        Seq::empty()
    } else if first_seen(keys.drop_last()).contains(keys.last()) {
        first_seen(keys.drop_last())
    } else {
        first_seen(keys.drop_last()).push(keys.last())
    }
}

/// The keys of a sequence that occurred before: one for every occurrence of a
/// key after its first, in order.
pub open spec fn repeated(keys: Seq<Seq<char>>) -> Seq<Seq<char>>
    decreases keys.len(),
{
    if keys.len() == 0 {
        Seq::empty()
    } else if first_seen(keys.drop_last()).contains(keys.last()) {
        repeated(keys.drop_last()).push(keys.last())
    } else {
        repeated(keys.drop_last())
    }
}

/// What the values of a map hold, key by key.
pub open spec fn value_views<V: View>(m: Map<Seq<char>, V>) -> Map<Seq<char>, V::V> {
    m.map_values(|value: V| value@)
}

/// Whether a map and a list of repeated keys are what a sequence of keyed
/// entries builds: the map holds the last entry under every key, its keys
/// stand in the order of their first occurrence, and the list holds one key
/// for every occurrence of a key after its first.
pub open spec fn gathers<V: View>(
    m: NameMap<V>,
    repeats: Seq<String>,
    entries: Seq<(Seq<char>, V::V)>,
) -> bool {
    &&& value_views(m@) == collected(entries)
    &&& m.key_seq() == first_seen(entry_keys(entries))
    &&& texts(repeats) == repeated(entry_keys(entries))
}

/// `first_seen` keeps every key of a sequence, each once.
pub proof fn lemma_first_seen(keys: Seq<Seq<char>>)
    ensures
        first_seen(keys).no_duplicates(),
        forall|k: Seq<char>|
            #![trigger first_seen(keys).contains(k)]
            #![trigger keys.contains(k)]
            first_seen(keys).contains(k) <==> keys.contains(k),
    decreases keys.len(),
{
    if keys.len() > 0 {
        let front = keys.drop_last();
        let last = keys.last();
        lemma_first_seen(front);
        assert(keys =~= front.push(last));
        assert forall|k: Seq<char>|
            #![trigger first_seen(keys).contains(k)]
            #![trigger keys.contains(k)]
            first_seen(keys).contains(k) <==> keys.contains(k) by {
            if keys.contains(k) {
                let i = choose|i: int| 0 <= i < keys.len() && keys[i] == k;
                if i < front.len() {
                    assert(front[i] == k);
                    assert(front.contains(k));
                    let j = choose|j: int|
                        0 <= j < first_seen(front).len() && first_seen(front)[j] == k;
                    assert(first_seen(keys)[j] == k);
                } else {
                    if !first_seen(front).contains(last) {
                        assert(first_seen(keys)[first_seen(front).len() as int] == k);
                    }
                }
            }
            if first_seen(keys).contains(k) {
                let j = choose|j: int| 0 <= j < first_seen(keys).len() && first_seen(keys)[j] == k;
                if j < first_seen(front).len() {
                    assert(first_seen(front)[j] == k);
                    assert(first_seen(front).contains(k));
                    let i = choose|i: int| 0 <= i < front.len() && front[i] == k;
                    assert(keys[i] == k);
                } else {
                    assert(keys[keys.len() - 1] == k);
                }
            }
        }
    }
}

/// A sequence of distinct keys is its own `first_seen`, and none of its keys
/// is repeated.
pub proof fn lemma_first_seen_of_distinct(keys: Seq<Seq<char>>)
    requires
        keys.no_duplicates(),
    ensures
        first_seen(keys) == keys,
        repeated(keys) == Seq::<Seq<char>>::empty(),
    decreases keys.len(),
{
    if keys.len() > 0 {
        let front = keys.drop_last();
        lemma_first_seen_of_distinct(front);
        if front.contains(keys.last()) {
            let i = choose|i: int| 0 <= i < front.len() && front[i] == keys.last();
            assert(keys[i] == keys[keys.len() - 1]);
        }
        assert(keys =~= front.push(keys.last()));
    } else {
        assert(first_seen(keys) =~= keys);
    }
}

/// The map that a sequence of entries builds holds exactly the keys of the
/// entries, each with the value of one of the entries that have the key.
pub proof fn lemma_collected<V>(entries: Seq<(Seq<char>, V)>)
    ensures
        forall|k: Seq<char>| #[trigger]
            collected(entries).contains_key(k) <==> entry_keys(entries).contains(k),
        forall|k: Seq<char>| #[trigger]
            collected(entries).contains_key(k) ==> entries.contains((k, collected(entries)[k])),
    decreases entries.len(),
{
    if entries.len() > 0 {
        let front = entries.drop_last();
        let last = entries.last();
        lemma_collected(front);
        assert(entries =~= front.push(last));
        assert forall|k: Seq<char>| #[trigger]
            collected(entries).contains_key(k) <==> entry_keys(entries).contains(k) by {
            if entry_keys(entries).contains(k) {
                let i = choose|i: int| 0 <= i < entries.len() && entry_keys(entries)[i] == k;
                if i < front.len() {
                    assert(entry_keys(front)[i] == k);
                    assert(entry_keys(front).contains(k));
                }
            }
            if collected(entries).contains_key(k) {
                if k == last.0 {
                    assert(entry_keys(entries)[entries.len() - 1] == k);
                } else {
                    assert(collected(front).contains_key(k));
                    let i = choose|i: int| 0 <= i < front.len() && entry_keys(front)[i] == k;
                    assert(entry_keys(entries)[i] == k);
                }
            }
        }
        assert forall|k: Seq<char>| #[trigger]
            collected(entries).contains_key(k) implies entries.contains(
            (k, collected(entries)[k]),
        ) by {
            if k == last.0 {
                assert(entries[entries.len() - 1] == (k, collected(entries)[k]));
            } else {
                assert(collected(front).contains_key(k));
                let e = (k, collected(front)[k]);
                let i = choose|i: int| 0 <= i < front.len() && front[i] == e;
                assert(entries[i] == e);
            }
        }
    } else {
        assert forall|k: Seq<char>| !entry_keys(entries).contains(k) by {}
    }
}

/// Two sequences of entries that hold the same entries, no two of them under
/// one key, build the same map, whatever their order.
pub proof fn lemma_collected_ignores_order<V>(a: Seq<(Seq<char>, V)>, b: Seq<(Seq<char>, V)>)
    requires
        forall|e: (Seq<char>, V)| a.contains(e) <==> b.contains(e),
        entry_keys(a).no_duplicates(),
    ensures
        collected(a) == collected(b),
{
    lemma_collected(a);
    lemma_collected(b);
    assert forall|k: Seq<char>| collected(a).contains_key(k) <==> collected(b).contains_key(
        k,
    ) by {
        if collected(a).contains_key(k) {
            let e = (k, collected(a)[k]);
            assert(b.contains(e));
            let j = choose|j: int| 0 <= j < b.len() && b[j] == e;
            assert(entry_keys(b)[j] == k);
        }
        if collected(b).contains_key(k) {
            let e = (k, collected(b)[k]);
            assert(a.contains(e));
            let j = choose|j: int| 0 <= j < a.len() && a[j] == e;
            assert(entry_keys(a)[j] == k);
        }
    }
    assert forall|k: Seq<char>| collected(a).contains_key(k) implies collected(a)[k] == collected(
        b,
    )[k] by {
        let ea = (k, collected(a)[k]);
        let eb = (k, collected(b)[k]);
        assert(collected(b).contains_key(k));
        assert(a.contains(ea));
        assert(b.contains(eb));
        assert(a.contains(eb));
        let i = choose|i: int| 0 <= i < a.len() && a[i] == ea;
        let j = choose|j: int| 0 <= j < a.len() && a[j] == eb;
        assert(entry_keys(a)[i] == k);
        assert(entry_keys(a)[j] == k);
    }
    assert(collected(a) =~= collected(b));
}

impl<V> View for NameMap<V> {
    type V = Map<Seq<char>, V>;

    closed spec fn view(&self) -> Map<Seq<char>, V> {
        Map::new(
            |k: Seq<char>| self.key_seq().contains(k),
            |k: Seq<char>| self.entries@[self.key_seq().index_of(k)].1,
        )
    }
}

impl<V> NameMap<V> {
    #[verifier::type_invariant]
    spec fn inv(self) -> bool {
        entry_names(self.entries@).no_duplicates()
    }

    /// The names of the map in the order of their first insertion.
    pub closed spec fn key_seq(&self) -> Seq<Seq<char>> {
        entry_names(self.entries@)
    }

    /// The values of the map in the order of `key_seq`.
    pub closed spec fn value_seq(&self) -> Seq<V> {
        self.entries@.map_values(|e: (String, V)| e.1)
    }

    /// How the ordered names and values relate to the map they stand for.
    pub open spec fn ordered(&self) -> bool {
        &&& self.key_seq().no_duplicates()
        &&& self.key_seq().len() == self.value_seq().len()
        &&& self@.dom() == self.key_seq().to_set()
        &&& forall|i: int|
            0 <= i < self.key_seq().len() ==> self@[#[trigger] self.key_seq()[i]]
                == self.value_seq()[i]
    }

    proof fn lemma_ordered(&self)
        requires
            self.inv(),
        ensures
            self.ordered(),
    {
        let keys = self.key_seq();
        assert(self@.dom() =~= keys.to_set());
        assert forall|i: int| 0 <= i < keys.len() implies self@[#[trigger] keys[i]]
            == self.value_seq()[i] by {
            assert(keys.contains(keys[i]));
            let j = keys.index_of(keys[i]);
            assert(keys[j] == keys[i]);
        }
    }

    /// An empty map.
    pub fn new() -> (m: Self)
        ensures
            m@ == Map::<Seq<char>, V>::empty(),
            m.key_seq() == Seq::<Seq<char>>::empty(),
            m.ordered(),
    {
        let m = NameMap { entries: Vec::new() };
        proof {
            m.lemma_ordered();
            assert(m@ =~= Map::<Seq<char>, V>::empty());
        }
        m
    }

    /// The number of names in the map.
    pub fn len(&self) -> (n: usize)
        ensures
            n == self.key_seq().len(),
            n == self@.len(),
            self.ordered(),
    {
        proof {
            use_type_invariant(self);
            self.lemma_ordered();
            self.key_seq().unique_seq_to_set();
        }
        self.entries.len()
    }

    /// Whether the map holds no name.
    pub fn is_empty(&self) -> (b: bool)
        ensures
            b == (self.key_seq().len() == 0),
            b == (self@.len() == 0),
    {
        self.len() == 0
    }

    /// The place of `key` among the names, if the map holds it.
    pub fn position(&self, key: &str) -> (found: Option<usize>)
        ensures
            self.ordered(),
            match found {
                Some(i) => i < self.key_seq().len() && self.key_seq()[i as int] == key@,
                None => !self@.contains_key(key@),
            },
    {
        proof {
            use_type_invariant(self);
            self.lemma_ordered();
        }
        let mut i: usize = 0;
        while i < self.entries.len()
            invariant
                i <= self.entries.len(),
                self.ordered(),
                forall|j: int| 0 <= j < i ==> self.key_seq()[j] != key@,
            decreases self.entries.len() - i,
        {
            if str_eq(self.entries[i].0.as_str(), key) {
                return Some(i);
            }
            i += 1;
        }
        None
    }

    /// Whether the map holds `key`.
    pub fn contains_key(&self, key: &str) -> (b: bool)
        ensures
            b == self@.contains_key(key@),
            b == self.key_seq().contains(key@),
    {
        let found = self.position(key);
        proof {
            if let Some(i) = found {
                assert(self.key_seq().contains(key@));
            }
        }
        found.is_some()
    }

    /// The value stored under `key`.
    pub fn get(&self, key: &str) -> (found: Option<&V>)
        ensures
            match found {
                Some(v) => self@.contains_key(key@) && *v == self@[key@],
                None => !self@.contains_key(key@),
            },
    {
        match self.position(key) {
            Some(i) => {
                proof {
                    assert(self.key_seq().contains(key@));
                    assert(self@[self.key_seq()[i as int]] == self.value_seq()[i as int]);
                }
                Some(&self.entries[i].1)
            },
            None => None,
        }
    }

    /// The name at place `i`.
    pub fn key_at(&self, i: usize) -> (key: &String)
        requires
            i < self.key_seq().len(),
        ensures
            key@ == self.key_seq()[i as int],
    {
        &self.entries[i].0
    }

    /// The value at place `i`.
    pub fn value_at(&self, i: usize) -> (value: &V)
        requires
            i < self.key_seq().len(),
        ensures
            *value == self.value_seq()[i as int],
            self.ordered(),
            *value == self@[self.key_seq()[i as int]],
    {
        proof {
            use_type_invariant(self);
            self.lemma_ordered();
        }
        &self.entries[i].1
    }

    /// Stores `value` under `key`. A value already stored under `key` is
    /// replaced and the name keeps its place; a new name goes to the end.
    pub fn insert(&mut self, key: String, value: V)
        ensures
            final(self)@ == old(self)@.insert(key@, value),
            final(self).key_seq() == if old(self)@.contains_key(key@) {
                old(self).key_seq()
            } else {
                old(self).key_seq().push(key@)
            },
            final(self).ordered(),
    {
        proof {
            use_type_invariant(&*self);
            self.lemma_ordered();
        }
        let ghost before = *self;
        let found = self.position(key.as_str());
        let mut entries: Vec<(String, V)> = Vec::new();
        core::mem::swap(&mut self.entries, &mut entries);
        match found {
            Some(i) => {
                entries.set(i, (key, value));
                assert(entry_names(entries@) =~= entry_names(before.entries@));
                self.entries = entries;
                proof {
                    self.lemma_ordered();
                    assert(self@ =~= before@.insert(key@, value)) by {
                        assert forall|k: Seq<char>|
                            self@.contains_key(k) implies #[trigger] self@[k]
                            == before@.insert(key@, value)[k] by {
                            let j = self.key_seq().index_of(k);
                            assert(self.key_seq()[j] == k);
                            assert(before@[before.key_seq()[j]] == before.value_seq()[j]);
                        }
                    }
                }
            },
            None => {
                entries.push((key, value));
                assert(entry_names(entries@) =~= entry_names(before.entries@).push(key@));
                assert(!before.key_seq().contains(key@));
                self.entries = entries;
                proof {
                    self.lemma_ordered();
                    assert(self@ =~= before@.insert(key@, value)) by {
                        assert forall|k: Seq<char>|
                            self@.contains_key(k) implies #[trigger] self@[k]
                            == before@.insert(key@, value)[k] by {
                            let j = self.key_seq().index_of(k);
                            assert(self.key_seq()[j] == k);
                            if j < before.key_seq().len() {
                                assert(before.key_seq()[j] == k);
                                assert(before@[before.key_seq()[j]] == before.value_seq()[j]);
                            }
                        }
                        assert forall|k: Seq<char>|
                            before@.insert(key@, value).contains_key(k) implies self@.contains_key(
                            k,
                        ) by {
                            if k != key@ {
                                let j = before.key_seq().index_of(k);
                                assert(self.key_seq()[j] == k);
                            } else {
                                assert(self.key_seq()[before.key_seq().len() as int] == k);
                            }
                        }
                    }
                }
            },
        }
    }
}

impl<V: Clone> Clone for NameMap<V> {
    /// A map with the same names in the same order, each with a clone of its
    /// value.
    fn clone(&self) -> (out: Self)
        ensures
            out.key_seq() == self.key_seq(),
            out.value_seq().len() == self.value_seq().len(),
            forall|i: int|
                0 <= i < self.value_seq().len() ==> cloned(
                    #[trigger] self.value_seq()[i],
                    out.value_seq()[i],
                ),
    {
        proof {
            use_type_invariant(self);
        }
        let mut entries: Vec<(String, V)> = Vec::new();
        let mut i: usize = 0;
        while i < self.entries.len()
            invariant
                i <= self.entries.len(),
                entries.len() == i,
                entry_names(entries@) == entry_names(self.entries@.take(i as int)),
                forall|j: int|
                    0 <= j < i ==> cloned(#[trigger] self.entries@[j].1, entries@[j].1),
            decreases self.entries.len() - i,
        {
            let ghost before = entries@;
            let key = self.entries[i].0.clone();
            let value = self.entries[i].1.clone();
            entries.push((key, value));
            proof {
                assert(entry_names(entries@) =~= entry_names(before).push(key@));
                assert(self.entries@.take(i + 1) =~= self.entries@.take(i as int).push(
                    self.entries@[i as int],
                ));
                assert(entry_names(self.entries@.take(i + 1)) =~= entry_names(
                    self.entries@.take(i as int),
                ).push(self.entries@[i as int].0@));
            }
            i += 1;
        }
        assert(self.entries@.take(self.entries.len() as int) =~= self.entries@);
        NameMap { entries }
    }
}

/// A copy of a map of strings: the same names in the same order, each with the
/// same text.
pub fn clone_text_map(m: &NameMap<String>) -> (out: NameMap<String>)
    ensures
        text_map(out@) == text_map(m@),
        out.key_seq() == m.key_seq(),
{
    let mut out: NameMap<String> = NameMap::new();
    let n: usize = m.len();
    let mut i: usize = 0;
    while i < n
        invariant
            i <= n,
            n == m.key_seq().len(),
            m.ordered(),
            out.ordered(),
            out.key_seq() == m.key_seq().take(i as int),
            forall|j: int| 0 <= j < i ==> out@[m.key_seq()[j]]@ == m@[m.key_seq()[j]]@,
        decreases n - i,
    {
        let key = m.key_at(i).clone();
        let value = m.value_at(i).clone();
        proof {
            assert(!out@.contains_key(key@)) by {
                if out.key_seq().contains(key@) {
                    let j = out.key_seq().index_of(key@);
                    assert(m.key_seq()[j] == m.key_seq()[i as int]);
                }
            }
        }
        out.insert(key, value);
        assert(out.key_seq() =~= m.key_seq().take(i + 1));
        i += 1;
    }
    proof {
        assert(m.key_seq().take(n as int) =~= m.key_seq());
        assert(out@.dom() =~= m@.dom());
        assert forall|k: Seq<char>| m@.contains_key(k) implies out@[k]@ == m@[k]@ by {
            let j = m.key_seq().index_of(k);
            assert(m.key_seq()[j] == k);
        }
        assert(text_map(out@) =~= text_map(m@));
    }
    out
}

/// Stores one entry under its key and notes the key if it was there before.
pub(crate) fn store<V: View>(
    m: &mut NameMap<V>,
    repeats: &mut Vec<String>,
    key: String,
    value: V,
    Ghost(entries): Ghost<Seq<(Seq<char>, V::V)>>,
)
    requires
        gathers(*old(m), old(repeats)@, entries),
    ensures
        gathers(*final(m), final(repeats)@, entries.push((key@, value@))),
{
    let ghost before = *m;
    let ghost noted = repeats@;
    let ghost next = entries.push((key@, value@));
    let known = m.contains_key(key.as_str());
    proof {
        assert(next.drop_last() =~= entries);
        assert(entry_keys(next).drop_last() =~= entry_keys(entries));
        assert(entry_keys(next).last() == key@);
    }
    if known {
        let copy = key.clone();
        repeats.push(copy);
        assert(texts(repeats@) =~= texts(noted).push(key@));
    }
    m.insert(key, value);
    assert(value_views(m@) =~= value_views(before@).insert(key@, value@));
}

} // verus!
