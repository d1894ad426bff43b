//! Sets of ids and maps keyed by id, as the explorer keeps them for
//! expansion, loading state, errors and loaded comments.

use vstd::prelude::*;

use crate::text::str_eq;

verus! {

/// A set of ids.
#[derive(Debug, Clone)]
pub struct IdSet {
    pub items: Vec<String>,
}

/// Whether a text is other than `id`.
pub open spec fn not_id(id: Seq<char>) -> spec_fn(String) -> bool {
    |s: String| s@ != id
}

/// Whether an entry's key is other than `id`.
pub open spec fn not_key<V>(id: Seq<char>) -> spec_fn((String, V)) -> bool {
    |e: (String, V)| e.0@ != id
}

/// The ids held by `items`.
pub open spec fn id_set(items: Seq<String>) -> Set<Seq<char>>
    decreases items.len(),
{
    if items.len() == 0 {
        Set::empty()
    } else {
        id_set(items.drop_last()).insert(items.last()@)
    }
}

proof fn lemma_id_set_contains(items: Seq<String>, x: Seq<char>)
    ensures
        id_set(items).contains(x) <==> exists|i: int| 0 <= i < items.len() && (#[trigger] items[i])@ == x,
    decreases items.len(),
{
    if items.len() > 0 {
        lemma_id_set_contains(items.drop_last(), x);
        if id_set(items.drop_last()).contains(x) {
            let i = choose|i: int| 0 <= i < items.drop_last().len() && (#[trigger] items.drop_last()[i])@ == x;
            assert(items[i] == items.drop_last()[i]);
        }
        if exists|i: int| 0 <= i < items.len() && (#[trigger] items[i])@ == x {
            let i = choose|i: int| 0 <= i < items.len() && (#[trigger] items[i])@ == x;
            if i < items.len() - 1 {
                assert(items.drop_last()[i] == items[i]);
            }
        }
    }
}

proof fn lemma_id_set_filter(items: Seq<String>, id: Seq<char>)
    ensures
        id_set(items.filter(not_id(id))) == id_set(items).remove(id),
    decreases items.len(),
{
    reveal(Seq::filter);
    if items.len() == 0 {
        assert(id_set(items).remove(id) =~= Set::empty());
    } else {
        lemma_id_set_filter(items.drop_last(), id);
        if items.last()@ != id {
            assert(items.filter(not_id(id)).drop_last() =~= items.drop_last().filter(
                not_id(id),
            ));
        }
        assert(id_set(items.filter(not_id(id))) =~= id_set(items).remove(id));
    }
}

impl View for IdSet {
    type V = Set<Seq<char>>;

    open spec fn view(&self) -> Set<Seq<char>> {
        id_set(self.items@)
    }
}

impl IdSet {
    /// The empty set.
    pub fn new() -> (r: Self)
        ensures
            r@ == Set::<Seq<char>>::empty(),
    {
        IdSet { items: Vec::new() }
    }

    /// Whether `id` is in the set.
    pub fn contains(&self, id: &str) -> (r: bool)
        ensures
            r == self@.contains(id@),
    {
        let mut i: usize = 0;
        while i < self.items.len()
            invariant
                i <= self.items.len(),
                forall|j: int| 0 <= j < i ==> (#[trigger] self.items@[j])@ != id@,
            decreases self.items.len() - i,
        {
            if str_eq(self.items[i].as_str(), id) {
                proof {
                    lemma_id_set_contains(self.items@, id@);
                }
                return true;
            }
            i = i + 1;
        }
        proof {
            lemma_id_set_contains(self.items@, id@);
        }
        false
    }

    /// Adds `id`; tells whether it was not there before.
    pub fn insert(&mut self, id: &str) -> (r: bool)
        ensures
            final(self)@ == old(self)@.insert(id@),
            r == !old(self)@.contains(id@),
            !r ==> *final(self) == *old(self),
    {
        if self.contains(id) {
            assert(self@ =~= old(self)@.insert(id@));
            return false;
        }
        let ghost before = self.items@;
        self.items.push(id.to_string());
        assert(self.items@.drop_last() =~= before);
        true
    }

    /// Removes `id`.
    pub fn remove(&mut self, id: &str)
        ensures
            final(self)@ == old(self)@.remove(id@),
    {
        let ghost orig0 = self.items@;
        let mut rest: Vec<String> = Vec::new();
        std::mem::swap(&mut rest, &mut self.items);
        let ghost orig = rest@;
        assert(orig == orig0);
        let mut out: Vec<String> = Vec::new();
        let ghost mut k: int = 0;
        assert(orig.take(0).filter(not_id(id@)) =~= Seq::<String>::empty()) by {
            reveal(Seq::filter);
        }
        while rest.len() > 0
            invariant
                0 <= k <= orig.len(),
                rest@ == orig.skip(k),
                out@ == orig.take(k).filter(not_id(id@)),
            decreases rest.len(),
        {
            let s = rest.remove(0);
            proof {
                reveal(Seq::filter);
                assert(orig.take(k + 1).drop_last() =~= orig.take(k));
                assert(orig.skip(k)[0] == s);
                assert(rest@ =~= orig.skip(k + 1));
            }
            if !str_eq(s.as_str(), id) {
                out.push(s);
            }
            proof {
                k = k + 1;
            }
        }
        assert(orig.take(k) =~= orig);
        proof {
            lemma_id_set_filter(orig, id@);
        }
        self.items = out;
        assert(self@ == id_set(orig.filter(not_id(id@))));
        assert(id_set(orig.filter(not_id(id@))) == id_set(orig).remove(id@));
        assert(old(self)@ == id_set(orig));
    }
}

/// A map from ids to values; a later entry for an id overrides an earlier.
#[derive(Debug, Clone)]
pub struct IdMap<V> {
    pub entries: Vec<(String, V)>,
}

/// The map that `entries` stand for.
pub open spec fn entry_map<V>(entries: Seq<(String, V)>) -> Map<Seq<char>, V>
    decreases entries.len(),
{
    if entries.len() == 0 {
        Map::empty()
    } else {
        entry_map(entries.drop_last()).insert(entries.last().0@, entries.last().1)
    }
}

proof fn lemma_entry_map_filter<V>(entries: Seq<(String, V)>, id: Seq<char>)
    ensures
        entry_map(entries.filter(not_key::<V>(id))) == entry_map(entries).remove(id),
    decreases entries.len(),
{
    reveal(Seq::filter);
    if entries.len() == 0 {
        assert(entry_map(entries).remove(id) =~= Map::empty());
    } else {
        lemma_entry_map_filter(entries.drop_last(), id);
        if entries.last().0@ != id {
            assert(entries.filter(not_key::<V>(id)).drop_last() =~= entries.drop_last().filter(
                not_key::<V>(id),
            ));
        }
        assert(entry_map(entries.filter(not_key::<V>(id))) =~= entry_map(entries).remove(id));
    }
}

/// Entries past `k` that do not mention `id` leave its value as it was.
proof fn lemma_entry_map_suffix<V>(entries: Seq<(String, V)>, id: Seq<char>, k: int)
    requires
        0 <= k <= entries.len(),
        forall|j: int| k <= j < entries.len() ==> (#[trigger] entries[j]).0@ != id,
    ensures
        entry_map(entries).contains_key(id) == entry_map(entries.take(k)).contains_key(id),
        entry_map(entries).contains_key(id) ==> entry_map(entries)[id] == entry_map(entries.take(k))[id],
    decreases entries.len() - k,
{
    if k < entries.len() {
        assert(entries.drop_last().take(k) =~= entries.take(k));
        assert forall|j: int| k <= j < entries.drop_last().len() implies (#[trigger] entries.drop_last()[j]).0@ != id by {
            assert(entries.drop_last()[j] == entries[j]);
        }
        lemma_entry_map_suffix(entries.drop_last(), id, k);
    } else {
        assert(entries.take(k) =~= entries);
    }
}

impl<V> View for IdMap<V> {
    type V = Map<Seq<char>, V>;

    open spec fn view(&self) -> Map<Seq<char>, V> {
        entry_map(self.entries@)
    }
}

impl<V> IdMap<V> {
    /// The empty map.
    pub fn new() -> (r: Self)
        ensures
            r@ == Map::<Seq<char>, V>::empty(),
    {
        IdMap { entries: Vec::new() }
    }

    /// The index of the entry that gives `id` its value.
    fn index_of(&self, id: &str) -> (r: Option<usize>)
        ensures
            match r {
                Some(i) => i < self.entries.len() && self@.contains_key(id@) && self.entries@[i as int].1
                    == self@[id@],
                None => !self@.contains_key(id@),
            },
    {
        let mut i: usize = self.entries.len();
        while i > 0
            invariant
                i <= self.entries.len(),
                forall|j: int| i <= j < self.entries.len() ==> (#[trigger] self.entries@[j]).0@ != id@,
            decreases i,
        {
            if str_eq(self.entries[i - 1].0.as_str(), id) {
                proof {
                    lemma_entry_map_suffix(self.entries@, id@, i as int);
                    assert(self.entries@.take(i as int).drop_last() =~= self.entries@.take(i - 1));
                }
                return Some(i - 1);
            }
            i = i - 1;
        }
        proof {
            lemma_entry_map_suffix(self.entries@, id@, 0);
            assert(self.entries@.take(0) =~= Seq::<(String, V)>::empty());
        }
        None
    }

    /// Whether `id` has a value.
    pub fn contains_key(&self, id: &str) -> (r: bool)
        ensures
            r == self@.contains_key(id@),
    {
        self.index_of(id).is_some()
    }

    /// The value of `id`.
    pub fn get(&self, id: &str) -> (r: Option<&V>)
        ensures
            match r {
                Some(v) => self@.contains_key(id@) && *v == self@[id@],
                None => !self@.contains_key(id@),
            },
    {
        match self.index_of(id) {
            Some(i) => Some(&self.entries[i].1),
            None => None,
        }
    }

    /// Removes the value of `id`.
    pub fn remove(&mut self, id: &str)
        ensures
            final(self)@ == old(self)@.remove(id@),
    {
        let ghost orig0 = self.entries@;
        let mut rest: Vec<(String, V)> = Vec::new();
        std::mem::swap(&mut rest, &mut self.entries);
        let ghost orig = rest@;
        assert(orig == orig0);
        let mut out: Vec<(String, V)> = Vec::new();
        let ghost mut k: int = 0;
        assert(orig.take(0).filter(not_key::<V>(id@)) =~= Seq::<(String, V)>::empty()) by {
            reveal(Seq::filter);
        }
        while rest.len() > 0
            invariant
                0 <= k <= orig.len(),
                rest@ == orig.skip(k),
                out@ == orig.take(k).filter(not_key::<V>(id@)),
            decreases rest.len(),
        {
            let e = rest.remove(0);
            proof {
                reveal(Seq::filter);
                assert(orig.take(k + 1).drop_last() =~= orig.take(k));
                assert(orig.skip(k)[0] == e);
                assert(rest@ =~= orig.skip(k + 1));
            }
            if !str_eq(e.0.as_str(), id) {
                out.push(e);
            }
            proof {
                k = k + 1;
            }
        }
        assert(orig.take(k) =~= orig);
        proof {
            lemma_entry_map_filter(orig, id@);
        }
        self.entries = out;
        assert(self@ == entry_map(orig.filter(not_key::<V>(id@))));
    }

    /// Sets the value of `id`.
    pub fn insert(&mut self, id: String, value: V)
        ensures
            final(self)@ == old(self)@.insert(id@, value),
    {
        let ghost id_v = id@;
        self.remove(id.as_str());
        let ghost before = self.entries@;
        self.entries.push((id, value));
        assert(self.entries@.drop_last() =~= before);
        assert(self@ =~= old(self)@.insert(id_v, value));
    }
}

} // verus!
