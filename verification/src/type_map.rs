//! A map from names to Teal types that keeps each name once, in the order in
//! which names were first inserted.

use vstd::prelude::*;

use crate::syntax::text_is;
use crate::types::{SpecType, Type};

verus! {

/// A map from names to types, held as a list of entries with distinct names.
#[derive(Debug)]
pub struct TypeMap {
    entries: Vec<(String, Type)>,
}

/// The map that a list of entries denotes: a later entry for a name replaces an earlier one.
pub open spec fn entries_map(s: Seq<(String, Type)>) -> Map<Seq<char>, SpecType>
    decreases s.len(),
{
    if s.len() == 0 {
        Map::empty()
    } else {
        entries_map(s.drop_last()).insert(s.last().0@, s.last().1@)
    }
}

/// No name occurs twice among the entries.
pub open spec fn distinct_keys(s: Seq<(String, Type)>) -> bool {
    forall|i: int, j: int|
        0 <= i < s.len() && 0 <= j < s.len() && i != j ==> s[i].0@ != s[j].0@
}

/// The names of the entries, in order.
pub open spec fn entry_keys(s: Seq<(String, Type)>) -> Seq<Seq<char>> {
    s.map_values(|e: (String, Type)| e.0@)
}

/// A name is in the denoted map exactly when some entry carries it.
pub proof fn lemma_entries_map_dom(s: Seq<(String, Type)>, k: Seq<char>)
    ensures
        entries_map(s).contains_key(k) <==> exists|i: int| 0 <= i < s.len() && s[i].0@ == k,
    decreases s.len(),
{
    if s.len() > 0 {
        lemma_entries_map_dom(s.drop_last(), k);
        if entries_map(s.drop_last()).contains_key(k) {
            let i = choose|i: int| 0 <= i < s.drop_last().len() && s.drop_last()[i].0@ == k;
            assert(s[i].0@ == k);
        }
        if exists|i: int| 0 <= i < s.len() && s[i].0@ == k {
            let i = choose|i: int| 0 <= i < s.len() && s[i].0@ == k;
            if i < s.len() - 1 {
                assert(s.drop_last()[i].0@ == k);
            }
        }
    }
}

/// With distinct names, the denoted map gives each entry's name that entry's type.
pub proof fn lemma_entries_map_value(s: Seq<(String, Type)>, i: int)
    requires
        distinct_keys(s),
        0 <= i < s.len(),
    ensures
        entries_map(s).contains_key(s[i].0@),
        entries_map(s)[s[i].0@] == s[i].1@,
    decreases s.len(),
{
    if i < s.len() - 1 {
        assert(distinct_keys(s.drop_last()));
        lemma_entries_map_value(s.drop_last(), i);
        assert(s.drop_last()[i] == s[i]);
    }
}

/// With distinct names, the denoted map is finite and has one key per entry.
pub proof fn lemma_entries_map_len(s: Seq<(String, Type)>)
    requires
        distinct_keys(s),
    ensures
        entries_map(s).dom().finite(),
        entries_map(s).len() == s.len(),
    decreases s.len(),
{
    if s.len() > 0 {
        assert(distinct_keys(s.drop_last()));
        lemma_entries_map_len(s.drop_last());
        lemma_entries_map_dom(s.drop_last(), s.last().0@);
        if entries_map(s.drop_last()).contains_key(s.last().0@) {
            let i = choose|i: int|
                0 <= i < s.drop_last().len() && s.drop_last()[i].0@ == s.last().0@;
            assert(s[i].0@ == s[s.len() - 1].0@);
        }
    }
}

/// Replacing the type of an entry, with distinct names, inserts into the denoted map.
pub proof fn lemma_entries_map_update(s: Seq<(String, Type)>, j: int, e: (String, Type))
    requires
        distinct_keys(s),
        0 <= j < s.len(),
        e.0@ == s[j].0@,
    ensures
        entries_map(s.update(j, e)) == entries_map(s).insert(e.0@, e.1@),
    decreases s.len(),
{
    let u = s.update(j, e);
    if j == s.len() - 1 {
        assert(u.drop_last() =~= s.drop_last());
        assert(entries_map(u) =~= entries_map(s).insert(e.0@, e.1@));
    } else {
        assert(distinct_keys(s.drop_last()));
        lemma_entries_map_update(s.drop_last(), j, e);
        assert(u.drop_last() =~= s.drop_last().update(j, e));
        assert(s.last().0@ != e.0@);
        assert(entries_map(u) =~= entries_map(s).insert(e.0@, e.1@));
    }
}

impl View for TypeMap {
    type V = Map<Seq<char>, SpecType>;

    closed spec fn view(&self) -> Map<Seq<char>, SpecType> {
        entries_map(self.entries@)
    }
}

impl TypeMap {
    #[verifier::type_invariant]
    spec fn well_formed(&self) -> bool {
        distinct_keys(self.entries@)
    }

    /// The names in the map, in the order in which they were first inserted.
    pub closed spec fn key_order(&self) -> Seq<Seq<char>> {
        entry_keys(self.entries@)
    }

    /// An empty map.
    pub fn new() -> (m: Self)
        ensures
            m@ == Map::<Seq<char>, SpecType>::empty(),
            m.key_order() == Seq::<Seq<char>>::empty(),
    {
        let m = TypeMap { entries: Vec::new() };
        assert(m.key_order() =~= Seq::<Seq<char>>::empty());
        m
    }

    /// The number of names in the map.
    pub fn len(&self) -> (n: usize)
        ensures
            self@.dom().finite(),
            n == self@.len(),
            n == self.key_order().len(),
    {
        proof {
            use_type_invariant(self);
            lemma_entries_map_len(self.entries@);
        }
        self.entries.len()
    }

    /// The type stored under `key`, if any.
    pub fn get(&self, key: &str) -> (res: Option<&Type>)
        ensures
            match res {
                Some(t) => self@.contains_key(key@) && self@[key@] == t@,
                None => !self@.contains_key(key@),
            },
    {
        proof {
            use_type_invariant(self);
        }
        let mut i: usize = 0;
        while i < self.entries.len()
            invariant
                i <= self.entries.len(),
                distinct_keys(self.entries@),
                forall|k: int| 0 <= k < i ==> self.entries@[k].0@ != key@,
            decreases self.entries.len() - i,
        {
            if text_is(&self.entries[i].0, key) {
                proof {
                    lemma_entries_map_value(self.entries@, i as int);
                }
                return Some(&self.entries[i].1);
            }
            i = i + 1;
        }
        proof {
            lemma_entries_map_dom(self.entries@, key@);
        }
        None
    }

    /// Stores `value` under `key`, replacing what was stored there.
    pub fn insert(&mut self, key: String, value: Type)
        ensures
            final(self)@ == old(self)@.insert(key@, value@),
            old(self)@.contains_key(key@) ==> final(self).key_order() == old(self).key_order(),
            !old(self)@.contains_key(key@) ==> final(self).key_order() == old(self).key_order().push(
                key@,
            ),
    {
        proof {
            use_type_invariant(&*self);
        }
        let mut i: usize = 0;
        while i < self.entries.len()
            invariant
                i <= self.entries.len(),
                self.entries@ == old(self).entries@,
                distinct_keys(self.entries@),
                forall|k: int| 0 <= k < i ==> self.entries@[k].0@ != key@,
            decreases self.entries.len() - i,
        {
            if self.entries[i].0.eq(&key) {
                let ghost before = self.entries@;
                proof {
                    lemma_entries_map_update(before, i as int, (key, value));
                    lemma_entries_map_value(before, i as int);
                }
                let mut entries: Vec<(String, Type)> = Vec::new();
                std::mem::swap(&mut entries, &mut self.entries);
                entries.set(i, (key, value));
                assert(entries@ == before.update(i as int, (key, value)));
                assert(distinct_keys(entries@));
                assert(entry_keys(entries@) =~= entry_keys(before));
                self.entries = entries;
                return;
            }
            i = i + 1;
        }
        proof {
            lemma_entries_map_dom(self.entries@, key@);
        }
        let ghost before = self.entries@;
        let mut entries: Vec<(String, Type)> = Vec::new();
                std::mem::swap(&mut entries, &mut self.entries);
        entries.push((key, value));
        assert(entries@.drop_last() =~= before);
        assert(distinct_keys(entries@));
        assert(entry_keys(entries@) =~= entry_keys(before).push(key@));
        self.entries = entries;
    }

    /// The names in the map, in the order in which they were first inserted.
    pub fn keys(&self) -> (res: Vec<String>)
        ensures
            res@.map_values(|s: String| s@) == self.key_order(),
            self.key_order().no_duplicates(),
            forall|k: Seq<char>| self@.contains_key(k) <==> self.key_order().contains(k),
    {
        proof {
            use_type_invariant(self);
            let ks = self.key_order();
            assert forall|i: int, j: int|
                0 <= i < ks.len() && 0 <= j < ks.len() && i != j implies ks[i] != ks[j] by {
                assert(ks[i] == self.entries@[i].0@);
                assert(ks[j] == self.entries@[j].0@);
            }
            assert forall|k: Seq<char>| self@.contains_key(k) <==> ks.contains(k) by {
                lemma_entries_map_dom(self.entries@, k);
                if ks.contains(k) {
                    let i = choose|i: int| 0 <= i < ks.len() && ks[i] == k;
                    assert(self.entries@[i].0@ == k);
                }
                if self@.contains_key(k) {
                    let i = choose|i: int| 0 <= i < self.entries@.len() && self.entries@[i].0@ == k;
                    assert(ks[i] == k);
                }
            }
        }
        let mut out: Vec<String> = Vec::new();
        let mut i: usize = 0;
        while i < self.entries.len()
            invariant
                i <= self.entries.len(),
                out@.map_values(|s: String| s@) == entry_keys(self.entries@.take(i as int)),
            decreases self.entries.len() - i,
        {
            let k = self.entries[i].0.clone();
            let ghost before = out@;
            out.push(k);
            assert(self.entries@.take(i + 1) =~= self.entries@.take(i as int).push(self.entries@[i as int]));
            assert(out@.map_values(|s: String| s@) =~= before.map_values(|s: String| s@).push(k@));
            assert(out@.map_values(|s: String| s@) =~= entry_keys(self.entries@.take(i + 1)));
            i = i + 1;
        }
        assert(self.entries@.take(i as int) =~= self.entries@);
        out
    }
}

/// After a type is stored under a name, the map gives that type for that name, and
/// gives for every other name what it gave before.
pub proof fn law_read_after_insert(
    m: Map<Seq<char>, SpecType>,
    k: Seq<char>,
    v: SpecType,
    other: Seq<char>,
)
    requires
        other != k,
    ensures
        m.insert(k, v).contains_key(k),
        m.insert(k, v)[k] == v,
        m.insert(k, v).contains_key(other) == m.contains_key(other),
        m.contains_key(other) ==> m.insert(k, v)[other] == m[other],
{
}

/// Storing under a new name adds one name to a map; storing under a name it has adds none.
pub proof fn law_len_after_insert(m: Map<Seq<char>, SpecType>, k: Seq<char>, v: SpecType)
    requires
        m.dom().finite(),
    ensures
        m.insert(k, v).len() == if m.contains_key(k) {
            m.len()
        } else {
            m.len() + 1
        },
{
    if m.contains_key(k) {
        assert(m.insert(k, v).dom() =~= m.dom());
    }
}

} // verus!
