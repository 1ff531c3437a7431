//! The value map: the user's answers for one submission, keyed by field id.

use vstd::prelude::*;
use crate::text::str_eq;

verus! {

/// Mapping from field id to one string value. Later insertions override
/// earlier ones for the same key.
#[derive(Clone, Debug)]
pub struct ValueMap {
    entries: Vec<(String, String)>,
}

/// The mathematical map that a sequence of entries denotes: entries are
/// applied in order, so a later binding for a key overrides an earlier one.
pub open spec fn entries_map(entries: Seq<(String, String)>) -> Map<Seq<char>, Seq<char>>
    decreases entries.len(),
{
    if entries.len() == 0 {
        Map::empty()
    } else {
        entries_map(entries.drop_last()).insert(entries.last().0@, entries.last().1@)
    }
}

impl View for ValueMap {
    type V = Map<Seq<char>, Seq<char>>;

    closed spec fn view(&self) -> Map<Seq<char>, Seq<char>> {
        entries_map(self.entries@)
    }
}

spec fn lookup(entries: Seq<(String, String)>, key: Seq<char>) -> Option<Seq<char>>
    decreases entries.len(),
{
    if entries.len() == 0 {
        None
    } else if entries.last().0@ == key {
        Some(entries.last().1@)
    } else {
        lookup(entries.drop_last(), key)
    }
}

proof fn lemma_lookup_entries_map(entries: Seq<(String, String)>, key: Seq<char>)
    ensures
        lookup(entries, key) == (if entries_map(entries).contains_key(key) {
            Some(entries_map(entries)[key])
        } else {
            None::<Seq<char>>
        }),
    decreases entries.len(),
{
    if entries.len() > 0 {
        lemma_lookup_entries_map(entries.drop_last(), key);
    }
}

impl ValueMap {
    pub fn new() -> (r: ValueMap)
        ensures
            r@ == Map::<Seq<char>, Seq<char>>::empty(),
    {
        ValueMap { entries: Vec::new() }
    }

    pub fn insert(&mut self, key: String, value: String)
        ensures
            (final(self))@ == old(self)@.insert(key@, value@),
    {
        let ghost pre = self.entries@;
        self.entries.push((key, value));
        proof {
            assert(self.entries@.drop_last() =~= pre);
        }
    }

    /// The latest value bound to `key`, if any.
    pub fn get(&self, key: &str) -> (r: Option<&String>)
        ensures
            match r {
                Some(v) => self@.contains_key(key@) && self@[key@] == v@,
                None => !self@.contains_key(key@),
            },
    {
        proof {
            lemma_lookup_entries_map(self.entries@, key@);
            assert(self.entries@.take(self.entries@.len() as int) =~= self.entries@);
        }
        let mut i: usize = self.entries.len();
        while i > 0
            invariant
                0 <= i <= self.entries@.len(),
                lookup(self.entries@, key@) == lookup(self.entries@.take(i as int), key@),
            decreases i,
        {
            let idx: usize = i - 1;
            if str_eq(self.entries[idx].0.as_str(), key) {
                proof {
                    lemma_lookup_entries_map(self.entries@, key@);
                    let t = self.entries@.take(i as int);
                    assert(t.last() == self.entries@[idx as int]);
                    assert(lookup(t, key@) == Some(self.entries@[idx as int].1@));
                    assert(entries_map(self.entries@).contains_key(key@));
                    assert(entries_map(self.entries@)[key@] == self.entries@[idx as int].1@);
                }
                return Some(&self.entries[idx].1);
            }
            proof {
                let t = self.entries@.take(i as int);
                assert(t.last() == self.entries@[idx as int]);
                assert(t.drop_last() =~= self.entries@.take(idx as int));
            }
            i = idx;
        }
        proof {
            lemma_lookup_entries_map(self.entries@, key@);
            assert(self.entries@.take(0) =~= Seq::<(String, String)>::empty());
        }
        None
    }

    /// The entries as key-value pairs, in insertion order; they denote
    /// exactly this map.
    pub fn to_pairs(&self) -> (r: Vec<(String, String)>)
        ensures
            entries_map(r@) == self@,
    {
        let mut r: Vec<(String, String)> = Vec::new();
        let mut i: usize = 0;
        proof {
            assert(r@ =~= self.entries@.take(0));
        }
        while i < self.entries.len()
            invariant
                0 <= i <= self.entries@.len(),
                r@ == self.entries@.take(i as int),
            decreases self.entries@.len() - i,
        {
            r.push((self.entries[i].0.clone(), self.entries[i].1.clone()));
            proof {
                assert(r@ =~= self.entries@.take(i as int + 1));
            }
            i += 1;
        }
        proof {
            assert(self.entries@.take(self.entries@.len() as int) =~= self.entries@);
        }
        r
    }
}

} // verus!
