//! The tags of a message: a mapping from key to value.
use vstd::prelude::*;

verus! {

/// The mapping that `entries` describe, a later entry for a key replacing an
/// earlier one.
pub open spec fn pairs_map(entries: Seq<(Seq<char>, Seq<char>)>) -> Map<Seq<char>, Seq<char>>
    decreases entries.len(),
{
    if entries.len() == 0 {
        Map::empty()
    } else {
        pairs_map(entries.drop_last()).insert(entries.last().0, entries.last().1)
    }
}

/// `i` is the last entry with key `k`.
pub open spec fn is_last_with_key(entries: Seq<(Seq<char>, Seq<char>)>, k: Seq<char>, i: int) -> bool {
    &&& 0 <= i < entries.len()
    &&& entries[i].0 == k
    &&& forall|j: int| i < j < entries.len() ==> #[trigger] entries[j].0 != k
}

proof fn lemma_pairs_map_lookup(entries: Seq<(Seq<char>, Seq<char>)>, k: Seq<char>)
    ensures
        pairs_map(entries).contains_key(k) <==> exists|i: int|
            0 <= i < entries.len() && #[trigger] entries[i].0 == k,
        forall|i: int|
            is_last_with_key(entries, k, i) ==> pairs_map(entries)[k] == #[trigger] entries[i].1,
    decreases entries.len(),
{
    if entries.len() > 0 {
        let init = entries.drop_last();
        lemma_pairs_map_lookup(init, k);
        if pairs_map(entries).contains_key(k) && entries.last().0 != k {
            let i = choose|i: int| 0 <= i < init.len() && #[trigger] init[i].0 == k;
            assert(entries[i] == init[i]);
        }
        if exists|i: int| 0 <= i < entries.len() && #[trigger] entries[i].0 == k {
            let i = choose|i: int| 0 <= i < entries.len() && #[trigger] entries[i].0 == k;
            if i < init.len() {
                assert(entries[i] == init[i]);
            }
        }
        assert forall|i: int| is_last_with_key(entries, k, i) implies pairs_map(entries)[k]
            == #[trigger] entries[i].1 by {
            if i < init.len() {
                assert(entries[i] == init[i]);
                assert(entries[entries.len() - 1].0 != k);
                assert forall|j: int| i < j < init.len() implies #[trigger] init[j].0 != k by {
                    assert(entries[j] == init[j]);
                }
            }
        }
    }
}

proof fn lemma_pairs_map_update(entries: Seq<(Seq<char>, Seq<char>)>, i: int, v: Seq<char>)
    requires
        is_last_with_key(entries, entries[i].0, i),
    ensures
        pairs_map(entries.update(i, (entries[i].0, v))) == pairs_map(entries).insert(entries[i].0, v),
    decreases entries.len(),
{
    let k = entries[i].0;
    let changed = entries.update(i, (k, v));
    let init = entries.drop_last();
    if i == entries.len() - 1 {
        assert(changed.drop_last() =~= init);
        assert(pairs_map(changed) =~= pairs_map(entries).insert(k, v));
    } else {
        assert(init[i] == entries[i]);
        assert forall|j: int| i < j < init.len() implies #[trigger] init[j].0 != k by {
            assert(entries[j] == init[j]);
        }
        lemma_pairs_map_update(init, i, v);
        assert(changed.drop_last() =~= init.update(i, (k, v)));
        assert(entries[entries.len() - 1].0 != k);
        assert(pairs_map(changed) =~= pairs_map(entries).insert(k, v));
    }
}

/// Tags as key/value pairs, each key standing once.
///
/// The pairs are kept in a `Vec` rather than a `BTreeMap<String, String>`:
/// the library's specification of `BTreeMap` holds only for key types whose
/// `Ord` is known to follow its model, which `String` is not, so nothing about
/// an insertion into such a map could be proved.
#[derive(Debug)]
pub struct Tags {
    entries: Vec<(String, String)>,
}

/// No two entries have the same key.
pub open spec fn keys_unique(entries: Seq<(Seq<char>, Seq<char>)>) -> bool {
    forall|i: int, j: int|
        0 <= i < entries.len() && 0 <= j < entries.len() && i != j ==> #[trigger] entries[i].0
            != #[trigger] entries[j].0
}

/// The entries, as character sequences.
pub open spec fn entry_views(entries: Seq<(String, String)>) -> Seq<(Seq<char>, Seq<char>)> {
    entries.map_values(|e: (String, String)| (e.0@, e.1@))
}

impl View for Tags {
    type V = Map<Seq<char>, Seq<char>>;

    closed spec fn view(&self) -> Map<Seq<char>, Seq<char>> {
        pairs_map(entry_views(self.entries@))
    }
}

impl Tags {
    #[verifier::type_invariant]
    spec fn inv(&self) -> bool {
        keys_unique(entry_views(self.entries@))
    }

    /// No tags.
    pub fn new() -> (r: Tags)
        ensures
            r@ == Map::<Seq<char>, Seq<char>>::empty(),
    {
        let r = Tags { entries: Vec::new() };
        assert(entry_views(r.entries@) =~= Seq::empty());
        r
    }

    /// The last entry with key `key`.
    fn position(&self, key: &String) -> (r: Option<usize>)
        ensures
            match r {
                Some(i) => is_last_with_key(entry_views(self.entries@), key@, i as int),
                None => !self@.contains_key(key@),
            },
    {
        let ghost ev = entry_views(self.entries@);
        let mut i: usize = self.entries.len();
        while i > 0
            invariant
                i <= self.entries@.len(),
                ev == entry_views(self.entries@),
                forall|j: int| i <= j < ev.len() ==> #[trigger] ev[j].0 != key@,
            decreases i,
        {
            if self.entries[i - 1].0 == *key {
                return Some(i - 1);
            }
            i = i - 1;
        }
        proof {
            lemma_pairs_map_lookup(ev, key@);
        }
        None
    }

    /// Sets the value of `key`, replacing the one it had.
    pub fn insert(&mut self, key: String, value: String)
        ensures
            final(self)@ == old(self)@.insert(key@, value@),
    {
        proof {
            use_type_invariant(&*self);
        }
        let ghost before = entry_views(self.entries@);
        let found = self.position(&key);
        let mut taken = Tags::new();
        std::mem::swap(self, &mut taken);
        let Tags { mut entries } = taken;
        assert(entry_views(entries@) == before);
        match found {
            Some(i) => {
                entries[i] = (key, value);
                proof {
                    let after = entry_views(entries@);
                    assert(after =~= before.update(i as int, (key@, value@)));
                    lemma_pairs_map_update(before, i as int, value@);
                    assert forall|a: int, b: int|
                        0 <= a < after.len() && 0 <= b < after.len() && a != b implies #[trigger] after[a].0
                            != #[trigger] after[b].0 by {
                        assert(before[a].0 != before[b].0);
                    }
                }
            },
            None => {
                entries.push((key, value));
                proof {
                    let after = entry_views(entries@);
                    assert(after.drop_last() =~= before);
                    lemma_pairs_map_lookup(before, key@);
                    assert forall|a: int, b: int|
                        0 <= a < after.len() && 0 <= b < after.len() && a != b implies #[trigger] after[a].0
                            != #[trigger] after[b].0 by {
                        if a < before.len() && b < before.len() {
                            assert(before[a].0 != before[b].0);
                        } else if a < before.len() {
                            assert(after[a] == before[a]);
                        } else {
                            assert(after[b] == before[b]);
                        }
                    }
                }
            },
        }
        *self = Tags { entries };
    }

    /// The key/value pairs, no key twice; inserted one by one they give these
    /// tags.
    pub fn pairs(&self) -> (r: &Vec<(String, String)>)
        ensures
            pairs_map(entry_views(r@)) == self@,
            keys_unique(entry_views(r@)),
    {
        proof {
            use_type_invariant(self);
        }
        &self.entries
    }

    /// The value of `key`, if it has one.
    pub fn get(&self, key: &str) -> (r: Option<&String>)
        ensures
            match r {
                Some(v) => self@.contains_key(key@) && self@[key@] == v@,
                None => !self@.contains_key(key@),
            },
    {
        let k = key.to_owned();
        match self.position(&k) {
            Some(i) => {
                proof {
                    let ev = entry_views(self.entries@);
                    lemma_pairs_map_lookup(ev, key@);
                    assert(ev[i as int].1 == self.entries@[i as int].1@);
                    assert(ev[i as int].0 == key@);
                }
                Some(&self.entries[i].1)
            },
            None => None,
        }
    }
}

impl Tags {
    /// Every key of `self` has the same value in `other`.
    fn agrees_within(&self, other: &Tags) -> (r: bool)
        ensures
            r == (forall|k: Seq<char>|
                #[trigger] self@.contains_key(k) ==> other@.contains_key(k) && other@[k] == self@[k]),
    {
        let ghost ev = entry_views(self.entries@);
        let mut i: usize = 0;
        while i < self.entries.len()
            invariant
                i <= self.entries@.len(),
                ev == entry_views(self.entries@),
                forall|j: int|
                    0 <= j < i ==> self@.contains_key(#[trigger] ev[j].0) && other@.contains_key(
                        ev[j].0) && other@[ev[j].0] == self@[ev[j].0],
            decreases self.entries.len() - i,
        {
            let key = &self.entries[i].0;
            proof {
                lemma_pairs_map_lookup(ev, key@);
                lemma_pairs_map_lookup(entry_views(other.entries@), key@);
                assert(ev[i as int].0 == key@);
            }
            let mine = self.position(key);
            let theirs = other.position(key);
            match (mine, theirs) {
                (Some(a), Some(b)) => {
                    proof {
                        assert(ev[a as int].1 == self.entries@[a as int].1@);
                        assert(entry_views(other.entries@)[b as int].1 == other.entries@[b as int].1@);
                    }
                    if self.entries[a].1 != other.entries[b].1 {
                        assert(self@.contains_key(key@));
                        return false;
                    }
                },
                _ => {
                    assert(self@.contains_key(key@));
                    return false;
                },
            }
            i = i + 1;
        }
        proof {
            assert forall|k: Seq<char>| #[trigger] self@.contains_key(k) implies other@.contains_key(k)
                && other@[k] == self@[k] by {
                lemma_pairs_map_lookup(ev, k);
                let j = choose|j: int| 0 <= j < ev.len() && #[trigger] ev[j].0 == k;
            }
        }
        true
    }
}

impl PartialEq for Tags {
    /// Equal when the two hold the same keys with the same values, in any order.
    fn eq(&self, other: &Tags) -> (r: bool) {
        let r = self.agrees_within(other) && other.agrees_within(self);
        proof {
            if r {
                assert(self@ =~= other@);
            }
        }
        r
    }
}

impl vstd::std_specs::cmp::PartialEqSpecImpl for Tags {
    open spec fn obeys_eq_spec() -> bool {
        true
    }

    open spec fn eq_spec(&self, other: &Tags) -> bool {
        self@ == other@
    }
}

} // verus!
