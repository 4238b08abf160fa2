//! The run-scoped map from reference names to resolved image identifiers.
//! A name is written once: the first producer wins.

use vstd::prelude::*;

verus! {

/// The map that a list of entries with distinct keys stands for.
pub open spec fn entries_map(entries: Seq<(String, String)>) -> Map<Seq<char>, Seq<char>>
    decreases entries.len(),
{
    if entries.len() == 0 {
        Map::empty()
    } else {
        entries_map(entries.drop_last()).insert(entries.last().0@, entries.last().1@)
    }
}

/// Whether no two entries share a key.
pub open spec fn distinct_keys(entries: Seq<(String, String)>) -> bool {
    forall|i: int, j: int|
        0 <= i < entries.len() && 0 <= j < entries.len() && i != j ==> #[trigger] entries[i].0@
            != #[trigger] entries[j].0@
}

proof fn lemma_entries_map(entries: Seq<(String, String)>, key: Seq<char>)
    requires
        distinct_keys(entries),
    ensures
        entries_map(entries).contains_key(key) <==> exists|i: int|
            0 <= i < entries.len() && #[trigger] entries[i].0@ == key,
        forall|i: int|
            0 <= i < entries.len() && #[trigger] entries[i].0@ == key ==> entries_map(entries)[key]
                == entries[i].1@,
    decreases entries.len(),
{
    if entries.len() > 0 {
        let init = entries.drop_last();
        assert(distinct_keys(init));
        lemma_entries_map(init, key);
        if entries_map(init).contains_key(key) {
            let i = choose|i: int| 0 <= i < init.len() && #[trigger] init[i].0@ == key;
            assert(entries[i].0@ == key);
        }
        if exists|i: int| 0 <= i < entries.len() && #[trigger] entries[i].0@ == key {
            let i = choose|i: int| 0 <= i < entries.len() && #[trigger] entries[i].0@ == key;
            if i < entries.len() - 1 {
                assert(init[i].0@ == key);
            }
        }
        assert forall|i: int|
            0 <= i < entries.len() && #[trigger] entries[i].0@ == key implies entries_map(
            entries,
        )[key] == entries[i].1@ by {
            if i < entries.len() - 1 {
                assert(init[i].0@ == key);
            }
        }
    }
}

/// Reference names and the image identifiers that they were bound to.
#[derive(Debug)]
pub struct ImageRefMap {
    entries: Vec<(String, String)>,
}

impl View for ImageRefMap {
    type V = Map<Seq<char>, Seq<char>>;

    closed spec fn view(&self) -> Map<Seq<char>, Seq<char>> {
        entries_map(self.entries@)
    }
}

impl ImageRefMap {
    /// No reference name is bound twice.
    pub closed spec fn well_formed(&self) -> bool {
        distinct_keys(self.entries@)
    }

    /// An empty map.
    pub fn new() -> (r: ImageRefMap)
        ensures
            r.well_formed(),
            r@ == Map::<Seq<char>, Seq<char>>::empty(),
    {
        ImageRefMap { entries: Vec::new() }
    }

    /// The identifier bound to `name`, if any.
    pub fn get(&self, name: &String) -> (r: Option<String>)
        requires
            self.well_formed(),
        ensures
            r is Some <==> self@.contains_key(name@),
            r matches Some(id) ==> id@ == self@[name@],
    {
        let mut i: usize = 0;
        while i < self.entries.len()
            invariant
                self.well_formed(),
                i <= self.entries.len(),
                forall|k: int| 0 <= k < i ==> #[trigger] self.entries@[k].0@ != name@,
            decreases self.entries.len() - i,
        {
            if self.entries[i].0 == *name {
                proof {
                    lemma_entries_map(self.entries@, name@);
                    assert(self.entries@[i as int].0@ == name@);
                }
                return Some(self.entries[i].1.clone());
            }
            i = i + 1;
        }
        proof {
            lemma_entries_map(self.entries@, name@);
        }
        None
    }

    /// Binds `name` to `id` unless `name` is bound already, in which case the
    /// map stays as it is.
    pub fn record(&mut self, name: &String, id: &String)
        requires
            old(self).well_formed(),
        ensures
            final(self).well_formed(),
            old(self)@.contains_key(name@) ==> final(self)@ == old(self)@,
            !old(self)@.contains_key(name@) ==> final(self)@ == old(self)@.insert(name@, id@),
    {
        if self.get(name).is_none() {
            proof {
                lemma_entries_map(self.entries@, name@);
            }
            let ghost before = self.entries@;
            let entry = (name.clone(), id.clone());
            self.entries.push(entry);
            assert(self.entries@.drop_last() =~= before);
            assert(distinct_keys(self.entries@));
        }
    }
}

} // verus!
