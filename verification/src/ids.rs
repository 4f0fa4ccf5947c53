//! Tables keyed by the ids of jobs.

use vstd::prelude::*;

verus! {

/// A set of ids.
#[derive(Debug, Clone)]
pub struct IdSet {
    ids: Vec<String>,
}

impl View for IdSet {
    type V = Set<Seq<char>>;

    closed spec fn view(&self) -> Set<Seq<char>> {
        Set::new(|id: Seq<char>| exists|i: int| 0 <= i < self.ids.len() && #[trigger] self.ids@[i]@ == id)
    }
}

impl IdSet {
    /// The empty set.
    pub fn new() -> (result: IdSet)
        ensures
            result@ == Set::<Seq<char>>::empty(),
    {
        let result = IdSet { ids: Vec::new() };
        assert(result@ =~= Set::<Seq<char>>::empty());
        result
    }

    /// Whether the set holds the id.
    pub fn contains(&self, id: &String) -> (result: bool)
        ensures
            result == self@.contains(id@),
    {
        let mut i: usize = 0;
        while i < self.ids.len()
            invariant
                i <= self.ids.len(),
                forall|j: int| 0 <= j < i ==> #[trigger] self.ids@[j]@ != id@,
            decreases self.ids.len() - i,
        {
            if self.ids[i] == *id {
                return true;
            }
            i += 1;
        }
        false
    }

    /// Adds an id.
    pub fn insert(&mut self, id: String)
        ensures
            final(self)@ == old(self)@.insert(id@),
    {
        if !self.contains(&id) {
            let ghost before = self.ids@;
            let ghost id_view = id@;
            self.ids.push(id);
            proof {
                assert forall|x: Seq<char>| #[trigger]
                    old(self)@.insert(id_view).contains(x) implies self@.contains(x) by {
                    if x == id_view {
                        assert(self.ids@[before.len() as int]@ == x);
                    } else {
                        let i = choose|i: int| 0 <= i < before.len() && #[trigger] before[i]@ == x;
                        assert(self.ids@[i]@ == x);
                    }
                }
                assert(self@ =~= old(self)@.insert(id_view));
            }
        } else {
            assert(self@ =~= old(self)@.insert(id@));
        }
    }
}

/// The times at which jobs fire next, by id.
#[derive(Debug, Clone)]
pub struct FireTimes {
    entries: Vec<(String, i64)>,
}

/// The table that a row of entries makes: a later entry replaces an earlier one.
spec fn table_of(entries: Seq<(String, i64)>) -> Map<Seq<char>, i64>
    decreases entries.len(),
{
    if entries.len() == 0 {
        Map::empty()
    } else {
        table_of(entries.drop_last()).insert(entries.last().0@, entries.last().1)
    }
}

impl View for FireTimes {
    type V = Map<Seq<char>, i64>;

    closed spec fn view(&self) -> Map<Seq<char>, i64> {
        table_of(self.entries@)
    }
}

impl FireTimes {
    /// The empty table.
    pub fn new() -> (result: FireTimes)
        ensures
            result@ == Map::<Seq<char>, i64>::empty(),
    {
        FireTimes { entries: Vec::new() }
    }

    /// The time of a job, if the table has one.
    pub fn get(&self, id: &String) -> (result: Option<i64>)
        ensures
            match result {
                Some(time) => self@.contains_key(id@) && self@[id@] == time,
                None => !self@.contains_key(id@),
            },
    {
        let mut i: usize = self.entries.len();
        assert(self.entries@.take(i as int) =~= self.entries@);
        while i > 0
            invariant
                i <= self.entries.len(),
                self@.contains_key(id@) == table_of(self.entries@.take(i as int)).contains_key(id@),
                self@.contains_key(id@) ==> self@[id@] == table_of(
                    self.entries@.take(i as int),
                )[id@],
            decreases i,
        {
            assert(self.entries@.take(i as int).drop_last() =~= self.entries@.take(i - 1));
            assert(self.entries@.take(i as int).last() == self.entries@[i - 1]);
            i -= 1;
            if self.entries[i].0 == *id {
                return Some(self.entries[i].1);
            }
        }
        None
    }

    /// Removes the time of a job.
    pub fn remove(&mut self, id: &String)
        ensures
            final(self)@ == old(self)@.remove(id@),
    {
        let mut kept: Vec<(String, i64)> = Vec::new();
        let mut i: usize = 0;
        assert(table_of(self.entries@.take(0)).remove(id@) =~= table_of(kept@));
        while i < self.entries.len()
            invariant
                i <= self.entries.len(),
                self.entries@ == old(self).entries@,
                table_of(kept@) == table_of(self.entries@.take(i as int)).remove(id@),
            decreases self.entries.len() - i,
        {
            proof {
                assert(self.entries@.take(i + 1).drop_last() =~= self.entries@.take(i as int));
                assert(self.entries@.take(i + 1).last() == self.entries@[i as int]);
            }
            let ghost before = kept@;
            if self.entries[i].0 != *id {
                kept.push((self.entries[i].0.clone(), self.entries[i].1));
                assert(kept@.drop_last() =~= before);
            }
            assert(table_of(kept@) =~= table_of(self.entries@.take(i + 1)).remove(id@));
            i += 1;
        }
        assert(self.entries@.take(self.entries.len() as int) =~= self.entries@);
        self.entries = kept;
    }

    /// Sets the time of a job.
    pub fn insert(&mut self, id: String, time: i64)
        ensures
            final(self)@ == old(self)@.insert(id@, time),
    {
        self.remove(&id);
        let ghost before = self.entries@;
        let ghost id_view = id@;
        self.entries.push((id, time));
        proof {
            assert(self.entries@.drop_last() =~= before);
            assert(self@ =~= old(self)@.insert(id_view, time));
        }
    }

    /// Removes the times of all jobs but those in `ids`.
    pub fn retain(&mut self, ids: &IdSet)
        ensures
            final(self)@ == old(self)@.restrict(ids@),
    {
        let mut kept: Vec<(String, i64)> = Vec::new();
        let mut i: usize = 0;
        assert(table_of(self.entries@.take(0)).restrict(ids@) =~= table_of(kept@));
        while i < self.entries.len()
            invariant
                i <= self.entries.len(),
                self.entries@ == old(self).entries@,
                table_of(kept@) == table_of(self.entries@.take(i as int)).restrict(ids@),
            decreases self.entries.len() - i,
        {
            proof {
                assert(self.entries@.take(i + 1).drop_last() =~= self.entries@.take(i as int));
                assert(self.entries@.take(i + 1).last() == self.entries@[i as int]);
            }
            let ghost before = kept@;
            if ids.contains(&self.entries[i].0) {
                kept.push((self.entries[i].0.clone(), self.entries[i].1));
                assert(kept@.drop_last() =~= before);
            }
            assert(table_of(kept@) =~= table_of(self.entries@.take(i + 1)).restrict(ids@));
            i += 1;
        }
        assert(self.entries@.take(self.entries.len() as int) =~= self.entries@);
        self.entries = kept;
    }
}

} // verus!
