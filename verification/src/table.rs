//! A table of values keyed by VM identifier.

use vstd::prelude::*;

use crate::protocol::VmId;

verus! {

/// A map from VM identifiers to values, with one row for each identifier.
pub struct Table<V> {
    rows: Vec<(VmId, V)>,
}

impl<V> View for Table<V> {
    type V = Map<Seq<char>, V>;

    closed spec fn view(&self) -> Map<Seq<char>, V> {
        rows_map(self.rows@)
    }
}

/// The identifiers of the rows.
spec fn row_ids<V>(rows: Seq<(VmId, V)>) -> Seq<Seq<char>> {
    rows.map_values(|row: (VmId, V)| row.0@)
}

/// The map that rows with different identifiers stand for.
spec fn rows_map<V>(rows: Seq<(VmId, V)>) -> Map<Seq<char>, V> {
    Map::new(
        |id: Seq<char>| row_ids(rows).contains(id),
        |id: Seq<char>| rows[row_ids(rows).index_of(id)].1,
    )
}

/// Looking up the identifier of a row leads to that row.
proof fn lemma_row<V>(rows: Seq<(VmId, V)>, i: int)
    requires
        row_ids(rows).no_duplicates(),
        0 <= i < rows.len(),
    ensures
        rows_map(rows).dom().contains(rows[i].0@),
        rows_map(rows)[rows[i].0@] == rows[i].1,
{
    let ids = row_ids(rows);
    assert(ids[i] == rows[i].0@);
    assert(ids.contains(rows[i].0@));
    assert(ids[ids.index_of(rows[i].0@)] == ids[i]);
}

impl<V> Table<V> {
    /// No two rows have the same identifier.
    pub closed spec fn wf(&self) -> bool {
        row_ids(self.rows@).no_duplicates()
    }

    /// The identifiers in the order of the rows.
    pub closed spec fn ids(&self) -> Seq<Seq<char>> {
        row_ids(self.rows@)
    }

    /// Every identifier has one row.
    pub proof fn lemma_ids(&self)
        requires
            self.wf(),
        ensures
            self.ids().no_duplicates(),
            self.ids().to_set() == self@.dom(),
            self@.dom().finite(),
            self@.dom().len() == self.ids().len(),
            forall|id: Seq<char>| self.ids().contains(id) <==> #[trigger] self@.dom().contains(id),
    {
        self.ids().unique_seq_to_set();
        assert(self.ids().to_set() =~= self@.dom());
    }

    pub fn new() -> (table: Table<V>)
        ensures
            table.wf(),
            table@ == Map::<Seq<char>, V>::empty(),
    {
        let table = Table { rows: Vec::new() };
        assert(table@ =~= Map::<Seq<char>, V>::empty());
        table
    }

    /// The number of rows.
    pub fn len(&self) -> (len: usize)
        requires
            self.wf(),
        ensures
            len == self@.dom().len(),
            len == self.ids().len(),
    {
        proof {
            self.lemma_ids();
        }
        self.rows.len()
    }

    /// The row at a position.
    pub fn row(&self, i: usize) -> (row: (&VmId, &V))
        requires
            self.wf(),
            i < self.ids().len(),
        ensures
            row.0@ == self.ids()[i as int],
            self@.dom().contains(row.0@),
            *row.1 == self@[row.0@],
    {
        proof {
            lemma_row(self.rows@, i as int);
        }
        (&self.rows[i].0, &self.rows[i].1)
    }

    fn position(&self, id: &VmId) -> (found: Option<usize>)
        requires
            self.wf(),
        ensures
            match found {
                Some(i) => i < self.rows@.len() && self.rows@[i as int].0@ == id@,
                None => !self@.dom().contains(id@),
            },
    {
        let mut i: usize = 0;
        while i < self.rows.len()
            invariant
                i <= self.rows@.len(),
                forall|j: int| 0 <= j < i ==> self.rows@[j].0@ != id@,
            decreases self.rows@.len() - i,
        {
            if self.rows[i].0 == *id {
                return Some(i);
            }
            i += 1;
        }
        None
    }

    /// The value of an identifier.
    pub fn get(&self, id: &VmId) -> (value: Option<&V>)
        requires
            self.wf(),
        ensures
            match value {
                Some(v) => self@.dom().contains(id@) && *v == self@[id@],
                None => !self@.dom().contains(id@),
            },
    {
        match self.position(id) {
            Some(i) => {
                proof {
                    lemma_row(self.rows@, i as int);
                }
                Some(&self.rows[i].1)
            },
            None => None,
        }
    }

    /// Sets the value of an identifier.
    pub fn insert(&mut self, id: VmId, value: V)
        requires
            old(self).wf(),
        ensures
            final(self).wf(),
            final(self)@ == old(self)@.insert(id@, value),
    {
        let ghost before = self.rows@;
        let ghost name = id@;
        match self.position(&id) {
            Some(i) => {
                self.rows.set(i, (id, value));
                proof {
                    let after = self.rows@;
                    assert(row_ids(after) =~= row_ids(before));
                    assert forall|key: Seq<char>| #[trigger] rows_map(after).dom().contains(key) implies
                        rows_map(after)[key] == rows_map(before).insert(name, value)[key] by {
                        lemma_row(after, i as int);
                        let j = row_ids(after).index_of(key);
                        lemma_row(after, j);
                        lemma_row(before, j);
                    }
                    lemma_row(before, i as int);
                    assert(rows_map(after) =~= rows_map(before).insert(name, value));
                }
            },
            None => {
                self.rows.push((id, value));
                proof {
                    let after = self.rows@;
                    assert(row_ids(after) =~= row_ids(before).push(name));
                    assert(!row_ids(before).contains(name));
                    assert(row_ids(after).no_duplicates());
                    lemma_row(after, before.len() as int);
                    assert forall|key: Seq<char>| row_ids(before).contains(key) implies {
                        &&& row_ids(after).contains(key)
                        &&& rows_map(after)[key] == rows_map(before)[key]
                    } by {
                        let j = row_ids(before).index_of(key);
                        assert(row_ids(after)[j] == key);
                        lemma_row(before, j);
                        lemma_row(after, j);
                    }
                    assert(rows_map(after) =~= rows_map(before).insert(name, value));
                }
            },
        }
    }

    /// Removes the row of an identifier and hands out its value.
    pub fn remove(&mut self, id: &VmId) -> (value: Option<V>)
        requires
            old(self).wf(),
        ensures
            final(self).wf(),
            final(self)@ == old(self)@.remove(id@),
            match value {
                Some(v) => old(self)@.dom().contains(id@) && v == old(self)@[id@],
                None => !old(self)@.dom().contains(id@),
            },
    {
        let ghost before = self.rows@;
        match self.position(id) {
            Some(i) => {
                proof {
                    lemma_row(before, i as int);
                }
                let row = self.rows.remove(i);
                proof {
                    let after = self.rows@;
                    let ids = row_ids(before);
                    assert(row_ids(after) =~= ids.remove(i as int));
                    assert forall|j: int| 0 <= j < after.len() implies #[trigger] after[j] == before[if j < i {
                        j
                    } else {
                        j + 1
                    }] by {}
                    assert forall|key: Seq<char>| ids.contains(key) && key != id@ implies {
                        &&& row_ids(after).contains(key)
                        &&& rows_map(after)[key] == rows_map(before)[key]
                    } by {
                        let j = ids.index_of(key);
                        let k = if j < i {
                            j
                        } else {
                            j - 1
                        };
                        assert(row_ids(after)[k] == key);
                        lemma_row(before, j);
                        lemma_row(after, k);
                    }
                    assert(!row_ids(after).contains(id@)) by {
                        if row_ids(after).contains(id@) {
                            let k = row_ids(after).index_of(id@);
                            let j = if k < i {
                                k
                            } else {
                                k + 1
                            };
                            assert(ids[j] == id@);
                            assert(ids[i as int] == id@);
                        }
                    }
                    assert(rows_map(after) =~= rows_map(before).remove(id@));
                }
                Some(row.1)
            },
            None => {
                assert(self@ =~= old(self)@.remove(id@));
                None
            },
        }
    }
}

} // verus!
