use vstd::prelude::*;

use crate::text::same;

verus! {

/// Records that are found by an id.
pub trait Keyed: Sized {
    spec fn id(&self) -> Seq<char>;

    fn key(&self) -> (key: &str)
        ensures
            key@ == self.id(),
    ;
}

/// Whether no two rows have the same id.
pub open spec fn unique_ids<T: Keyed>(rows: Seq<T>) -> bool {
    forall|i: int, j: int|
        #![trigger rows[i], rows[j]]
        0 <= i < j < rows.len() ==> rows[i].id() != rows[j].id()
}

/// The rows by their ids.
pub open spec fn by_id<T: Keyed>(rows: Seq<T>) -> Map<Seq<char>, T>
    decreases rows.len(),
{
    if rows.len() == 0 {
        Map::empty()
    } else {
        by_id(rows.drop_last()).insert(rows.last().id(), rows.last())
    }
}

/// Rows with ids of their own are exactly what is found by them.
pub proof fn lemma_by_id<T: Keyed>(rows: Seq<T>)
    requires
        unique_ids(rows),
    ensures
        forall|i: int|
            #![trigger rows[i]]
            0 <= i < rows.len() ==> by_id(rows).contains_pair(rows[i].id(), rows[i]),
        forall|id: Seq<char>| #[trigger]
            by_id(rows).contains_key(id) ==> by_id(rows)[id].id() == id && rows.contains(
                by_id(rows)[id],
            ),
    decreases rows.len(),
{
    if rows.len() != 0 {
        let rest = rows.drop_last();
        assert forall|i: int, j: int|
            #![trigger rest[i], rest[j]]
            0 <= i < j < rest.len() implies rest[i].id() != rest[j].id() by {
            assert(rows[i] == rest[i] && rows[j] == rest[j]);
        }
        lemma_by_id(rest);
        let last = rows.len() - 1;
        assert forall|i: int|
            #![trigger rows[i]]
            0 <= i < rows.len() implies by_id(rows).contains_pair(rows[i].id(), rows[i]) by {
            if i < last {
                assert(rest[i] == rows[i]);
                assert(rows[i].id() != rows[last].id());
            }
        }
        assert forall|id: Seq<char>| #[trigger] by_id(rows).contains_key(id) implies by_id(
            rows,
        )[id].id() == id && rows.contains(by_id(rows)[id]) by {
            if id == rows.last().id() {
                assert(rows[last] == by_id(rows)[id]);
            } else {
                assert(by_id(rest).contains_key(id));
                assert(rest.contains(by_id(rest)[id]));
                let i = rest.index_of(by_id(rest)[id]);
                assert(rows[i] == by_id(rows)[id]);
            }
        }
    }
}

/// Records kept in memory, each under its id.
#[derive(Debug, PartialEq, Eq)]
pub struct Table<T> {
    rows: Vec<T>,
}

impl<T: Keyed> View for Table<T> {
    type V = Map<Seq<char>, T>;

    open spec fn view(&self) -> Map<Seq<char>, T> {
        by_id(self.rows())
    }
}

impl<T: Keyed> Table<T> {
    /// The records in the order in which their ids came.
    pub closed spec fn rows(&self) -> Seq<T> {
        self.rows@
    }

    /// Whether every id has one record.
    pub open spec fn wf(&self) -> bool {
        unique_ids(self.rows())
    }

    /// A table without records.
    pub fn new() -> (table: Table<T>)
        ensures
            table.wf(),
            table.rows() == Seq::<T>::empty(),
            table@ == Map::<Seq<char>, T>::empty(),
    {
        Table { rows: Vec::new() }
    }

    /// How many records there are.
    pub fn len(&self) -> (count: usize)
        ensures
            count == self.rows().len(),
    {
        self.rows.len()
    }

    /// The record at a place.
    pub fn at(&self, place: usize) -> (row: &T)
        requires
            place < self.rows().len(),
        ensures
            *row == self.rows()[place as int],
    {
        &self.rows[place]
    }

    /// The place of the record with an id.
    pub fn place_of(&self, id: &str) -> (place: Option<usize>)
        requires
            self.wf(),
        ensures
            match place {
                Some(i) => i < self.rows().len() && self.rows()[i as int].id() == id@
                    && self@.contains_pair(id@, self.rows()[i as int]),
                None => !self@.contains_key(id@) && forall|i: int|
                    0 <= i < self.rows().len() ==> (#[trigger] self.rows()[i]).id() != id@,
            },
    {
        proof {
            lemma_by_id(self.rows());
        }
        for i in 0..self.rows.len()
            invariant
                self.rows() == self.rows@,
                forall|j: int| 0 <= j < i ==> (#[trigger] self.rows@[j]).id() != id@,
                forall|j: int|
                    #![trigger self.rows@[j]]
                    0 <= j < self.rows@.len() ==> self@.contains_pair(
                        self.rows@[j].id(),
                        self.rows@[j],
                    ),
        {
            if same(self.rows[i].key(), id) {
                return Some(i);
            }
        }
        None
    }

    /// The record with an id.
    pub fn get(&self, id: &str) -> (row: Option<&T>)
        requires
            self.wf(),
        ensures
            match row {
                Some(found) => self@.contains_pair(id@, *found) && found.id() == id@,
                None => !self@.contains_key(id@),
            },
    {
        match self.place_of(id) {
            Some(place) => Some(&self.rows[place]),
            None => None,
        }
    }

    /// Store a record under its id, in place of the one that was there.
    pub fn put(&mut self, row: T)
        requires
            old(self).wf(),
        ensures
            final(self).wf(),
            final(self)@ == old(self)@.insert(row.id(), row),
            !old(self)@.contains_key(row.id()) ==> final(self).rows() == old(self).rows().push(row),
    {
        let ghost before = self.rows@;
        let place = self.place_of(row.key());
        proof {
            lemma_by_id(before);
        }
        match place {
            Some(i) => {
                self.rows.set(i, row);
                proof {
                    let after = self.rows@;
                    assert(after =~= before.update(i as int, row));
                    assert(unique_ids(after)) by {
                        assert forall|a: int, b: int|
                            #![trigger after[a], after[b]]
                            0 <= a < b < after.len() implies after[a].id() != after[b].id() by {
                            assert(before[a].id() != before[b].id());
                        }
                    }
                    lemma_by_id(after);
                    lemma_same_map(before, after, row, i as int);
                }
            },
            None => {
                self.rows.push(row);
                proof {
                    let after = self.rows@;
                    assert(after.drop_last() =~= before);
                    assert(unique_ids(after)) by {
                        assert forall|a: int, b: int|
                            #![trigger after[a], after[b]]
                            0 <= a < b < after.len() implies after[a].id() != after[b].id() by {
                            assert(after[a] == before[a]);
                            if b < before.len() {
                                assert(after[b] == before[b]);
                            }
                        }
                    }
                }
            },
        }
    }

    /// Remove the record with an id, if there is one.
    pub fn remove(&mut self, id: &str) -> (removed: bool)
        requires
            old(self).wf(),
        ensures
            final(self).wf(),
            final(self)@ == old(self)@.remove(id@),
            removed == old(self)@.contains_key(id@),
    {
        let ghost before = self.rows@;
        match self.place_of(id) {
            Some(i) => {
                self.rows.remove(i);
                proof {
                    let after = self.rows@;
                    let p = i as int;
                    assert(unique_ids(after)) by {
                        assert forall|a: int, b: int|
                            #![trigger after[a], after[b]]
                            0 <= a < b < after.len() implies after[a].id() != after[b].id() by {
                            let from_a = if a < p { a } else { a + 1 };
                            let from_b = if b < p { b } else { b + 1 };
                            assert(after[a] == before[from_a] && after[b] == before[from_b]);
                        }
                    }
                    lemma_by_id(before);
                    lemma_by_id(after);
                    assert forall|key: Seq<char>| by_id(after).contains_key(key) <==> #[trigger]
                    by_id(before).remove(id@).contains_key(key) by {
                        if by_id(after).contains_key(key) {
                            let a = after.index_of(by_id(after)[key]);
                            let from_a = if a < p { a } else { a + 1 };
                            assert(after[a] == before[from_a]);
                            assert(before[from_a].id() != before[p].id()) by {
                                if from_a < p {
                                } else {
                                    assert(p < from_a);
                                }
                            }
                        }
                        if by_id(before).remove(id@).contains_key(key) {
                            let b = before.index_of(by_id(before)[key]);
                            assert(b != p);
                            let to_b = if b < p { b } else { b - 1 };
                            assert(after[to_b] == before[b]);
                        }
                    }
                    assert forall|key: Seq<char>| #[trigger]
                        by_id(after).contains_key(key) implies by_id(after)[key] == by_id(
                        before,
                    ).remove(id@)[key] by {
                        let a = after.index_of(by_id(after)[key]);
                        let from_a = if a < p { a } else { a + 1 };
                        assert(after[a] == before[from_a]);
                        assert(by_id(before).remove(id@).contains_key(key));
                    }
                    assert(by_id(after) =~= by_id(before).remove(id@));
                }
                true
            },
            None => {
                assert(self@ =~= self@.remove(id@));
                false
            },
        }
    }
}

proof fn lemma_same_map<T: Keyed>(before: Seq<T>, after: Seq<T>, row: T, i: int)
    requires
        unique_ids(before),
        unique_ids(after),
        0 <= i < before.len(),
        before[i].id() == row.id(),
        after == before.update(i, row),
    ensures
        by_id(after) == by_id(before).insert(row.id(), row),
{
    lemma_by_id(before);
    lemma_by_id(after);
    let expected = by_id(before).insert(row.id(), row);
    assert(after[i] == row);
    assert forall|key: Seq<char>| by_id(after).contains_key(key) <==> #[trigger]
    expected.contains_key(key) by {
        if by_id(after).contains_key(key) {
            let a = after.index_of(by_id(after)[key]);
            if a != i {
                assert(after[a] == before[a]);
            }
        }
        if by_id(before).contains_key(key) {
            let b = before.index_of(by_id(before)[key]);
            assert(after[b].id() == key) by {
                if b != i {
                    assert(after[b] == before[b]);
                }
            }
        }
    }
    assert forall|key: Seq<char>| #[trigger] by_id(after).contains_key(key) implies by_id(
        after,
    )[key] == expected[key] by {
        let a = after.index_of(by_id(after)[key]);
        if a != i {
            assert(after[a] == before[a]);
            assert(before[a].id() != row.id()) by {
                if a < i {
                    assert(before[a].id() != before[i].id());
                } else {
                    assert(before[i].id() != before[a].id());
                }
            }
        }
    }
    assert(by_id(after) =~= expected);
}

/// What was stored under an id is found under it, and what is found under every other id is what
/// was found there before.
pub proof fn law_stored_record_is_found<T: Keyed>(
    table: &mut Table<T>,
    row: T,
    id: &str,
    before: &Table<T>,
    found_before: Option<&T>,
    after: &Table<T>,
    found: Option<&T>,
)
    requires
        old(table).wf(),
        *before == *old(table),
        *after == *final(table),
        call_ensures(Table::<T>::put, (table, row), ()),
        call_ensures(Table::<T>::get, (before, id), found_before),
        call_ensures(Table::<T>::get, (after, id), found),
    ensures
        id@ == row.id() ==> found is Some && *found->0 == row,
        id@ != row.id() ==> (found is Some <==> found_before is Some),
        id@ != row.id() && found is Some ==> *found->0 == *found_before->0,
{
}

/// What was removed is found no longer, and everything else is found as before.
pub proof fn law_removed_record_is_gone<T: Keyed>(
    table: &mut Table<T>,
    gone: &str,
    removed: bool,
    id: &str,
    before: &Table<T>,
    found_before: Option<&T>,
    after: &Table<T>,
    found: Option<&T>,
)
    requires
        old(table).wf(),
        *before == *old(table),
        *after == *final(table),
        call_ensures(Table::<T>::remove, (table, gone), removed),
        call_ensures(Table::<T>::get, (before, id), found_before),
        call_ensures(Table::<T>::get, (after, id), found),
    ensures
        id@ == gone@ ==> found is None && (removed <==> found_before is Some),
        id@ != gone@ ==> (found is Some <==> found_before is Some),
        id@ != gone@ && found is Some ==> *found->0 == *found_before->0,
{
}

/// A new table holds nothing, and what is found under an id in any table is one of its records,
/// and that one's own id.
pub proof fn law_records_are_found_by_their_own_id<T: Keyed>(
    empty: Table<T>,
    table: &Table<T>,
    id: &str,
    found: Option<&T>,
    count: usize,
)
    requires
        call_ensures(Table::<T>::new, (), empty),
        table.wf(),
        call_ensures(Table::<T>::get, (table, id), found),
        call_ensures(Table::<T>::len, (table,), count),
    ensures
        empty.rows().len() == 0,
        count == table.rows().len(),
        found is Some ==> found->0.id() == id@ && table.rows().contains(*found->0),
        (exists|i: int| 0 <= i < table.rows().len() && (#[trigger] table.rows()[i]).id() == id@)
            ==> found is Some,
{
    lemma_by_id(table.rows());
    if exists|i: int| 0 <= i < table.rows().len() && (#[trigger] table.rows()[i]).id() == id@ {
        let i = choose|i: int|
            0 <= i < table.rows().len() && (#[trigger] table.rows()[i]).id() == id@;
        assert(table@.contains_pair(table.rows()[i].id(), table.rows()[i]));
    }
}

} // verus!
