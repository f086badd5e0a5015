//! A decoded row: the cells of one row of a batch, by column name.

use crate::text::same_text;
use crate::{datum_of, Datum, Value};
use vstd::prelude::*;

verus! {

/// The names of the entries, in order.
pub open spec fn names_of(entries: Seq<(Seq<char>, Option<Datum>)>) -> Seq<Seq<char>> {
    Seq::new(entries.len(), |i: int| entries[i].0)
}

/// Whether no two entries have the same name.
pub open spec fn distinct_names(entries: Seq<(Seq<char>, Option<Datum>)>) -> bool {
    forall|i: int, j: int|
        0 <= i < j < entries.len() ==> (#[trigger] entries[i]).0 != (#[trigger] entries[j]).0
}

/// The entries after `name` has been given the cell `cell`: in place
/// where a cell of that name was there, at the end where none was.
pub open spec fn put(
    entries: Seq<(Seq<char>, Option<Datum>)>,
    name: Seq<char>,
    cell: Option<Datum>,
) -> Seq<(Seq<char>, Option<Datum>)> {
    if names_of(entries).contains(name) {
        entries.update(names_of(entries).index_of(name), (name, cell))
    } else {
        entries.push((name, cell))
    }
}

/// Putting a cell keeps the names distinct.
pub proof fn lemma_put_distinct(
    entries: Seq<(Seq<char>, Option<Datum>)>,
    name: Seq<char>,
    cell: Option<Datum>,
)
    requires
        distinct_names(entries),
    ensures
        distinct_names(put(entries, name, cell)),
{
    let names = names_of(entries);
    let after = put(entries, name, cell);
    if names.contains(name) {
        let at = names.index_of(name);
        assert(0 <= at < names.len() && names[at] == name);
        assert(entries[at].0 == name);
    } else {
        assert forall|i: int, j: int| 0 <= i < j < after.len() implies (#[trigger] after[i]).0 != (
        #[trigger] after[j]).0 by {
            if j == entries.len() {
                assert(names[i] == entries[i].0);
                assert(names.contains(names[i]));
            }
        }
    }
}

/// After a cell is put, the names are those that were there and the name
/// of the cell, and the cell under that name is the one that was put.
pub proof fn lemma_put_names(
    entries: Seq<(Seq<char>, Option<Datum>)>,
    name: Seq<char>,
    cell: Option<Datum>,
)
    requires
        distinct_names(entries),
    ensures
        forall|other: Seq<char>|
            names_of(put(entries, name, cell)).contains(other) <==> (other == name || names_of(
                entries,
            ).contains(other)),
        names_of(put(entries, name, cell)).contains(name),
        put(entries, name, cell)[names_of(put(entries, name, cell)).index_of(name)].1 == cell,
{
    let names = names_of(entries);
    let after = put(entries, name, cell);
    let after_names = names_of(after);
    lemma_put_distinct(entries, name, cell);
    let at = if names.contains(name) {
        names.index_of(name)
    } else {
        entries.len() as int
    };
    if names.contains(name) {
        assert(0 <= at < names.len() && names[at] == name);
    }
    assert(after_names[at] == name);
    assert forall|other: Seq<char>| after_names.contains(other) <==> (other == name
        || names.contains(other)) by {
        if after_names.contains(other) {
            let p = after_names.index_of(other);
            assert(0 <= p < after_names.len() && after_names[p] == other);
            if p != at {
                assert(names[p] == other);
            }
        }
        if names.contains(other) {
            let p = names.index_of(other);
            assert(0 <= p < names.len() && names[p] == other);
            assert(after_names[p] == other);
        }
    }
    let found = after_names.index_of(name);
    assert(0 <= found < after_names.len() && after_names[found] == name);
    if found != at {
        if found < at {
            assert(after[found].0 != after[at].0);
        } else {
            assert(after[at].0 != after[found].0);
        }
    }
}

/// The cells of one row, by column name, in the order in which the columns
/// were first put. Its view is the sequence of names and cells.
#[derive(Debug, PartialEq, Eq)]
pub struct DecodedRow {
    cells: Vec<(String, Option<Value>)>,
}

impl View for DecodedRow {
    type V = Seq<(Seq<char>, Option<Datum>)>;

    closed spec fn view(&self) -> Seq<(Seq<char>, Option<Datum>)> {
        Seq::new(self.cells@.len(), |i: int| (self.cells@[i].0@, datum_of(self.cells@[i].1)))
    }
}

impl DecodedRow {
    /// No two cells of a row have the same name.
    #[verifier::type_invariant]
    pub open spec fn wf(&self) -> bool {
        distinct_names(self@)
    }

    /// The row without cells.
    pub fn new() -> (row: Self)
        ensures
            row@ == Seq::<(Seq<char>, Option<Datum>)>::empty(),
    {
        let row = DecodedRow { cells: Vec::new() };
        assert(row@ =~= Seq::<(Seq<char>, Option<Datum>)>::empty());
        row
    }

    /// The number of cells.
    pub fn len(&self) -> (n: usize)
        ensures
            n == self@.len(),
    {
        self.cells.len()
    }

    /// The name of the cell at index `i`.
    pub fn name_at(&self, i: usize) -> (name: &String)
        requires
            i < self@.len(),
        ensures
            name@ == self@[i as int].0,
    {
        &self.cells[i].0
    }

    /// The cell at index `i`.
    pub fn value_at(&self, i: usize) -> (cell: &Option<Value>)
        requires
            i < self@.len(),
        ensures
            datum_of(*cell) == self@[i as int].1,
    {
        &self.cells[i].1
    }

    /// The index of the cell named `name`, if the row has one.
    pub fn position(&self, name: &str) -> (at: Option<usize>)
        ensures
            match at {
                Some(i) => i < self@.len() && self@[i as int].0 == name@ && names_of(
                    self@,
                ).index_of(name@) == i,
                None => !names_of(self@).contains(name@),
            },
    {
        proof {
            use_type_invariant(self);
        }
        let mut i: usize = 0;
        while i < self.cells.len()
            invariant
                i <= self.cells@.len(),
                distinct_names(self@),
                forall|j: int| 0 <= j < i ==> (#[trigger] self@[j]).0 != name@,
            decreases self.cells@.len() - i,
        {
            if same_text(self.cells[i].0.as_str(), name) {
                proof {
                    let names = names_of(self@);
                    assert(names[i as int] == name@);
                    let found = names.index_of(name@);
                    assert(0 <= found < names.len() && names[found] == name@);
                    assert(self@[found].0 == name@);
                }
                return Some(i);
            }
            i += 1;
        }
        proof {
            let names = names_of(self@);
            if names.contains(name@) {
                let found = names.index_of(name@);
                assert(0 <= found < names.len() && names[found] == name@);
                assert(self@[found].0 == name@);
            }
        }
        None
    }

    /// The cell named `name`, if the row has one.
    pub fn get(&self, name: &str) -> (cell: Option<&Option<Value>>)
        ensures
            match cell {
                Some(found) => names_of(self@).contains(name@) && datum_of(*found)
                    == self@[names_of(self@).index_of(name@)].1,
                None => !names_of(self@).contains(name@),
            },
    {
        match self.position(name) {
            Some(i) => {
                assert(names_of(self@)[i as int] == name@);
                Some(&self.cells[i].1)
            },
            None => None,
        }
    }

    /// Gives `name` the cell `cell`: in place of the cell that the name
    /// had, or as a new last cell.
    pub fn insert(&mut self, name: String, cell: Option<Value>)
        ensures
            final(self)@ == put(old(self)@, name@, datum_of(cell)),
    {
        let at = self.position(name.as_str());
        proof {
            use_type_invariant(&*self);
            lemma_put_distinct(self@, name@, datum_of(cell));
        }
        let ghost before = self@;
        let mut cells: Vec<(String, Option<Value>)> = Vec::new();
        core::mem::swap(&mut self.cells, &mut cells);
        let ghost held = cells@;
        proof {
            assert(before =~= Seq::new(held.len(), |i: int| (held[i].0@, datum_of(held[i].1))));
        }
        match at {
            Some(i) => {
                cells.set(i, (name, cell));
                proof {
                    assert(names_of(before).contains(name@)) by {
                        assert(names_of(before)[i as int] == name@);
                    }
                    assert(Seq::new(cells@.len(), |k: int| (cells@[k].0@, datum_of(cells@[k].1)))
                        =~= before.update(i as int, (name@, datum_of(cell))));
                }
            },
            None => {
                cells.push((name, cell));
                proof {
                    assert(Seq::new(cells@.len(), |k: int| (cells@[k].0@, datum_of(cells@[k].1)))
                        =~= before.push((name@, datum_of(cell))));
                }
            },
        }
        self.cells = cells;
    }
}

} // verus!
