//! A table of amounts.
//!
//! The bank keeps its supplies, balances, allowances and counters in such
//! tables. A place is named by three identities, and a place that was never
//! written holds zero.

use crate::address::Address;
use crate::amount::Amount;
use vstd::prelude::*;

verus! {

/// The name of a place in a table.
pub type Place = (Address, Address, Address);

/// One written place of a table.
#[derive(Clone, Copy, Debug, PartialEq, Eq, Structural)]
pub struct Cell {
    pub a: Address,
    pub b: Address,
    pub c: Address,
    pub amount: Amount,
}

impl Cell {
    /// The place that the cell writes.
    pub open spec fn place(self) -> Place {
        (self.a, self.b, self.c)
    }
}

/// What a list of cells holds at a place: the amount of the last cell
/// written there, or zero.
pub open spec fn stored(cells: Seq<Cell>, p: Place) -> nat
    decreases cells.len(),
{
    if cells.len() == 0 {
        0
    } else if cells.last().place() == p {
        cells.last().amount@
    } else {
        stored(cells.drop_last(), p)
    }
}

/// Replacing the last cell of a place changes that place and no other.
pub proof fn lemma_stored_update(cells: Seq<Cell>, j: int, c: Cell, p: Place)
    requires
        0 <= j < cells.len(),
        cells[j].place() == c.place(),
        forall|k: int| j < k < cells.len() ==> cells[k].place() != c.place(),
    ensures
        stored(cells.update(j, c), p) == if p == c.place() {
            c.amount@
        } else {
            stored(cells, p)
        },
    decreases cells.len(),
{
    let after = cells.update(j, c);
    if j == cells.len() - 1 {
        assert(after.drop_last() =~= cells.drop_last());
    } else {
        assert(after.drop_last() =~= cells.drop_last().update(j, c));
        assert(after.last() == cells.last());
        lemma_stored_update(cells.drop_last(), j, c, p);
    }
}

/// A table of amounts.
#[derive(Debug)]
pub struct Table {
    pub cells: Vec<Cell>,
}

impl View for Table {
    type V = Map<Place, nat>;

    /// The table as a map from every place to what it holds.
    open spec fn view(&self) -> Map<Place, nat> {
        Map::total(|p: Place| stored(self.cells@, p))
    }
}

/// The table that holds zero everywhere.
pub open spec fn blank() -> Map<Place, nat> {
    Map::total(|p: Place| 0nat)
}

impl Table {
    /// A table that holds zero everywhere.
    pub fn new() -> (r: Table)
        ensures
            r@ == blank(),
    {
        let r = Table { cells: Vec::new() };
        proof {
            assert(r@ =~= blank());
        }
        r
    }

    /// A second table that holds what this one holds.
    pub fn duplicate(&self) -> (r: Table)
        ensures
            r@ == self@,
            r.cells@ == self.cells@,
    {
        let mut cells: Vec<Cell> = Vec::new();
        let mut i: usize = 0;
        while i < self.cells.len()
            invariant
                i <= self.cells@.len(),
                cells@ == self.cells@.subrange(0, i as int),
            decreases self.cells@.len() - i,
        {
            cells.push(self.cells[i]);
            i = i + 1;
            proof {
                assert(cells@ =~= self.cells@.subrange(0, i as int));
            }
        }
        proof {
            assert(cells@ =~= self.cells@);
        }
        Table { cells }
    }

    /// Where the last cell of a place stands, if the place was written.
    fn position(&self, a: Address, b: Address, c: Address) -> (r: Option<usize>)
        ensures
            match r {
                Some(j) => j < self.cells@.len() && self.cells@[j as int].place() == (a, b, c)
                    && stored(self.cells@, (a, b, c)) == self.cells@[j as int].amount@
                    && forall|k: int|
                    j < k < self.cells@.len() ==> self.cells@[k].place() != (a, b, c),
                None => stored(self.cells@, (a, b, c)) == 0,
            },
    {
        let mut i: usize = self.cells.len();
        proof {
            assert(self.cells@.subrange(0, i as int) =~= self.cells@);
        }
        while i > 0
            invariant
                i <= self.cells@.len(),
                stored(self.cells@, (a, b, c)) == stored(
                    self.cells@.subrange(0, i as int),
                    (a, b, c),
                ),
                forall|k: int| i <= k < self.cells@.len() ==> self.cells@[k].place() != (a, b, c),
            decreases i,
        {
            proof {
                assert(self.cells@.subrange(0, i as int).drop_last() =~= self.cells@.subrange(
                    0,
                    i - 1,
                ));
            }
            i = i - 1;
            let cell = self.cells[i];
            if cell.a.same(&a) && cell.b.same(&b) && cell.c.same(&c) {
                return Some(i);
            }
        }
        None
    }

    /// Reads a place.
    pub fn get(&self, a: Address, b: Address, c: Address) -> (r: Amount)
        ensures
            r@ == self@[(a, b, c)],
    {
        match self.position(a, b, c) {
            Some(j) => self.cells[j].amount,
            None => Amount::zero(),
        }
    }

    /// Writes a place, and leaves every other place as it was.
    pub fn set(&mut self, a: Address, b: Address, c: Address, amount: Amount)
        ensures
            final(self)@ == old(self)@.insert((a, b, c), amount@),
    {
        let cell = Cell { a, b, c, amount };
        let ghost before = self.cells@;
        match self.position(a, b, c) {
            Some(j) => {
                proof {
                    assert forall|p: Place|
                        stored(before.update(j as int, cell), p) == if p == (a, b, c) {
                            amount@
                        } else {
                            #[trigger] stored(before, p)
                        } by {
                        lemma_stored_update(before, j as int, cell, p);
                    }
                }
                self.cells[j] = cell;
            },
            None => {
                proof {
                    assert(before.push(cell).drop_last() =~= before);
                }
                self.cells.push(cell);
            },
        }
        proof {
            assert(self@ =~= old(self)@.insert((a, b, c), amount@));
        }
    }
}

} // verus!
