//! Cells: where an object falls on the grid, and which object stays.
//!
//! An object's position is divided by 160 to give its cell. A cell holds at
//! most one object: of several that fall into it, the one with the greatest
//! `z_position` stays, and of several with the same the first.

use crate::level::Object;
use vstd::prelude::*;

verus! {

/// World units per cell, in both directions.
pub const SCALE: u32 = 160;

/// The number of columns that are read back.
pub const GRID_COLUMNS: u32 = 240;

/// The number of rows that are read back, and the height of one band.
pub const GRID_ROWS: u32 = 27;

impl Object {
    /// The column of the cell an object falls into.
    pub open spec fn cell_column(self) -> int {
        self.x_position as int / 160
    }

    /// The row of the cell an object falls into. The quotient is rounded
    /// towards zero, so positions just above the top edge count as row 0.
    pub open spec fn cell_row(self) -> int {
        if self.y_position >= 0 {
            self.y_position as int / 160
        } else {
            -((-(self.y_position as int)) / 160)
        }
    }

    /// Whether an object falls into the cell in column `col` of row `row`.
    pub open spec fn in_cell(self, col: int, row: int) -> bool {
        self.cell_column() == col && self.cell_row() == row
    }
}

/// Whether encoding writes the cell. This takes in one column and one row
/// more than decoding reads.
pub open spec fn written_cell(col: int, row: int) -> bool {
    0 <= col <= GRID_COLUMNS && 0 <= row <= GRID_ROWS
}

/// Whether decoding reads the cell.
pub open spec fn readable_cell(col: int, row: int) -> bool {
    0 <= col < GRID_COLUMNS && 0 <= row < GRID_ROWS
}

/// What a cell holds once `obj` has been offered to it: `obj`, if it falls
/// into the cell and the cell is free or holds an object further back.
pub open spec fn offered(slot: Option<Object>, obj: Object, col: int, row: int) -> Option<Object> {
    if obj.in_cell(col, row) && (slot is None || slot->0.z_position < obj.z_position) {
        Some(obj)
    } else {
        slot
    }
}

/// The object that stays in a cell when `objs` are offered in order.
pub open spec fn winner(objs: Seq<Object>, col: int, row: int) -> Option<Object>
    decreases objs.len(),
{
    if objs.len() == 0 {
        None
    } else {
        offered(winner(objs.drop_last(), col, row), objs.last(), col, row)
    }
}

/// Every object that stays in a cell is one of those offered, and falls
/// into that cell.
pub proof fn lemma_winner_is_member(objs: Seq<Object>, col: int, row: int)
    requires
        winner(objs, col, row) is Some,
    ensures
        exists|i: int| 0 <= i < objs.len() && objs[i] == winner(objs, col, row)->0,
        winner(objs, col, row)->0.in_cell(col, row),
    decreases objs.len(),
{
    if objs.len() > 0 {
        let before = winner(objs.drop_last(), col, row);
        if winner(objs, col, row) == before {
            lemma_winner_is_member(objs.drop_last(), col, row);
            let i = choose|i: int| 0 <= i < objs.drop_last().len() && objs.drop_last()[i] == before->0;
            assert(objs[i] == winner(objs, col, row)->0);
        } else {
            assert(objs[objs.len() - 1] == winner(objs, col, row)->0);
        }
    }
}

/// The object that stays in a cell is the one in front: no object of the
/// cell has a greater `z_position`, and none offered before it has the same.
pub proof fn lemma_winner_is_in_front(objs: Seq<Object>, col: int, row: int, j: int)
    requires
        0 <= j < objs.len(),
        objs[j].in_cell(col, row),
    ensures
        winner(objs, col, row) is Some,
        objs[j].z_position <= winner(objs, col, row)->0.z_position,
        exists|i: int|
            0 <= i < objs.len() && objs[i] == winner(objs, col, row)->0 && (objs[j].z_position
                == objs[i].z_position ==> i <= j),
    decreases objs.len(),
{
    let rest = objs.drop_last();
    let before = winner(rest, col, row);
    let last = objs.len() - 1;
    if j < last {
        lemma_winner_is_in_front(rest, col, row, j);
        if winner(objs, col, row) == before {
            let i = choose|i: int|
                0 <= i < rest.len() && rest[i] == before->0 && (rest[j].z_position
                    == rest[i].z_position ==> i <= j);
            assert(objs[i] == winner(objs, col, row)->0);
        } else {
            assert(objs[last] == winner(objs, col, row)->0);
        }
    } else {
        if winner(objs, col, row) == before && before is Some {
            lemma_winner_is_member(rest, col, row);
            let i = choose|i: int| 0 <= i < rest.len() && rest[i] == before->0;
            assert(objs[i] == winner(objs, col, row)->0);
        } else {
            assert(objs[last] == winner(objs, col, row)->0);
        }
    }
}

/// A cell into which no object falls stays empty.
pub proof fn lemma_winner_of_empty_cell(objs: Seq<Object>, col: int, row: int)
    requires
        forall|i: int| 0 <= i < objs.len() ==> !(#[trigger] objs[i]).in_cell(col, row),
    ensures
        winner(objs, col, row) is None,
    decreases objs.len(),
{
    if objs.len() > 0 {
        assert(!objs[objs.len() - 1].in_cell(col, row));
        assert forall|i: int| 0 <= i < objs.drop_last().len() implies !(
        #[trigger] objs.drop_last()[i]).in_cell(col, row) by {
            assert(objs.drop_last()[i] == objs[i]);
        }
        lemma_winner_of_empty_cell(objs.drop_last(), col, row);
    }
}

/// The number of slots for one row of cells.
const ROW_SLOTS: usize = 241;

/// The number of slots of a grid: one for each cell that is written.
const SLOTS: usize = 6748;

/// The slot of a cell.
spec fn slot_index(col: int, row: int) -> int {
    row * ROW_SLOTS + col
}

/// A table with one slot for each cell that is written, each slot free or
/// holding the object that stays in that cell.
pub struct ObjectGrid {
    slots: Vec<Option<Object>>,
}

impl ObjectGrid {
    /// Whether the table has all its slots.
    pub closed spec fn wf(self) -> bool {
        self.slots@.len() == SLOTS
    }

    /// What the slot of a cell holds.
    pub closed spec fn at(self, col: int, row: int) -> Option<Object> {
        self.slots@[slot_index(col, row)]
    }

    /// A grid with every slot free.
    pub fn new() -> (grid: ObjectGrid)
        ensures
            grid.wf(),
            forall|col: int, row: int|
                written_cell(col, row) ==> #[trigger] grid.at(col, row) is None,
    {
        let mut slots: Vec<Option<Object>> = Vec::new();
        let mut n: usize = 0;
        while n < SLOTS
            invariant
                n <= SLOTS,
                slots@.len() == n,
                forall|i: int| 0 <= i < n ==> slots@[i] is None,
            decreases SLOTS - n,
        {
            slots.push(None);
            n += 1;
        }
        ObjectGrid { slots }
    }

    /// What the slot of a cell holds.
    pub fn get(&self, col: u32, row: u32) -> (slot: Option<Object>)
        requires
            self.wf(),
            written_cell(col as int, row as int),
        ensures
            slot == self.at(col as int, row as int),
    {
        let index: usize = row as usize * ROW_SLOTS + col as usize;
        self.slots[index]
    }

    /// Offers an object to the grid. Only the slot of the object's own cell
    /// can change, and an object whose cell is not written changes nothing.
    pub fn place(&mut self, obj: Object)
        requires
            old(self).wf(),
        ensures
            final(self).wf(),
            forall|col: int, row: int|
                written_cell(col, row) ==> #[trigger] final(self).at(col, row) == offered(
                    old(self).at(col, row),
                    obj,
                    col,
                    row,
                ),
    {
        let col = obj.x_position / SCALE;
        let row = obj.y_position / (SCALE as i16);
        if col <= GRID_COLUMNS && 0 <= row && row <= GRID_ROWS as i16 {
            let index: usize = row as usize * ROW_SLOTS + col as usize;
            let free = match self.slots[index] {
                Some(kept) => kept.z_position < obj.z_position,
                None => true,
            };
            if free {
                self.slots.set(index, Some(obj));
            }
            assert forall|c: int, r: int| written_cell(c, r) implies #[trigger] self.at(c, r)
                == offered(
                old(self).at(c, r),
                obj,
                c,
                r,
            ) by {
                if slot_index(c, r) == index {
                    assert(c == col && r == row);
                }
            }
        }
    }

    /// The grid that results when `objs` are offered in order.
    pub fn from_objects(objs: &Vec<Object>) -> (grid: ObjectGrid)
        ensures
            grid.wf(),
            forall|col: int, row: int|
                written_cell(col, row) ==> #[trigger] grid.at(col, row) == winner(
                    objs@,
                    col,
                    row,
                ),
    {
        let mut grid = ObjectGrid::new();
        let mut n: usize = 0;
        while n < objs.len()
            invariant
                n <= objs.len(),
                grid.wf(),
                forall|col: int, row: int|
                    written_cell(col, row) ==> #[trigger] grid.at(col, row) == winner(
                        objs@.take(n as int),
                        col,
                        row,
                    ),
            decreases objs.len() - n,
        {
            grid.place(objs[n]);
            proof {
                assert(objs@.take(n + 1).drop_last() =~= objs@.take(n as int));
            }
            n += 1;
        }
        proof {
            assert(objs@.take(n as int) =~= objs@);
        }
        grid
    }
}

} // verus!
