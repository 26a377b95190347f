//! What encoding followed by decoding gives back.
//!
//! The header comes back unchanged. Of the objects, one per cell comes
//! back, the one in front, moved to the corner of its cell; an object
//! outside the grid, or behind another in its cell, or of type zero, is
//! lost. All of this presumes that the part of the canvas that holds the
//! first band showed no object before the level was written, as on a
//! fresh canvas.

use crate::assemble::{level_fits, with_level};
use crate::canvas::blank_pixels;
use crate::color::{color_of_u16, lemma_u16_round_trip, u16_of_color, Color};
use crate::cells::{
    lemma_winner_is_member, lemma_winner_of_empty_cell, readable_cell, winner, written_cell,
    GRID_COLUMNS, GRID_ROWS, SCALE,
};
use crate::grid::{
    band_row, band_word, cell_object, cell_occupied, cell_on_canvas, cell_word, decoded_objects,
    grid_blank, grid_pixel, object_of_words, objects_readable, pair_word, scan_row, scan_rows,
    with_objects, Layout,
};
use crate::header::{header_of_pixels, in_header, lemma_header_round_trip, with_header};
use crate::level::{Header, Object};
use vstd::prelude::*;

verus! {

impl Object {
    /// An object as decoding gives it back: on the corner of its cell,
    /// and with `0`, `-1` and `-1` in the fields that the canvas does not
    /// store.
    pub open spec fn as_decoded(self) -> Object {
        Object {
            x_position: (self.cell_column() * SCALE) as u32,
            y_position: (self.cell_row() * SCALE) as i16,
            extended_object_data: 0,
            link_id: -1i16,
            effect_index: -1i16,
            ..self
        }
    }
}

/// What decoding finds in a cell after `objs` were encoded on a canvas
/// that showed no object: the object in front, unless its type is zero.
pub open spec fn survivor(objs: Seq<Object>, col: int, row: int) -> Option<Object> {
    match winner(objs, col, row) {
        Some(obj) => if obj.object_type != 0 {
            Some(obj.as_decoded())
        } else {
            None
        },
        None => None,
    }
}

/// The objects that come back after `objs` were encoded on a canvas that
/// showed no object.
pub open spec fn survivors(objs: Seq<Object>) -> Seq<Object> {
    scan_rows(|col: int, row: int| survivor(objs, col, row), GRID_ROWS as int)
}

/// Two signed bytes packed into a word are found again in its halves.
pub proof fn lemma_pair_round_trip(high: i8, low: i8)
    ensures
        (pair_word(high, low) >> 8) as i8 == high,
        pair_word(high, low) as i8 == low,
{
    assert((pair_word(high, low) >> 8) as i8 == high && pair_word(high, low) as i8 == low)
        by (bit_vector);
}

/// A signed 32-bit value cut into two words is found again by joining
/// them.
pub proof fn lemma_signed_halves_round_trip(value: i32)
    ensures
        (((((value >> 16) as u16) as u32) << 16) | (((value & 0xFFFF) as u16) as u32)) as i32
            == value,
{
    assert((((((value >> 16) as u16) as u32) << 16) | (((value & 0xFFFF) as u16) as u32)) as i32
        == value) by (bit_vector);
}

/// An unsigned 32-bit value cut into two words is found again by joining
/// them.
pub proof fn lemma_halves_round_trip(value: u32)
    ensures
        ((((value >> 16) as u16) as u32) << 16) | (((value & 0xFFFF) as u16) as u32) == value,
{
    assert(((((value >> 16) as u16) as u32) << 16) | (((value & 0xFFFF) as u16) as u32) == value)
        by (bit_vector);
}

/// The nine words of an object stand for that object as decoding gives it
/// back, provided its cell is one that is read.
pub proof fn lemma_object_round_trip(obj: Object)
    requires
        readable_cell(obj.cell_column(), obj.cell_row()),
    ensures
        object_of_words(
            obj.cell_column(),
            obj.cell_row(),
            Seq::new(9, |band: int| band_word(obj, band)),
        ) == obj.as_decoded(),
{
    let words = Seq::new(9, |band: int| band_word(obj, band));
    lemma_pair_round_trip(obj.object_type, obj.transformation_id);
    lemma_pair_round_trip(obj.width, obj.height);
    lemma_pair_round_trip(obj.child_object_type, obj.child_object_transformation_id);
    lemma_signed_halves_round_trip(obj.z_position);
    lemma_halves_round_trip(obj.object_flags);
    lemma_halves_round_trip(obj.child_object_flags);
    assert(words[0] == band_word(obj, 0));
    assert(words[1] == band_word(obj, 1));
    assert(words[2] == band_word(obj, 2));
    assert(words[3] == band_word(obj, 3));
    assert(words[4] == band_word(obj, 4));
    assert(words[5] == band_word(obj, 5));
    assert(words[6] == band_word(obj, 6));
    assert(words[7] == band_word(obj, 7));
    assert(words[8] == band_word(obj, 8));
}

/// After encoding, each of the nine bands shows, for a cell that is
/// read back and in which an object stays, the word of that object.
pub proof fn lemma_encoded_word(
    pixels: Map<(int, int), Color>,
    objs: Seq<Object>,
    y_offset: int,
    col: int,
    row: int,
    band: int,
)
    requires
        readable_cell(col, row),
        0 <= band < 9,
        winner(objs, col, row) is Some,
    ensures
        cell_word(with_objects(Layout::Full, pixels, objs, y_offset), y_offset, col, row, band) == band_word(
            winner(objs, col, row)->0,
            band,
        ),
{
    let p = (col, band_row(y_offset, band, row));
    let below = p.1 - (y_offset + 1);
    assert(below == 27 * band + row);
    assert(below / 27 == band && below % 27 == row);
    assert(grid_pixel(Layout::Full, objs, y_offset, p) == Some(
        color_of_u16(band_word(winner(objs, col, row)->0, band)),
    ));
    lemma_u16_round_trip(band_word(winner(objs, col, row)->0, band));
}

/// Encoding leaves the first band of a cell in which no object stays as
/// it was.
pub proof fn lemma_empty_cell_untouched(
    pixels: Map<(int, int), Color>,
    objs: Seq<Object>,
    y_offset: int,
    col: int,
    row: int,
)
    requires
        readable_cell(col, row),
        cell_on_canvas(pixels, y_offset, col, row),
        winner(objs, col, row) is None,
    ensures
        cell_occupied(with_objects(Layout::Full, pixels, objs, y_offset), y_offset, col, row) == cell_occupied(
            pixels,
            y_offset,
            col,
            row,
        ),
{
    let p = (col, band_row(y_offset, 0, row));
    let below = p.1 - (y_offset + 1);
    assert(below == row);
    assert(below / 27 == 0 && below % 27 == row);
    assert(grid_pixel(Layout::Full, objs, y_offset, p) is None);
}

/// What decoding finds in a cell after encoding: where an object stays in
/// the cell, that object as decoding gives it back, or nothing if its type
/// is zero; elsewhere an object or none, as the canvas showed one there
/// before or none.
pub proof fn lemma_cell_round_trip(
    pixels: Map<(int, int), Color>,
    objs: Seq<Object>,
    y_offset: int,
    col: int,
    row: int,
)
    requires
        readable_cell(col, row),
        cell_on_canvas(pixels, y_offset, col, row),
    ensures
        winner(objs, col, row) is Some ==> cell_object(
            with_objects(Layout::Full, pixels, objs, y_offset),
            y_offset,
            col,
            row,
        ) == survivor(objs, col, row),
        winner(objs, col, row) is None ==> (cell_object(
            with_objects(Layout::Full, pixels, objs, y_offset),
            y_offset,
            col,
            row,
        ) is Some <==> cell_object(pixels, y_offset, col, row) is Some),
{
    let after = with_objects(Layout::Full, pixels, objs, y_offset);
    match winner(objs, col, row) {
        Some(obj) => {
            lemma_winner_is_member(objs, col, row);
            let words = Seq::new(9, |band: int| cell_word(after, y_offset, col, row, band));
            assert forall|band: int| 0 <= band < 9 implies words[band] == band_word(
                obj,
                band,
            ) by {
                lemma_encoded_word(pixels, objs, y_offset, col, row, band);
            }
            assert(words =~= Seq::new(9, |band: int| band_word(obj, band)));
            lemma_object_round_trip(obj);
            lemma_encoded_word(pixels, objs, y_offset, col, row, 0);
            lemma_pair_round_trip(obj.object_type, obj.transformation_id);
        },
        None => {
            lemma_empty_cell_untouched(pixels, objs, y_offset, col, row);
        },
    }
}

/// Two ways to fill the cells that agree on every cell that is read give
/// the same objects.
pub proof fn lemma_scan_agrees(
    left: spec_fn(int, int) -> Option<Object>,
    right: spec_fn(int, int) -> Option<Object>,
    rows: int,
)
    requires
        rows <= GRID_ROWS,
        forall|col: int, row: int| readable_cell(col, row) ==> left(col, row) == right(col, row),
    ensures
        scan_rows(left, rows) == scan_rows(right, rows),
    decreases rows,
{
    if rows > 0 {
        lemma_scan_agrees(left, right, rows - 1);
        lemma_scan_row_agrees(left, right, rows - 1, GRID_COLUMNS as int);
    }
}

/// The same for the cells of one row.
proof fn lemma_scan_row_agrees(
    left: spec_fn(int, int) -> Option<Object>,
    right: spec_fn(int, int) -> Option<Object>,
    row: int,
    cols: int,
)
    requires
        0 <= row < GRID_ROWS,
        cols <= GRID_COLUMNS,
        forall|col: int, row: int| readable_cell(col, row) ==> left(col, row) == right(col, row),
    ensures
        scan_row(left, row, cols) == scan_row(right, row, cols),
    decreases cols,
{
    if cols > 0 {
        lemma_scan_row_agrees(left, right, row, cols - 1);
        assert(readable_cell(cols - 1, row));
    }
}

/// Objects encoded on a canvas that showed none come back one per cell:
/// the object in front, as decoding gives it back, unless its type is zero.
pub proof fn lemma_objects_round_trip(
    pixels: Map<(int, int), Color>,
    objs: Seq<Object>,
    y_offset: int,
)
    requires
        grid_blank(pixels, y_offset),
    ensures
        decoded_objects(with_objects(Layout::Full, pixels, objs, y_offset), y_offset) == survivors(objs),
{
    let after = with_objects(Layout::Full, pixels, objs, y_offset);
    let found = |col: int, row: int| cell_object(after, y_offset, col, row);
    let kept = |col: int, row: int| survivor(objs, col, row);
    assert forall|col: int, row: int| readable_cell(col, row) implies found(col, row) == kept(
        col,
        row,
    ) by {
        lemma_cell_round_trip(pixels, objs, y_offset, col, row);
        assert(!cell_occupied(pixels, y_offset, col, row));
    }
    lemma_scan_agrees(found, kept, GRID_ROWS as int);
}

/// Writing a header leaves a canvas that showed no object as blank as it
/// was.
pub proof fn lemma_header_keeps_grid_blank(
    pixels: Map<(int, int), Color>,
    header: Header,
    y_offset: int,
)
    requires
        grid_blank(pixels, y_offset),
    ensures
        grid_blank(with_header(pixels, header, y_offset), y_offset),
{
    let headed = with_header(pixels, header, y_offset);
    assert forall|col: int, row: int| readable_cell(col, row) implies cell_on_canvas(
        headed,
        y_offset,
        col,
        row,
    ) && !cell_occupied(headed, y_offset, col, row) by {
        let p = (col, band_row(y_offset, 0, row));
        assert(!in_header(p, y_offset));
        assert(cell_on_canvas(pixels, y_offset, col, row) && !cell_occupied(
            pixels,
            y_offset,
            col,
            row,
        ));
        assert(headed[p] == pixels[p]);
    }
}

/// Encoding objects below a header leaves the header as it was.
pub proof fn lemma_objects_keep_header(
    pixels: Map<(int, int), Color>,
    header: Header,
    objs: Seq<Object>,
    y_offset: int,
)
    ensures
        header_of_pixels(with_level(pixels, header, objs, y_offset), y_offset) == header,
{
    let headed = with_header(pixels, header, y_offset);
    let after = with_objects(Layout::Full, headed, objs, y_offset);
    assert forall|col: int| 0 <= col < 9 implies #[trigger] after[(col, y_offset)] == headed[(
        col,
        y_offset,
    )] by {
        assert(in_header((col, y_offset), y_offset));
        assert(grid_pixel(Layout::Full, objs, y_offset, (col, y_offset)) is None);
    }
    lemma_header_round_trip(pixels, header, y_offset);
}

/// A level encoded on a canvas that showed no object comes back with its
/// header unchanged and with the objects that survive.
pub proof fn lemma_level_round_trip(
    pixels: Map<(int, int), Color>,
    header: Header,
    objs: Seq<Object>,
    y_offset: int,
)
    requires
        grid_blank(pixels, y_offset),
    ensures
        header_of_pixels(with_level(pixels, header, objs, y_offset), y_offset) == header,
        decoded_objects(with_level(pixels, header, objs, y_offset), y_offset) == survivors(objs),
{
    lemma_objects_keep_header(pixels, header, objs, y_offset);
    lemma_header_keeps_grid_blank(pixels, header, y_offset);
    lemma_objects_round_trip(with_header(pixels, header, y_offset), objs, y_offset);
}

/// A fresh canvas that reaches over the first band shows no object.
pub proof fn lemma_fresh_canvas_is_blank(width: nat, height: nat, y_offset: int)
    requires
        GRID_COLUMNS <= width,
        0 <= y_offset,
        y_offset + GRID_ROWS < height,
    ensures
        grid_blank(blank_pixels(width, height), y_offset),
{
    assert(((u16_of_color(Color { r: 0, g: 0, b: 0 }) >> 8) as i8) == 0) by (bit_vector);
}

/// Cells that are all empty give no object.
pub proof fn lemma_scan_of_nothing(cells: spec_fn(int, int) -> Option<Object>, rows: int)
    requires
        rows <= GRID_ROWS,
        forall|col: int, row: int| readable_cell(col, row) ==> cells(col, row) is None,
    ensures
        scan_rows(cells, rows) == Seq::<Object>::empty(),
    decreases rows,
{
    if rows > 0 {
        lemma_scan_of_nothing(cells, rows - 1);
        lemma_scan_row_of_one(cells, rows - 1, GRID_COLUMNS as int, -1, -1);
    }
}

/// A row with at most one occupied cell gives the object of that cell.
proof fn lemma_scan_row_of_one(
    cells: spec_fn(int, int) -> Option<Object>,
    row: int,
    cols: int,
    at_col: int,
    at_row: int,
)
    requires
        0 <= row < GRID_ROWS,
        cols <= GRID_COLUMNS,
        forall|c: int, r: int|
            readable_cell(c, r) && !(c == at_col && r == at_row) ==> cells(c, r) is None,
        readable_cell(at_col, at_row) ==> cells(at_col, at_row) is Some,
    ensures
        scan_row(cells, row, cols) == if row == at_row && 0 <= at_col < cols {
            seq![cells(at_col, at_row)->0]
        } else {
            Seq::<Object>::empty()
        },
    decreases cols,
{
    if cols > 0 {
        lemma_scan_row_of_one(cells, row, cols - 1, at_col, at_row);
        assert(readable_cell(cols - 1, row));
    }
}

/// Cells of which exactly one is occupied give the object of that cell.
pub proof fn lemma_scan_of_one(
    cells: spec_fn(int, int) -> Option<Object>,
    rows: int,
    at_col: int,
    at_row: int,
)
    requires
        rows <= GRID_ROWS,
        readable_cell(at_col, at_row),
        cells(at_col, at_row) is Some,
        forall|c: int, r: int|
            readable_cell(c, r) && !(c == at_col && r == at_row) ==> cells(c, r) is None,
    ensures
        scan_rows(cells, rows) == if at_row < rows {
            seq![cells(at_col, at_row)->0]
        } else {
            Seq::<Object>::empty()
        },
    decreases rows,
{
    if rows > 0 {
        lemma_scan_of_one(cells, rows - 1, at_col, at_row);
        lemma_scan_row_of_one(cells, rows - 1, GRID_COLUMNS as int, at_col, at_row);
    }
}

/// A level without objects, encoded on a canvas that showed none, comes
/// back with its header unchanged and without objects.
pub proof fn lemma_empty_level_round_trip(
    pixels: Map<(int, int), Color>,
    header: Header,
    y_offset: int,
)
    requires
        grid_blank(pixels, y_offset),
    ensures
        header_of_pixels(with_level(pixels, header, Seq::empty(), y_offset), y_offset) == header,
        decoded_objects(with_level(pixels, header, Seq::empty(), y_offset), y_offset)
            == Seq::<Object>::empty(),
{
    let objs = Seq::<Object>::empty();
    lemma_level_round_trip(pixels, header, objs, y_offset);
    lemma_scan_of_nothing(|col: int, row: int| survivor(objs, col, row), GRID_ROWS as int);
}

/// Of two objects in one cell with different `z_position`, only the one
/// with the greater comes back, and it comes back unless its type is zero.
pub proof fn lemma_two_objects_in_one_cell(
    pixels: Map<(int, int), Color>,
    header: Header,
    first: Object,
    second: Object,
    y_offset: int,
)
    requires
        grid_blank(pixels, y_offset),
        readable_cell(first.cell_column(), first.cell_row()),
        second.in_cell(first.cell_column(), first.cell_row()),
        first.z_position != second.z_position,
    ensures
        decoded_objects(with_level(pixels, header, seq![first, second], y_offset), y_offset) == {
            let front = if first.z_position > second.z_position {
                first
            } else {
                second
            };
            if front.object_type != 0 {
                seq![front.as_decoded()]
            } else {
                Seq::<Object>::empty()
            }
        },
{
    let objs = seq![first, second];
    let col = first.cell_column();
    let row = first.cell_row();
    let front = if first.z_position > second.z_position {
        first
    } else {
        second
    };
    lemma_level_round_trip(pixels, header, objs, y_offset);
    assert(objs.drop_last() =~= seq![first]);
    assert(objs.drop_last().drop_last() =~= Seq::<Object>::empty());
    assert(winner(objs.drop_last().drop_last(), col, row) is None);
    assert(winner(objs.drop_last(), col, row) == Some(first));
    assert(winner(objs, col, row) == Some(front));
    let kept = |c: int, r: int| survivor(objs, c, r);
    assert forall|c: int, r: int| readable_cell(c, r) && !(c == col && r == row) implies kept(
        c,
        r,
    ) is None by {
        lemma_winner_of_empty_cell(objs, c, r);
    }
    if front.object_type != 0 {
        lemma_scan_of_one(kept, GRID_ROWS as int, col, row);
    } else {
        lemma_scan_of_nothing(kept, GRID_ROWS as int);
    }
}

/// Taking away an object changes nothing in the cells it does not fall
/// into.
pub proof fn lemma_winner_ignores_other_cells(objs: Seq<Object>, i: int, col: int, row: int)
    requires
        0 <= i < objs.len(),
        !objs[i].in_cell(col, row),
    ensures
        winner(objs.remove(i), col, row) == winner(objs, col, row),
    decreases objs.len(),
{
    let last = objs.len() - 1;
    if i == last {
        assert(objs.remove(i) =~= objs.drop_last());
    } else {
        lemma_winner_ignores_other_cells(objs.drop_last(), i, col, row);
        assert(objs.remove(i).drop_last() =~= objs.drop_last().remove(i));
        assert(objs.remove(i).last() == objs.last());
    }
}

/// An object whose cell is not written leaves no mark on the canvas: the
/// level encodes as it does without that object.
pub proof fn lemma_unwritten_object_leaves_no_mark(
    pixels: Map<(int, int), Color>,
    header: Header,
    objs: Seq<Object>,
    i: int,
    y_offset: int,
)
    requires
        0 <= i < objs.len(),
        !written_cell(objs[i].cell_column(), objs[i].cell_row()),
    ensures
        with_level(pixels, header, objs, y_offset) == with_level(
            pixels,
            header,
            objs.remove(i),
            y_offset,
        ),
{
    let headed = with_header(pixels, header, y_offset);
    assert forall|p: (int, int)| grid_pixel(Layout::Full, objs, y_offset, p) == grid_pixel(Layout::Full, objs.remove(i),
        y_offset,
        p,
    ) by {
        let below = p.1 - (y_offset + 1);
        if 0 <= p.0 <= GRID_COLUMNS && 0 <= below {
            assert(0 <= below % 27 < 27);
            lemma_winner_ignores_other_cells(objs, i, p.0, below % 27);
            lemma_winner_ignores_other_cells(objs, i, p.0, 27);
        }
    }
    assert(with_objects(Layout::Full, headed, objs, y_offset) =~= with_objects(
    Layout::Full,
        headed,
        objs.remove(i),
        y_offset,
    ));
}

/// An object whose cell is not read does not come back, and the objects
/// that come back are those that come back without it.
pub proof fn lemma_unread_object_does_not_come_back(
    pixels: Map<(int, int), Color>,
    header: Header,
    objs: Seq<Object>,
    i: int,
    y_offset: int,
)
    requires
        grid_blank(pixels, y_offset),
        0 <= i < objs.len(),
        !readable_cell(objs[i].cell_column(), objs[i].cell_row()),
    ensures
        decoded_objects(with_level(pixels, header, objs, y_offset), y_offset) == decoded_objects(
            with_level(pixels, header, objs.remove(i), y_offset),
            y_offset,
        ),
{
    lemma_level_round_trip(pixels, header, objs, y_offset);
    lemma_level_round_trip(pixels, header, objs.remove(i), y_offset);
    let with_it = |col: int, row: int| survivor(objs, col, row);
    let without = |col: int, row: int| survivor(objs.remove(i), col, row);
    assert forall|col: int, row: int| readable_cell(col, row) implies with_it(col, row) == without(
        col,
        row,
    ) by {
        lemma_winner_ignores_other_cells(objs, i, col, row);
    }
    lemma_scan_agrees(with_it, without, GRID_ROWS as int);
}

/// An object of type zero does not come back: the cell in which it stays
/// is read as empty.
pub proof fn lemma_type_zero_is_lost(
    pixels: Map<(int, int), Color>,
    header: Header,
    objs: Seq<Object>,
    y_offset: int,
    col: int,
    row: int,
)
    requires
        readable_cell(col, row),
        winner(objs, col, row) is Some,
        winner(objs, col, row)->0.object_type == 0,
    ensures
        cell_object(with_level(pixels, header, objs, y_offset), y_offset, col, row) is None,
{
    let headed = with_header(pixels, header, y_offset);
    lemma_encoded_word(headed, objs, y_offset, col, row, 0);
    let obj = winner(objs, col, row)->0;
    lemma_pair_round_trip(obj.object_type, obj.transformation_id);
}

/// A level with a single object of type zero, encoded on a canvas that
/// showed no object, comes back without objects.
pub proof fn lemma_lone_type_zero_object_is_lost(
    pixels: Map<(int, int), Color>,
    header: Header,
    obj: Object,
    y_offset: int,
)
    requires
        grid_blank(pixels, y_offset),
        obj.object_type == 0,
    ensures
        decoded_objects(with_level(pixels, header, seq![obj], y_offset), y_offset)
            == Seq::<Object>::empty(),
{
    let objs = seq![obj];
    lemma_level_round_trip(pixels, header, objs, y_offset);
    let kept = |col: int, row: int| survivor(objs, col, row);
    assert forall|col: int, row: int| readable_cell(col, row) implies kept(col, row) is None by {
        if winner(objs, col, row) is Some {
            lemma_winner_is_member(objs, col, row);
        }
    }
    lemma_scan_of_nothing(kept, GRID_ROWS as int);
}

/// A level that was encoded on a canvas that showed no object can be
/// decoded from it: decoding stays on the canvas.
pub proof fn lemma_encoded_level_is_readable(
    pixels: Map<(int, int), Color>,
    width: nat,
    height: nat,
    header: Header,
    objs: Seq<Object>,
    y_offset: int,
)
    requires
        grid_blank(pixels, y_offset),
        level_fits(objs, width, height, y_offset),
        GRID_COLUMNS <= width,
        y_offset + GRID_ROWS < height,
    ensures
        objects_readable(with_level(pixels, header, objs, y_offset), width, height, y_offset),
{
    let headed = with_header(pixels, header, y_offset);
    let after = with_objects(Layout::Full, headed, objs, y_offset);
    lemma_header_keeps_grid_blank(pixels, header, y_offset);
    assert forall|col: int, row: int|
        readable_cell(col, row) && #[trigger] cell_occupied(
            after,
            y_offset,
            col,
            row,
        ) implies band_row(y_offset, 8, row) < height by {
        assert(cell_on_canvas(headed, y_offset, col, row));
        if winner(objs, col, row) is None {
            lemma_empty_cell_untouched(headed, objs, y_offset, col, row);
        } else {
            lemma_winner_is_member(objs, col, row);
        }
    }
}

/// Encoding a level changes no pixel above the row of its header, and
/// none further below that row than 244 rows.
pub proof fn lemma_level_stays_in_its_rows(
    pixels: Map<(int, int), Color>,
    header: Header,
    objs: Seq<Object>,
    y_offset: int,
    p: (int, int),
)
    requires
        p.1 < y_offset || y_offset + 244 < p.1,
    ensures
        with_level(pixels, header, objs, y_offset).dom().contains(p) == pixels.dom().contains(p),
        pixels.dom().contains(p) ==> with_level(pixels, header, objs, y_offset)[p] == pixels[p],
{
    let below = p.1 - (y_offset + 1);
    if 0 <= below {
        assert(below == 27 * (below / 27) + below % 27 && 0 <= below % 27 < 27);
    }
    assert(grid_pixel(Layout::Full, objs, y_offset, p) is None);
    assert(!in_header(p, y_offset));
}

/// Two levels encoded on one canvas that showed no object, the second at
/// least 245 rows below the first, both come back as if each were alone.
pub proof fn lemma_two_levels_round_trip(
    pixels: Map<(int, int), Color>,
    header: Header,
    objs: Seq<Object>,
    y_offset: int,
    sub_header: Header,
    sub_objs: Seq<Object>,
    sub_y_offset: int,
)
    requires
        grid_blank(pixels, y_offset),
        grid_blank(pixels, sub_y_offset),
        y_offset + 245 <= sub_y_offset,
    ensures
        ({
            let both = with_level(
                with_level(pixels, header, objs, y_offset),
                sub_header,
                sub_objs,
                sub_y_offset,
            );
            &&& header_of_pixels(both, y_offset) == header
            &&& decoded_objects(both, y_offset) == survivors(objs)
            &&& header_of_pixels(both, sub_y_offset) == sub_header
            &&& decoded_objects(both, sub_y_offset) == survivors(sub_objs)
        }),
{
    let one = with_level(pixels, header, objs, y_offset);
    let both = with_level(one, sub_header, sub_objs, sub_y_offset);
    // The sub-level: the first level left its first band as blank as it was.
    assert forall|col: int, row: int| readable_cell(col, row) implies cell_on_canvas(
        one,
        sub_y_offset,
        col,
        row,
    ) && !cell_occupied(one, sub_y_offset, col, row) by {
        let p = (col, band_row(sub_y_offset, 0, row));
        lemma_level_stays_in_its_rows(pixels, header, objs, y_offset, p);
        assert(cell_on_canvas(pixels, sub_y_offset, col, row) && !cell_occupied(
            pixels,
            sub_y_offset,
            col,
            row,
        ));
    }
    lemma_level_round_trip(one, sub_header, sub_objs, sub_y_offset);
    // The first level: the sub-level changed nothing that is read of it.
    lemma_level_round_trip(pixels, header, objs, y_offset);
    let headed = with_header(pixels, header, y_offset);
    lemma_header_keeps_grid_blank(pixels, header, y_offset);
    assert forall|col: int| 0 <= col < 9 implies #[trigger] both[(col, y_offset)] == one[(
        col,
        y_offset,
    )] by {
        assert(in_header((col, y_offset), y_offset));
        assert(headed.dom().contains((col, y_offset)));
        assert(one.dom().contains((col, y_offset)));
        lemma_level_stays_in_its_rows(one, sub_header, sub_objs, sub_y_offset, (col, y_offset));
    }
    let alone = |col: int, row: int| cell_object(one, y_offset, col, row);
    let together = |col: int, row: int| cell_object(both, y_offset, col, row);
    assert forall|col: int, row: int| readable_cell(col, row) implies together(col, row) == alone(
        col,
        row,
    ) by {
        assert(cell_on_canvas(headed, y_offset, col, row));
        let first = (col, band_row(y_offset, 0, row));
        assert(one.dom().contains(first));
        lemma_level_stays_in_its_rows(one, sub_header, sub_objs, sub_y_offset, first);
        if winner(objs, col, row) is Some {
            assert forall|band: int| 0 <= band < 9 implies cell_word(
                both,
                y_offset,
                col,
                row,
                band,
            ) == cell_word(one, y_offset, col, row, band) by {
                let p = (col, band_row(y_offset, band, row));
                let below = p.1 - (y_offset + 1);
                assert(below == 27 * band + row);
                assert(below / 27 == band && below % 27 == row);
                assert(grid_pixel(Layout::Full, objs, y_offset, p) is Some);
                assert(one.dom().contains(p));
                lemma_level_stays_in_its_rows(one, sub_header, sub_objs, sub_y_offset, p);
            }
            assert(Seq::new(9, |band: int| cell_word(both, y_offset, col, row, band)) =~= Seq::new(
                9,
                |band: int| cell_word(one, y_offset, col, row, band),
            ));
        } else {
            lemma_empty_cell_untouched(headed, objs, y_offset, col, row);
            assert(!cell_occupied(one, y_offset, col, row));
        }
    }
    lemma_scan_agrees(together, alone, GRID_ROWS as int);
}

} // verus!
