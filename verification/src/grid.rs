//! The object grid codec: objects as columns of pixels in stacked bands.
//!
//! Below the row of the header the canvas is cut into bands of 27 rows.
//! An object that stays in its cell is written into the column of that
//! cell, one pixel in each band, on the cell's row within the band. In the
//! full layout the nine pixels hold all that decoding gives back; the
//! overview layout shows type, depth and flags in four.

use crate::canvas::Canvas;
use crate::cells::{
    lemma_winner_is_member, readable_cell, winner, written_cell, ObjectGrid, GRID_COLUMNS,
    GRID_ROWS, SCALE,
};
use crate::color::{
    color_of_u16, color_of_u8, colorize_u16, colorize_u8, u16_from_i8, u16_of_color,
    uncolorize_u16, word_of_i8, Color,
};
use crate::level::Object;
use vstd::prelude::*;

verus! {

/// Which pixels an object is written as.
#[derive(Clone, Copy, Debug, PartialEq, Eq, Structural)]
pub enum Layout {
    /// Nine bands, one 16-bit word in each: all that decoding gives back.
    Full,
    /// Four bands: the type, the lower half of `z_position`, and the two
    /// halves of the flags. It is not meant to be decoded.
    Overview,
}

/// Two signed bytes as the two halves of a word, `high` in the upper half.
pub open spec fn pair_word(high: i8, low: i8) -> u16 {
    (word_of_i8(high) << 8) | word_of_i8(low)
}

/// The word that band `band` of the full layout holds of an object.
pub open spec fn band_word(obj: Object, band: int) -> u16 {
    if band == 0 {
        pair_word(obj.object_type, obj.transformation_id)
    } else if band == 1 {
        (obj.z_position >> 16) as u16
    } else if band == 2 {
        (obj.z_position & 0xFFFF) as u16
    } else if band == 3 {
        (obj.object_flags >> 16) as u16
    } else if band == 4 {
        (obj.object_flags & 0xFFFF) as u16
    } else if band == 5 {
        pair_word(obj.width, obj.height)
    } else if band == 6 {
        pair_word(obj.child_object_type, obj.child_object_transformation_id)
    } else if band == 7 {
        (obj.child_object_flags >> 16) as u16
    } else {
        (obj.child_object_flags & 0xFFFF) as u16
    }
}

/// The color that band `band` of the overview layout shows of an object.
pub open spec fn overview_color(obj: Object, band: int) -> Color {
    if band == 0 {
        color_of_u8(obj.object_type as u8)
    } else if band == 1 {
        color_of_u16((obj.z_position & 0xFFFF) as u16)
    } else if band == 2 {
        color_of_u16((obj.object_flags >> 16) as u16)
    } else {
        color_of_u16((obj.object_flags & 0xFFFF) as u16)
    }
}

impl Layout {
    /// The number of bands.
    pub open spec fn bands(self) -> int {
        match self {
            Layout::Full => 9,
            Layout::Overview => 4,
        }
    }

    /// The color that band `band` shows of an object.
    pub open spec fn band_color(self, obj: Object, band: int) -> Color {
        match self {
            Layout::Full => color_of_u16(band_word(obj, band)),
            Layout::Overview => overview_color(obj, band),
        }
    }

    /// The colors of an object, in the order of their bands.
    pub open spec fn spec_colors(self, obj: Object) -> Seq<Color> {
        Seq::new(self.bands() as nat, |band: int| self.band_color(obj, band))
    }

    /// The colors of an object, in the order of their bands.
    pub fn colors(self, obj: Object) -> (colors: Vec<Color>)
        ensures
            colors@ == self.spec_colors(obj),
    {
        let z = obj.z_position;
        let flags = obj.object_flags;
        let child_flags = obj.child_object_flags;
        let mut colors: Vec<Color> = Vec::new();
        match self {
            Layout::Full => {
                colors.push(
                    colorize_u16(
                        (u16_from_i8(obj.object_type) << 8) | u16_from_i8(obj.transformation_id),
                    ),
                );
                colors.push(colorize_u16(#[verifier::truncate] ((z >> 16) as u16)));
                colors.push(colorize_u16(#[verifier::truncate] ((z & 0xFFFF) as u16)));
                colors.push(colorize_u16(#[verifier::truncate] ((flags >> 16) as u16)));
                colors.push(colorize_u16(#[verifier::truncate] ((flags & 0xFFFF) as u16)));
                colors.push(colorize_u16((u16_from_i8(obj.width) << 8) | u16_from_i8(obj.height)));
                colors.push(
                    colorize_u16(
                        (u16_from_i8(obj.child_object_type) << 8) | u16_from_i8(
                            obj.child_object_transformation_id,
                        ),
                    ),
                );
                colors.push(colorize_u16(#[verifier::truncate] ((child_flags >> 16) as u16)));
                colors.push(colorize_u16(#[verifier::truncate] ((child_flags & 0xFFFF) as u16)));
            },
            Layout::Overview => {
                colors.push(colorize_u8(#[verifier::truncate] (obj.object_type as u8)));
                colors.push(colorize_u16(#[verifier::truncate] ((z & 0xFFFF) as u16)));
                colors.push(colorize_u16(#[verifier::truncate] ((flags >> 16) as u16)));
                colors.push(colorize_u16(#[verifier::truncate] ((flags & 0xFFFF) as u16)));
            },
        }
        assert(colors@ =~= self.spec_colors(obj));
        colors
    }
}

/// The canvas row that holds band `band` of the cells in grid row `row`,
/// for a level whose header is on row `y_offset`.
pub open spec fn band_row(y_offset: int, band: int, row: int) -> int {
    y_offset + 1 + GRID_ROWS * band + row
}

/// The color that encoding `objs` gives the pixel `p`, if it gives it one.
///
/// A pixel in one of the bands shows the color that the band has for the
/// object that stays in the cell of the pixel's column and of its row
/// within the band. Cells of grid row 27 reach into the first row of the
/// band below their own; there they show only where the cell that the
/// pixel belongs to by right is empty.
pub open spec fn grid_pixel(layout: Layout, objs: Seq<Object>, y_offset: int, p: (int, int)) -> Option<
    Color,
> {
    let below = p.1 - (y_offset + 1);
    let band = below / 27;
    let row = below % 27;
    if !(0 <= p.0 <= GRID_COLUMNS && 0 <= below) {
        None
    } else if band < layout.bands() && winner(objs, p.0, row) is Some {
        Some(layout.band_color(winner(objs, p.0, row)->0, band))
    } else if row == 0 && 1 <= band <= layout.bands() && winner(objs, p.0, 27) is Some {
        Some(layout.band_color(winner(objs, p.0, 27)->0, band - 1))
    } else {
        None
    }
}

/// The pixels of a canvas after `objs` have been encoded below row
/// `y_offset`.
pub open spec fn with_objects(
    layout: Layout,
    pixels: Map<(int, int), Color>,
    objs: Seq<Object>,
    y_offset: int,
) -> Map<(int, int), Color> {
    Map::new(
        |p: (int, int)| pixels.dom().contains(p) || grid_pixel(layout, objs, y_offset, p) is Some,
        |p: (int, int)|
            match grid_pixel(layout, objs, y_offset, p) {
                Some(color) => color,
                None => pixels[p],
            },
    )
}

/// Whether every object that encoding writes has all its pixels on a
/// canvas of the given size.
pub open spec fn objects_fit(
    layout: Layout,
    objs: Seq<Object>,
    width: nat,
    height: nat,
    y_offset: int,
) -> bool {
    forall|i: int|
        0 <= i < objs.len() && written_cell(
            (#[trigger] objs[i]).cell_column(),
            objs[i].cell_row(),
        ) ==> objs[i].cell_column() < width && band_row(
            y_offset,
            layout.bands() - 1,
            objs[i].cell_row(),
        ) < height
}

/// The color that writing one object, with its first pixel on row `top`,
/// gives the pixel `p`, if it gives it one.
spec fn cell_pixel(colors: Seq<Color>, col: int, top: int, p: (int, int)) -> Option<Color> {
    let below = p.1 - top;
    if p.0 == col && 0 <= below && below % 27 == 0 && below / 27 < colors.len() {
        Some(colors[below / 27])
    } else {
        None
    }
}

/// The pixels of a canvas after one object has been written.
spec fn with_cell(pixels: Map<(int, int), Color>, colors: Seq<Color>, col: int, top: int) -> Map<
    (int, int),
    Color,
> {
    Map::new(
        |p: (int, int)| pixels.dom().contains(p) || cell_pixel(colors, col, top, p) is Some,
        |p: (int, int)|
            match cell_pixel(colors, col, top, p) {
                Some(color) => color,
                None => pixels[p],
            },
    )
}

/// Writes the colors of one object into column `col`, the first on row
/// `top` and each further one 27 rows below the last.
fn write_cell(img: &mut Canvas, colors: &Vec<Color>, col: u32, top: u32)
    requires
        col < old(img)@.width,
        1 <= colors@.len() <= 9,
        top + 27 * (colors@.len() - 1) < old(img)@.height,
    ensures
        final(img)@.width == old(img)@.width,
        final(img)@.height == old(img)@.height,
        final(img)@.pixels == with_cell(old(img)@.pixels, colors@, col as int, top as int),
{
    let mut band: usize = 0;
    assert(img@.pixels =~= with_cell(old(img)@.pixels, colors@.take(0), col as int, top as int));
    while band < colors.len()
        invariant
            band <= colors@.len() <= 9,
            col < img@.width,
            top + 27 * (colors@.len() - 1) < img@.height,
            img@.width == old(img)@.width,
            img@.height == old(img)@.height,
            img@.pixels == with_cell(
                old(img)@.pixels,
                colors@.take(band as int),
                col as int,
                top as int,
            ),
        decreases colors@.len() - band,
    {
        img.put_pixel(col, top + 27 * (band as u32), colors[band]);
        assert(img@.pixels =~= with_cell(
            old(img)@.pixels,
            colors@.take(band + 1),
            col as int,
            top as int,
        )) by {
            assert forall|p: (int, int)|
                cell_pixel(colors@.take(band + 1), col as int, top as int, p) == if p == (
                    col as int,
                    top + 27 * band,
                ) {
                    Some(colors@[band as int])
                } else {
                    cell_pixel(colors@.take(band as int), col as int, top as int, p)
                } by {
                let below = p.1 - top;
                if 0 <= below {
                    assert(below == 27 * (below / 27) + below % 27 && 0 <= below % 27 < 27);
                }
            }
        }
        band += 1;
    }
    assert(colors@.take(band as int) =~= colors@);
}

/// The place of a cell in the order of writing: grid row 27 first, then
/// the rows that are read back, each from left to right.
spec fn turn(col: int, row: int) -> int {
    if row == 27 {
        col
    } else {
        241 + row * 241 + col
    }
}

/// `grid_pixel` when only the cells whose turn is before `done` have been
/// written.
spec fn grid_pixel_so_far(
    layout: Layout,
    objs: Seq<Object>,
    y_offset: int,
    done: int,
    p: (int, int),
) -> Option<Color> {
    let below = p.1 - (y_offset + 1);
    let band = below / 27;
    let row = below % 27;
    if !(0 <= p.0 <= GRID_COLUMNS && 0 <= below) {
        None
    } else if band < layout.bands() && turn(p.0, row) < done && winner(objs, p.0, row) is Some {
        Some(layout.band_color(winner(objs, p.0, row)->0, band))
    } else if row == 0 && 1 <= band <= layout.bands() && turn(p.0, 27) < done && winner(
        objs,
        p.0,
        27,
    ) is Some {
        Some(layout.band_color(winner(objs, p.0, 27)->0, band - 1))
    } else {
        None
    }
}

/// `with_objects` when only the cells whose turn is before `done` have been
/// written.
spec fn with_objects_so_far(
    layout: Layout,
    pixels: Map<(int, int), Color>,
    objs: Seq<Object>,
    y_offset: int,
    done: int,
) -> Map<(int, int), Color> {
    Map::new(
        |p: (int, int)|
            pixels.dom().contains(p) || grid_pixel_so_far(layout, objs, y_offset, done, p) is Some,
        |p: (int, int)|
            match grid_pixel_so_far(layout, objs, y_offset, done, p) {
                Some(color) => color,
                None => pixels[p],
            },
    )
}

/// Writing the cell whose turn it is takes the canvas one turn further.
proof fn lemma_next_turn(
    layout: Layout,
    pixels: Map<(int, int), Color>,
    objs: Seq<Object>,
    y_offset: int,
    col: int,
    row: int,
    done: int,
)
    requires
        written_cell(col, row),
        done == turn(col, row),
    ensures
        match winner(objs, col, row) {
            Some(obj) => with_cell(
                with_objects_so_far(layout, pixels, objs, y_offset, done),
                layout.spec_colors(obj),
                col,
                band_row(y_offset, 0, row),
            ) == with_objects_so_far(layout, pixels, objs, y_offset, done + 1),
            None => with_objects_so_far(layout, pixels, objs, y_offset, done)
                == with_objects_so_far(layout, pixels, objs, y_offset, done + 1),
        },
{
    let before = with_objects_so_far(layout, pixels, objs, y_offset, done);
    let after = with_objects_so_far(layout, pixels, objs, y_offset, done + 1);
    match winner(objs, col, row) {
        Some(obj) => {
            let written = with_cell(
                before,
                layout.spec_colors(obj),
                col,
                band_row(y_offset, 0, row),
            );
            assert forall|p: (int, int)| written.dom().contains(p) == after.dom().contains(
                p,
            ) && (written.dom().contains(p) ==> written[p] == after[p]) by {
                lemma_pixel_next_turn(layout, objs, y_offset, col, row, p);
            }
            assert(written =~= after);
        },
        None => {
            assert forall|p: (int, int)| before.dom().contains(p) == after.dom().contains(p)
                && (before.dom().contains(p) ==> before[p] == after[p]) by {
                lemma_pixel_next_turn(layout, objs, y_offset, col, row, p);
            }
            assert(before =~= after);
        },
    }
}

/// What one more turn changes for a single pixel.
proof fn lemma_pixel_next_turn(
    layout: Layout,
    objs: Seq<Object>,
    y_offset: int,
    col: int,
    row: int,
    p: (int, int),
)
    requires
        written_cell(col, row),
    ensures
        grid_pixel_so_far(layout, objs, y_offset, turn(col, row) + 1, p) == match winner(
            objs,
            col,
            row,
        ) {
            Some(obj) => match cell_pixel(
                layout.spec_colors(obj),
                col,
                band_row(y_offset, 0, row),
                p,
            ) {
                Some(color) => Some(color),
                None => grid_pixel_so_far(layout, objs, y_offset, turn(col, row), p),
            },
            None => grid_pixel_so_far(layout, objs, y_offset, turn(col, row), p),
        },
{
    let below = p.1 - (y_offset + 1);
    let band = below / 27;
    let in_band = below % 27;
    let from_top = p.1 - band_row(y_offset, 0, row);
    if 0 <= below {
        assert(below == 27 * band + in_band && 0 <= in_band < 27 && 0 <= band);
    }
    if 0 <= from_top {
        assert(from_top == 27 * (from_top / 27) + from_top % 27 && 0 <= from_top % 27 < 27);
    }
}

/// Writes one cell of the grid, if an object stays in it.
fn write_slot(
    layout: Layout,
    grid: &ObjectGrid,
    img: &mut Canvas,
    y_offset: u32,
    col: u32,
    row: u32,
    Ghost(objs): Ghost<Seq<Object>>,
    Ghost(start): Ghost<Map<(int, int), Color>>,
    Ghost(done): Ghost<int>,
)
    requires
        written_cell(col as int, row as int),
        done == turn(col as int, row as int),
        grid.wf(),
        grid.at(col as int, row as int) == winner(objs, col as int, row as int),
        objects_fit(layout, objs, old(img)@.width, old(img)@.height, y_offset as int),
        old(img)@.pixels == with_objects_so_far(layout, start, objs, y_offset as int, done),
    ensures
        final(img)@.width == old(img)@.width,
        final(img)@.height == old(img)@.height,
        final(img)@.pixels == with_objects_so_far(layout, start, objs, y_offset as int, done + 1),
{
    proof {
        lemma_next_turn(layout, start, objs, y_offset as int, col as int, row as int, done);
    }
    match grid.get(col, row) {
        Some(obj) => {
            proof {
                lemma_winner_is_member(objs, col as int, row as int);
            }
            let colors = layout.colors(obj);
            write_cell(img, &colors, col, y_offset + 1 + row);
        },
        None => {},
    }
}

/// Writes the objects of a level into the bands below row `y_offset`.
pub fn encode_objects(layout: Layout, objs: &Vec<Object>, img: &mut Canvas, y_offset: u32)
    requires
        objects_fit(layout, objs@, old(img)@.width, old(img)@.height, y_offset as int),
    ensures
        final(img)@.width == old(img)@.width,
        final(img)@.height == old(img)@.height,
        final(img)@.pixels == with_objects(layout, old(img)@.pixels, objs@, y_offset as int),
{
    let grid = ObjectGrid::from_objects(objs);
    let ghost start = img@.pixels;
    let ghost mut done: int = 0;
    assert(img@.pixels =~= with_objects_so_far(layout, start, objs@, y_offset as int, done));
    let mut col: u32 = 0;
    while col <= GRID_COLUMNS
        invariant
            col <= GRID_COLUMNS + 1,
            done == col,
            grid.wf(),
            forall|c: int, r: int|
                written_cell(c, r) ==> #[trigger] grid.at(c, r) == winner(objs@, c, r),
            objects_fit(layout, objs@, img@.width, img@.height, y_offset as int),
            img@.width == old(img)@.width,
            img@.height == old(img)@.height,
            img@.pixels == with_objects_so_far(layout, start, objs@, y_offset as int, done),
        decreases GRID_COLUMNS + 1 - col,
    {
        write_slot(
            layout,
            &grid,
            img,
            y_offset,
            col,
            GRID_ROWS,
            Ghost(objs@),
            Ghost(start),
            Ghost(done),
        );
        col += 1;
        proof {
            done = done + 1;
        }
    }
    let mut row: u32 = 0;
    while row < GRID_ROWS
        invariant
            row <= GRID_ROWS,
            done == 241 + row * 241,
            grid.wf(),
            forall|c: int, r: int|
                written_cell(c, r) ==> #[trigger] grid.at(c, r) == winner(objs@, c, r),
            objects_fit(layout, objs@, img@.width, img@.height, y_offset as int),
            img@.width == old(img)@.width,
            img@.height == old(img)@.height,
            img@.pixels == with_objects_so_far(layout, start, objs@, y_offset as int, done),
        decreases GRID_ROWS - row,
    {
        let mut col: u32 = 0;
        while col <= GRID_COLUMNS
            invariant
                row < GRID_ROWS,
                col <= GRID_COLUMNS + 1,
                done == 241 + row * 241 + col,
                grid.wf(),
                forall|c: int, r: int|
                    written_cell(c, r) ==> #[trigger] grid.at(c, r) == winner(objs@, c, r),
                objects_fit(layout, objs@, img@.width, img@.height, y_offset as int),
                img@.width == old(img)@.width,
                img@.height == old(img)@.height,
                img@.pixels == with_objects_so_far(layout, start, objs@, y_offset as int, done),
            decreases GRID_COLUMNS + 1 - col,
        {
            write_slot(
                layout,
                &grid,
                img,
                y_offset,
                col,
                row,
                Ghost(objs@),
                Ghost(start),
                Ghost(done),
            );
            col += 1;
            proof {
                done = done + 1;
            }
        }
        row += 1;
    }
    assert(img@.pixels =~= with_objects(layout, start, objs@, y_offset as int)) by {
        assert forall|p: (int, int)|
            grid_pixel_so_far(layout, objs@, y_offset as int, done, p) == grid_pixel(
                layout,
                objs@,
                y_offset as int,
                p,
            ) by {
            let below = p.1 - (y_offset + 1);
            if 0 <= below {
                assert(0 <= below % 27 < 27);
            }
        }
    }
}

/// Tells whether `encode_objects` may be called: whether every object
/// that it writes has all its pixels on the canvas.
pub fn can_encode_objects(layout: Layout, objs: &Vec<Object>, img: &Canvas, y_offset: u32) -> (ok:
    bool)
    ensures
        ok == objects_fit(layout, objs@, img@.width, img@.height, y_offset as int),
{
    let width = img.width();
    let height = img.height();
    let reach: u64 = match layout {
        Layout::Full => 217,
        Layout::Overview => 82,
    };
    let mut n: usize = 0;
    while n < objs.len()
        invariant
            n <= objs.len(),
            width == img@.width,
            height == img@.height,
            reach == 1 + 27 * (layout.bands() - 1),
            objects_fit(layout, objs@.take(n as int), img@.width, img@.height, y_offset as int),
        decreases objs.len() - n,
    {
        let col = objs[n].x_position / SCALE;
        let row = objs[n].y_position / (SCALE as i16);
        if col <= GRID_COLUMNS && 0 <= row && row <= GRID_ROWS as i16 {
            if col >= width || y_offset as u64 + reach + row as u64 >= height as u64 {
                return false;
            }
        }
        assert forall|i: int|
            0 <= i < objs@.take(n + 1).len() && written_cell(
                (#[trigger] objs@.take(n + 1)[i]).cell_column(),
                objs@.take(n + 1)[i].cell_row(),
            ) implies objs@.take(n + 1)[i].cell_column() < img@.width && band_row(
            y_offset as int,
            layout.bands() - 1,
            objs@.take(n + 1)[i].cell_row(),
        ) < img@.height by {
            if i < n {
                assert(objs@.take(n as int)[i] == objs@.take(n + 1)[i]);
            }
        }
        n += 1;
    }
    assert(objs@.take(n as int) =~= objs@);
    true
}

/// The word that band `band` holds for a cell.
pub open spec fn cell_word(
    pixels: Map<(int, int), Color>,
    y_offset: int,
    col: int,
    row: int,
    band: int,
) -> u16 {
    u16_of_color(pixels[(col, band_row(y_offset, band, row))])
}

/// Whether a cell holds an object: whether the upper half of its first
/// word, the object's type, is not zero.
pub open spec fn cell_occupied(
    pixels: Map<(int, int), Color>,
    y_offset: int,
    col: int,
    row: int,
) -> bool {
    ((cell_word(pixels, y_offset, col, row, 0) >> 8) as i8) != 0
}

/// The object that nine words stand for in a cell. It lies on the corner
/// of its cell, and the fields that the canvas does not store are
/// `0`, `-1` and `-1`.
pub open spec fn object_of_words(col: int, row: int, words: Seq<u16>) -> Object {
    Object {
        x_position: (col * SCALE) as u32,
        y_position: (row * SCALE) as i16,
        z_position: (((words[1] as u32) << 16) | (words[2] as u32)) as i32,
        object_type: (words[0] >> 8) as i8,
        transformation_id: words[0] as i8,
        object_flags: ((words[3] as u32) << 16) | (words[4] as u32),
        width: (words[5] >> 8) as i8,
        height: words[5] as i8,
        child_object_type: (words[6] >> 8) as i8,
        child_object_transformation_id: words[6] as i8,
        child_object_flags: ((words[7] as u32) << 16) | (words[8] as u32),
        extended_object_data: 0,
        link_id: -1i16,
        effect_index: -1i16,
    }
}

/// The object that a canvas holds in a cell, if it holds one there.
pub open spec fn cell_object(
    pixels: Map<(int, int), Color>,
    y_offset: int,
    col: int,
    row: int,
) -> Option<Object> {
    if cell_occupied(pixels, y_offset, col, row) {
        Some(
            object_of_words(
                col,
                row,
                Seq::new(9, |band: int| cell_word(pixels, y_offset, col, row, band)),
            ),
        )
    } else {
        None
    }
}

/// The objects of the first `cols` cells of a row, from left to right.
pub open spec fn scan_row(cells: spec_fn(int, int) -> Option<Object>, row: int, cols: int) -> Seq<
    Object,
>
    decreases cols,
{
    if cols <= 0 {
        Seq::empty()
    } else {
        match cells(cols - 1, row) {
            Some(obj) => scan_row(cells, row, cols - 1).push(obj),
            None => scan_row(cells, row, cols - 1),
        }
    }
}

/// The objects of the first `rows` rows of the grid, row after row.
pub open spec fn scan_rows(cells: spec_fn(int, int) -> Option<Object>, rows: int) -> Seq<Object>
    decreases rows,
{
    if rows <= 0 {
        Seq::empty()
    } else {
        scan_rows(cells, rows - 1) + scan_row(cells, rows - 1, GRID_COLUMNS as int)
    }
}

/// The objects that a canvas holds below row `y_offset`.
pub open spec fn decoded_objects(pixels: Map<(int, int), Color>, y_offset: int) -> Seq<Object> {
    scan_rows(|col: int, row: int| cell_object(pixels, y_offset, col, row), GRID_ROWS as int)
}

/// Whether decoding stays on a canvas of the given size: the first band
/// is read in full, the other eight only for the cells that hold an object.
pub open spec fn objects_readable(
    pixels: Map<(int, int), Color>,
    width: nat,
    height: nat,
    y_offset: int,
) -> bool {
    &&& GRID_COLUMNS <= width
    &&& y_offset + GRID_ROWS < height
    &&& forall|col: int, row: int|
        readable_cell(col, row) && #[trigger] cell_occupied(pixels, y_offset, col, row)
            ==> band_row(y_offset, 8, row) < height
}

/// Whether the first band of a cell is on the canvas.
pub open spec fn cell_on_canvas(
    pixels: Map<(int, int), Color>,
    y_offset: int,
    col: int,
    row: int,
) -> bool {
    pixels.dom().contains((col, band_row(y_offset, 0, row)))
}

/// Whether a canvas shows no object below row `y_offset`: the first band
/// is on the canvas, and no cell of it is occupied.
pub open spec fn grid_blank(pixels: Map<(int, int), Color>, y_offset: int) -> bool {
    forall|col: int, row: int|
        #![trigger cell_on_canvas(pixels, y_offset, col, row)]
        #![trigger cell_occupied(pixels, y_offset, col, row)]
        readable_cell(col, row) ==> cell_on_canvas(pixels, y_offset, col, row) && !cell_occupied(
            pixels,
            y_offset,
            col,
            row,
        )
}

/// Reads one cell.
fn read_cell(img: &Canvas, y_offset: u32, col: u32, row: u32) -> (slot: Option<Object>)
    requires
        readable_cell(col as int, row as int),
        objects_readable(img@.pixels, img@.width, img@.height, y_offset as int),
    ensures
        slot == cell_object(img@.pixels, y_offset as int, col as int, row as int),
{
    let top = y_offset + 1 + row;
    let w0 = uncolorize_u16(&img.get_pixel(col, top));
    let object_type =
        #[verifier::truncate]
        ((w0 >> 8) as i8);
    if object_type == 0 {
        return None;
    }
    assert(cell_occupied(img@.pixels, y_offset as int, col as int, row as int));
    let w1 = uncolorize_u16(&img.get_pixel(col, top + 27));
    let w2 = uncolorize_u16(&img.get_pixel(col, top + 27 * 2));
    let w3 = uncolorize_u16(&img.get_pixel(col, top + 27 * 3));
    let w4 = uncolorize_u16(&img.get_pixel(col, top + 27 * 4));
    let w5 = uncolorize_u16(&img.get_pixel(col, top + 27 * 5));
    let w6 = uncolorize_u16(&img.get_pixel(col, top + 27 * 6));
    let w7 = uncolorize_u16(&img.get_pixel(col, top + 27 * 7));
    let w8 = uncolorize_u16(&img.get_pixel(col, top + 27 * 8));
    Some(
        Object {
            x_position: col * SCALE,
            y_position: (row * SCALE) as i16,
            z_position: #[verifier::truncate]
            ((((w1 as u32) << 16) | (w2 as u32)) as i32),
            object_type,
            transformation_id: #[verifier::truncate]
            (w0 as i8),
            object_flags: ((w3 as u32) << 16) | (w4 as u32),
            width: #[verifier::truncate]
            ((w5 >> 8) as i8),
            height: #[verifier::truncate]
            (w5 as i8),
            child_object_type: #[verifier::truncate]
            ((w6 >> 8) as i8),
            child_object_transformation_id: #[verifier::truncate]
            (w6 as i8),
            child_object_flags: ((w7 as u32) << 16) | (w8 as u32),
            extended_object_data: 0,
            link_id: -1,
            effect_index: -1,
        },
    )
}

/// Reads the objects that a canvas holds below row `y_offset`, row after
/// row and each row from left to right.
pub fn decode_objects(img: &Canvas, y_offset: u32) -> (objs: Vec<Object>)
    requires
        objects_readable(img@.pixels, img@.width, img@.height, y_offset as int),
    ensures
        objs@ == decoded_objects(img@.pixels, y_offset as int),
{
    let ghost cells = |col: int, row: int| cell_object(img@.pixels, y_offset as int, col, row);
    let mut objs: Vec<Object> = Vec::new();
    let mut row: u32 = 0;
    while row < GRID_ROWS
        invariant
            row <= GRID_ROWS,
            objects_readable(img@.pixels, img@.width, img@.height, y_offset as int),
            cells == |col: int, row: int| cell_object(img@.pixels, y_offset as int, col, row),
            objs@ == scan_rows(cells, row as int),
        decreases GRID_ROWS - row,
    {
        let ghost above = objs@;
        let mut col: u32 = 0;
        while col < GRID_COLUMNS
            invariant
                row < GRID_ROWS,
                col <= GRID_COLUMNS,
                objects_readable(img@.pixels, img@.width, img@.height, y_offset as int),
                cells == |col: int, row: int| cell_object(img@.pixels, y_offset as int, col, row),
                above == scan_rows(cells, row as int),
                objs@ == above + scan_row(cells, row as int, col as int),
            decreases GRID_COLUMNS - col,
        {
            match read_cell(img, y_offset, col, row) {
                Some(obj) => {
                    objs.push(obj);
                },
                None => {},
            }
            col += 1;
        }
        row += 1;
    }
    objs
}

/// Tells whether `decode_objects` may be called: whether it would stay on
/// the canvas.
pub fn can_decode_objects(img: &Canvas, y_offset: u32) -> (ok: bool)
    ensures
        ok == objects_readable(img@.pixels, img@.width, img@.height, y_offset as int),
{
    let width = img.width();
    let height = img.height();
    if width < GRID_COLUMNS || y_offset as u64 + GRID_ROWS as u64 >= height as u64 {
        return false;
    }
    let mut row: u32 = 0;
    while row < GRID_ROWS
        invariant
            row <= GRID_ROWS,
            width == img@.width,
            height == img@.height,
            GRID_COLUMNS <= width,
            y_offset + GRID_ROWS < height,
            forall|c: int, r: int|
                readable_cell(c, r) && r < row && #[trigger] cell_occupied(
                    img@.pixels,
                    y_offset as int,
                    c,
                    r,
                ) ==> band_row(y_offset as int, 8, r) < height,
        decreases GRID_ROWS - row,
    {
        let mut col: u32 = 0;
        while col < GRID_COLUMNS
            invariant
                row < GRID_ROWS,
                col <= GRID_COLUMNS,
                width == img@.width,
                height == img@.height,
                GRID_COLUMNS <= width,
                y_offset + GRID_ROWS < height,
                forall|c: int, r: int|
                    readable_cell(c, r) && (r < row || (r == row && c < col))
                        && #[trigger] cell_occupied(img@.pixels, y_offset as int, c, r)
                        ==> band_row(y_offset as int, 8, r) < height,
            decreases GRID_COLUMNS - col,
        {
            let word = uncolorize_u16(&img.get_pixel(col, y_offset + 1 + row));
            let object_type =
                #[verifier::truncate]
                ((word >> 8) as i8);
            if object_type != 0 && y_offset as u64 + 217 + row as u64 >= height as u64 {
                assert(cell_occupied(img@.pixels, y_offset as int, col as int, row as int));
                return false;
            }
            col += 1;
        }
        row += 1;
    }
    true
}

/// Tells whether a canvas reaches over the first band below row
/// `y_offset` and shows no object there.
pub fn shows_no_object(img: &Canvas, y_offset: u32) -> (ok: bool)
    ensures
        ok == (GRID_COLUMNS <= img@.width && y_offset + GRID_ROWS < img@.height && grid_blank(
            img@.pixels,
            y_offset as int,
        )),
{
    let width = img.width();
    let height = img.height();
    if width < GRID_COLUMNS || y_offset as u64 + GRID_ROWS as u64 >= height as u64 {
        return false;
    }
    let mut row: u32 = 0;
    while row < GRID_ROWS
        invariant
            row <= GRID_ROWS,
            GRID_COLUMNS <= img@.width,
            y_offset + GRID_ROWS < img@.height,
            forall|c: int, r: int|
                #![trigger cell_on_canvas(img@.pixels, y_offset as int, c, r)]
                #![trigger cell_occupied(img@.pixels, y_offset as int, c, r)]
                readable_cell(c, r) && r < row ==> cell_on_canvas(img@.pixels, y_offset as int, c, r)
                    && !cell_occupied(img@.pixels, y_offset as int, c, r),
        decreases GRID_ROWS - row,
    {
        let mut col: u32 = 0;
        while col < GRID_COLUMNS
            invariant
                row < GRID_ROWS,
                col <= GRID_COLUMNS,
                GRID_COLUMNS <= img@.width,
                y_offset + GRID_ROWS < img@.height,
                forall|c: int, r: int|
                    #![trigger cell_on_canvas(img@.pixels, y_offset as int, c, r)]
                    #![trigger cell_occupied(img@.pixels, y_offset as int, c, r)]
                    readable_cell(c, r) && (r < row || (r == row && c < col)) ==> cell_on_canvas(
                        img@.pixels,
                        y_offset as int,
                        c,
                        r,
                    ) && !cell_occupied(img@.pixels, y_offset as int, c, r),
            decreases GRID_COLUMNS - col,
        {
            let word = uncolorize_u16(&img.get_pixel(col, y_offset + 1 + row));
            let object_type =
                #[verifier::truncate]
                ((word >> 8) as i8);
            if object_type != 0 {
                assert(cell_occupied(img@.pixels, y_offset as int, col as int, row as int));
                return false;
            }
            assert(cell_on_canvas(img@.pixels, y_offset as int, col as int, row as int));
            col += 1;
        }
        row += 1;
    }
    true
}

} // verus!
