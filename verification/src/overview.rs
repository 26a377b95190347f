//! The overview: both levels of a course at a glance, on one small canvas.
//!
//! An overview is drawn to be looked at and compared, not to be decoded.
//! Its header holds the theme, the time limit, the scroll speed, the flags
//! and the width in blocks, each as plain bytes, and its objects are
//! written in the overview layout.

use crate::canvas::{blank_pixels, Canvas};
use crate::color::{color_of_u8, colorize_u8, Color};
use crate::grid::{can_encode_objects, encode_objects, objects_fit, with_objects, Layout};
use crate::header::{in_header, HEADER_LEN};
use crate::level::{Course, Header, Level, Object};
use vstd::prelude::*;

verus! {

/// The side of the canvas that an overview of a course is drawn on.
pub const OVERVIEW_SIDE: u32 = 256;

/// The row of the level's header in an overview of a course.
pub const LEVEL_ROW: u32 = 5;

/// The row of the sub-level's header in an overview of a course.
pub const SUB_LEVEL_ROW: u32 = 110;

/// The pixel in column `col` of the header of an overview.
///
/// | column | holds                                        |
/// |--------|----------------------------------------------|
/// | 0      | the number of the theme                      |
/// | 1 - 2  | the time limit, lower byte first             |
/// | 3      | the number of the scroll speed               |
/// | 4      | the flags                                    |
/// | 5 - 8  | the width in blocks, lowest byte first       |
pub open spec fn overview_header_pixel(header: Header, block_width: u32, col: int) -> Color {
    if col == 0 {
        color_of_u8(header.course_theme.spec_code())
    } else if col == 1 {
        color_of_u8((header.time_limit & 0xFF) as u8)
    } else if col == 2 {
        color_of_u8(((header.time_limit >> 8) & 0xFF) as u8)
    } else if col == 3 {
        color_of_u8(header.auto_scroll.spec_code())
    } else if col == 4 {
        color_of_u8(header.flags)
    } else if col == 5 {
        color_of_u8((block_width & 0xFF) as u8)
    } else if col == 6 {
        color_of_u8(((block_width >> 8) & 0xFF) as u8)
    } else if col == 7 {
        color_of_u8(((block_width >> 16) & 0xFF) as u8)
    } else {
        color_of_u8(((block_width >> 24) & 0xFF) as u8)
    }
}

/// The pixels of a canvas after the header of an overview has been written
/// on row `y_offset`.
pub open spec fn with_overview_header(
    pixels: Map<(int, int), Color>,
    header: Header,
    block_width: u32,
    y_offset: int,
) -> Map<(int, int), Color> {
    Map::new(
        |p: (int, int)| pixels.dom().contains(p) || in_header(p, y_offset),
        |p: (int, int)|
            if in_header(p, y_offset) {
                overview_header_pixel(header, block_width, p.0)
            } else {
                pixels[p]
            },
    )
}

/// The pixels of a canvas after the overview of a level has been drawn at
/// `y_offset`: the header on that row, the objects below it.
pub open spec fn with_overview(
    pixels: Map<(int, int), Color>,
    header: Header,
    block_width: u32,
    objs: Seq<Object>,
    y_offset: int,
) -> Map<(int, int), Color> {
    with_objects(
        Layout::Overview,
        with_overview_header(pixels, header, block_width, y_offset),
        objs,
        y_offset,
    )
}

/// Whether drawing the overview of a level at `y_offset` stays on a canvas
/// of the given size.
pub open spec fn overview_fits(objs: Seq<Object>, width: nat, height: nat, y_offset: int) -> bool {
    &&& HEADER_LEN <= width
    &&& y_offset < height
    &&& objects_fit(Layout::Overview, objs, width, height, y_offset)
}

/// Tells whether `overview_from_level` may be called.
pub fn can_draw_overview(level: &Level, img: &Canvas, y_offset: u32) -> (ok: bool)
    ensures
        ok == overview_fits(level@.objects, img@.width, img@.height, y_offset as int),
{
    HEADER_LEN <= img.width() && y_offset < img.height() && can_encode_objects(
        Layout::Overview,
        &level.objects,
        img,
        y_offset,
    )
}

/// Draws the overview of a level at `y_offset`. The width in blocks is
/// not a field of the level and is given beside it.
pub fn overview_from_level(level: &Level, block_width: u32, img: &mut Canvas, y_offset: u32)
    requires
        overview_fits(level@.objects, old(img)@.width, old(img)@.height, y_offset as int),
    ensures
        final(img)@.width == old(img)@.width,
        final(img)@.height == old(img)@.height,
        final(img)@.pixels == with_overview(
            old(img)@.pixels,
            level@.header,
            block_width,
            level@.objects,
            y_offset as int,
        ),
{
    let time_limit = level.time_limit;
    assert((time_limit & 0xFF) <= 0xFF && ((time_limit >> 8) & 0xFF) <= 0xFF) by (bit_vector);
    assert((block_width & 0xFF) <= 0xFF && ((block_width >> 8) & 0xFF) <= 0xFF && ((block_width
        >> 16) & 0xFF) <= 0xFF && ((block_width >> 24) & 0xFF) <= 0xFF) by (bit_vector);
    img.put_pixel(0, y_offset, colorize_u8(level.course_theme.code()));
    img.put_pixel(1, y_offset, colorize_u8((time_limit & 0xFF) as u8));
    img.put_pixel(2, y_offset, colorize_u8(((time_limit >> 8) & 0xFF) as u8));
    img.put_pixel(3, y_offset, colorize_u8(level.auto_scroll.code()));
    img.put_pixel(4, y_offset, colorize_u8(level.flags));
    img.put_pixel(5, y_offset, colorize_u8((block_width & 0xFF) as u8));
    img.put_pixel(6, y_offset, colorize_u8(((block_width >> 8) & 0xFF) as u8));
    img.put_pixel(7, y_offset, colorize_u8(((block_width >> 16) & 0xFF) as u8));
    img.put_pixel(8, y_offset, colorize_u8(((block_width >> 24) & 0xFF) as u8));
    assert(img@.pixels =~= with_overview_header(
        old(img)@.pixels,
        level@.header,
        block_width,
        y_offset as int,
    ));
    encode_objects(Layout::Overview, &level.objects, img, y_offset);
}

/// Draws the overview of a course on a fresh black canvas: the level at
/// row 5, then the sub-level at row 110. Where the two meet, the sub-level
/// shows.
pub fn create_overview_from_course(course: &Course, block_width: u32, sub_block_width: u32) -> (img:
    Canvas)
    ensures
        img@.width == OVERVIEW_SIDE,
        img@.height == OVERVIEW_SIDE,
        img@.pixels == with_overview(
            with_overview(
                blank_pixels(OVERVIEW_SIDE as nat, OVERVIEW_SIDE as nat),
                course.level@.header,
                block_width,
                course.level@.objects,
                LEVEL_ROW as int,
            ),
            course.sub_level@.header,
            sub_block_width,
            course.sub_level@.objects,
            SUB_LEVEL_ROW as int,
        ),
{
    let mut img = Canvas::new(OVERVIEW_SIDE, OVERVIEW_SIDE);
    overview_from_level(&course.level, block_width, &mut img, LEVEL_ROW);
    overview_from_level(&course.sub_level, sub_block_width, &mut img, SUB_LEVEL_ROW);
    img
}

} // verus!
