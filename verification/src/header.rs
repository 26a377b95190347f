//! The header codec: the scalar fields of a level as nine pixels of one row.
//!
//! | column | holds                                         |
//! |--------|-----------------------------------------------|
//! | 0      | the game mode, in the top two bits of a byte  |
//! | 1      | the theme, in the top three bits of a byte    |
//! | 2      | the time limit, a 16-bit word                 |
//! | 3      | the scroll speed, in the top two bits         |
//! | 4      | the flags, a byte                             |
//! | 5 - 8  | the width, one byte each, lowest byte first   |

use crate::canvas::Canvas;
use crate::color::{
    color_of_u16, color_of_u8, colorize_u16, colorize_u8, u16_of_color, u8_of_color,
    uncolorize_u16, uncolorize_u8, Color,
};
use crate::level::{AutoScroll, CourseTheme, GameMode, Header};
use vstd::prelude::*;

verus! {

/// The number of pixels a header takes.
pub const HEADER_LEN: u32 = 9;

/// The pixel in column `col` of an encoded header.
pub open spec fn header_pixel(header: Header, col: int) -> Color {
    if col == 0 {
        color_of_u8(header.game_mode.spec_code() << 6)
    } else if col == 1 {
        color_of_u8(header.course_theme.spec_code() << 5)
    } else if col == 2 {
        color_of_u16(header.time_limit)
    } else if col == 3 {
        color_of_u8(header.auto_scroll.spec_code() << 6)
    } else if col == 4 {
        color_of_u8(header.flags)
    } else if col == 5 {
        color_of_u8((header.width & 0xFF) as u8)
    } else if col == 6 {
        color_of_u8(((header.width >> 8) & 0xFF) as u8)
    } else if col == 7 {
        color_of_u8(((header.width >> 16) & 0xFF) as u8)
    } else {
        color_of_u8(((header.width >> 24) & 0xFF) as u8)
    }
}

/// Whether a pixel belongs to the header written on row `y_offset`.
pub open spec fn in_header(p: (int, int), y_offset: int) -> bool {
    p.1 == y_offset && 0 <= p.0 < HEADER_LEN
}

/// The pixels of a canvas after a header has been written on row `y_offset`.
pub open spec fn with_header(pixels: Map<(int, int), Color>, header: Header, y_offset: int) -> Map<
    (int, int),
    Color,
> {
    Map::new(
        |p: (int, int)| pixels.dom().contains(p) || in_header(p, y_offset),
        |p: (int, int)|
            if in_header(p, y_offset) {
                header_pixel(header, p.0)
            } else {
                pixels[p]
            },
    )
}

/// The header that the pixels of row `y_offset` stand for.
pub open spec fn header_of_pixels(pixels: Map<(int, int), Color>, y_offset: int) -> Header {
    Header {
        game_mode: GameMode::spec_from_code(u8_of_color(pixels[(0, y_offset)]) >> 6),
        course_theme: CourseTheme::spec_from_code(u8_of_color(pixels[(1, y_offset)]) >> 5),
        time_limit: u16_of_color(pixels[(2, y_offset)]),
        auto_scroll: AutoScroll::spec_from_code(u8_of_color(pixels[(3, y_offset)]) >> 6),
        flags: u8_of_color(pixels[(4, y_offset)]),
        width: (u8_of_color(pixels[(5, y_offset)]) as u32) | ((u8_of_color(
            pixels[(6, y_offset)],
        ) as u32) << 8) | ((u8_of_color(pixels[(7, y_offset)]) as u32) << 16) | ((u8_of_color(
            pixels[(8, y_offset)],
        ) as u32) << 24),
    }
}

/// Writes a header on row `y_offset` of a canvas.
pub fn encode_header(header: &Header, img: &mut Canvas, y_offset: u32)
    requires
        HEADER_LEN <= old(img)@.width,
        y_offset < old(img)@.height,
    ensures
        final(img)@.width == old(img)@.width,
        final(img)@.height == old(img)@.height,
        final(img)@.pixels == with_header(old(img)@.pixels, *header, y_offset as int),
{
    let width = header.width;
    assert((width & 0xFF) <= 0xFF && ((width >> 8) & 0xFF) <= 0xFF && ((width >> 16) & 0xFF)
        <= 0xFF && ((width >> 24) & 0xFF) <= 0xFF) by (bit_vector);
    img.put_pixel(0, y_offset, colorize_u8(header.game_mode.code() << 6));
    img.put_pixel(1, y_offset, colorize_u8(header.course_theme.code() << 5));
    img.put_pixel(2, y_offset, colorize_u16(header.time_limit));
    img.put_pixel(3, y_offset, colorize_u8(header.auto_scroll.code() << 6));
    img.put_pixel(4, y_offset, colorize_u8(header.flags));
    img.put_pixel(5, y_offset, colorize_u8((width & 0xFF) as u8));
    img.put_pixel(6, y_offset, colorize_u8(((width >> 8) & 0xFF) as u8));
    img.put_pixel(7, y_offset, colorize_u8(((width >> 16) & 0xFF) as u8));
    img.put_pixel(8, y_offset, colorize_u8(((width >> 24) & 0xFF) as u8));
    assert(img@.pixels =~= with_header(old(img)@.pixels, *header, y_offset as int));
}

/// Reads the header on row `y_offset` of a canvas.
pub fn decode_header(img: &Canvas, y_offset: u32) -> (header: Header)
    requires
        HEADER_LEN <= img@.width,
        y_offset < img@.height,
    ensures
        header == header_of_pixels(img@.pixels, y_offset as int),
{
    let game_mode = GameMode::from_code(uncolorize_u8(&img.get_pixel(0, y_offset)) >> 6);
    let course_theme = CourseTheme::from_code(uncolorize_u8(&img.get_pixel(1, y_offset)) >> 5);
    let time_limit = uncolorize_u16(&img.get_pixel(2, y_offset));
    let auto_scroll = AutoScroll::from_code(uncolorize_u8(&img.get_pixel(3, y_offset)) >> 6);
    let flags = uncolorize_u8(&img.get_pixel(4, y_offset));
    let b0 = uncolorize_u8(&img.get_pixel(5, y_offset));
    let b1 = uncolorize_u8(&img.get_pixel(6, y_offset));
    let b2 = uncolorize_u8(&img.get_pixel(7, y_offset));
    let b3 = uncolorize_u8(&img.get_pixel(8, y_offset));
    let width = (b0 as u32) | ((b1 as u32) << 8) | ((b2 as u32) << 16) | ((b3 as u32) << 24);
    Header { game_mode, course_theme, time_limit, auto_scroll, flags, width }
}

/// A header written to a canvas is read back unchanged, whatever the canvas
/// held before.
pub proof fn lemma_header_round_trip(pixels: Map<(int, int), Color>, header: Header, y_offset: int)
    ensures
        header_of_pixels(with_header(pixels, header, y_offset), y_offset) == header,
{
    let after = with_header(pixels, header, y_offset);
    let back = header_of_pixels(after, y_offset);
    assert forall|col: int| 0 <= col < HEADER_LEN implies #[trigger] after[(col, y_offset)]
        == header_pixel(header, col) by {
        assert(in_header((col, y_offset), y_offset));
    }
    let mode = header.game_mode.spec_code();
    let theme = header.course_theme.spec_code();
    let scroll = header.auto_scroll.spec_code();
    assert(u8_of_color(color_of_u8(mode << 6)) >> 6 == mode) by (bit_vector)
        requires
            mode < 4,
    ;
    assert(u8_of_color(color_of_u8(theme << 5)) >> 5 == theme) by (bit_vector)
        requires
            theme < 6,
    ;
    assert(u8_of_color(color_of_u8(scroll << 6)) >> 6 == scroll) by (bit_vector)
        requires
            scroll < 4,
    ;
    crate::color::lemma_u16_round_trip(header.time_limit);
    crate::color::lemma_u8_round_trip(header.flags);
    let w = header.width;
    assert((u8_of_color(color_of_u8((w & 0xFF) as u8)) as u32) | ((u8_of_color(
        color_of_u8(((w >> 8) & 0xFF) as u8),
    ) as u32) << 8) | ((u8_of_color(color_of_u8(((w >> 16) & 0xFF) as u8)) as u32) << 16) | ((
    u8_of_color(color_of_u8(((w >> 24) & 0xFF) as u8)) as u32) << 24) == w) by (bit_vector);
    assert(back.game_mode == header.game_mode);
    assert(back.course_theme == header.course_theme);
    assert(back.auto_scroll == header.auto_scroll);
    assert(back.width == header.width);
}

} // verus!
