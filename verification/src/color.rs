//! The scalar codec: unsigned integers as pixel colors.
//!
//! A 16-bit word is cut into three slices of six, six and four bits, and
//! each slice is stored in one channel, above the two lowest bits. Every
//! word comes back from its color unchanged. A color comes back from its
//! word without the bits that no slice fills: the two lowest of each
//! channel and the two highest of blue.

use vstd::prelude::*;

verus! {

/// One pixel: three 8-bit channels.
#[derive(Clone, Copy, Debug, PartialEq, Eq, Structural)]
pub struct Color {
    pub r: u8,
    pub g: u8,
    pub b: u8,
}

/// The color that stands for a 16-bit word.
pub open spec fn color_of_u16(data: u16) -> Color {
    Color {
        r: ((data & 0x3F) << 2) as u8,
        g: ((data >> 4) & 0xFC) as u8,
        b: ((data >> 10) & 0xFC) as u8,
    }
}

/// The 16-bit word that a color stands for.
pub open spec fn u16_of_color(color: Color) -> u16 {
    ((color.r as u16) >> 2) | (((color.g as u16) & 0xFC) << 4) | (((color.b as u16) & 0xFC) << 10)
}

/// The color that stands for a byte: the byte is the high half of a word.
pub open spec fn color_of_u8(data: u8) -> Color {
    color_of_u16((data as u16) << 8)
}

/// The byte that a color stands for: the high half of its word.
pub open spec fn u8_of_color(color: Color) -> u8 {
    (u16_of_color(color) >> 8) as u8
}

/// A signed byte reread as unsigned and widened.
pub open spec fn word_of_i8(data: i8) -> u16 {
    (data as u8) as u16
}

pub fn colorize_u16(data: u16) -> (color: Color)
    ensures
        color == color_of_u16(data),
{
    assert(((data & 0x3F) << 2) <= 0xFF && ((data >> 4) & 0xFC) <= 0xFF && ((data >> 10) & 0xFC)
        <= 0xFF) by (bit_vector);
    let r = ((data & 0x3F) << 2) as u8;
    let g = ((data >> 4) & 0xFC) as u8;
    let b = ((data >> 10) & 0xFC) as u8;
    Color { r, g, b }
}

pub fn uncolorize_u16(color: &Color) -> (data: u16)
    ensures
        data == u16_of_color(*color),
{
    let r = color.r as u16;
    let g = color.g as u16;
    let b = color.b as u16;
    (r >> 2) | ((g & 0xFC) << 4) | ((b & 0xFC) << 10)
}

pub fn colorize_u8(data: u8) -> (color: Color)
    ensures
        color == color_of_u8(data),
{
    colorize_u16((data as u16) << 8)
}

pub fn uncolorize_u8(color: &Color) -> (data: u8)
    ensures
        data == u8_of_color(*color),
{
    let word = uncolorize_u16(color);
    assert((word >> 8) <= 0xFF) by (bit_vector);
    (word >> 8) as u8
}

pub fn u16_from_i8(data: i8) -> (word: u16)
    ensures
        word == word_of_i8(data),
{
    (#[verifier::truncate] (data as u8)) as u16
}

/// Every 16-bit word survives the trip through a color.
pub proof fn lemma_u16_round_trip(data: u16)
    ensures
        u16_of_color(color_of_u16(data)) == data,
{
    assert(u16_of_color(color_of_u16(data)) == data) by (bit_vector);
}

/// A color that went through a word keeps the bits that hold the slices
/// and loses the others.
pub proof fn lemma_color_round_trip(color: Color)
    ensures
        color_of_u16(u16_of_color(color)) == (Color {
            r: color.r & 0xFC,
            g: color.g & 0xFC,
            b: color.b & 0x3C,
        }),
{
    let (r, g, b) = (color.r, color.g, color.b);
    assert(color_of_u16(u16_of_color(Color { r, g, b })).r == r & 0xFC && color_of_u16(
        u16_of_color(Color { r, g, b }),
    ).g == g & 0xFC && color_of_u16(u16_of_color(Color { r, g, b })).b == b & 0x3C)
        by (bit_vector);
}

/// Every byte survives the trip through a color.
pub proof fn lemma_u8_round_trip(data: u8)
    ensures
        u8_of_color(color_of_u8(data)) == data,
{
    assert(u8_of_color(color_of_u8(data)) == data) by (bit_vector);
}

} // verus!
