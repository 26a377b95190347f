//! The level assembler: header and objects together, to a canvas and back.

use crate::canvas::{blank_pixels, Canvas};
use crate::color::Color;
use crate::grid::{
    can_decode_objects, can_encode_objects, decode_objects, decoded_objects, encode_objects,
    objects_fit, objects_readable, with_objects, Layout,
};
use crate::header::{decode_header, encode_header, header_of_pixels, with_header, HEADER_LEN};
use crate::level::{Course, Header, Level, LevelView, Object, SoundEffect};
use chrono::NaiveDateTime;
use vstd::prelude::*;

verus! {

/// The pixels of a canvas after a level has been encoded at `y_offset`:
/// the header on that row, the objects below it.
pub open spec fn with_level(
    pixels: Map<(int, int), Color>,
    header: Header,
    objs: Seq<Object>,
    y_offset: int,
) -> Map<(int, int), Color> {
    with_objects(Layout::Full, with_header(pixels, header, y_offset), objs, y_offset)
}

/// Whether encoding a level at `y_offset` stays on a canvas of the given
/// size.
pub open spec fn level_fits(objs: Seq<Object>, width: nat, height: nat, y_offset: int) -> bool {
    &&& HEADER_LEN <= width
    &&& y_offset < height
    &&& objects_fit(Layout::Full, objs, width, height, y_offset)
}

/// Whether a level is what decoding at `y_offset` makes of the pixels. The
/// name and the time of creation are not on the canvas and are left open.
pub open spec fn is_decoded(level: LevelView, pixels: Map<(int, int), Color>, y_offset: int) -> bool {
    &&& level.header == header_of_pixels(pixels, y_offset)
    &&& level.objects == decoded_objects(pixels, y_offset)
    &&& level.version == 0
    &&& level.mii_data == Seq::new(96, |i: int| 0u8)
    &&& level.sound_effects == Seq::<SoundEffect>::empty()
}

/// Whether a name is two words joined by a hyphen.
pub open spec fn is_two_word_name(name: Seq<char>) -> bool {
    exists|first: Seq<char>, second: Seq<char>| name == first + seq!['-'] + second
}

/// Tells whether `image_from_level` may be called.
pub fn can_encode(level: &Level, img: &Canvas, y_offset: u32) -> (ok: bool)
    ensures
        ok == level_fits(level@.objects, img@.width, img@.height, y_offset as int),
{
    HEADER_LEN <= img.width() && y_offset < img.height() && can_encode_objects(
        Layout::Full,
        &level.objects,
        img,
        y_offset,
    )
}

/// Tells whether `level_from_img` may be called.
pub fn can_decode(img: &Canvas, y_offset: u32) -> (ok: bool)
    ensures
        ok == objects_readable(img@.pixels, img@.width, img@.height, y_offset as int),
{
    can_decode_objects(img, y_offset)
}

/// Encodes a level at `y_offset`: the header on that row, the objects in
/// the bands below it.
pub fn image_from_level(level: &Level, img: &mut Canvas, y_offset: u32)
    requires
        level_fits(level@.objects, old(img)@.width, old(img)@.height, y_offset as int),
    ensures
        final(img)@.width == old(img)@.width,
        final(img)@.height == old(img)@.height,
        final(img)@.pixels == with_level(
            old(img)@.pixels,
            level@.header,
            level@.objects,
            y_offset as int,
        ),
{
    let header = level.header();
    encode_header(&header, img, y_offset);
    encode_objects(Layout::Full, &level.objects, img, y_offset);
}

/// Decodes the level at `y_offset`, with the name and the time of creation
/// that the caller gives it.
pub fn level_from_img_with(
    img: &Canvas,
    y_offset: u32,
    level_name: String,
    creation_time: NaiveDateTime,
) -> (level: Level)
    requires
        objects_readable(img@.pixels, img@.width, img@.height, y_offset as int),
    ensures
        is_decoded(level@, img@.pixels, y_offset as int),
        level@.level_name == level_name@,
        level@.creation_time == creation_time,
{
    let header = decode_header(img, y_offset);
    let objects = decode_objects(img, y_offset);
    let level = Level {
        game_mode: header.game_mode,
        course_theme: header.course_theme,
        time_limit: header.time_limit,
        auto_scroll: header.auto_scroll,
        flags: header.flags,
        width: header.width,
        objects,
        version: 0,
        creation_time,
        level_name,
        mii_data: [0u8; 96],
        sound_effects: Vec::new(),
    };
    assert(level@.mii_data =~= Seq::new(96, |i: int| 0u8));
    level
}

/// `random_word::gen` for English: one word of the list that the crate
/// carries, picked with the thread's random number generator. Nothing is
/// claimed of the word.
#[verifier::external_body]
fn random_english_word() -> (word: &'static str) {
    random_word::gen(random_word::Lang::En)
}

/// `chrono::Local::now`, turned by `DateTime::naive_local` into local
/// time without a zone. Nothing is claimed of the time. The two calls
/// panic where the system clock stands before 1970 or beyond the years
/// that `chrono` can hold; no argument can rule that out.
#[verifier::external_body]
fn local_now() -> (now: NaiveDateTime) {
    chrono::Local::now().naive_local()
}

/// The name made of two words: the words joined by a hyphen.
pub fn level_name_from_words(first: &str, second: &str) -> (name: String)
    ensures
        name@ == first@ + seq!['-'] + second@,
{
    proof {
        reveal_strlit("-");
        assert("-"@ =~= seq!['-']);
    }
    first.to_owned().concat("-").concat(second)
}

/// Decodes the level at `y_offset`. The level is named with two random
/// English words and dated with the current local time, as the system
/// clock gives it. Use `level_from_img_with` to name and date it yourself.
pub fn level_from_img(img: &Canvas, y_offset: u32) -> (level: Level)
    requires
        objects_readable(img@.pixels, img@.width, img@.height, y_offset as int),
    ensures
        is_decoded(level@, img@.pixels, y_offset as int),
        is_two_word_name(level@.level_name),
{
    let first = random_english_word();
    let second = random_english_word();
    let level_name = level_name_from_words(first, second);
    level_from_img_with(img, y_offset, level_name, local_now())
}

/// Encodes the two levels of a course on one canvas: the level at
/// `y_offset`, then the sub-level at `sub_y_offset`. Where the two meet,
/// the sub-level shows.
pub fn image_from_course(course: &Course, img: &mut Canvas, y_offset: u32, sub_y_offset: u32)
    requires
        level_fits(course.level@.objects, old(img)@.width, old(img)@.height, y_offset as int),
        level_fits(
            course.sub_level@.objects,
            old(img)@.width,
            old(img)@.height,
            sub_y_offset as int,
        ),
    ensures
        final(img)@.width == old(img)@.width,
        final(img)@.height == old(img)@.height,
        final(img)@.pixels == with_level(
            with_level(
                old(img)@.pixels,
                course.level@.header,
                course.level@.objects,
                y_offset as int,
            ),
            course.sub_level@.header,
            course.sub_level@.objects,
            sub_y_offset as int,
        ),
{
    image_from_level(&course.level, img, y_offset);
    image_from_level(&course.sub_level, img, sub_y_offset);
}

/// The side of the canvas that a course is drawn on.
pub const COURSE_CANVAS_SIDE: u32 = 256;

/// Draws the level of a course at the top of a fresh black canvas.
pub fn create_image_from_course(course: &Course) -> (img: Canvas)
    ensures
        img@.width == COURSE_CANVAS_SIDE,
        img@.height == COURSE_CANVAS_SIDE,
        img@.pixels == with_level(
            blank_pixels(COURSE_CANVAS_SIDE as nat, COURSE_CANVAS_SIDE as nat),
            course.level@.header,
            course.level@.objects,
            0,
        ),
{
    let mut img = Canvas::new(COURSE_CANVAS_SIDE, COURSE_CANVAS_SIDE);
    image_from_level(&course.level, &mut img, 0);
    img
}

} // verus!
