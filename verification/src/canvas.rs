//! The canvas: an 8-bit RGB raster held by the `image` crate.
//!
//! The raster is opaque to the verifier. Its dimensions and its pixels are
//! named by three uninterpreted functions, and the few methods of
//! `image::ImageBuffer` that the codec needs are wrapped with contracts over
//! those names. Everything else in this crate is proved against them.

use crate::color::Color;
use vstd::prelude::*;

verus! {

/// An RGB raster with 8 bits per channel: an `image::RgbImage`, which the
/// verifier does not look into. It is made by `Canvas::new` and
/// `Canvas::from_raw` only.
#[verifier::external_body]
pub struct Canvas {
    img: image::RgbImage,
}

/// The number of columns of a canvas: what `ImageBuffer::width` returns.
pub uninterp spec fn canvas_width(canvas: Canvas) -> u32;

/// The number of rows of a canvas: what `ImageBuffer::height` returns.
pub uninterp spec fn canvas_height(canvas: Canvas) -> u32;

/// The pixels of a canvas, keyed by column and row: for every place
/// inside the canvas, and for no other, the color that
/// `ImageBuffer::get_pixel` returns there.
pub uninterp spec fn canvas_pixels(canvas: Canvas) -> Map<(int, int), Color>;

/// The pixels of a canvas of the given size that is black all over.
pub open spec fn blank_pixels(width: nat, height: nat) -> Map<(int, int), Color> {
    Map::new(
        |p: (int, int)| 0 <= p.0 < width && 0 <= p.1 < height,
        |p: (int, int)| Color { r: 0, g: 0, b: 0 },
    )
}

/// The pixels that a buffer of samples holds: three samples per pixel,
/// red first, the pixels of a row side by side and the rows one after the
/// other.
pub open spec fn pixels_of_raw(raw: Seq<u8>, width: nat, height: nat) -> Map<(int, int), Color> {
    Map::new(
        |p: (int, int)| 0 <= p.0 < width && 0 <= p.1 < height,
        |p: (int, int)|
            Color {
                r: raw[3 * (p.1 * width + p.0)],
                g: raw[3 * (p.1 * width + p.0) + 1],
                b: raw[3 * (p.1 * width + p.0) + 2],
            },
    )
}

/// `ImageBuffer::new`: a raster of the given size with every sample zero.
/// It panics where the samples would not fit a vector, so such sizes are
/// excluded.
#[verifier::external_body]
fn image_new(width: u32, height: u32) -> (canvas: Canvas)
    requires
        3 * width * height <= isize::MAX,
    ensures
        canvas_width(canvas) == width,
        canvas_height(canvas) == height,
        canvas_pixels(canvas) == blank_pixels(width as nat, height as nat),
{
    Canvas { img: image::RgbImage::new(width, height) }
}

/// `ImageBuffer::from_raw`: a raster over a buffer of samples, or nothing
/// where the buffer is too short for the given size.
#[verifier::external_body]
fn image_from_raw(width: u32, height: u32, raw: Vec<u8>) -> (canvas: Option<Canvas>)
    ensures
        canvas is Some <==> 3 * width * height <= raw@.len(),
        canvas is Some ==> canvas_width(canvas->0) == width && canvas_height(canvas->0) == height
            && canvas_pixels(canvas->0) == pixels_of_raw(raw@, width as nat, height as nat),
{
    match image::RgbImage::from_raw(width, height, raw) {
        Some(img) => Some(Canvas { img }),
        None => None,
    }
}

/// `ImageBuffer::into_raw`: the buffer of samples under a raster. It may
/// be longer than the raster needs.
#[verifier::external_body]
fn image_into_raw(canvas: Canvas) -> (raw: Vec<u8>)
    ensures
        3 * canvas_width(canvas) * canvas_height(canvas) <= raw@.len(),
        canvas_pixels(canvas) == pixels_of_raw(
            raw@,
            canvas_width(canvas) as nat,
            canvas_height(canvas) as nat,
        ),
{
    canvas.img.into_raw()
}

/// `ImageBuffer::width`: the number of columns.
#[verifier::external_body]
fn image_width(canvas: &Canvas) -> (w: u32)
    ensures
        w == canvas_width(*canvas),
{
    canvas.img.width()
}

/// `ImageBuffer::height`: the number of rows.
#[verifier::external_body]
fn image_height(canvas: &Canvas) -> (h: u32)
    ensures
        h == canvas_height(*canvas),
{
    canvas.img.height()
}

/// `ImageBuffer::get_pixel`: the pixel at a place inside the raster, which
/// has one at every such place. Outside it the method panics, so such
/// places are excluded.
#[verifier::external_body]
fn image_get_pixel(canvas: &Canvas, x: u32, y: u32) -> (color: Color)
    requires
        x < canvas_width(*canvas),
        y < canvas_height(*canvas),
    ensures
        canvas_pixels(*canvas).contains_pair((x as int, y as int), color),
{
    let p = canvas.img.get_pixel(x, y);
    Color { r: p.0[0], g: p.0[1], b: p.0[2] }
}

/// `ImageBuffer::put_pixel`: replaces the pixel at a place inside the raster
/// and leaves every other pixel and the dimensions as they were. Outside the
/// raster the method panics, so such places are excluded.
#[verifier::external_body]
fn image_put_pixel(canvas: &mut Canvas, x: u32, y: u32, color: Color)
    requires
        x < canvas_width(*old(canvas)),
        y < canvas_height(*old(canvas)),
    ensures
        canvas_width(*final(canvas)) == canvas_width(*old(canvas)),
        canvas_height(*final(canvas)) == canvas_height(*old(canvas)),
        canvas_pixels(*final(canvas)) == canvas_pixels(*old(canvas)).insert(
            (x as int, y as int),
            color,
        ),
{
    canvas.img.put_pixel(x, y, image::Rgb([color.r, color.g, color.b]));
}

/// What a canvas is to the contracts: its dimensions and its pixels.
pub struct CanvasView {
    pub width: nat,
    pub height: nat,
    pub pixels: Map<(int, int), Color>,
}

impl View for Canvas {
    type V = CanvasView;

    open spec fn view(&self) -> CanvasView {
        CanvasView {
            width: canvas_width(*self) as nat,
            height: canvas_height(*self) as nat,
            pixels: canvas_pixels(*self),
        }
    }
}

impl Canvas {
    /// A black canvas of the given size.
    pub fn new(width: u32, height: u32) -> (canvas: Canvas)
        requires
            3 * width * height <= isize::MAX,
        ensures
            canvas@.width == width,
            canvas@.height == height,
            canvas@.pixels == blank_pixels(width as nat, height as nat),
    {
        image_new(width, height)
    }

    /// A canvas over a buffer of samples, or nothing where the buffer is
    /// too short for the given size.
    pub fn from_raw(width: u32, height: u32, raw: Vec<u8>) -> (canvas: Option<Canvas>)
        ensures
            canvas is Some <==> 3 * width * height <= raw@.len(),
            canvas is Some ==> canvas->0@.width == width && canvas->0@.height == height
                && canvas->0@.pixels == pixels_of_raw(raw@, width as nat, height as nat),
    {
        image_from_raw(width, height, raw)
    }

    /// The buffer of samples under a canvas.
    pub fn into_raw(self) -> (raw: Vec<u8>)
        ensures
            3 * self@.width * self@.height <= raw@.len(),
            self@.pixels == pixels_of_raw(raw@, self@.width, self@.height),
    {
        image_into_raw(self)
    }

    /// The number of columns.
    pub fn width(&self) -> (w: u32)
        ensures
            w == self@.width,
    {
        image_width(self)
    }

    /// The number of rows.
    pub fn height(&self) -> (h: u32)
        ensures
            h == self@.height,
    {
        image_height(self)
    }

    /// The pixel in column `x` of row `y`.
    pub fn get_pixel(&self, x: u32, y: u32) -> (color: Color)
        requires
            x < self@.width,
            y < self@.height,
        ensures
            self@.pixels.contains_pair((x as int, y as int), color),
    {
        image_get_pixel(self, x, y)
    }

    /// Replaces the pixel in column `x` of row `y`.
    pub fn put_pixel(&mut self, x: u32, y: u32, color: Color)
        requires
            x < old(self)@.width,
            y < old(self)@.height,
        ensures
            final(self)@.width == old(self)@.width,
            final(self)@.height == old(self)@.height,
            final(self)@.pixels == old(self)@.pixels.insert((x as int, y as int), color),
    {
        image_put_pixel(self, x, y, color)
    }
}

} // verus!
