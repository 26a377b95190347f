//! Game levels as pictures, and back.
//!
//! A level is a small header and a sparse set of placed objects. The
//! header becomes nine pixels on one row of a canvas. The objects are
//! sorted into the cells of a grid, one object to a cell, and each object
//! is written as a column of pixels, one in each of the horizontal bands
//! below the header row. What was written can be read back: the header as
//! it was, and the objects as far as the grid keeps them apart.
//!
//! - [`color`] turns numbers into colors and back;
//! - [`canvas`] is the raster, held by the `image` crate;
//! - [`level`] is the data;
//! - [`header`], [`cells`] and [`grid`] write and read the parts of a level;
//! - [`assemble`] writes and reads whole levels;
//! - [`overview`] draws a course small, to be looked at;
//! - [`laws`] states what comes back of what was written.

pub mod assemble;
pub mod canvas;
pub mod cells;
pub mod color;
pub mod grid;
pub mod header;
pub mod laws;
pub mod level;
pub mod overview;

pub use assemble::{
    create_image_from_course, image_from_course, image_from_level, level_from_img,
    level_from_img_with,
};
pub use color::{colorize_u16, colorize_u8, u16_from_i8, uncolorize_u16, uncolorize_u8, Color};
