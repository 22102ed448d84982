//! Turns a raster image into an embroidery pattern: a grid of cells, each in
//! the colour of a thread from a fixed catalog, with the list of threads used.
//!
//! The library works on integers only. Perceptual measurements (Lab
//! coordinates and colour differences) are made by the caller and handed in
//! as plain values; every function states what it returns for whatever
//! measurements it is given.
//!
//! A pattern is made in one of two ways. `Canvas::new` reduces the image to
//! the swatches of a palette first: every pixel votes for its nearest swatch,
//! and a cell takes the thread of the swatch that wins. `Canvas::from_cells`
//! takes for each cell the thread of the colour that `major_colors` finds
//! most frequent among the cell's pixels.

pub mod api;
pub mod embroidery;
pub mod error;
pub mod http;
pub mod text;
