//! The pattern engine: colours and the thread catalog, cell geometry,
//! palette extraction, the canvas and its rendering.

pub mod canvas;
pub mod cells;
pub mod colors;
pub mod dmc;
pub mod image;
pub mod major;
pub mod palette;
pub mod votes;
