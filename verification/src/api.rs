//! The decisions of the pattern service's form handling.

pub mod image;
