//! WebP files, as far as it takes to tell which of them the outside decoder cannot survive.
pub mod bits;
pub mod codes;
pub mod headers;
pub mod lossless;
pub mod frames;
pub mod container;
