//! The core of an image server: it turns uploaded and remote pictures into edited JPEG images.
pub mod cache;
pub mod engine;
pub mod form;
pub mod format;
pub mod link;
pub mod pb;
pub mod raster;
pub mod safety;
pub mod text;
pub mod upload;
