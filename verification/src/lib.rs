//! Composite Code 128 barcode images: text preparation, symbol encoding,
//! composition of two symbols on one canvas and serialisation as PNG.

pub mod bitmap;
pub mod code;
pub mod code128;
pub mod config;
pub mod error;
pub mod platform;
pub mod png;
