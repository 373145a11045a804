//! Writing a canvas as a PNG file in memory.

use crate::bitmap::{Bitmap, Raster};
use crate::error::SerializationError;
use image::{ExtendedColorType, ImageError, ImageFormat};
use std::io::Cursor;
use vstd::prelude::*;

verus! {

/// The error type of the image crate, carried through unopened.
#[verifier::external_type_specification]
#[verifier::external_body]
pub struct ExImageError(ImageError);

/// What the image encoder makes of a picture of the given size whose byte
/// layout, four bytes per pixel, is `bytes`: the bytes of the PNG file, or
/// nothing where it reports a fault.
pub uninterp spec fn png_stream(width: u32, height: u32, bytes: Seq<u8>) -> Option<Seq<u8>>;

/// An outcome of the encoder with the file as a sequence and the fault left
/// out.
pub open spec fn written(r: Result<Vec<u8>, ImageError>) -> Option<Seq<u8>> {
    match r {
        Ok(file) => Some(file@),
        Err(_) => None,
    }
}

/// Calls `image::write_buffer_with_format` with the colour type RGBA of eight
/// bits and the format PNG, writing into a buffer in memory. Nothing is
/// proved of the outcome: it is only given the name [`png_stream`]. The
/// encoder panics on a buffer whose length does not fit the size, hence the
/// `requires`.
#[verifier::external_body]
pub(crate) fn write_png(bytes: &Vec<u8>, width: u32, height: u32) -> (r: Result<
    Vec<u8>,
    ImageError,
>)
    requires
        bytes@.len() == 4 * width * height,
    ensures
        written(r) == png_stream(width, height, bytes@),
{
    let mut out: Vec<u8> = Vec::new();
    match image::write_buffer_with_format(
        &mut Cursor::new(&mut out),
        bytes,
        width,
        height,
        ExtendedColorType::Rgba8,
        ImageFormat::Png,
    ) {
        Ok(()) => Ok(out),
        Err(e) => Err(e),
    }
}

/// What becomes of a canvas: `TooLarge` where its byte layout cannot be
/// addressed, else the file that the image encoder makes of it, or `Encoder`
/// where it makes none.
pub open spec fn serialized(canvas: Raster) -> Result<Seq<u8>, SerializationError> {
    if 4 * canvas.pixels.len() > usize::MAX {
        Err(SerializationError::TooLarge)
    } else {
        match png_stream(canvas.width as u32, canvas.height as u32, canvas.bytes()) {
            Some(file) => Ok(file),
            None => Err(SerializationError::Encoder),
        }
    }
}

/// An outcome with the file as a sequence.
pub open spec fn filed<E>(r: Result<Vec<u8>, E>) -> Result<Seq<u8>, E> {
    match r {
        Ok(file) => Ok(file@),
        Err(e) => Err(e),
    }
}

/// Writes the canvas as a PNG file in memory.
pub fn serialize(canvas: &Bitmap) -> (r: Result<Vec<u8>, SerializationError>)
    ensures
        filed(r) == serialized(canvas@),
{
    let width = canvas.width();
    let height = canvas.height();
    let bytes = match canvas.to_bytes() {
        Some(bytes) => bytes,
        None => {
            return Err(SerializationError::TooLarge);
        },
    };
    proof {
        assert(4 * (width * height) == 4 * width * height) by (nonlinear_arith);
    }
    match write_png(&bytes, width, height) {
        Ok(out) => Ok(out),
        Err(_) => Err(SerializationError::Encoder),
    }
}

} // verus!
