//! What can go wrong on the way from text to image bytes.

use vstd::prelude::*;
use vstd::string::*;

verus! {

/// The text could not be turned into a symbol.
#[derive(Clone, Copy, Debug, PartialEq, Eq, Structural)]
pub enum EncodingError {
    /// A character lies outside the repertoire, or the symbology has no
    /// codeword for it in the code set that is active where it stands.
    Character,
    /// The text is too short or too long to make a symbol.
    Length,
    /// The symbol cannot be drawn at the requested height on this machine.
    Generate,
    /// The modules handed back do not form a symbol with a correct check
    /// codeword.
    Checksum,
}

/// Two symbols could not be put on one canvas.
#[derive(Clone, Copy, Debug, PartialEq, Eq, Structural)]
pub enum CompositionError {
    /// One of the bitmaps has no columns or no rows.
    EmptySymbol,
    /// One of the bitmaps is too tall for its place on the canvas.
    OutOfCanvas,
    /// The canvas would be wider than a picture can be, or too large to
    /// address on this machine.
    TooLarge,
}

/// The canvas could not be written as an image file.
#[derive(Clone, Copy, Debug, PartialEq, Eq, Structural)]
pub enum SerializationError {
    /// The byte layout of the canvas cannot be addressed on this machine.
    TooLarge,
    /// The image encoder reported a fault.
    Encoder,
}

/// Any failure of the pipeline, by the stage that failed.
#[derive(Clone, Copy, Debug, PartialEq, Eq, Structural)]
pub enum BarcodeError {
    Encoding(EncodingError),
    Composition(CompositionError),
    Serialization(SerializationError),
}

impl EncodingError {
    /// The reason in words.
    pub open spec fn description(self) -> Seq<char> {
        match self {
            EncodingError::Character => "Barcode data is invalid"@,
            EncodingError::Length => "Barcode data length is invalid"@,
            EncodingError::Generate => "Could not generate barcode data"@,
            EncodingError::Checksum => "Invalid checksum"@,
        }
    }

    /// The reason in words.
    pub fn describe(&self) -> (r: String)
        ensures
            r@ == self.description(),
    {
        match self {
            EncodingError::Character => String::from_str("Barcode data is invalid"),
            EncodingError::Length => String::from_str("Barcode data length is invalid"),
            EncodingError::Generate => String::from_str("Could not generate barcode data"),
            EncodingError::Checksum => String::from_str("Invalid checksum"),
        }
    }
}

impl CompositionError {
    /// The reason in words.
    pub open spec fn description(self) -> Seq<char> {
        match self {
            CompositionError::EmptySymbol => "A symbol has no columns or no rows"@,
            CompositionError::OutOfCanvas => "A symbol does not fit on the canvas"@,
            CompositionError::TooLarge => "The canvas is too large"@,
        }
    }

    /// The reason in words.
    pub fn describe(&self) -> (r: String)
        ensures
            r@ == self.description(),
    {
        match self {
            CompositionError::EmptySymbol => String::from_str("A symbol has no columns or no rows"),
            CompositionError::OutOfCanvas => String::from_str(
                "A symbol does not fit on the canvas",
            ),
            CompositionError::TooLarge => String::from_str("The canvas is too large"),
        }
    }
}

impl SerializationError {
    /// The reason in words.
    pub open spec fn description(self) -> Seq<char> {
        match self {
            SerializationError::TooLarge => "The canvas is too large to be written"@,
            SerializationError::Encoder => "The image could not be encoded"@,
        }
    }

    /// The reason in words.
    pub fn describe(&self) -> (r: String)
        ensures
            r@ == self.description(),
    {
        match self {
            SerializationError::TooLarge => String::from_str(
                "The canvas is too large to be written",
            ),
            SerializationError::Encoder => String::from_str("The image could not be encoded"),
        }
    }
}

impl BarcodeError {
    /// The reason in words: that of the stage that failed.
    pub open spec fn description(self) -> Seq<char> {
        match self {
            BarcodeError::Encoding(e) => e.description(),
            BarcodeError::Composition(e) => e.description(),
            BarcodeError::Serialization(e) => e.description(),
        }
    }

    /// The reason in words.
    pub fn describe(&self) -> (r: String)
        ensures
            r@ == self.description(),
    {
        match self {
            BarcodeError::Encoding(e) => e.describe(),
            BarcodeError::Composition(e) => e.describe(),
            BarcodeError::Serialization(e) => e.describe(),
        }
    }
}

} // verus!
