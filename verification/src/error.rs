//! The errors a conversion can end with.
use vstd::prelude::*;

verus! {

/// Why a conversion was given up.
#[derive(Debug, Clone, Copy, PartialEq, Eq, Structural)]
pub enum NLMError {
    /// The image ends before the header or a table record is complete.
    UnexpectedEof,
    /// The first 24 bytes are not the NLM signature.
    InvalidMagic,
    /// The packed payload does not open with the bytes 1 and 10; the two
    /// bytes found are carried along.
    InvalidCompression(u8, u8),
    /// The packed bit stream was asked for bits beyond its end.
    EndOfStream,
    /// The unpacked length declared by a packed image is shorter than the
    /// header area, or the payload does not unpack to exactly that length.
    InvalidLength,
    /// A back-reference reaches before the start of the output, or has
    /// distance zero.
    InvalidDistance,
    /// An external reference word carries an unknown type nibble.
    UnrecognizedRefType(u32),
    /// An export word carries an unknown type nibble.
    UnrecognizedExportType(u32),
    /// A fixup word carries an unknown type nibble.
    UnsupportedFixupType(u32),
    /// A fixup addresses a word that does not lie inside the image.
    FixupOutOfRange,
    /// The code or data segment does not lie inside the image.
    SegmentOutOfRange,
    /// A symbol name contains a NUL byte and cannot be stored in a string
    /// table.
    InvalidName,
    /// The parts of the ELF file may not fit into 32-bit file offsets.
    TooLarge,
    /// The ELF writer could not start writing into its buffer.
    WriterFailed,
}

} // verus!
