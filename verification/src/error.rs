use vstd::prelude::*;

verus! {

/// Failures surfaced while decoding an sfnt font.
#[derive(Debug, Clone, Copy, PartialEq, Eq)]
pub enum FontError {
    /// A read or seek went past the end of the input bytes.
    OutOfBounds,
    /// A required table is absent from the font directory.
    MissingTable { tag: [u8; 4] },
    /// A structural constraint of the format is broken (bad magic,
    /// illegal index-to-loc format, wrong reserved padding, unknown
    /// platform id, or metric counts that contradict the glyph count).
    InvalidFont,
    /// The selected cmap subtable has a format other than 4.
    UnsupportedCmapFormat { format: u16 },
    /// No cmap subtable with the Unicode platform id exists.
    NoUnicodeCmap,
    /// A glyph id outside `0..numGlyphs`.
    UnknownGlyph { id: u16 },
}

} // verus!
