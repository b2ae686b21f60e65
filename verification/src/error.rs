//! Error taxonomy of the compositing and panel-driver core.
use vstd::prelude::*;

verus! {

/// Failure modes of the drawing and panel-update operations.
///
/// `InvalidArgument` marks a caller bug (out-of-bounds geometry, a
/// mismatched bitmap buffer length, an unsupported font size, an invalid
/// border color). `HardwareIO` marks a failed command/data transaction on
/// the device port; the whole reset-and-draw sequence must then be rerun.
/// `GlyphNotFound` aborts a text draw whose glyph source has no bitmap for
/// a character. `InternalError` marks a corrupted sensor transfer.
#[derive(Clone, Copy, PartialEq, Eq, Structural, Debug)]
pub enum WmError {
    InvalidArgument,
    HardwareIO,
    GlyphNotFound(char),
    InternalError,
}

impl WmError {
    /// A short human-readable description of the error.
    pub fn message(&self) -> (r: &'static str)
        ensures
            self is InvalidArgument ==> r@ == "Invalid Argument"@,
            self is HardwareIO ==> r@ == "Hardware IO Error"@,
            self is GlyphNotFound ==> r@ == "Glyph Not Found"@,
            self is InternalError ==> r@ == "Internal Error"@,
    {
        match self {
            WmError::InvalidArgument => "Invalid Argument",
            WmError::HardwareIO => "Hardware IO Error",
            WmError::GlyphNotFound(_) => "Glyph Not Found",
            WmError::InternalError => "Internal Error",
        }
    }
}

} // verus!
