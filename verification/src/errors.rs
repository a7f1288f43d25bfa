//! The failure conditions of the library, and their user-visible messages.

use vstd::prelude::*;
use vstd::string::StringExecFns;

verus! {

/// Everything that can go wrong while converting or playing back frames.
///
/// Each variant is terminal for the run that raised it: the caller reports
/// the message and stops. Variants that concern a particular input carry it,
/// so the message can name the failing path or parameter.
#[derive(Debug, Clone, PartialEq, Eq)]
pub enum AsciiError {
    /// A numeric parameter is out of range: zero columns, a zero-dimension
    /// image, an empty palette, or a cell aspect outside the accepted range.
    InvalidParameter { what: String },
    /// A strategy name that is none of the recognized ones.
    UnknownStrategy { name: String },
    /// A ramp specifier that resolves to an empty glyph sequence.
    InvalidRamp,
    /// Frame discovery found no file of the expected kind.
    EmptyInputSet,
    /// A source image could not be decoded.
    DecodeFailed { path: String },
    /// A read, write or directory listing failed.
    IoFailed { path: String },
}

impl AsciiError {
    /// The text shown for this error. For configuration errors over an
    /// enumerated choice, the text lists every accepted value.
    pub open spec fn spec_message(self) -> Seq<char> {
        match self {
            AsciiError::InvalidParameter { what } => "invalid parameter: "@ + what@,
            AsciiError::UnknownStrategy { name } => "unknown resizer: "@ + name@
                + ". Available options: nearest, triangle, lanczos3, pixel, 1to1"@,
            AsciiError::InvalidRamp => "ramp cannot be empty"@,
            AsciiError::EmptyInputSet => "no matching frames found"@,
            AsciiError::DecodeFailed { path } => "failed to decode "@ + path@,
            AsciiError::IoFailed { path } => "io failure at "@ + path@,
        }
    }

    /// Render the message.
    pub fn message(&self) -> (r: String)
        ensures
            r@ == self.spec_message(),
    {
        match self {
            AsciiError::InvalidParameter { what } => {
                let mut r = String::from_str("invalid parameter: ");
                r.append(what.as_str());
                r
            },
            AsciiError::UnknownStrategy { name } => {
                let mut r = String::from_str("unknown resizer: ");
                r.append(name.as_str());
                r.append(". Available options: nearest, triangle, lanczos3, pixel, 1to1");
                r
            },
            AsciiError::InvalidRamp => String::from_str("ramp cannot be empty"),
            AsciiError::EmptyInputSet => String::from_str("no matching frames found"),
            AsciiError::DecodeFailed { path } => {
                let mut r = String::from_str("failed to decode ");
                r.append(path.as_str());
                r
            },
            AsciiError::IoFailed { path } => {
                let mut r = String::from_str("io failure at ");
                r.append(path.as_str());
                r
            },
        }
    }
}

} // verus!
