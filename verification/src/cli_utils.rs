//! Validation of the caller-facing parameters.

use vstd::prelude::*;
use vstd::string::StrSliceExecFns;
use vstd::string::StringExecFns;
use crate::errors::AsciiError;

verus! {

/// Check the conversion parameters: the column count must be positive and
/// the cell aspect (in hundredths) within 0.50 to 5.00.
pub fn validate_image_args(cols: u32, cell_aspect: u32) -> (r: Result<(), AsciiError>)
    ensures
        match r {
            Ok(_) => cols >= 1 && 50 <= cell_aspect <= 500,
            Err(e) => (cols == 0 || cell_aspect < 50 || cell_aspect > 500) && match e {
                AsciiError::InvalidParameter { what } =>
                    what@ == if cols == 0 { "cols"@ } else { "cell-aspect"@ },
                _ => false,
            },
        },
{
    if cols == 0 {
        return Err(AsciiError::InvalidParameter { what: String::from_str("cols") });
    }
    if cell_aspect < 50 || cell_aspect > 500 {
        return Err(AsciiError::InvalidParameter { what: String::from_str("cell-aspect") });
    }
    Ok(())
}

/// A hexadecimal digit, in either case.
pub open spec fn is_hex_digit(c: char) -> bool {
    let v = c as int;
    (48 <= v <= 57) || (97 <= v <= 102) || (65 <= v <= 70)
}

/// A well-formed color: exactly six hexadecimal digits.
pub open spec fn valid_hex_color(s: Seq<char>) -> bool {
    s.len() == 6 && forall|i: int| 0 <= i < s.len() ==> is_hex_digit(#[trigger] s[i])
}

/// Check a color given as six hex digits (e.g. `ffffff`).
pub fn validate_hex_color(hex: &str) -> (r: Result<(), AsciiError>)
    ensures
        r is Ok <==> valid_hex_color(hex@),
        match r {
            Ok(_) => true,
            Err(e) => match e {
                AsciiError::InvalidParameter { what } => what@ == "color"@,
                _ => false,
            },
        },
{
    let n = hex.unicode_len();
    if n != 6 {
        return Err(AsciiError::InvalidParameter { what: String::from_str("color") });
    }
    let mut i: usize = 0;
    while i < 6
        invariant
            i <= 6,
            hex@.len() == 6,
            forall|j: int| 0 <= j < i ==> is_hex_digit(#[trigger] hex@[j]),
        decreases 6 - i,
    {
        let v: u32 = hex.get_char(i) as u32;
        if !((48 <= v && v <= 57) || (97 <= v && v <= 102) || (65 <= v && v <= 70)) {
            return Err(AsciiError::InvalidParameter { what: String::from_str("color") });
        }
        i = i + 1;
    }
    Ok(())
}

} // verus!
