//! The words for the floating-point numbers that no decimal literal names.

use vstd::prelude::*;
use crate::text::str_eq;

verus! {

/// Why a text could not be read as a floating-point number.
#[derive(Debug, Clone, Copy, PartialEq, Eq, Structural)]
pub enum ProtobufFloatParseError {
    /// The text is empty
    EmptyString,
    /// The text is no number
    CannotParseFloat,
}

/// What reading a text as a floating-point number yields.
pub type ProtobufFloatParseResult<T> = Result<T, ProtobufFloatParseError>;

/// The word for "not a number".
pub const PROTOBUF_NAN: &'static str = "nan";

/// The word for infinity.
pub const PROTOBUF_INF: &'static str = "inf";

/// What the text of a floating-point number names.
#[derive(Debug, Clone, Copy, PartialEq, Eq, Structural)]
pub enum FloatForm {
    /// Not a number: `nan`
    Nan,
    /// Positive infinity: `inf` or `+inf`
    Infinity,
    /// Negative infinity: `-inf`
    NegInfinity,
    /// Anything else, which is left to be read as a decimal number
    Decimal,
}

/// What a text names, if it is not empty.
pub open spec fn float_form_of(s: Seq<char>) -> Result<FloatForm, ProtobufFloatParseError> {
    if s.len() == 0 {
        Err(ProtobufFloatParseError::EmptyString)
    } else if s == PROTOBUF_NAN@ {
        Ok(FloatForm::Nan)
    } else if s == PROTOBUF_INF@ || s == seq!['+'] + PROTOBUF_INF@ {
        Ok(FloatForm::Infinity)
    } else if s == seq!['-'] + PROTOBUF_INF@ {
        Ok(FloatForm::NegInfinity)
    } else {
        Ok(FloatForm::Decimal)
    }
}

/// `sign` followed by the word for infinity.
fn signed_inf(sign: char) -> (r: String)
    ensures
        r@ == seq![sign] + PROTOBUF_INF@,
{
    let mut out = String::new();
    out.push(sign);
    out.append(PROTOBUF_INF);
    assert(out@ =~= seq![sign] + PROTOBUF_INF@);
    out
}

/// Tells the words for the numbers that are not finite from the texts that
/// are to be read as decimal numbers. The empty text is an error.
pub fn float_form(s: &str) -> (r: ProtobufFloatParseResult<FloatForm>)
    ensures
        r == float_form_of(s@),
{
    if s.is_empty() {
        return Err(ProtobufFloatParseError::EmptyString);
    }
    if str_eq(s, PROTOBUF_NAN) {
        return Ok(FloatForm::Nan);
    }
    if str_eq(s, PROTOBUF_INF) || str_eq(s, signed_inf('+').as_str()) {
        return Ok(FloatForm::Infinity);
    }
    if str_eq(s, signed_inf('-').as_str()) {
        return Ok(FloatForm::NegInfinity);
    }
    Ok(FloatForm::Decimal)
}

} // verus!
