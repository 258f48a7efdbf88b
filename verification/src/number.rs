//! Integers as text: what the standard library reads as a decimal integer.

use vstd::prelude::*;

verus! {

/// Whether every character is one of the ten ASCII digits.
pub open spec fn all_digits(text: Seq<char>) -> bool {
    forall|i: int| 0 <= i < text.len() ==> '0' <= #[trigger] text[i] <= '9'
}

/// The number that a string of digits denotes in base ten.
pub open spec fn digits_value(digits: Seq<char>) -> nat
    decreases digits.len(),
{
    if digits.len() == 0 {
        0
    } else {
        (10 * digits_value(digits.drop_last()) + (digits.last() as nat - '0' as nat)) as nat
    }
}

/// The integer that a text denotes: an optional `+` or `-`, then one or more
/// digits and nothing else.
pub open spec fn signed_decimal(text: Seq<char>) -> Option<int> {
    let signed = text.len() > 0 && (text[0] == '-' || text[0] == '+');
    let digits = if signed {
        text.drop_first()
    } else {
        text
    };
    if digits.len() > 0 && all_digits(digits) {
        if signed && text[0] == '-' {
            Some(-(digits_value(digits) as int))
        } else {
            Some(digits_value(digits) as int)
        }
    } else {
        None
    }
}

/// The `i64` that a text denotes, where it denotes an integer in range.
pub open spec fn parsed_i64(text: Seq<char>) -> Option<i64> {
    match signed_decimal(text) {
        Some(n) => if i64::MIN <= n <= i64::MAX {
            Some(n as i64)
        } else {
            None
        },
        None => None,
    }
}

/// The `i32` that a text denotes, where it denotes an integer in range.
pub open spec fn parsed_i32(text: Seq<char>) -> Option<i32> {
    match signed_decimal(text) {
        Some(n) => if i32::MIN <= n <= i32::MAX {
            Some(n as i32)
        } else {
            None
        },
        None => None,
    }
}

/// `<i64 as FromStr>::from_str`, a failure as its message. Trusted: the call
/// reads an optional sign and then decimal digits only, and fails on any
/// other text and on a number out of range.
#[verifier::external_body]
pub(crate) fn i64_from_str(text: &str) -> (r: Result<i64, String>)
    ensures
        match r {
            Ok(n) => parsed_i64(text@) == Some(n),
            Err(_) => parsed_i64(text@) is None,
        },
{
    <i64 as core::str::FromStr>::from_str(text).map_err(|e| e.to_string())
}

/// `<i32 as FromStr>::from_str`, a failure as its message. Trusted: the call
/// reads an optional sign and then decimal digits only, and fails on any
/// other text and on a number out of range.
#[verifier::external_body]
pub(crate) fn i32_from_str(text: &str) -> (r: Result<i32, String>)
    ensures
        match r {
            Ok(n) => parsed_i32(text@) == Some(n),
            Err(_) => parsed_i32(text@) is None,
        },
{
    <i32 as core::str::FromStr>::from_str(text).map_err(|e| e.to_string())
}

} // verus!
