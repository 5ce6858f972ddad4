//! The booleans of Bitfinex replies, which arrive as `true` or `false`, as
//! `1` or `0`, or as the words for them.

use vstd::prelude::*;

verus! {

/// A scalar as a reply holds it.
#[derive(Clone, Debug)]
pub enum Scalar {
    Bool(bool),
    Signed(i64),
    Unsigned(u64),
    Text(String),
    /// Anything else: a fraction, nothing, a list, an object.
    Other,
}

/// Why a scalar is no boolean.
#[derive(Clone, Copy, Debug, PartialEq, Eq, Structural)]
pub enum Unexpected {
    /// An integer other than 0 and 1.
    Signed(i64),
    /// A text other than `true` and `false`.
    Text,
    /// A scalar of a kind that never is a boolean.
    Kind,
}

/// A 64-bit unsigned integer read as a signed one of the same bits.
pub open spec fn reinterpret(v: u64) -> i64 {
    if v <= i64::MAX {
        v as i64
    } else {
        (v - 0x1_0000_0000_0000_0000) as i64
    }
}

/// The boolean an integer stands for.
pub open spec fn bool_of_integer(v: i64) -> Result<bool, Unexpected> {
    if v == 0 {
        Ok(false)
    } else if v == 1 {
        Ok(true)
    } else {
        Err(Unexpected::Signed(v))
    }
}

/// The boolean a text stands for.
pub open spec fn bool_of_text(v: Seq<char>) -> Result<bool, Unexpected> {
    if v == "false"@ {
        Ok(false)
    } else if v == "true"@ {
        Ok(true)
    } else {
        Err(Unexpected::Text)
    }
}

/// The boolean a scalar stands for.
pub open spec fn bool_of(value: Scalar) -> Result<bool, Unexpected> {
    match value {
        Scalar::Bool(b) => Ok(b),
        Scalar::Signed(v) => bool_of_integer(v),
        Scalar::Unsigned(v) => bool_of_integer(reinterpret(v)),
        Scalar::Text(text) => bool_of_text(text@),
        Scalar::Other => Err(Unexpected::Kind),
    }
}

/// Reads an integer as a boolean: 0 is false, 1 is true.
pub fn visit_i64(v: i64) -> (b: Result<bool, Unexpected>)
    ensures
        b == bool_of_integer(v),
{
    if v == 0 {
        Ok(false)
    } else if v == 1 {
        Ok(true)
    } else {
        Err(Unexpected::Signed(v))
    }
}

/// Reads an unsigned integer as a boolean, by way of the signed integer
/// of the same bits.
pub fn visit_u64(v: u64) -> (b: Result<bool, Unexpected>)
    ensures
        b == bool_of_integer(reinterpret(v)),
{
    if v <= 0x7fff_ffff_ffff_ffff {
        visit_i64(v as i64)
    } else {
        let wrapped: i128 = v as i128 - 0x1_0000_0000_0000_0000;
        visit_i64(wrapped as i64)
    }
}

/// Reads a text as a boolean: the words `false` and `true`, as they stand.
pub fn visit_str(v: &str) -> (b: Result<bool, Unexpected>)
    ensures
        b == bool_of_text(v@),
{
    let text = String::from_str(v);
    if text == String::from_str("false") {
        Ok(false)
    } else if text == String::from_str("true") {
        Ok(true)
    } else {
        Err(Unexpected::Text)
    }
}

/// Reads a scalar as a boolean.
pub fn bool_from_val(value: &Scalar) -> (b: Result<bool, Unexpected>)
    ensures
        b == bool_of(*value),
{
    match value {
        Scalar::Bool(b) => Ok(*b),
        Scalar::Signed(v) => visit_i64(*v),
        Scalar::Unsigned(v) => visit_u64(*v),
        Scalar::Text(text) => visit_str(text.as_str()),
        Scalar::Other => Err(Unexpected::Kind),
    }
}

/// Reads a scalar as a boolean that may be missing: whatever is no
/// boolean counts as missing.
pub fn bool_from_val_option(value: &Scalar) -> (b: Option<bool>)
    ensures
        b == match bool_of(*value) {
            Ok(found) => Some(found),
            Err(_) => None::<bool>,
        },
{
    match bool_from_val(value) {
        Ok(found) => Some(found),
        Err(_) => None,
    }
}

} // verus!
