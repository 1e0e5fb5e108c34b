//! Contracts for the few std functions the library calls that vstd leaves
//! unspecified. Each states what the std documentation promises.

use std::num::ParseIntError;
use std::string::FromUtf8Error;
use vstd::utf8::{decode_utf8, valid_utf8};
use vstd::prelude::*;

use crate::text::parse_unsigned;

verus! {

/// `ParseIntError`, carried through the library's own error type.
#[verifier::external_type_specification]
#[verifier::external_body]
pub struct ExParseIntError(ParseIntError);

/// Cloning a `ParseIntError` (a derived `Clone` of a plain error kind) gives
/// an identical value.
pub assume_specification[ <ParseIntError as Clone>::clone ](e: &ParseIntError) -> (r: ParseIntError)
    ensures
        r == *e,
;

/// `FromUtf8Error`, dropped by the callers.
#[verifier::external_type_specification]
#[verifier::external_body]
pub struct ExFromUtf8Error(FromUtf8Error);

/// `String::from_utf8` succeeds exactly on valid UTF-8 and then holds the
/// decoded characters.
pub assume_specification[ String::from_utf8 ](vec: Vec<u8>) -> (r: Result<String, FromUtf8Error>)
    ensures
        r is Ok <==> valid_utf8(vec@),
        r matches Ok(s) ==> s@ == decode_utf8(vec@),
;

/// `String::push` appends one character.
pub assume_specification[ String::push ](s: &mut String, ch: char)
    ensures
        final(s)@ == old(s)@.push(ch),
;

/// `u16::from_str_radix` accepts exactly an optional `+` followed by one or
/// more digits of the base whose value fits in a `u16`, and returns that value;
/// it panics on a base outside `2..=36`.
pub assume_specification[ u16::from_str_radix ](src: &str, radix: u32) -> (r: Result<
    u16,
    ParseIntError,
>)
    requires
        2 <= radix <= 36,
    ensures
        r is Ok <==> (parse_unsigned(src@, radix as nat) matches Some(v) && v <= u16::MAX),
        r matches Ok(v) ==> parse_unsigned(src@, radix as nat) == Some(v as nat),
;

/// `u8::from_str_radix`, with the same syntax as for `u16` and the range of a `u8`.
pub assume_specification[ u8::from_str_radix ](src: &str, radix: u32) -> (r: Result<
    u8,
    ParseIntError,
>)
    requires
        2 <= radix <= 36,
    ensures
        r is Ok <==> (parse_unsigned(src@, radix as nat) matches Some(v) && v <= u8::MAX),
        r matches Ok(v) ==> parse_unsigned(src@, radix as nat) == Some(v as nat),
;

} // verus!
