//! What this crate takes on trust from code outside it.
//!
//! Every item here is either the declaration of a type that lives in another
//! crate, a name for something such a type holds, or a thin function whose body
//! is one call into that crate and whose contract is believed, not proved.

use bytes::Bytes;
use memchr::memmem;
use std::time::{Duration, SystemTime, UNIX_EPOCH};
use vstd::prelude::*;
use vstd::utf8::{decode_utf8, valid_utf8};

verus! {

/// `bytes::Bytes`, a cheaply cloneable handle to a contiguous run of bytes.
#[verifier::external_type_specification]
#[verifier::external_body]
pub struct ExBytes(bytes::Bytes);

/// The bytes that a `Bytes` handle gives access to, in order.
pub uninterp spec fn contents(b: Bytes) -> Seq<u8>;

/// `Bytes::as_ref`: the handle read as a slice, which holds exactly its
/// contents.
#[verifier::external_body]
pub(crate) fn as_slice(b: &Bytes) -> (s: &[u8])
    ensures
        s@ == contents(*b),
{
    b.as_ref()
}

/// `Bytes::slice` on the range `begin..end`: a new handle to that part of the
/// contents. The call panics unless `begin <= end <= len`, which is required
/// here.
#[verifier::external_body]
pub(crate) fn slice(b: &Bytes, begin: usize, end: usize) -> (part: Bytes)
    requires
        begin <= end <= contents(*b).len(),
    ensures
        contents(part) == contents(*b).subrange(begin as int, end as int),
{
    b.slice(begin..end)
}

/// The first item of `memchr::memmem::find_iter` for a needle of one byte: the
/// least index at which `needle` occurs in `haystack`, or `None` where it does
/// not occur.
#[verifier::external_body]
pub(crate) fn find_byte(haystack: &[u8], needle: u8) -> (found: Option<usize>)
    ensures
        match found {
            Some(at) => {
                &&& at < haystack@.len()
                &&& haystack@[at as int] == needle
                &&& forall|k: int| 0 <= k < at ==> haystack@[k] != needle
            },
            None => forall|k: int| 0 <= k < haystack@.len() ==> haystack@[k] != needle,
        },
{
    memmem::find_iter(haystack, &[needle]).next()
}

/// `std::string::FromUtf8Error`, which says where bytes stop being UTF-8.
#[verifier::external_type_specification]
#[verifier::external_body]
pub struct ExFromUtf8Error(std::string::FromUtf8Error);

/// `String::from_utf8` succeeds on the bytes that are valid UTF-8, and on no
/// others; the string then holds the characters that the bytes encode.
pub assume_specification[ String::from_utf8 ](bytes: Vec<u8>) -> (r: Result<
    String,
    std::string::FromUtf8Error,
>)
    ensures
        r is Ok <==> valid_utf8(bytes@),
        r matches Ok(text) ==> text@ == decode_utf8(bytes@),
;

/// The upper-case form of a character in ASCII: `a` to `z` become `A` to `Z`,
/// and every other character stays.
pub open spec fn upper_char(c: char) -> char {
    if 'a' <= c <= 'z' {
        ((c as u8) - 32) as char
    } else {
        c
    }
}

/// `str::to_ascii_uppercase`: a copy of the text with each character in its
/// ASCII upper-case form.
#[verifier::external_body]
pub(crate) fn to_upper(text: &str) -> (upper: String)
    ensures
        upper@.len() == text@.len(),
        forall|i: int| 0 <= i < text@.len() ==> upper@[i] == upper_char(text@[i]),
{
    text.to_ascii_uppercase()
}

/// `std::time::SystemTimeError`, which says by how much a clock reading lies
/// before the instant it was measured from.
#[verifier::external_type_specification]
#[verifier::external_body]
pub struct ExSystemTimeError(std::time::SystemTimeError);

/// `std::time::SystemTime`, a reading of the system clock.
#[verifier::external_type_specification]
#[verifier::external_body]
pub struct ExSystemTime(std::time::SystemTime);

/// `SystemTime::now`: the system clock as it stands. Nothing is promised of
/// the reading.
#[verifier::external_body]
pub(crate) fn clock_reading() -> SystemTime {
    SystemTime::now()
}

/// `SystemTime::duration_since` the Unix epoch: how long after the epoch the
/// reading lies, or an error where it lies before the epoch.
#[verifier::external_body]
pub(crate) fn since_epoch(reading: &SystemTime) -> Result<Duration, std::time::SystemTimeError> {
    reading.duration_since(UNIX_EPOCH)
}

/// `Duration::as_millis`: the whole milliseconds in a span of time.
#[verifier::external_body]
pub(crate) fn whole_millis(span: &Duration) -> u128 {
    span.as_millis()
}

/// `std::io::Error`, which says why reading from or writing to a socket
/// failed.
#[verifier::external_type_specification]
#[verifier::external_body]
pub struct ExIoError(std::io::Error);

} // verus!
