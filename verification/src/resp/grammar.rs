//! The RESP wire format as mathematics: what a run of bytes decodes to, and
//! what a datum encodes to.

use crate::errors::RespFault;
use vstd::prelude::*;

verus! {

/// Carriage return, the first byte of the terminator.
pub const CR: u8 = 13;

/// Line feed, the second byte of the terminator.
pub const LF: u8 = 10;

/// Type byte of a simple string, and the plus sign of an integer.
pub const PLUS: u8 = 43;

/// Type byte of an error, and the minus sign of an integer or a length.
pub const MINUS: u8 = 45;

/// Type byte of an integer.
pub const COLON: u8 = 58;

/// Type byte of a bulk string.
pub const DOLLAR: u8 = 36;

/// Type byte of an array.
pub const STAR: u8 = 42;

/// The digit `0`.
pub const ZERO: u8 = 48;

/// The digit `1`.
pub const ONE: u8 = 49;

/// The digit `9`.
pub const NINE: u8 = 57;

/// One decoded RESP datum, as a mathematical value.
pub enum Datum {
    SimpleString(Seq<u8>),
    BulkString(Seq<u8>),
    NullBulkString,
    Integer(i64),
    Array(Seq<Datum>),
    NullArray,
    Error(Seq<u8>),
}

pub open spec fn is_digit(b: u8) -> bool {
    ZERO <= b <= NINE
}

/// The number that a run of decimal digits writes, most significant digit
/// first. The empty run writes zero.
pub open spec fn decimal_value(digits: Seq<u8>) -> nat
    decreases digits.len(),
{
    if digits.len() == 0 {
        0
    } else {
        decimal_value(digits.drop_last()) * 10 + (digits.last() - ZERO) as nat
    }
}

/// The least index at or after `from` whose byte is no decimal digit, or the
/// length of `bytes` where every byte from `from` on is one.
pub open spec fn digits_end(bytes: Seq<u8>, from: int) -> int
    decreases bytes.len() - from,
{
    if 0 <= from < bytes.len() && is_digit(bytes[from]) {
        digits_end(bytes, from + 1)
    } else {
        from
    }
}

/// A decimal number that starts at `from` and runs up to a CR: its value and
/// the index of that CR. The number may have no digit at all, and is then
/// zero. It fails where the input ends before a CR, where a byte that is
/// neither digit nor CR comes first, and where the value is above `limit`.
pub open spec fn spec_number(bytes: Seq<u8>, from: int, limit: nat) -> Result<(nat, int), RespFault> {
    let end = digits_end(bytes, from);
    if end >= bytes.len() {
        Err(RespFault::CRMissing)
    } else if bytes[end] != CR {
        Err(RespFault::IntegerParseError(bytes.subrange(from, end + 1)))
    } else if decimal_value(bytes.subrange(from, end)) > limit {
        Err(RespFault::IntegerParseError(bytes.subrange(from, end)))
    } else {
        Ok((decimal_value(bytes.subrange(from, end)), end))
    }
}

/// A length that starts at `from`: `None` for the null sentinel `-1`, else a
/// number of at most `limit`; with it the index just behind the CRLF that
/// ends the length.
pub open spec fn spec_length(bytes: Seq<u8>, from: int, limit: nat) -> Result<
    (Option<nat>, int),
    RespFault,
> {
    if from < bytes.len() && bytes[from] == MINUS {
        if from + 2 < bytes.len() && bytes[from + 1] == ONE && bytes[from + 2] == CR {
            if from + 3 < bytes.len() && bytes[from + 3] == LF {
                Ok((None, from + 4))
            } else {
                Err(RespFault::LFMissing)
            }
        } else {
            Err(RespFault::NegativeLength)
        }
    } else {
        match spec_number(bytes, from, limit) {
            Err(fault) => Err(fault),
            Ok((value, cr)) => if cr + 1 < bytes.len() && bytes[cr + 1] == LF {
                Ok((Some(value), cr + 2))
            } else {
                Err(RespFault::LFMissing)
            },
        }
    }
}

/// The length of a bulk string or an array: what follows the type byte.
pub open spec fn spec_parse_len(bytes: Seq<u8>) -> Result<(Option<nat>, int), RespFault> {
    spec_length(bytes, 1, usize::MAX as nat)
}

/// The least index at or after `from` at which `byte` stands, if there is one.
pub open spec fn first_index(bytes: Seq<u8>, byte: u8, from: int) -> Option<int>
    decreases bytes.len() - from,
{
    if from < 0 || from >= bytes.len() {
        None
    } else if bytes[from] == byte {
        Some(from)
    } else {
        first_index(bytes, byte, from + 1)
    }
}

/// The text of a simple string or an error, and the length of the whole
/// value. The text runs from the second byte up to the first CR; the first LF
/// must follow that CR at once.
pub open spec fn spec_line(bytes: Seq<u8>) -> Result<(Seq<u8>, int), RespFault> {
    match (first_index(bytes, CR, 1), first_index(bytes, LF, 1)) {
        (None, _) => Err(RespFault::CRMissing),
        (Some(_), None) => Err(RespFault::LFMissing),
        (Some(cr), Some(lf)) => if lf == cr + 1 {
            Ok((bytes.subrange(1, cr), lf + 1))
        } else {
            Err(RespFault::CRLFNotAtEnd)
        },
    }
}

/// Whether the second byte is a sign.
pub open spec fn has_sign(bytes: Seq<u8>) -> bool {
    bytes.len() > 1 && (bytes[1] == PLUS || bytes[1] == MINUS)
}

/// Whether the second byte is a minus sign.
pub open spec fn has_minus(bytes: Seq<u8>) -> bool {
    bytes.len() > 1 && bytes[1] == MINUS
}

/// The greatest magnitude that a 64-bit integer of the given sign can have.
pub open spec fn magnitude_limit(negative: bool) -> nat {
    if negative {
        0x8000_0000_0000_0000
    } else {
        0x7fff_ffff_ffff_ffff
    }
}

/// An integer and the length of the whole value: an optional sign, then the
/// magnitude, read as a length is. A magnitude that is itself written with a
/// minus sign is a negative length.
pub open spec fn spec_integer(bytes: Seq<u8>) -> Result<(i64, int), RespFault> {
    let negative = has_minus(bytes);
    let from: int = if has_sign(bytes) { 2 } else { 1 };
    match spec_length(bytes, from, magnitude_limit(negative)) {
        Err(fault) => Err(fault),
        Ok((None, _)) => Err(RespFault::NegativeLength),
        Ok((Some(magnitude), next)) => if negative {
            Ok(((-(magnitude as int)) as i64, next))
        } else {
            Ok((magnitude as i64, next))
        },
    }
}

/// A bulk string and the length of the whole value: `None` for the null bulk
/// string, else the payload, which is as long as the length says and is
/// followed by CRLF.
pub open spec fn spec_bulk_string(bytes: Seq<u8>) -> Result<(Option<Seq<u8>>, int), RespFault> {
    match spec_parse_len(bytes) {
        Err(fault) => Err(fault),
        Ok((None, next)) => Ok((None, next)),
        Ok((Some(len), start)) => {
            let end = start + len;
            if end >= bytes.len() || bytes[end] != CR {
                Err(RespFault::CRMissing)
            } else if end + 1 >= bytes.len() || bytes[end + 1] != LF {
                Err(RespFault::LFMissing)
            } else {
                Ok((Some(bytes.subrange(start, end)), end + 2))
            }
        },
    }
}

/// The datum that `bytes` begins with, and how many bytes it takes. The first
/// byte says which type it is.
pub open spec fn spec_deserialize(bytes: Seq<u8>) -> Result<(Datum, int), RespFault>
    decreases bytes.len(), 1nat, 0nat,
{
    if bytes.len() == 0 {
        Err(RespFault::CRMissing)
    } else if bytes[0] == PLUS {
        match spec_line(bytes) {
            Err(fault) => Err(fault),
            Ok((text, len)) => Ok((Datum::SimpleString(text), len)),
        }
    } else if bytes[0] == MINUS {
        match spec_line(bytes) {
            Err(fault) => Err(fault),
            Ok((text, len)) => Ok((Datum::Error(text), len)),
        }
    } else if bytes[0] == COLON {
        match spec_integer(bytes) {
            Err(fault) => Err(fault),
            Ok((value, len)) => Ok((Datum::Integer(value), len)),
        }
    } else if bytes[0] == DOLLAR {
        match spec_bulk_string(bytes) {
            Err(fault) => Err(fault),
            Ok((None, len)) => Ok((Datum::NullBulkString, len)),
            Ok((Some(payload), len)) => Ok((Datum::BulkString(payload), len)),
        }
    } else if bytes[0] == STAR {
        spec_array(bytes)
    } else {
        Err(RespFault::UnsupportedRESPType(bytes[0]))
    }
}

/// An array and the length of the whole value: the count, then that many
/// values one after the other.
///
/// The count ends within the bytes, so its elements are read from fewer
/// bytes; the test for it is there to show that, and never fails.
pub open spec fn spec_array(bytes: Seq<u8>) -> Result<(Datum, int), RespFault>
    decreases bytes.len(), 0nat, 0nat,
{
    match spec_parse_len(bytes) {
        Err(fault) => Err(fault),
        Ok((None, next)) => Ok((Datum::NullArray, next)),
        Ok((Some(count), start)) => if 0 < start <= bytes.len() {
            match spec_elements(bytes.skip(start), count) {
                Err(fault) => Err(fault),
                Ok((items, len)) => Ok((Datum::Array(items), start + len)),
            }
        } else {
            Err(RespFault::CRMissing)
        },
    }
}

/// `count` values one after the other from the start of `bytes`, and how many
/// bytes they take together.
///
/// A value ends within the bytes it is read from; the test for it is there
/// to show that the reading ends, and never fails.
pub open spec fn spec_elements(bytes: Seq<u8>, count: nat) -> Result<(Seq<Datum>, int), RespFault>
    decreases bytes.len(), 2nat, count,
{
    if count == 0 {
        Ok((Seq::empty(), 0))
    } else {
        match spec_deserialize(bytes) {
            Err(fault) => Err(fault),
            Ok((first, used)) => if 0 <= used <= bytes.len() {
                match spec_elements(bytes.skip(used), (count - 1) as nat) {
                    Err(fault) => Err(fault),
                    Ok((rest, more)) => Ok((seq![first] + rest, used + more)),
                }
            } else {
                Err(RespFault::CRMissing)
            },
        }
    }
}

/// The decimal digits of `n`, most significant first; at least one digit.
pub open spec fn spec_digits(n: nat) -> Seq<u8>
    decreases n,
{
    if n < 10 {
        seq![(ZERO + n) as u8]
    } else {
        spec_digits(n / 10).push((ZERO + n % 10) as u8)
    }
}

/// The two bytes that end every part of a value.
pub open spec fn crlf() -> Seq<u8> {
    seq![CR, LF]
}

/// The bytes that a datum is written as.
pub open spec fn spec_serialize(datum: Datum) -> Seq<u8>
    decreases datum, 0nat,
{
    match datum {
        Datum::SimpleString(text) => seq![PLUS] + text + crlf(),
        Datum::Error(text) => seq![MINUS] + text + crlf(),
        Datum::Integer(value) => if value < 0 {
            seq![COLON, MINUS] + spec_digits((-value) as nat) + crlf()
        } else {
            seq![COLON] + spec_digits(value as nat) + crlf()
        },
        Datum::BulkString(payload) => seq![DOLLAR] + spec_digits(payload.len()) + crlf() + payload
            + crlf(),
        Datum::NullBulkString => seq![DOLLAR, MINUS, ONE, CR, LF],
        Datum::Array(items) => seq![STAR] + spec_digits(items.len()) + crlf() + spec_serialize_all(
            items,
        ),
        Datum::NullArray => seq![STAR, MINUS, ONE, CR, LF],
    }
}

/// The bytes that a run of data is written as, one datum after the other.
pub open spec fn spec_serialize_all(items: Seq<Datum>) -> Seq<u8>
    decreases items, 1nat,
{
    if items.len() == 0 {
        Seq::empty()
    } else {
        spec_serialize(items[0]) + spec_serialize_all(items.skip(1))
    }
}

} // verus!
