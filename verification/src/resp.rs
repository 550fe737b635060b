//! RESP, the Redis serialization protocol: the typed values and their codec.
//!
//! A value on the wire starts with a byte that names its type. Every part of
//! it ends in CRLF. Lengths are written in decimal, and `-1` as a length
//! stands for a null bulk string or a null array.

pub mod grammar;
pub mod laws;

use crate::errors::{RESPError, RespFault};
use crate::foreign::{as_slice, contents, find_byte, slice};
use bytes::Bytes;
use grammar::{
    decimal_value, digits_end, first_index, spec_array, spec_bulk_string, spec_deserialize,
    spec_digits, spec_elements, spec_integer, spec_length, spec_line, spec_number,
    spec_parse_len, spec_serialize, Datum, COLON, CR, DOLLAR, LF, MINUS, NINE, ONE, PLUS, STAR,
    ZERO,
};
use laws::{lemma_decimal_value_step, lemma_first_index_absent, lemma_first_index_found};
use vstd::prelude::*;
use vstd::slice::{slice_subrange, slice_to_vec};

verus! {

/// The type of a RESP value, which its first byte names.
#[derive(Debug, PartialEq, Eq, Clone, Copy, Structural)]
pub enum RESPType {
    /// `+`, then text without CR or LF, then CRLF.
    SimpleString,
    /// `$`, then the length and CRLF, then the payload and CRLF.
    BulkString,
    /// `:`, then an optional sign and decimal digits, then CRLF.
    Integer,
    /// `*`, then the count and CRLF, then that many values.
    Array,
    /// `-`, then text without CR or LF, then CRLF.
    Error,
}

/// Whether `byte` names a RESP type.
pub open spec fn is_type_byte(byte: u8) -> bool {
    byte == PLUS || byte == DOLLAR || byte == COLON || byte == STAR || byte == MINUS
}

impl RESPType {
    /// The byte that names this type on the wire.
    pub open spec fn spec_byte(self) -> u8 {
        match self {
            RESPType::SimpleString => PLUS,
            RESPType::BulkString => DOLLAR,
            RESPType::Integer => COLON,
            RESPType::Array => STAR,
            RESPType::Error => MINUS,
        }
    }

    /// The byte that names this type on the wire.
    pub fn byte(self) -> (b: u8)
        ensures
            b == self.spec_byte(),
    {
        match self {
            RESPType::SimpleString => PLUS,
            RESPType::BulkString => DOLLAR,
            RESPType::Integer => COLON,
            RESPType::Array => STAR,
            RESPType::Error => MINUS,
        }
    }

    /// The type that `byte` names; `UnsupportedRESPType` with that byte where
    /// it names none.
    pub fn from_byte(byte: u8) -> (r: Result<RESPType, RESPError>)
        ensures
            match r {
                Ok(t) => t.spec_byte() == byte,
                Err(e) => e@ == RespFault::UnsupportedRESPType(byte) && !is_type_byte(byte),
            },
    {
        if byte == PLUS {
            Ok(RESPType::SimpleString)
        } else if byte == DOLLAR {
            Ok(RESPType::BulkString)
        } else if byte == COLON {
            Ok(RESPType::Integer)
        } else if byte == STAR {
            Ok(RESPType::Array)
        } else if byte == MINUS {
            Ok(RESPType::Error)
        } else {
            Err(RESPError::UnsupportedRESPType(byte))
        }
    }
}

/// One decoded RESP datum, without its type byte, lengths and terminators.
#[derive(Debug, PartialEq)]
pub enum Value {
    /// Short text that holds neither CR nor LF.
    SimpleString(Bytes),
    /// Any bytes, of a stated length.
    BulkString(Bytes),
    /// The bulk string of length `-1`: no value.
    NullBulkString,
    /// A signed 64-bit integer.
    Integer(i64),
    /// Values one after the other; they may be arrays themselves.
    Array(Vec<Value>),
    /// The array of length `-1`: no value.
    NullArray,
    /// An error message, which holds neither CR nor LF.
    Error(Bytes),
}

/// The data that a run of values stands for, one for one.
pub open spec fn views(items: Seq<Value>) -> Seq<Datum>
    decreases items,
{
    Seq::new(
        items.len(),
        |i: int|
            if 0 <= i < items.len() {
                items[i].view()
            } else {
                Datum::NullArray
            },
    )
}

impl View for Value {
    type V = Datum;

    open spec fn view(&self) -> Datum
        decreases self,
    {
        match self {
            Value::SimpleString(text) => Datum::SimpleString(contents(*text)),
            Value::BulkString(payload) => Datum::BulkString(contents(*payload)),
            Value::NullBulkString => Datum::NullBulkString,
            Value::Integer(value) => Datum::Integer(*value),
            Value::Array(items) => Datum::Array(views(items@)),
            Value::NullArray => Datum::NullArray,
            Value::Error(text) => Datum::Error(contents(*text)),
        }
    }
}

/// The plain value of a length as the codec returns it.
pub open spec fn length_view(len: Option<usize>) -> Option<nat> {
    match len {
        Some(n) => Some(n as nat),
        None => None,
    }
}

/// A decoded message: a value and the type that its first byte named.
#[derive(Debug, PartialEq)]
pub struct Message {
    pub resp_type: RESPType,
    pub data: Value,
}

/// Scans a decimal number from `from` up to a CR.
fn scan_number(bytes: &[u8], from: usize, limit: u64) -> (r: Result<(u64, usize), RESPError>)
    ensures
        match r {
            Ok((value, cr)) => spec_number(bytes@, from as int, limit as nat) == Ok::<
                (nat, int),
                RespFault,
            >((value as nat, cr as int)) && from <= cr < bytes@.len(),
            Err(e) => spec_number(bytes@, from as int, limit as nat) == Err::<(nat, int), RespFault>(
                e@,
            ),
        },
{
    if from >= bytes.len() {
        return Err(RESPError::CRMissing);
    }
    let mut at: usize = from;
    let mut value: u64 = 0;
    let mut too_large = false;
    while at < bytes.len() && ZERO <= bytes[at] && bytes[at] <= NINE
        invariant
            from <= at <= bytes@.len(),
            digits_end(bytes@, from as int) == digits_end(bytes@, at as int),
            !too_large ==> value == decimal_value(bytes@.subrange(from as int, at as int)) && value
                <= limit,
            too_large ==> decimal_value(bytes@.subrange(from as int, at as int)) > limit,
        decreases bytes@.len() - at,
    {
        let digit: u64 = (bytes[at] - ZERO) as u64;
        proof {
            lemma_decimal_value_step(bytes@, from as int, at as int);
        }
        if !too_large {
            if value > limit / 10 {
                too_large = true;
            } else {
                let tens: u64 = value * 10;
                if digit > limit - tens {
                    too_large = true;
                } else {
                    value = tens + digit;
                }
            }
        }
        at = at + 1;
    }
    if at >= bytes.len() {
        Err(RESPError::CRMissing)
    } else if bytes[at] != CR {
        Err(RESPError::IntegerParseError(slice_to_vec(slice_subrange(bytes, from, at + 1))))
    } else if too_large {
        Err(RESPError::IntegerParseError(slice_to_vec(slice_subrange(bytes, from, at))))
    } else {
        Ok((value, at))
    }
}

/// Reads a length from `from`: the null sentinel `-1`, or a number of at most
/// `limit`, and the CRLF behind it.
fn parse_length(bytes: &[u8], from: usize, limit: u64) -> (r: Result<(Option<u64>, usize), RESPError>)
    ensures
        match r {
            Ok((len, next)) => {
                &&& spec_length(bytes@, from as int, limit as nat) == Ok::<
                    (Option<nat>, int),
                    RespFault,
                >(
                    (
                        match len {
                            Some(n) => Some(n as nat),
                            None => None,
                        },
                        next as int,
                    ),
                )
                &&& from + 2 <= next <= bytes@.len()
                &&& len matches Some(n) ==> n <= limit
                &&& len is None ==> next == from + 4
            },
            Err(e) => spec_length(bytes@, from as int, limit as nat) == Err::<
                (Option<nat>, int),
                RespFault,
            >(e@),
        },
{
    let len = bytes.len();
    if from < len && bytes[from] == MINUS {
        if len - from > 2 && bytes[from + 1] == ONE && bytes[from + 2] == CR {
            if len - from > 3 && bytes[from + 3] == LF {
                Ok((None, from + 4))
            } else {
                Err(RESPError::LFMissing)
            }
        } else {
            Err(RESPError::NegativeLength)
        }
    } else {
        match scan_number(bytes, from, limit) {
            Err(e) => Err(e),
            Ok((value, cr)) => {
                if len - cr > 1 && bytes[cr + 1] == LF {
                    Ok((Some(value), cr + 2))
                } else {
                    Err(RESPError::LFMissing)
                }
            },
        }
    }
}

impl Message {
    /// Reads the length of a bulk string or an array, which follows the type
    /// byte: `None` for the null sentinel `-1`, else the number that the
    /// decimal digits up to the first CR write. With it comes the number of
    /// bytes read, the type byte and the CRLF included.
    ///
    /// Fails with `NegativeLength` on a minus sign that does not start `-1`
    /// and a CR, with `IntegerParseError` on a byte that is neither digit nor
    /// CR and on a number that `usize` cannot hold, with `CRMissing` where the
    /// input ends before a CR, and with `LFMissing` where no LF follows the
    /// CR.
    pub fn parse_len(bytes: &[u8]) -> (r: Result<(Option<usize>, usize), RESPError>)
        ensures
            match r {
                Ok((len, read)) => spec_parse_len(bytes@) == Ok::<(Option<nat>, int), RespFault>(
                    (length_view(len), read as int),
                ) && 3 <= read <= bytes@.len() && (len is None ==> read == 5),
                Err(e) => spec_parse_len(bytes@) == Err::<(Option<nat>, int), RespFault>(e@),
            },
    {
        match parse_length(bytes, 1, usize::MAX as u64) {
            Err(e) => Err(e),
            Ok((None, read)) => Ok((None, read)),
            Ok((Some(len), read)) => Ok((Some(len as usize), read)),
        }
    }
}

/// Finds the first `byte` behind the type byte, as an index into `bytes`.
fn find_in_body(bytes: &[u8], byte: u8) -> (found: Option<usize>)
    ensures
        match found {
            Some(at) => first_index(bytes@, byte, 1) == Some(at as int) && 1 <= at < bytes@.len(),
            None => first_index(bytes@, byte, 1) is None,
        },
{
    if bytes.len() == 0 {
        return None;
    }
    let body = slice_subrange(bytes, 1, bytes.len());
    match find_byte(body, byte) {
        None => {
            proof {
                assert forall|k: int| 1 <= k < bytes@.len() implies bytes@[k] != byte by {
                    assert(body@[k - 1] == bytes@[k]);
                }
                lemma_first_index_absent(bytes@, byte, 1);
            }
            None
        },
        Some(at) => {
            proof {
                assert forall|k: int| 1 <= k < at + 1 implies bytes@[k] != byte by {
                    assert(body@[k - 1] == bytes@[k]);
                }
                lemma_first_index_found(bytes@, byte, 1, at + 1);
            }
            Some(at + 1)
        },
    }
}

/// Reads the text of a simple string or an error: the handle to the text and
/// the length of the whole value.
fn deserialize_line(bytes: &Bytes) -> (r: Result<(Bytes, usize), RESPError>)
    ensures
        match r {
            Ok((text, len)) => spec_line(contents(*bytes)) == Ok::<(Seq<u8>, int), RespFault>(
                (contents(text), len as int),
            ) && 3 <= len <= contents(*bytes).len(),
            Err(e) => spec_line(contents(*bytes)) == Err::<(Seq<u8>, int), RespFault>(e@),
        },
{
    let raw = as_slice(bytes);
    let total = raw.len();
    let cr = match find_in_body(raw, CR) {
        Some(at) => at,
        None => { return Err(RESPError::CRMissing); },
    };
    let lf = match find_in_body(raw, LF) {
        Some(at) => at,
        None => { return Err(RESPError::LFMissing); },
    };
    if lf != cr + 1 {
        return Err(RESPError::CRLFNotAtEnd);
    }
    Ok((slice(bytes, 1, cr), lf + 1))
}

impl Message {
    /// Decodes a simple string: `+`, the text up to the first CR, and CRLF.
    /// Returns the text as `Value::SimpleString` and the length of the whole
    /// value in bytes.
    ///
    /// Fails with `CRMissing` where no CR follows the type byte, with
    /// `LFMissing` where no LF does, and with `CRLFNotAtEnd` where the first
    /// LF does not stand right behind the first CR.
    pub fn deserialize_simple_string(bytes: &Bytes) -> (r: Result<(Value, usize), RESPError>)
        ensures
            match r {
                Ok((value, len)) => value matches Value::SimpleString(text) && spec_line(
                    contents(*bytes),
                ) == Ok::<(Seq<u8>, int), RespFault>((contents(text), len as int)) && 3 <= len
                    <= contents(*bytes).len(),
                Err(e) => spec_line(contents(*bytes)) == Err::<(Seq<u8>, int), RespFault>(e@),
            },
    {
        match deserialize_line(bytes) {
            Ok((text, len)) => Ok((Value::SimpleString(text), len)),
            Err(e) => Err(e),
        }
    }

    /// Decodes an error: `-`, the message up to the first CR, and CRLF.
    /// Returns the message as `Value::Error` and the length of the whole value
    /// in bytes. It fails as a simple string does.
    pub fn deserialize_error(bytes: &Bytes) -> (r: Result<(Value, usize), RESPError>)
        ensures
            match r {
                Ok((value, len)) => value matches Value::Error(text) && spec_line(contents(*bytes))
                    == Ok::<(Seq<u8>, int), RespFault>((contents(text), len as int)) && 3 <= len
                    <= contents(*bytes).len(),
                Err(e) => spec_line(contents(*bytes)) == Err::<(Seq<u8>, int), RespFault>(e@),
            },
    {
        match deserialize_line(bytes) {
            Ok((text, len)) => Ok((Value::Error(text), len)),
            Err(e) => Err(e),
        }
    }

    /// Decodes a bulk string: `$`, the length, CRLF, that many bytes, CRLF.
    /// Returns the payload as `Value::BulkString`, or `Value::NullBulkString`
    /// for the length `-1`, and the length of the whole value in bytes.
    ///
    /// Fails as `parse_len` does on the length, with `CRMissing` where the
    /// payload is not followed by a CR, and with `LFMissing` where that CR is
    /// not followed by an LF.
    pub fn deserialize_bulk_string(bytes: &Bytes) -> (r: Result<(Value, usize), RESPError>)
        ensures
            match r {
                Ok((value, len)) => {
                    &&& spec_bulk_string(contents(*bytes)) == Ok::<(Option<Seq<u8>>, int), RespFault>(
                        (
                            match value {
                                Value::BulkString(payload) => Some(contents(payload)),
                                _ => None,
                            },
                            len as int,
                        ),
                    )
                    &&& value is BulkString || value is NullBulkString
                    &&& 3 <= len <= contents(*bytes).len()
                },
                Err(e) => spec_bulk_string(contents(*bytes)) == Err::<
                    (Option<Seq<u8>>, int),
                    RespFault,
                >(e@),
            },
    {
        let raw = as_slice(bytes);
        let (len, start) = match Message::parse_len(raw) {
            Err(e) => { return Err(e); },
            Ok((None, read)) => { return Ok((Value::NullBulkString, read)); },
            Ok((Some(len), start)) => (len, start),
        };
        if len >= raw.len() - start {
            return Err(RESPError::CRMissing);
        }
        let end = start + len;
        if raw[end] != CR {
            return Err(RESPError::CRMissing);
        }
        if raw.len() - end < 2 || raw[end + 1] != LF {
            return Err(RESPError::LFMissing);
        }
        Ok((Value::BulkString(slice(bytes, start, end)), end + 2))
    }

    /// Decodes an integer: `:`, an optional `+` or `-`, decimal digits, CRLF.
    /// Returns it as `Value::Integer` and the length of the whole value in
    /// bytes.
    ///
    /// The magnitude is read as a length is, and fails as `parse_len` does;
    /// `IntegerParseError` is also what a magnitude gets that a 64-bit integer
    /// of that sign cannot hold. A magnitude written as `-1` is a
    /// `NegativeLength` too.
    pub fn deserialize_integer(bytes: &Bytes) -> (r: Result<(Value, usize), RESPError>)
        ensures
            match r {
                Ok((value, len)) => value matches Value::Integer(number) && spec_integer(
                    contents(*bytes),
                ) == Ok::<(i64, int), RespFault>((number, len as int)) && 3 <= len <= contents(
                    *bytes,
                ).len(),
                Err(e) => spec_integer(contents(*bytes)) == Err::<(i64, int), RespFault>(e@),
            },
    {
        let raw = as_slice(bytes);
        let signed = raw.len() > 1 && (raw[1] == PLUS || raw[1] == MINUS);
        let negative = raw.len() > 1 && raw[1] == MINUS;
        let from: usize = if signed { 2 } else { 1 };
        let limit: u64 = if negative { 0x8000_0000_0000_0000 } else { 0x7fff_ffff_ffff_ffff };
        match parse_length(raw, from, limit) {
            Err(e) => Err(e),
            Ok((None, _)) => Err(RESPError::NegativeLength),
            Ok((Some(magnitude), next)) => {
                if !negative {
                    Ok((Value::Integer(magnitude as i64), next))
                } else if magnitude == 0x8000_0000_0000_0000 {
                    Ok((Value::Integer(i64::MIN), next))
                } else {
                    Ok((Value::Integer(-(magnitude as i64)), next))
                }
            },
        }
    }
}

impl Message {
    /// Decodes an array: `*`, the count, CRLF, then that many values of any
    /// type, each decoded in turn from where the one before it ended. Returns
    /// them as `Value::Array`, or `Value::NullArray` for the count `-1`, and
    /// the length of the whole value in bytes.
    ///
    /// Fails as `parse_len` does on the count, and as `deserialize` does on
    /// the first element that is not well formed.
    pub fn deserialize_array(bytes: &Bytes) -> (r: Result<(Value, usize), RESPError>)
        ensures
            match r {
                Ok((value, len)) => {
                    &&& spec_array(contents(*bytes)) == Ok::<(Datum, int), RespFault>(
                        (value@, len as int),
                    )
                    &&& value is Array || value is NullArray
                    &&& 3 <= len <= contents(*bytes).len()
                },
                Err(e) => spec_array(contents(*bytes)) == Err::<(Datum, int), RespFault>(e@),
            },
        decreases contents(*bytes).len(), 0nat,
    {
        let raw = as_slice(bytes);
        let total = raw.len();
        let (count, start) = match Message::parse_len(raw) {
            Err(e) => { return Err(e); },
            Ok((None, read)) => { return Ok((Value::NullArray, read)); },
            Ok((Some(count), start)) => (count, start),
        };
        let ghost all = contents(*bytes);
        let mut items: Vec<Value> = Vec::new();
        let mut offset: usize = start;
        let mut done: usize = 0;
        while done < count
            invariant
                all == contents(*bytes),
                total == all.len(),
                spec_parse_len(all) == Ok::<(Option<nat>, int), RespFault>(
                    (Some(count as nat), start as int),
                ),
                3 <= start <= offset <= total,
                done <= count,
                items@.len() == done,
                spec_elements(all.skip(start as int), count as nat) == (match spec_elements(
                    all.skip(offset as int),
                    (count - done) as nat,
                ) {
                    Ok((rest, more)) => Ok::<(Seq<Datum>, int), RespFault>(
                        (views(items@) + rest, offset - start + more),
                    ),
                    Err(fault) => Err::<(Seq<Datum>, int), RespFault>(fault),
                }),
            decreases count - done,
        {
            let rest = slice(bytes, offset, total);
            let (message, used) = match Message::deserialize(&rest) {
                Err(e) => { return Err(e); },
                Ok(decoded) => decoded,
            };
            proof {
                let before = views(items@);
                let first = message.data@;
                assert(all.skip(offset as int).skip(used as int) =~= all.skip(offset + used));
                assert(views(items@.push(message.data)) =~= before.push(first));
                match spec_elements(all.skip(offset + used), (count - done - 1) as nat) {
                    Ok((rest, more)) => {
                        assert(before + (seq![first] + rest) =~= before.push(first) + rest);
                    },
                    Err(_) => {},
                }
            }
            items.push(message.data);
            offset = offset + used;
            done = done + 1;
        }
        Ok((Value::Array(items), offset))
    }

    /// Decodes the value that `bytes` begins with. The first byte says which
    /// type it is: `+` a simple string, `$` a bulk string, `:` an integer, `*`
    /// an array, `-` an error. Returns the message and the length of the whole
    /// value in bytes.
    ///
    /// Fails with `UnsupportedRESPType` on any other first byte, with
    /// `CRMissing` on empty input, and as the decoder of that type does.
    pub fn deserialize(bytes: &Bytes) -> (r: Result<(Message, usize), RESPError>)
        ensures
            match r {
                Ok((message, len)) => {
                    &&& spec_deserialize(contents(*bytes)) == Ok::<(Datum, int), RespFault>(
                        (message.data@, len as int),
                    )
                    &&& 3 <= len <= contents(*bytes).len()
                    &&& message.resp_type.spec_byte() == contents(*bytes)[0]
                },
                Err(e) => spec_deserialize(contents(*bytes)) == Err::<(Datum, int), RespFault>(e@),
            },
        decreases contents(*bytes).len(), 1nat,
    {
        let raw = as_slice(bytes);
        if raw.len() == 0 {
            return Err(RESPError::CRMissing);
        }
        let resp_type = match RESPType::from_byte(raw[0]) {
            Ok(t) => t,
            Err(e) => { return Err(e); },
        };
        let decoded = match resp_type {
            RESPType::SimpleString => Message::deserialize_simple_string(bytes),
            RESPType::BulkString => Message::deserialize_bulk_string(bytes),
            RESPType::Integer => Message::deserialize_integer(bytes),
            RESPType::Array => Message::deserialize_array(bytes),
            RESPType::Error => Message::deserialize_error(bytes),
        };
        match decoded {
            Ok((data, len)) => Ok((Message { resp_type, data }, len)),
            Err(e) => Err(e),
        }
    }
}

/// Appends the decimal digits of `n` to `out`.
fn push_digits(out: &mut Vec<u8>, n: u64)
    ensures
        final(out)@ == old(out)@ + spec_digits(n as nat),
    decreases n,
{
    if n >= 10 {
        push_digits(out, n / 10);
    }
    let digit: u8 = (n % 10) as u8;
    out.push(ZERO + digit);
    proof {
        if n >= 10 {
        } else {
        }
    }
}

/// Appends `bytes` to `out`.
fn push_bytes(out: &mut Vec<u8>, bytes: &[u8])
    ensures
        final(out)@ == old(out)@ + bytes@,
{
    let mut at: usize = 0;
    while at < bytes.len()
        invariant
            at <= bytes@.len(),
            out@ == old(out)@ + bytes@.subrange(0, at as int),
        decreases bytes@.len() - at,
    {
        out.push(bytes[at]);
        at = at + 1;
    }
}

/// Appends the terminator to `out`.
fn push_crlf(out: &mut Vec<u8>)
    ensures
        final(out)@ == old(out)@ + grammar::crlf(),
{
    out.push(CR);
    out.push(LF);
}

/// Encodes a simple string: `+`, the text, CRLF.
pub fn encode_simple_string(text: &[u8]) -> (encoded: Vec<u8>)
    ensures
        encoded@ == spec_serialize(Datum::SimpleString(text@)),
{
    let mut out: Vec<u8> = Vec::new();
    out.push(PLUS);
    push_bytes(&mut out, text);
    push_crlf(&mut out);
    out
}

/// Encodes a bulk string: `$`, the length of the payload in decimal, CRLF,
/// the payload, CRLF.
pub fn encode_bulk_string(payload: &[u8]) -> (encoded: Vec<u8>)
    ensures
        encoded@ == spec_serialize(Datum::BulkString(payload@)),
{
    let mut out: Vec<u8> = Vec::new();
    out.push(DOLLAR);
    push_digits(&mut out, payload.len() as u64);
    push_crlf(&mut out);
    push_bytes(&mut out, payload);
    push_crlf(&mut out);
    out
}

/// Encodes the null bulk string: `$-1` and CRLF.
pub fn encode_null_bulk_string() -> (encoded: Vec<u8>)
    ensures
        encoded@ == spec_serialize(Datum::NullBulkString),
{
    let mut out: Vec<u8> = Vec::new();
    out.push(DOLLAR);
    out.push(MINUS);
    out.push(ONE);
    out.push(CR);
    out.push(LF);
    out
}

impl Value {
    /// Appends the encoding of this value to `out`.
    fn write(&self, out: &mut Vec<u8>)
        ensures
            final(out)@ == old(out)@ + spec_serialize(self@),
        decreases self,
    {
        match self {
            Value::SimpleString(text) => {
                out.push(PLUS);
                push_bytes(out, as_slice(text));
                push_crlf(out);
            },
            Value::Error(text) => {
                out.push(MINUS);
                push_bytes(out, as_slice(text));
                push_crlf(out);
            },
            Value::Integer(value) => {
                out.push(COLON);
                if *value < 0 {
                    out.push(MINUS);
                    let magnitude: u64 = if *value == i64::MIN {
                        0x8000_0000_0000_0000
                    } else {
                        (-*value) as u64
                    };
                    push_digits(out, magnitude);
                } else {
                    push_digits(out, *value as u64);
                }
                push_crlf(out);
            },
            Value::BulkString(payload) => {
                let raw = as_slice(payload);
                out.push(DOLLAR);
                push_digits(out, raw.len() as u64);
                push_crlf(out);
                push_bytes(out, raw);
                push_crlf(out);
            },
            Value::NullBulkString => {
                out.push(DOLLAR);
                out.push(MINUS);
                out.push(ONE);
                push_crlf(out);
            },
            Value::NullArray => {
                out.push(STAR);
                out.push(MINUS);
                out.push(ONE);
                push_crlf(out);
            },
            Value::Array(items) => {
                out.push(STAR);
                push_digits(out, items.len() as u64);
                push_crlf(out);
                let ghost data = views(items@);
                let ghost target = old(out)@ + spec_serialize(self@);
                let mut at: usize = 0;
                assert(data.skip(0) =~= data);
                while at < items.len()
                    invariant
                        at <= items@.len(),
                        data == views(items@),
                        out@ + grammar::spec_serialize_all(data.skip(at as int)) == target,
                        forall|i: int| 0 <= i < items@.len() ==> decreases_to!(self => items@[i]),
                    decreases items@.len() - at,
                {
                    assert(data.skip(at as int).skip(1) =~= data.skip(at + 1));
                    items[at].write(out);
                    at = at + 1;
                }
            },
        }
    }

    /// Encodes this value: what `Message::deserialize` reads back as it.
    pub fn serialize(&self) -> (encoded: Vec<u8>)
        ensures
            encoded@ == spec_serialize(self@),
    {
        let mut out: Vec<u8> = Vec::new();
        self.write(&mut out);
        out
    }
}

} // verus!
