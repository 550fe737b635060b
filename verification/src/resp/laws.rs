//! What holds of the RESP grammar: decoding what was encoded gives the datum
//! back.

use crate::errors::RespFault;
use crate::resp::grammar::{
    crlf, decimal_value, digits_end, first_index, is_digit, magnitude_limit, spec_bulk_string,
    spec_deserialize, spec_digits, spec_elements, spec_integer, spec_length, spec_line,
    spec_parse_len, spec_serialize, spec_serialize_all, Datum, COLON, CR, DOLLAR, LF, MINUS, ONE,
    PLUS, STAR, ZERO,
};
use vstd::prelude::*;

verus! {

/// Whether `text` can stand in a simple string or an error: it holds neither
/// CR nor LF.
pub open spec fn is_line(text: Seq<u8>) -> bool {
    forall|i: int| 0 <= i < text.len() ==> text[i] != CR && text[i] != LF
}

/// Whether a datum can be written and read back: its texts hold neither CR
/// nor LF, and its payloads and arrays are no longer than memory can hold.
pub open spec fn encodable(datum: Datum) -> bool
    decreases datum,
{
    match datum {
        Datum::SimpleString(text) => is_line(text),
        Datum::Error(text) => is_line(text),
        Datum::Integer(_) => true,
        Datum::BulkString(payload) => payload.len() <= usize::MAX,
        Datum::NullBulkString => true,
        Datum::Array(items) => items.len() <= usize::MAX && forall|i: int|
            0 <= i < items.len() ==> encodable(#[trigger] items[i]),
        Datum::NullArray => true,
    }
}

/// Where `byte` stands at `at` and nowhere from `from` up to it, `at` is its
/// first index from `from` on.
pub proof fn lemma_first_index_found(bytes: Seq<u8>, byte: u8, from: int, at: int)
    requires
        0 <= from <= at < bytes.len(),
        bytes[at] == byte,
        forall|k: int| from <= k < at ==> bytes[k] != byte,
    ensures
        first_index(bytes, byte, from) == Some(at),
    decreases at - from,
{
    if from < at {
        lemma_first_index_found(bytes, byte, from + 1, at);
    }
}

/// Where `byte` stands nowhere from `from` on, it has no first index.
pub proof fn lemma_first_index_absent(bytes: Seq<u8>, byte: u8, from: int)
    requires
        0 <= from,
        forall|k: int| from <= k < bytes.len() ==> bytes[k] != byte,
    ensures
        first_index(bytes, byte, from) is None,
    decreases bytes.len() - from,
{
    if from < bytes.len() {
        lemma_first_index_absent(bytes, byte, from + 1);
    }
}

/// One more digit appends to what a run of digits writes.
pub proof fn lemma_decimal_value_step(bytes: Seq<u8>, from: int, at: int)
    requires
        0 <= from <= at < bytes.len(),
    ensures
        decimal_value(bytes.subrange(from, at + 1)) == decimal_value(bytes.subrange(from, at)) * 10
            + (bytes[at] - ZERO) as nat,
{
    assert(bytes.subrange(from, at + 1).drop_last() =~= bytes.subrange(from, at));
}

/// The digits of `n` are digits, at least one, and they write `n`.
pub proof fn lemma_digits(n: nat)
    ensures
        spec_digits(n).len() >= 1,
        forall|i: int| 0 <= i < spec_digits(n).len() ==> is_digit(#[trigger] spec_digits(n)[i]),
        decimal_value(spec_digits(n)) == n,
    decreases n,
{
    let digits = spec_digits(n);
    if n < 10 {
        assert(decimal_value(digits.drop_last()) == 0);
    } else {
        lemma_digits(n / 10);
        assert(digits.drop_last() =~= spec_digits(n / 10));
    }
}

/// A run of `count` digits from `from` that no digit follows ends where it
/// ends.
pub proof fn lemma_digits_end(bytes: Seq<u8>, from: int, count: nat)
    requires
        0 <= from,
        from + count <= bytes.len(),
        forall|i: int| from <= i < from + count ==> is_digit(bytes[i]),
        from + count < bytes.len() ==> !is_digit(bytes[from + count]),
    ensures
        digits_end(bytes, from) == from + count,
    decreases count,
{
    if count > 0 {
        lemma_digits_end(bytes, from + 1, (count - 1) as nat);
    }
}

/// A length that was written is read back: behind `prefix`, the digits of `n`
/// and CRLF are the length `n`, whatever follows.
pub proof fn lemma_length_round_trip(prefix: Seq<u8>, n: nat, tail: Seq<u8>, limit: nat)
    requires
        n <= limit,
    ensures
        spec_length(prefix + spec_digits(n) + crlf() + tail, prefix.len() as int, limit) == Ok::<
            (Option<nat>, int),
            RespFault,
        >((Some(n), (prefix.len() + spec_digits(n).len() + 2) as int)),
{
    let digits = spec_digits(n);
    let bytes = prefix + digits + crlf() + tail;
    let from = prefix.len() as int;
    let count = digits.len() as int;
    lemma_digits(n);
    lemma_digits_end(bytes, from, count as nat);
    assert(bytes.subrange(from, from + count) =~= digits);
}

/// A bulk-string or array header that was written is read back.
pub proof fn lemma_header_round_trip(type_byte: u8, n: nat, tail: Seq<u8>)
    requires
        n <= usize::MAX,
    ensures
        spec_parse_len(seq![type_byte] + spec_digits(n) + crlf() + tail) == Ok::<
            (Option<nat>, int),
            RespFault,
        >((Some(n), (spec_digits(n).len() + 3) as int)),
{
    lemma_length_round_trip(seq![type_byte], n, tail, usize::MAX as nat);
}

/// A simple string or an error that was written is read back.
pub proof fn lemma_line_round_trip(type_byte: u8, text: Seq<u8>, tail: Seq<u8>)
    requires
        is_line(text),
    ensures
        spec_line(seq![type_byte] + text + crlf() + tail) == Ok::<(Seq<u8>, int), RespFault>(
            (text, (text.len() + 3) as int),
        ),
{
    let bytes = seq![type_byte] + text + crlf() + tail;
    let cr: int = (text.len() + 1) as int;
    lemma_first_index_found(bytes, CR, 1, cr);
    lemma_first_index_found(bytes, LF, 1, cr + 1);
    assert(bytes.subrange(1, cr) =~= text);
}

/// An integer that was written is read back.
pub proof fn lemma_integer_round_trip(value: i64, tail: Seq<u8>)
    ensures
        spec_integer(spec_serialize(Datum::Integer(value)) + tail) == Ok::<(i64, int), RespFault>(
            (value, spec_serialize(Datum::Integer(value)).len() as int),
        ),
{
    if value < 0 {
        lemma_length_round_trip(seq![COLON, MINUS], (-value) as nat, tail, magnitude_limit(true));
    } else {
        lemma_length_round_trip(seq![COLON], value as nat, tail, magnitude_limit(false));
    }
}

/// A bulk string that was written is read back.
pub proof fn lemma_bulk_string_round_trip(payload: Seq<u8>, tail: Seq<u8>)
    requires
        payload.len() <= usize::MAX,
    ensures
        spec_bulk_string(spec_serialize(Datum::BulkString(payload)) + tail) == Ok::<
            (Option<Seq<u8>>, int),
            RespFault,
        >((Some(payload), spec_serialize(Datum::BulkString(payload)).len() as int)),
{
    let digits = spec_digits(payload.len());
    let rest = payload + crlf() + tail;
    let bytes = seq![DOLLAR] + digits + crlf() + rest;
    assert(spec_serialize(Datum::BulkString(payload)) + tail =~= bytes);
    lemma_header_round_trip(DOLLAR, payload.len(), rest);
    let start: int = (digits.len() + 3) as int;
    let end: int = start + payload.len();
    assert(bytes.subrange(start, end) =~= payload);
}

/// Round trip: every datum that can be written is read back from its
/// encoding, whatever bytes follow it, together with the length of that
/// encoding.
pub proof fn lemma_round_trip(datum: Datum, tail: Seq<u8>)
    requires
        encodable(datum),
    ensures
        spec_deserialize(spec_serialize(datum) + tail) == Ok::<(Datum, int), RespFault>(
            (datum, spec_serialize(datum).len() as int),
        ),
    decreases datum, 0nat,
{
    let bytes = spec_serialize(datum) + tail;
    match datum {
        Datum::SimpleString(text) => {
            lemma_line_round_trip(PLUS, text, tail);
        },
        Datum::Error(text) => {
            lemma_line_round_trip(MINUS, text, tail);
        },
        Datum::Integer(value) => {
            lemma_integer_round_trip(value, tail);
        },
        Datum::BulkString(payload) => {
            lemma_bulk_string_round_trip(payload, tail);
        },
        Datum::NullBulkString => {},
        Datum::Array(items) => {
            let digits = spec_digits(items.len());
            let rest = spec_serialize_all(items) + tail;
            assert(bytes =~= seq![STAR] + digits + crlf() + rest);
            lemma_header_round_trip(STAR, items.len(), rest);
            let start: int = (digits.len() + 3) as int;
            assert(bytes.skip(start) =~= rest);
            lemma_elements_round_trip(items, tail);
        },
        Datum::NullArray => {},
    }
}

/// Round trip of a run of data: they are read back one after the other from
/// their encodings laid end to end.
pub proof fn lemma_elements_round_trip(items: Seq<Datum>, tail: Seq<u8>)
    requires
        forall|i: int| 0 <= i < items.len() ==> encodable(#[trigger] items[i]),
    ensures
        spec_elements(spec_serialize_all(items) + tail, items.len()) == Ok::<
            (Seq<Datum>, int),
            RespFault,
        >((items, spec_serialize_all(items).len() as int)),
    decreases items, 1nat,
{
    if items.len() == 0 {
        assert(items =~= Seq::<Datum>::empty());
    } else {
        let first = items[0];
        let others = items.skip(1);
        let after = spec_serialize_all(others) + tail;
        let bytes = spec_serialize_all(items) + tail;
        assert(bytes =~= spec_serialize(first) + after);
        lemma_round_trip(first, after);
        let used = spec_serialize(first).len() as int;
        assert(bytes.skip(used) =~= after);
        lemma_elements_round_trip(others, tail);
        assert(seq![first] + others =~= items);
    }
}


/// The first index of a byte lies where it was looked for, and the byte
/// stands there.
pub proof fn lemma_first_index_within(bytes: Seq<u8>, byte: u8, from: int)
    ensures
        first_index(bytes, byte, from) matches Some(at) ==> 0 <= from <= at < bytes.len()
            && bytes[at] == byte,
    decreases bytes.len() - from,
{
    if 0 <= from < bytes.len() && bytes[from] != byte {
        lemma_first_index_within(bytes, byte, from + 1);
    }
}

/// A run of digits ends at or behind the index it starts at, and within the
/// bytes where it starts within them.
pub proof fn lemma_digits_end_within(bytes: Seq<u8>, from: int)
    ensures
        from <= digits_end(bytes, from),
        from <= bytes.len() ==> digits_end(bytes, from) <= bytes.len(),
    decreases bytes.len() - from,
{
    if 0 <= from < bytes.len() && is_digit(bytes[from]) {
        lemma_digits_end_within(bytes, from + 1);
    }
}

/// A value that is decoded takes three bytes at least, and no byte that is
/// not there.
pub proof fn lemma_deserialize_within(bytes: Seq<u8>)
    ensures
        spec_deserialize(bytes) matches Ok((_, len)) ==> 3 <= len <= bytes.len(),
    decreases bytes.len(), 1nat, 0nat,
{
    if bytes.len() > 0 {
        lemma_first_index_within(bytes, CR, 1);
        lemma_first_index_within(bytes, LF, 1);
        lemma_digits_end_within(bytes, 1);
        lemma_digits_end_within(bytes, 2);
        if bytes[0] == STAR {
            if let Ok((Some(count), start)) = spec_parse_len(bytes) {
                if 0 < start <= bytes.len() {
                    lemma_elements_within(bytes.skip(start), count);
                }
            }
        }
    }
}

/// Values that are decoded one after the other are as many as were asked
/// for, and take no byte that is not there.
pub proof fn lemma_elements_within(bytes: Seq<u8>, count: nat)
    ensures
        spec_elements(bytes, count) matches Ok((items, len)) ==> items.len() == count && 0 <= len
            <= bytes.len(),
    decreases bytes.len(), 2nat, count,
{
    if count > 0 {
        lemma_deserialize_within(bytes);
        if let Ok((_, used)) = spec_deserialize(bytes) {
            if 0 <= used <= bytes.len() {
                lemma_elements_within(bytes.skip(used), (count - 1) as nat);
            }
        }
    }
}

} // verus!
