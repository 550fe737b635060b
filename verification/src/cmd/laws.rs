//! What holds of the commands, whatever the keys, the values and the state
//! of the storage.

use crate::cmd::semantics::{
    all_bulk, bulk_reply, null_reply, ok_reply, spec_expiry, spec_get, spec_parse_ttl,
    spec_request, spec_set, spec_step, spec_unit, word_get, word_set,
};
use crate::errors::CmdFault;
use crate::resp::grammar::{Datum, CR, LF};
use crate::types::Entries;
use vstd::prelude::*;
use vstd::utf8::{decode_utf8, decode_utf8_encode_utf8, valid_utf8};

verus! {

/// The words of `SET key value`.
pub open spec fn set_words(key: Seq<u8>, value: Seq<u8>) -> Seq<Datum> {
    seq![Datum::BulkString(word_set()), Datum::BulkString(key), Datum::BulkString(value)]
}

/// The words of `SET key value unit ttl`.
pub open spec fn set_words_with_ttl(
    key: Seq<u8>,
    value: Seq<u8>,
    unit: Seq<u8>,
    ttl: Seq<u8>,
) -> Seq<Datum> {
    seq![
        Datum::BulkString(word_set()),
        Datum::BulkString(key),
        Datum::BulkString(value),
        Datum::BulkString(unit),
        Datum::BulkString(ttl),
    ]
}

/// The words of `GET key`.
pub open spec fn get_words(key: Seq<u8>) -> Seq<Datum> {
    seq![Datum::BulkString(word_get()), Datum::BulkString(key)]
}

/// A command takes at least the word that names it, and no word that is not
/// there: it ends behind the word it starts at, and at the last word at most.
pub proof fn lemma_step_moves_on(words: Seq<Datum>, at: int, entries: Entries, now: Option<u128>)
    requires
        0 <= at < words.len(),
    ensures
        spec_step(words, at, entries, now) matches Ok(step) ==> at < step.next <= words.len(),
{
}

/// A request of two bytes or more that does not end in CRLF is rejected with
/// `CRLFNotAtEnd`: nothing is replied, and the storage stays as it was.
pub proof fn lemma_request_must_end_in_crlf(bytes: Seq<u8>, entries: Entries, now: Option<u128>)
    requires
        bytes.len() >= 2,
        bytes[bytes.len() - 2] != CR || bytes[bytes.len() - 1] != LF,
    ensures
        spec_request(bytes, entries, now) == (Err::<Seq<u8>, CmdFault>(CmdFault::CRLFNotAtEnd), entries),
{
}

/// `GET` of a key that is not there gets the null bulk string and changes
/// nothing.
pub proof fn lemma_get_unset(key: Seq<u8>, entries: Entries, now: Option<u128>)
    requires
        valid_utf8(key),
        !entries.contains_key(decode_utf8(key)),
    ensures
        spec_get(get_words(key), entries, now) == Ok::<(Seq<u8>, Entries), CmdFault>(
            (null_reply(), entries),
        ),
{
}

/// `SET key value` gets `OK`, and a `GET key` after it gets exactly `value`
/// back, whenever it comes and whatever was stored before.
pub proof fn lemma_get_after_set(
    key: Seq<u8>,
    value: Seq<u8>,
    entries: Entries,
    set_at: Option<u128>,
    get_at: Option<u128>,
)
    requires
        valid_utf8(key),
        valid_utf8(value),
    ensures
        spec_set(set_words(key, value), entries, set_at) matches Ok((reply, stored)) && reply
            == ok_reply() && spec_get(get_words(key), stored, get_at) == Ok::<
            (Seq<u8>, Entries),
            CmdFault,
        >((bulk_reply(value), stored)),
{
    decode_utf8_encode_utf8(value);
}

/// `SET key value unit ttl` at the instant `set_at` gets `OK`. A `GET key`
/// after it gets `value` back up to the instant of expiry, which lies `ttl`
/// units after `set_at`, that instant included. Later it gets the null bulk
/// string, and the key is gone.
pub proof fn lemma_get_after_set_with_ttl(
    key: Seq<u8>,
    value: Seq<u8>,
    unit: Seq<u8>,
    ttl: Seq<u8>,
    entries: Entries,
    set_at: u128,
    get_at: u128,
)
    requires
        valid_utf8(key),
        valid_utf8(value),
        valid_utf8(unit),
        valid_utf8(ttl),
        spec_parse_ttl(ttl) is Some,
        spec_unit(unit) is Some,
        spec_expiry(set_at, spec_parse_ttl(ttl)->0, spec_unit(unit)->0) is Some,
    ensures
        ({
            let expiry = spec_expiry(set_at, spec_parse_ttl(ttl)->0, spec_unit(unit)->0)->0;
            &&& expiry == set_at + spec_parse_ttl(ttl)->0 * spec_unit(unit)->0
            &&& spec_set(set_words_with_ttl(key, value, unit, ttl), entries, Some(set_at)) matches Ok(
                (reply, stored),
            ) && reply == ok_reply() && spec_get(get_words(key), stored, Some(get_at)) == Ok::<
                (Seq<u8>, Entries),
                CmdFault,
            >(
                if get_at <= expiry {
                    (bulk_reply(value), stored)
                } else {
                    (null_reply(), stored.remove(decode_utf8(key)))
                },
            )
        }),
{
    decode_utf8_encode_utf8(value);
}

/// A write is not lost to a write under another key: after `SET key value`
/// and then `SET other_key other_value`, a `GET key` still gets `value`.
pub proof fn lemma_get_after_set_of_other_key(
    key: Seq<u8>,
    value: Seq<u8>,
    other_key: Seq<u8>,
    other_value: Seq<u8>,
    entries: Entries,
    now: Option<u128>,
)
    requires
        valid_utf8(key),
        valid_utf8(value),
        valid_utf8(other_key),
        valid_utf8(other_value),
        key != other_key,
    ensures
        spec_set(set_words(key, value), entries, now) matches Ok((_, first)) && spec_set(
            set_words(other_key, other_value),
            first,
            now,
        ) matches Ok((_, second)) && spec_get(get_words(key), second, now) == Ok::<
            (Seq<u8>, Entries),
            CmdFault,
        >((bulk_reply(value), second)),
{
    decode_utf8_encode_utf8(value);
    decode_utf8_encode_utf8(key);
    decode_utf8_encode_utf8(other_key);
}

} // verus!
