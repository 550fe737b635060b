//! The command router: from the bytes of a request to the bytes of the
//! replies.
//!
//! A request is a RESP array of bulk strings: the words. A word that names a
//! command starts that command, which takes the words behind it that it
//! needs. So one request may hold many commands, and the reply to it is their
//! replies laid end to end, in their order.
//!
//! Command names are case-insensitive.

pub mod laws;
pub mod semantics;

use crate::errors::{CmdError, CmdFault};
use crate::foreign::{as_slice, clock_reading, contents, since_epoch, to_upper, whole_millis};
use crate::resp::grammar::{decimal_value, is_digit, CR, LF, NINE, PLUS, ZERO};
use crate::resp::laws::lemma_decimal_value_step;
use crate::resp::{
    encode_bulk_string, encode_null_bulk_string, encode_simple_string, views, Message, Value,
};
use crate::storage::generic::Crud;
use crate::types::{Entries, ExpirationTime};
use bytes::Bytes;
use semantics::{
    all_bulk, all_digits, payload, same_ignoring_case, spec_command, spec_echo, spec_expiry,
    spec_get, spec_is_cmd, spec_parse_ttl, spec_ping, spec_request, spec_set, spec_step,
    spec_unit, spec_words, upper_byte, upper_text, word_echo, word_ex, word_get, word_ok,
    word_ping, word_pong, word_px, word_set, words_of, Command, Response, Step,
};
use vstd::prelude::*;
use vstd::slice::{slice_subrange, slice_to_vec};
use vstd::utf8::{decode_utf8, valid_utf8};

verus! {

/// The reply or the error of a command, as mathematics.
pub open spec fn reply_view(r: Result<Vec<u8>, CmdError>) -> Result<Seq<u8>, CmdFault> {
    match r {
        Ok(reply) => Ok(reply@),
        Err(e) => Err(e@),
    }
}

/// The upper-case form of a byte in ASCII.
fn to_upper_byte(b: u8) -> (upper: u8)
    ensures
        upper == upper_byte(b),
{
    if 'a' as u8 <= b && b <= 'z' as u8 {
        b - 32
    } else {
        b
    }
}

/// Whether `word` is `name` but for the case of its ASCII letters.
fn same_word(word: &[u8], name: &[u8]) -> (same: bool)
    ensures
        same == same_ignoring_case(word@, name@),
{
    if word.len() != name.len() {
        return false;
    }
    let mut at: usize = 0;
    while at < word.len()
        invariant
            at <= word@.len(),
            word@.len() == name@.len(),
            forall|i: int| 0 <= i < at ==> upper_byte(word@[i]) == upper_byte(name@[i]),
        decreases word@.len() - at,
    {
        if to_upper_byte(word[at]) != to_upper_byte(name[at]) {
            return false;
        }
        at = at + 1;
    }
    true
}

/// The command that `word` names.
fn command_of(word: &[u8]) -> (command: Option<Command>)
    ensures
        command == spec_command(word@),
{
    let echo: [u8; 4] = ['E' as u8, 'C' as u8, 'H' as u8, 'O' as u8];
    let get: [u8; 3] = ['G' as u8, 'E' as u8, 'T' as u8];
    let ping: [u8; 4] = ['P' as u8, 'I' as u8, 'N' as u8, 'G' as u8];
    let set: [u8; 3] = ['S' as u8, 'E' as u8, 'T' as u8];
    if same_word(word, echo.as_slice()) {
        Some(Command::EchoCmd)
    } else if same_word(word, get.as_slice()) {
        Some(Command::GetCmd)
    } else if same_word(word, ping.as_slice()) {
        Some(Command::PingCmd)
    } else if same_word(word, set.as_slice()) {
        Some(Command::SetCmd)
    } else {
        None
    }
}

/// Whether `word` names a command: `ECHO`, `GET`, `PING` or `SET`, in any
/// case of the letters.
///
/// `PING` asks this of the word behind it, which it echoes unless it starts
/// the next command.
pub fn is_cmd(word: &[u8]) -> (known: bool)
    ensures
        known == spec_is_cmd(word@),
{
    command_of(word).is_some()
}

/// Whether every word is a bulk string.
fn check_all_bulk(words: &[Value]) -> (bulk: bool)
    ensures
        bulk == all_bulk(views(words@)),
{
    let mut at: usize = 0;
    while at < words.len()
        invariant
            at <= words@.len(),
            forall|i: int| 0 <= i < at ==> views(words@)[i] is BulkString,
        decreases words@.len() - at,
    {
        match &words[at] {
            Value::BulkString(_) => {},
            _ => {
                assert(!(views(words@)[at as int] is BulkString));
                return false;
            },
        }
        at = at + 1;
    }
    true
}

/// The payload of a word that is a bulk string.
fn payload_of(words: &[Value], at: usize) -> (bytes: &[u8])
    requires
        at < words@.len(),
        views(words@)[at as int] is BulkString,
    ensures
        bytes@ == payload(views(words@)[at as int]),
{
    match &words[at] {
        Value::BulkString(handle) => as_slice(handle),
        _ => {
            let empty: &[u8] = &[];
            empty
        },
    }
}

/// The text that `bytes` encode in UTF-8.
fn text_of(bytes: &[u8]) -> (r: Result<String, CmdError>)
    ensures
        match r {
            Ok(text) => valid_utf8(bytes@) && text@ == decode_utf8(bytes@),
            Err(e) => !valid_utf8(bytes@) && e@ == CmdFault::FromUtf8Error,
        },
{
    match String::from_utf8(slice_to_vec(bytes)) {
        Ok(text) => Ok(text),
        Err(_) => Err(CmdError::FromUtf8Error),
    }
}

/// Handles `ECHO`: the words are the command name and its argument.
///
/// The reply is the argument as a bulk string. From a client that sends
/// `["ECHO", "Hey"]` the reply is `$3\r\nHey\r\n`.
///
/// Fails with `MissingArg` unless there are exactly two words, with
/// `NotAllBulk` where one of them is no bulk string, and with `FromUtf8Error`
/// where the argument is not valid UTF-8.
pub fn handle_echo(words: &[Value]) -> (r: Result<Vec<u8>, CmdError>)
    ensures
        reply_view(r) == spec_echo(views(words@)),
{
    if words.len() != 2 {
        return Err(CmdError::MissingArg);
    }
    if !check_all_bulk(words) {
        return Err(CmdError::NotAllBulk);
    }
    let argument = payload_of(words, 1);
    match text_of(argument) {
        Err(e) => Err(e),
        Ok(_) => Ok(encode_bulk_string(argument)),
    }
}

/// Handles `PING`: the words are the command name and, if there is one, its
/// argument.
///
/// Alone, `PING` gets the simple string `PONG`: `+PONG\r\n`. With an argument
/// it gets the argument back as a bulk string.
///
/// Fails with `MissingArg` unless there are one or two words, with
/// `NotAllBulk` where one of them is no bulk string, and with `FromUtf8Error`
/// where the argument is not valid UTF-8.
pub fn handle_ping(words: &[Value]) -> (r: Result<Vec<u8>, CmdError>)
    ensures
        reply_view(r) == spec_ping(views(words@)),
{
    if words.len() != 1 && words.len() != 2 {
        return Err(CmdError::MissingArg);
    }
    if !check_all_bulk(words) {
        return Err(CmdError::NotAllBulk);
    }
    if words.len() == 1 {
        let pong: [u8; 4] = ['P' as u8, 'O' as u8, 'N' as u8, 'G' as u8];
        return Ok(encode_simple_string(pong.as_slice()));
    }
    let argument = payload_of(words, 1);
    match text_of(argument) {
        Err(e) => Err(e),
        Ok(_) => Ok(encode_bulk_string(argument)),
    }
}

/// Handles `GET key` at the instant `now`, which is `None` where the clock
/// could not be read.
///
/// The reply is the value under the key as a bulk string, or the null bulk
/// string, `$-1\r\n`, where the key is not there. A key with an expiration
/// time that lies before `now` has expired: it gets the null bulk string
/// and is deleted.
///
/// Fails with `MissingArg` unless there are exactly two words, with
/// `NotAllBulk` where one of them is no bulk string, with `FromUtf8Error`
/// where the key is not valid UTF-8, and with `TimeError` where the key has
/// an expiration time and `now` is `None`. A failure leaves the storage as it
/// was.
pub fn handle_get<S: Crud>(words: &[Value], storage: &mut S, now: Option<u128>) -> (r: Result<
    Vec<u8>,
    CmdError,
>)
    ensures
        match r {
            Ok(reply) => spec_get(views(words@), old(storage).entries(), now) == Ok::<
                (Seq<u8>, Entries),
                CmdFault,
            >((reply@, final(storage).entries())),
            Err(e) => spec_get(views(words@), old(storage).entries(), now) == Err::<
                (Seq<u8>, Entries),
                CmdFault,
            >(e@) && final(storage).entries() == old(storage).entries(),
        },
{
    if words.len() != 2 {
        return Err(CmdError::MissingArg);
    }
    if !check_all_bulk(words) {
        return Err(CmdError::NotAllBulk);
    }
    let key = match text_of(payload_of(words, 1)) {
        Err(e) => { return Err(e); },
        Ok(key) => key,
    };
    match storage.read(&key) {
        None => Ok(encode_null_bulk_string()),
        Some((value, None)) => Ok(encode_bulk_string(value.as_str().as_bytes())),
        Some((value, Some(expiry))) => match now {
            None => Err(CmdError::TimeError),
            Some(now) => {
                if expiry < now {
                    storage.delete(&key);
                    Ok(encode_null_bulk_string())
                } else {
                    Ok(encode_bulk_string(value.as_str().as_bytes()))
                }
            },
        },
    }
}

/// Reads the text of a time to live.
fn parse_ttl(text: &[u8]) -> (ttl: Option<u128>)
    ensures
        ttl == spec_parse_ttl(text@),
{
    let from: usize = if text.len() > 0 && text[0] == PLUS { 1 } else { 0 };
    let ghost digits = if from == 1 { text@.skip(1) } else { text@ };
    if from >= text.len() {
        return None;
    }
    let mut at: usize = from;
    let mut value: u128 = 0;
    while at < text.len()
        invariant
            from <= at <= text@.len(),
            from < text@.len(),
            digits == text@.subrange(from as int, text@.len() as int),
            digits == (if text@.len() > 0 && text@[0] == PLUS {
                text@.skip(1)
            } else {
                text@
            }),
            forall|i: int| from <= i < at ==> is_digit(text@[i]),
            value == decimal_value(text@.subrange(from as int, at as int)),
        decreases text@.len() - at,
    {
        if text[at] < ZERO || text[at] > NINE {
            assert(!is_digit(digits[at - from]));
            return None;
        }
        let digit: u128 = (text[at] - ZERO) as u128;
        proof {
            lemma_decimal_value_step(text@, from as int, at as int);
        }
        if value > (u128::MAX - digit) / 10 {
            proof {
                if all_digits(digits) {
                    assert forall|i: int| at + 1 <= i < text@.len() implies text@[i] >= ZERO by {
                        assert(is_digit(digits[i - from]));
                    }
                    lemma_value_grows(text@, from as int, at + 1, text@.len() as int);
                }
            }
            return None;
        }
        value = value * 10 + digit;
        at = at + 1;
    }
    Some(value)
}

/// More digits never write a smaller number.
proof fn lemma_value_grows(bytes: Seq<u8>, from: int, mid: int, to: int)
    requires
        0 <= from <= mid <= to <= bytes.len(),
        forall|i: int| mid <= i < to ==> bytes[i] >= ZERO,
    ensures
        decimal_value(bytes.subrange(from, mid)) <= decimal_value(bytes.subrange(from, to)),
    decreases to - mid,
{
    if mid < to {
        lemma_value_grows(bytes, from, mid, to - 1);
        lemma_decimal_value_step(bytes, from, to - 1);
    }
}

/// The milliseconds that one unit of a time to live lasts.
fn unit_of(word: &[u8]) -> (unit: Option<u128>)
    ensures
        unit == spec_unit(word@),
{
    let ex: [u8; 2] = ['E' as u8, 'X' as u8];
    let px: [u8; 2] = ['P' as u8, 'X' as u8];
    if same_word(word, ex.as_slice()) {
        Some(1000)
    } else if same_word(word, px.as_slice()) {
        Some(1)
    } else {
        None
    }
}

/// The instant that lies `ttl` units of `unit` milliseconds after `now`.
fn expiry_after(now: u128, ttl: u128, unit: u128) -> (expiry: Option<u128>)
    requires
        unit == 1 || unit == 1000,
    ensures
        expiry == spec_expiry(now, ttl, unit),
{
    let room: u128 = u128::MAX - now;
    if unit == 1 {
        if ttl > room {
            None
        } else {
            Some(now + ttl)
        }
    } else {
        if ttl > room / 1000 {
            None
        } else {
            Some(now + ttl * 1000)
        }
    }
}

/// Handles `SET key value` and `SET key value unit ttl` at the instant `now`,
/// which is `None` where the clock could not be read.
///
/// The value is stored under the key, in place of what was there. With three
/// words the entry never expires, whatever expiration time the key had
/// before. With five, the unit is `EX` for seconds or `PX` for milliseconds,
/// in any case of the letters, and the entry expires `ttl` units after `now`.
/// The reply is the simple string `OK`: `+OK\r\n`.
///
/// Fails with `MissingArg` unless there are three or five words, with
/// `NotAllBulk` where one of them is no bulk string, with `FromUtf8Error`
/// where one of the arguments is not valid UTF-8, with `ParseIntError` where
/// the time to live is not an optional plus sign and decimal digits that 128
/// bits can hold, with `WrongArg` and the unit in upper case where the unit
/// is neither `EX` nor `PX`, with `TimeError` where `now` is `None`, and with
/// `WrongArg` and the time to live where the entry would expire later than
/// 128 bits can say. A failure leaves the storage as it was.
pub fn handle_set<S: Crud>(words: &[Value], storage: &mut S, now: Option<u128>) -> (r: Result<
    Vec<u8>,
    CmdError,
>)
    ensures
        match r {
            Ok(reply) => spec_set(views(words@), old(storage).entries(), now) == Ok::<
                (Seq<u8>, Entries),
                CmdFault,
            >((reply@, final(storage).entries())),
            Err(e) => spec_set(views(words@), old(storage).entries(), now) == Err::<
                (Seq<u8>, Entries),
                CmdFault,
            >(e@) && final(storage).entries() == old(storage).entries(),
        },
{
    if words.len() != 3 && words.len() != 5 {
        return Err(CmdError::MissingArg);
    }
    if !check_all_bulk(words) {
        return Err(CmdError::NotAllBulk);
    }
    let key = match text_of(payload_of(words, 1)) {
        Err(e) => { return Err(e); },
        Ok(key) => key,
    };
    let value = match text_of(payload_of(words, 2)) {
        Err(e) => { return Err(e); },
        Ok(value) => value,
    };
    let expiry: ExpirationTime = if words.len() == 5 {
        let unit_text = match text_of(payload_of(words, 3)) {
            Err(e) => { return Err(e); },
            Ok(text) => text,
        };
        let ttl_text = match text_of(payload_of(words, 4)) {
            Err(e) => { return Err(e); },
            Ok(text) => text,
        };
        let ttl = match parse_ttl(payload_of(words, 4)) {
            None => { return Err(CmdError::ParseIntError); },
            Some(ttl) => ttl,
        };
        let unit = match unit_of(payload_of(words, 3)) {
            None => {
                let upper = to_upper(unit_text.as_str());
                assert(upper@ =~= upper_text(unit_text@));
                return Err(CmdError::WrongArg(upper));
            },
            Some(unit) => unit,
        };
        let now = match now {
            None => { return Err(CmdError::TimeError); },
            Some(now) => now,
        };
        match expiry_after(now, ttl, unit) {
            None => { return Err(CmdError::WrongArg(ttl_text)); },
            Some(expiry) => Some(expiry),
        }
    } else {
        None
    };
    storage.create(key, value, expiry);
    let ok: [u8; 2] = ['O' as u8, 'K' as u8];
    Ok(encode_simple_string(ok.as_slice()))
}

/// What a run of commands gives once `replies` stand before its own.
pub open spec fn after_replies(replies: Seq<u8>, rest: Response) -> Response {
    match rest {
        (Ok(more), entries) => (Ok(replies + more), entries),
        (Err(fault), entries) => (Err(fault), entries),
    }
}

/// Runs the command that starts at the word `at`: returns its reply and the
/// index of the word behind its last.
fn handle_command<S: Crud>(storage: &mut S, words: &[Value], at: usize, now: Option<u128>) -> (r:
    Result<(Vec<u8>, usize), CmdError>)
    requires
        at < words@.len(),
    ensures
        match r {
            Ok((reply, next)) => spec_step(views(words@), at as int, old(storage).entries(), now)
                == Ok::<Step, CmdFault>(
                Step { reply: reply@, next: next as int, entries: final(storage).entries() },
            ) && at < next <= words@.len(),
            Err(e) => spec_step(views(words@), at as int, old(storage).entries(), now) == Err::<
                Step,
                CmdFault,
            >(e@) && final(storage).entries() == old(storage).entries(),
        },
{
    let left = words.len() - at;
    let word = match &words[at] {
        Value::BulkString(handle) => as_slice(handle),
        _ => { return Err(CmdError::NotAllBulk); },
    };
    match command_of(word) {
        None => Ok((Vec::new(), at + 1)),
        Some(Command::EchoCmd) => {
            if left < 2 {
                return Err(CmdError::MissingArg);
            }
            let part = slice_subrange(words, at, at + 2);
            match handle_echo(part) {
                Err(e) => Err(e),
                Ok(reply) => Ok((reply, at + 2)),
            }
        },
        Some(Command::GetCmd) => {
            if left < 2 {
                return Err(CmdError::MissingArg);
            }
            let part = slice_subrange(words, at, at + 2);
            match handle_get(part, storage, now) {
                Err(e) => Err(e),
                Ok(reply) => Ok((reply, at + 2)),
            }
        },
        Some(Command::PingCmd) => {
            let taken: usize = if left < 2 {
                1
            } else {
                match &words[at + 1] {
                    Value::BulkString(next) => if is_cmd(as_slice(next)) {
                        1
                    } else {
                        2
                    },
                    _ => 2,
                }
            };
            let part = slice_subrange(words, at, at + taken);
            match handle_ping(part) {
                Err(e) => Err(e),
                Ok(reply) => Ok((reply, at + taken)),
            }
        },
        Some(Command::SetCmd) => {
            if left < 3 {
                return Err(CmdError::MissingArg);
            }
            let taken: usize = if left < 5 { 3 } else { 5 };
            let part = slice_subrange(words, at, at + taken);
            match handle_set(part, storage, now) {
                Err(e) => Err(e),
                Ok(reply) => Ok((reply, at + taken)),
            }
        },
    }
}

/// Runs the commands that `words` spell, one after the other, on `storage`
/// at the instant `now`, and returns their replies laid end to end.
///
/// A word that names a command starts it: `ECHO` and `GET` take the next
/// word; `PING` takes the next word unless there is none or it names a
/// command; `SET` takes the next four words where there are that many, else
/// the next two. A word that names no command is passed over. The first
/// command that fails ends the run with its error; what the commands before
/// it did to the storage stays.
pub fn handle_words<S: Crud>(storage: &mut S, words: &[Value], now: Option<u128>) -> (r: Result<
    Vec<u8>,
    CmdError,
>)
    ensures
        (reply_view(r), final(storage).entries()) == spec_words(
            views(words@),
            0,
            old(storage).entries(),
            now,
        ),
{
    let total = words.len();
    let ghost data = views(words@);
    let ghost target = spec_words(data, 0, old(storage).entries(), now);
    let mut replies: Vec<u8> = Vec::new();
    let mut at: usize = 0;
    while at < total
        invariant
            total == words@.len(),
            data == views(words@),
            at <= total,
            target == spec_words(data, 0, old(storage).entries(), now),
            target == after_replies(replies@, spec_words(data, at as int, storage.entries(), now)),
        decreases total - at,
    {
        let ghost written = replies@;
        match handle_command(storage, words, at, now) {
            Err(e) => {
                return Err(e);
            },
            Ok((reply, next)) => {
                proof {
                    lemma_after_more_replies(
                        written,
                        reply@,
                        spec_words(data, next as int, storage.entries(), now),
                    );
                }
                let mut reply = reply;
                replies.append(&mut reply);
                at = next;
            },
        }
    }
    Ok(replies)
}

/// To put a reply before a run and then the replies so far before both is to
/// put the replies so far with that reply before the run.
proof fn lemma_after_more_replies(written: Seq<u8>, reply: Seq<u8>, rest: Response)
    ensures
        after_replies(written, after_replies(reply, rest)) == after_replies(written + reply, rest),
{
    match rest {
        (Ok(more), _) => {
            assert(written + (reply + more) =~= (written + reply) + more);
        },
        _ => {},
    }
}

/// Handles one request at the instant `now`, which is `None` where the clock
/// could not be read: checks it, decodes it, runs its commands on `storage`
/// and returns their replies laid end to end.
///
/// Fails with `InputTooShort` on fewer than two bytes, with `CRLFNotAtEnd`
/// unless the last two bytes are CRLF, with `RESPError` where the bytes do
/// not begin with a well-formed RESP value, with `NullArray` where that value
/// is the null array, with `CmdNotArray` where it is no array, with
/// `EmptyArray` where it is an array without elements, with `NotAllBulk`
/// where an element is no bulk string, and as the first command that fails
/// does. Nothing is replied then.
pub fn handle_request_at<S: Crud>(storage: &mut S, bytes: &Bytes, now: Option<u128>) -> (r: Result<
    Vec<u8>,
    CmdError,
>)
    ensures
        (reply_view(r), final(storage).entries()) == spec_request(
            contents(*bytes),
            old(storage).entries(),
            now,
        ),
{
    let raw = as_slice(bytes);
    let len = raw.len();
    if len < 2 {
        return Err(CmdError::InputTooShort(slice_to_vec(raw)));
    }
    if raw[len - 2] != CR || raw[len - 1] != LF {
        return Err(CmdError::CRLFNotAtEnd);
    }
    let message = match Message::deserialize(bytes) {
        Err(e) => { return Err(CmdError::RESPError(e)); },
        Ok((message, _)) => message,
    };
    let words = match &message.data {
        Value::Array(words) => words,
        Value::NullArray => { return Err(CmdError::NullArray); },
        _ => { return Err(CmdError::CmdNotArray); },
    };
    if words.len() == 0 {
        return Err(CmdError::EmptyArray);
    }
    if !check_all_bulk(words.as_slice()) {
        return Err(CmdError::NotAllBulk);
    }
    handle_words(storage, words.as_slice(), now)
}

/// Handles one request at the instant that the system clock shows: what
/// `handle_request_at` does at that instant, or without one where the clock
/// cannot be read.
pub fn handle_request<S: Crud>(storage: &mut S, bytes: &Bytes) -> (r: Result<Vec<u8>, CmdError>)
    ensures
        exists|now: Option<u128>|
            (reply_view(r), final(storage).entries()) == #[trigger] spec_request(
                contents(*bytes),
                old(storage).entries(),
                now,
            ),
{
    let now = match since_epoch(&clock_reading()) {
        Ok(since) => Some(whole_millis(&since)),
        Err(_) => None,
    };
    handle_request_at(storage, bytes, now)
}

} // verus!
