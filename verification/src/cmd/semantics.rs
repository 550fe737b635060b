//! What the commands mean: the reply to each, and what it does to the
//! storage, as mathematics.

use crate::errors::CmdFault;
use crate::foreign::upper_char;
use crate::resp::grammar::{
    decimal_value, is_digit, spec_deserialize, spec_serialize, Datum, CR, LF, PLUS,
};
use crate::types::Entries;
use vstd::prelude::*;
use vstd::utf8::{decode_utf8, encode_utf8, valid_utf8};

verus! {

/// A command that the server knows.
#[derive(Debug, PartialEq, Eq, Clone, Copy, Structural)]
pub enum Command {
    EchoCmd,
    GetCmd,
    PingCmd,
    SetCmd,
}

/// The upper-case form of a byte in ASCII.
pub open spec fn upper_byte(b: u8) -> u8 {
    if 'a' as u8 <= b <= 'z' as u8 {
        (b - 32) as u8
    } else {
        b
    }
}

/// Whether two words are the same but for the case of their ASCII letters.
pub open spec fn same_ignoring_case(a: Seq<u8>, b: Seq<u8>) -> bool {
    a.len() == b.len() && forall|i: int| 0 <= i < a.len() ==> upper_byte(a[i]) == upper_byte(b[i])
}

/// `ECHO`
pub open spec fn word_echo() -> Seq<u8> {
    seq!['E' as u8, 'C' as u8, 'H' as u8, 'O' as u8]
}

/// `GET`
pub open spec fn word_get() -> Seq<u8> {
    seq!['G' as u8, 'E' as u8, 'T' as u8]
}

/// `PING`
pub open spec fn word_ping() -> Seq<u8> {
    seq!['P' as u8, 'I' as u8, 'N' as u8, 'G' as u8]
}

/// `SET`
pub open spec fn word_set() -> Seq<u8> {
    seq!['S' as u8, 'E' as u8, 'T' as u8]
}

/// `EX`, the unit of a time to live in seconds.
pub open spec fn word_ex() -> Seq<u8> {
    seq!['E' as u8, 'X' as u8]
}

/// `PX`, the unit of a time to live in milliseconds.
pub open spec fn word_px() -> Seq<u8> {
    seq!['P' as u8, 'X' as u8]
}

/// `PONG`
pub open spec fn word_pong() -> Seq<u8> {
    seq!['P' as u8, 'O' as u8, 'N' as u8, 'G' as u8]
}

/// `OK`
pub open spec fn word_ok() -> Seq<u8> {
    seq!['O' as u8, 'K' as u8]
}

/// The command that a word names, whatever the case of its letters.
pub open spec fn spec_command(word: Seq<u8>) -> Option<Command> {
    if same_ignoring_case(word, word_echo()) {
        Some(Command::EchoCmd)
    } else if same_ignoring_case(word, word_get()) {
        Some(Command::GetCmd)
    } else if same_ignoring_case(word, word_ping()) {
        Some(Command::PingCmd)
    } else if same_ignoring_case(word, word_set()) {
        Some(Command::SetCmd)
    } else {
        None
    }
}

/// Whether a word names a command.
pub open spec fn spec_is_cmd(word: Seq<u8>) -> bool {
    spec_command(word) is Some
}

/// The reply that echoes `payload`: a bulk string.
pub open spec fn bulk_reply(payload: Seq<u8>) -> Seq<u8> {
    spec_serialize(Datum::BulkString(payload))
}

/// The reply for a value that is not there: the null bulk string.
pub open spec fn null_reply() -> Seq<u8> {
    spec_serialize(Datum::NullBulkString)
}

/// The reply to `PING` without an argument: the simple string `PONG`.
pub open spec fn pong_reply() -> Seq<u8> {
    spec_serialize(Datum::SimpleString(word_pong()))
}

/// The reply to `SET`: the simple string `OK`.
pub open spec fn ok_reply() -> Seq<u8> {
    spec_serialize(Datum::SimpleString(word_ok()))
}

/// Whether every one of the data is a bulk string.
pub open spec fn all_bulk(words: Seq<Datum>) -> bool {
    forall|i: int| 0 <= i < words.len() ==> words[i] is BulkString
}

/// The payload of a word that is a bulk string.
pub open spec fn payload(word: Datum) -> Seq<u8> {
    match word {
        Datum::BulkString(bytes) => bytes,
        _ => Seq::empty(),
    }
}

/// What a command gives: its reply and the storage as it leaves it, or the
/// error it fails with, which leaves the storage as it was.
pub type Outcome = Result<(Seq<u8>, Entries), CmdFault>;

/// `ECHO argument`: the argument comes back as a bulk string.
pub open spec fn spec_echo(words: Seq<Datum>) -> Result<Seq<u8>, CmdFault> {
    if words.len() != 2 {
        Err(CmdFault::MissingArg)
    } else if !all_bulk(words) {
        Err(CmdFault::NotAllBulk)
    } else if !valid_utf8(payload(words[1])) {
        Err(CmdFault::FromUtf8Error)
    } else {
        Ok(bulk_reply(payload(words[1])))
    }
}

/// `PING`: the simple string `PONG`. `PING argument`: the argument comes back
/// as a bulk string.
pub open spec fn spec_ping(words: Seq<Datum>) -> Result<Seq<u8>, CmdFault> {
    if words.len() != 1 && words.len() != 2 {
        Err(CmdFault::MissingArg)
    } else if !all_bulk(words) {
        Err(CmdFault::NotAllBulk)
    } else if words.len() == 1 {
        Ok(pong_reply())
    } else if !valid_utf8(payload(words[1])) {
        Err(CmdFault::FromUtf8Error)
    } else {
        Ok(bulk_reply(payload(words[1])))
    }
}

/// Whether an entry that expires at `expiry` has expired at `now`: the
/// instant of its expiry lies strictly before `now`.
pub open spec fn expired(expiry: u128, now: u128) -> bool {
    expiry < now
}

/// `GET key` at the instant `now`: the value under the key as a bulk string,
/// or the null bulk string where the key is not there or has expired. A key
/// that is found expired is deleted. The clock is needed for a key that has an
/// expiration time, and for no other.
pub open spec fn spec_get(words: Seq<Datum>, entries: Entries, now: Option<u128>) -> Outcome {
    if words.len() != 2 {
        Err(CmdFault::MissingArg)
    } else if !all_bulk(words) {
        Err(CmdFault::NotAllBulk)
    } else if !valid_utf8(payload(words[1])) {
        Err(CmdFault::FromUtf8Error)
    } else {
        let key = decode_utf8(payload(words[1]));
        if !entries.contains_key(key) {
            Ok((null_reply(), entries))
        } else {
            match entries[key].1 {
                None => Ok((bulk_reply(encode_utf8(entries[key].0)), entries)),
                Some(expiry) => match now {
                    None => Err(CmdFault::TimeError),
                    Some(now) => if expired(expiry, now) {
                        Ok((null_reply(), entries.remove(key)))
                    } else {
                        Ok((bulk_reply(encode_utf8(entries[key].0)), entries))
                    },
                },
            }
        }
    }
}

/// Whether every byte of `text` is a decimal digit.
pub open spec fn all_digits(text: Seq<u8>) -> bool {
    forall|i: int| 0 <= i < text.len() ==> is_digit(#[trigger] text[i])
}

/// The number that the text of a time to live writes: an optional plus sign
/// and at least one decimal digit, no more than 128 bits can hold.
pub open spec fn spec_parse_ttl(text: Seq<u8>) -> Option<u128> {
    let digits = if text.len() > 0 && text[0] == PLUS {
        text.skip(1)
    } else {
        text
    };
    if digits.len() > 0 && all_digits(digits) && decimal_value(digits) <= u128::MAX {
        Some(decimal_value(digits) as u128)
    } else {
        None
    }
}

/// The milliseconds that one unit of a time to live lasts: 1000 for `EX`, 1
/// for `PX`, whatever the case of the letters.
pub open spec fn spec_unit(word: Seq<u8>) -> Option<u128> {
    if same_ignoring_case(word, word_ex()) {
        Some(1000u128)
    } else if same_ignoring_case(word, word_px()) {
        Some(1u128)
    } else {
        None
    }
}

/// The text of `chars` with each character in its ASCII upper-case form.
pub open spec fn upper_text(chars: Seq<char>) -> Seq<char> {
    Seq::new(chars.len(), |i: int| upper_char(chars[i]))
}

/// The instant at which an entry expires that is set at `now` to live for
/// `ttl` units of `unit` milliseconds, where 128 bits can hold it.
pub open spec fn spec_expiry(now: u128, ttl: u128, unit: u128) -> Option<u128> {
    if now + ttl * unit <= u128::MAX {
        Some((now + ttl * unit) as u128)
    } else {
        None
    }
}

/// `SET key value` stores the value under the key, for ever. `SET key value
/// EX seconds` and `SET key value PX milliseconds` at the instant `now` store
/// it to expire that long after `now`. The reply is the simple string `OK`.
pub open spec fn spec_set(words: Seq<Datum>, entries: Entries, now: Option<u128>) -> Outcome {
    if words.len() != 3 && words.len() != 5 {
        Err(CmdFault::MissingArg)
    } else if !all_bulk(words) {
        Err(CmdFault::NotAllBulk)
    } else if !valid_utf8(payload(words[1])) || !valid_utf8(payload(words[2])) {
        Err(CmdFault::FromUtf8Error)
    } else {
        let key = decode_utf8(payload(words[1]));
        let value = decode_utf8(payload(words[2]));
        if words.len() == 3 {
            Ok((ok_reply(), entries.insert(key, (value, None))))
        } else if !valid_utf8(payload(words[3])) || !valid_utf8(payload(words[4])) {
            Err(CmdFault::FromUtf8Error)
        } else {
            match spec_parse_ttl(payload(words[4])) {
                None => Err(CmdFault::ParseIntError),
                Some(ttl) => match spec_unit(payload(words[3])) {
                    None => Err(CmdFault::WrongArg(upper_text(decode_utf8(payload(words[3]))))),
                    Some(unit) => match now {
                        None => Err(CmdFault::TimeError),
                        Some(now) => match spec_expiry(now, ttl, unit) {
                            None => Err(CmdFault::WrongArg(decode_utf8(payload(words[4])))),
                            Some(expiry) => Ok(
                                (ok_reply(), entries.insert(key, (value, Some(expiry)))),
                            ),
                        },
                    },
                },
            }
        }
    }
}

/// What one command does: its reply, the index of the word behind it, and the
/// storage as it leaves it.
pub struct Step {
    pub reply: Seq<u8>,
    pub next: int,
    pub entries: Entries,
}

/// The words from `from` up to `to`.
pub open spec fn words_of(words: Seq<Datum>, from: int, to: int) -> Seq<Datum> {
    words.subrange(from, to)
}

/// The command that starts at the word `at`, run on `entries` at the instant
/// `now`.
///
/// `ECHO` and `GET` take the next word; without one they fail. `PING` takes
/// the next word unless there is none or it names a command. `SET` takes the
/// next four words where there are that many, else the next two; with fewer
/// it fails. A word that names no command is passed over without a reply.
pub open spec fn spec_step(words: Seq<Datum>, at: int, entries: Entries, now: Option<u128>) -> Result<
    Step,
    CmdFault,
> {
    let left = words.len() - at;
    if !(words[at] is BulkString) {
        Err(CmdFault::NotAllBulk)
    } else {
        match spec_command(payload(words[at])) {
            None => Ok(Step { reply: Seq::empty(), next: at + 1, entries }),
            Some(Command::EchoCmd) => if left < 2 {
                Err(CmdFault::MissingArg)
            } else {
                match spec_echo(words_of(words, at, at + 2)) {
                    Err(fault) => Err(fault),
                    Ok(reply) => Ok(Step { reply, next: at + 2, entries }),
                }
            },
            Some(Command::GetCmd) => if left < 2 {
                Err(CmdFault::MissingArg)
            } else {
                match spec_get(words_of(words, at, at + 2), entries, now) {
                    Err(fault) => Err(fault),
                    Ok((reply, after)) => Ok(Step { reply, next: at + 2, entries: after }),
                }
            },
            Some(Command::PingCmd) => {
                let taken: int = if left < 2 {
                    1
                } else if !(words[at + 1] is BulkString) {
                    2
                } else if spec_is_cmd(payload(words[at + 1])) {
                    1
                } else {
                    2
                };
                match spec_ping(words_of(words, at, at + taken)) {
                    Err(fault) => Err(fault),
                    Ok(reply) => Ok(Step { reply, next: at + taken, entries }),
                }
            },
            Some(Command::SetCmd) => if left < 3 {
                Err(CmdFault::MissingArg)
            } else {
                let taken: int = if left < 5 {
                    3
                } else {
                    5
                };
                match spec_set(words_of(words, at, at + taken), entries, now) {
                    Err(fault) => Err(fault),
                    Ok((reply, after)) => Ok(Step { reply, next: at + taken, entries: after }),
                }
            },
        }
    }
}

/// What a request gives: the replies of its commands laid end to end, or the
/// error of the first command that fails; and with either the storage as the
/// commands before the failure left it.
pub type Response = (Result<Seq<u8>, CmdFault>, Entries);

/// The commands from the word `at` on, run one after the other, each on the
/// storage as the one before left it.
///
/// Every command ends behind the word it starts at, so the run comes to the
/// last word; the test for it is there to show that, and never fails.
pub open spec fn spec_words(words: Seq<Datum>, at: int, entries: Entries, now: Option<u128>) -> Response
    decreases words.len() - at,
{
    if at < 0 || at >= words.len() {
        (Ok(Seq::empty()), entries)
    } else {
        match spec_step(words, at, entries, now) {
            Err(fault) => (Err(fault), entries),
            Ok(step) => if step.next <= at {
                (Ok(step.reply), step.entries)
            } else {
                match spec_words(words, step.next, step.entries, now) {
                    (Ok(replies), after) => (Ok(step.reply + replies), after),
                    (Err(fault), after) => (Err(fault), after),
                }
            },
        }
    }
}

/// A request, run on `entries` at the instant `now`.
///
/// The bytes must be two at least and end in CRLF. What they decode to must
/// be an array, not the null array and not an empty one, of bulk strings
/// only: the words. The commands that the words spell are then run one after
/// the other.
pub open spec fn spec_request(bytes: Seq<u8>, entries: Entries, now: Option<u128>) -> Response {
    if bytes.len() < 2 {
        (Err(CmdFault::InputTooShort(bytes)), entries)
    } else if bytes[bytes.len() - 2] != CR || bytes[bytes.len() - 1] != LF {
        (Err(CmdFault::CRLFNotAtEnd), entries)
    } else {
        match spec_deserialize(bytes) {
            Err(fault) => (Err(CmdFault::RESPError(fault)), entries),
            Ok((Datum::NullArray, _)) => (Err(CmdFault::NullArray), entries),
            Ok((Datum::Array(words), _)) => if words.len() == 0 {
                (Err(CmdFault::EmptyArray), entries)
            } else if !all_bulk(words) {
                (Err(CmdFault::NotAllBulk), entries)
            } else {
                spec_words(words, 0, entries, now)
            },
            Ok(_) => (Err(CmdFault::CmdNotArray), entries),
        }
    }
}

} // verus!
