//! Error types of the library, and the plain values that contracts compare
//! them by.

use vstd::prelude::*;

verus! {

/// A framing error, as a mathematical value.
pub enum RespFault {
    UnsupportedRESPType(u8),
    CRMissing,
    LFMissing,
    CRLFNotAtEnd,
    NegativeLength,
    IntegerParseError(Seq<u8>),
}

/// Errors of the RESP codec.
#[derive(Debug)]
pub enum RESPError {
    /// The first byte names no RESP type.
    UnsupportedRESPType(u8),
    /// The CR (`\r`) of a terminator is missing.
    CRMissing,
    /// The LF (`\n`) of a terminator is missing.
    LFMissing,
    /// The first CR is not immediately followed by the first LF.
    CRLFNotAtEnd,
    /// A length below zero that is not the null sentinel `-1`.
    NegativeLength,
    /// The text that could not be read as a number, up to and including the
    /// byte that is no digit, or the whole run of digits where it is too large.
    IntegerParseError(Vec<u8>),
}

impl View for RESPError {
    type V = RespFault;

    open spec fn view(&self) -> RespFault {
        match self {
            RESPError::UnsupportedRESPType(b) => RespFault::UnsupportedRESPType(*b),
            RESPError::CRMissing => RespFault::CRMissing,
            RESPError::LFMissing => RespFault::LFMissing,
            RESPError::CRLFNotAtEnd => RespFault::CRLFNotAtEnd,
            RESPError::NegativeLength => RespFault::NegativeLength,
            RESPError::IntegerParseError(text) => RespFault::IntegerParseError(text@),
        }
    }
}

/// A request error, as a mathematical value.
pub enum CmdFault {
    FromUtf8Error,
    ParseIntError,
    TimeError,
    RESPError(RespFault),
    InputTooShort(Seq<u8>),
    CRLFNotAtEnd,
    NullArray,
    CmdNotArray,
    EmptyArray,
    NotAllBulk,
    MissingArg,
    WrongArg(Seq<char>),
}

/// Errors of the command router.
#[derive(Debug)]
pub enum CmdError {
    /// An argument is not valid UTF-8.
    FromUtf8Error,
    /// A time to live is no decimal number.
    ParseIntError,
    /// The system clock could not be read.
    TimeError,
    /// The request is not well-formed RESP.
    RESPError(RESPError),
    /// The request has fewer than two bytes; they come with the error.
    InputTooShort(Vec<u8>),
    /// The request does not end in CRLF.
    CRLFNotAtEnd,
    /// The request is the null array.
    NullArray,
    /// The request is no array.
    CmdNotArray,
    /// The request is an array without elements.
    EmptyArray,
    /// An element of the request is no bulk string.
    NotAllBulk,
    /// A command lacks an argument that it must have.
    MissingArg,
    /// An argument that the command cannot take.
    WrongArg(String),
}

impl View for CmdError {
    type V = CmdFault;

    open spec fn view(&self) -> CmdFault {
        match self {
            CmdError::FromUtf8Error => CmdFault::FromUtf8Error,
            CmdError::ParseIntError => CmdFault::ParseIntError,
            CmdError::TimeError => CmdFault::TimeError,
            CmdError::RESPError(e) => CmdFault::RESPError(e@),
            CmdError::InputTooShort(bytes) => CmdFault::InputTooShort(bytes@),
            CmdError::CRLFNotAtEnd => CmdFault::CRLFNotAtEnd,
            CmdError::NullArray => CmdFault::NullArray,
            CmdError::CmdNotArray => CmdFault::CmdNotArray,
            CmdError::EmptyArray => CmdFault::EmptyArray,
            CmdError::NotAllBulk => CmdFault::NotAllBulk,
            CmdError::MissingArg => CmdFault::MissingArg,
            CmdError::WrongArg(arg) => CmdFault::WrongArg(arg@),
        }
    }
}

/// Errors that end a connection.
#[derive(Debug)]
pub enum ConnectionError {
    /// Reading from the socket or writing to it failed.
    IoError(std::io::Error),
    /// A request was refused.
    CmdError(CmdError),
}

} // verus!
