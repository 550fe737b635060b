//! The connection handler, as the decisions it takes.
//!
//! A connection is served in turns: bytes are read, the request in them is
//! handled, the reply is written, and bytes are read again. Reading and
//! writing belong to whoever owns the socket; what to do after each of them
//! is decided here.

use crate::cmd::handle_request;
use crate::cmd::semantics::{spec_request, Response};
use crate::errors::ConnectionError;
use crate::foreign::{as_slice, contents};
use crate::storage::generic::Crud;
use crate::types::Entries;
use bytes::Bytes;
use vstd::prelude::*;

verus! {

/// What has just happened on a connection.
pub enum Event {
    /// Bytes were read; none at all where the peer has closed the
    /// connection.
    Received(Bytes),
    /// The reply was written and flushed.
    Sent,
    /// Reading or writing failed.
    Failed(std::io::Error),
}

/// What a connection does next.
#[derive(Debug)]
pub enum Action {
    /// Read the next request.
    Receive,
    /// Write these bytes, the replies to the request, and flush.
    Send(Vec<u8>),
    /// Stop serving: the peer is gone.
    Finish,
    /// Stop serving because of this error. Nothing is written.
    Abort(ConnectionError),
}

/// Whether `action` and the storage `after` it are what `response` asks for:
/// the replies are sent, or the connection is aborted with the error of the
/// request.
pub open spec fn answers(action: Action, after: Entries, response: Response) -> bool {
    &&& after == response.1
    &&& match response.0 {
        Ok(replies) => action matches Action::Send(sent) && sent@ == replies,
        Err(fault) => action matches Action::Abort(ConnectionError::CmdError(e)) && e@ == fault,
    }
}

/// Decides what a connection does after `event`.
///
/// Bytes that were read are one request: they are handled on `storage` at the
/// instant that the system clock shows, and the replies are to be sent. The
/// bytes are not kept for the next turn, so a request that does not end in
/// CRLF is refused, like any other request that fails: the connection is then
/// aborted with the error of the request, and nothing is replied. No bytes at
/// all end the connection in peace. After a reply is sent, the next request
/// is read. A failure to read or write aborts the connection with that
/// failure.
pub fn next_action<S: Crud>(storage: &mut S, event: Event) -> (action: Action)
    ensures
        match event {
            Event::Received(bytes) => if contents(bytes).len() == 0 {
                action is Finish && final(storage).entries() == old(storage).entries()
            } else {
                exists|now: Option<u128>|
                    answers(
                        action,
                        final(storage).entries(),
                        #[trigger] spec_request(contents(bytes), old(storage).entries(), now),
                    )
            },
            Event::Sent => action is Receive && final(storage).entries() == old(storage).entries(),
            Event::Failed(failure) => action matches Action::Abort(ConnectionError::IoError(e))
                && e == failure && final(storage).entries() == old(storage).entries(),
        },
{
    match event {
        Event::Received(bytes) => {
            if as_slice(&bytes).len() == 0 {
                Action::Finish
            } else {
                match handle_request(storage, &bytes) {
                    Ok(reply) => Action::Send(reply),
                    Err(e) => Action::Abort(ConnectionError::CmdError(e)),
                }
            }
        },
        Event::Sent => Action::Receive,
        Event::Failed(failure) => Action::Abort(ConnectionError::IoError(failure)),
    }
}

} // verus!
