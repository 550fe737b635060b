//! The command-line arguments, as the server takes them.

use crate::constants::{DEFAULT_MAX_CONNECTIONS, DEFAULT_PORT};
use vstd::prelude::*;

verus! {

/// What the server is started with.
#[derive(Debug, Clone, Copy)]
pub struct Args {
    /// The port that the server listens on.
    pub port: u16,
    /// Maximum number of connections that are served at the same time.
    pub max_conn: usize,
}

impl Default for Args {
    /// The arguments of a server that is started without any: the default
    /// port and the default number of connections.
    fn default() -> (args: Args)
        ensures
            args.port == DEFAULT_PORT,
            args.max_conn == DEFAULT_MAX_CONNECTIONS,
    {
        Args { port: DEFAULT_PORT, max_conn: DEFAULT_MAX_CONNECTIONS }
    }
}

} // verus!
