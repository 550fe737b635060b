//! Constants used throughout the library.

use crate::types::ExpirationTimeType;
use vstd::prelude::*;

verus! {

/// Default server port.
pub const DEFAULT_PORT: u16 = 6379;

/// Local host IPv4 address.
pub const LOCAL_SOCKET_ADDR_STR: &'static str = "127.0.0.1";

/// Local host IPv4 address and the default port.
pub const LOCAL_SOCKET_ADDR_PORT_STR: &'static str = "127.0.0.1:6379";

/// Local host IPv4 address and a port that the operating system chooses.
pub const LOCAL_SOCKET_ADDR_STR_TEST: &'static str = "127.0.0.1:0";

/// Default maximum number of connections that are served at the same time.
pub const DEFAULT_MAX_CONNECTIONS: usize = 10;

/// How long an accepted connection waits for a free slot, in milliseconds.
pub const CONNECTION_PERMIT_TIMEOUT_MS: u64 = 5000;

/// How long the sweeper rests between two sweeps for expired keys, in
/// milliseconds.
pub const HZ_MS: ExpirationTimeType = 100;

/// Length of the buffer that a connection reads into, in bytes.
pub const BUFFER_LEN: usize = 512;

/// How the process ends.
#[derive(Debug, PartialEq, Eq, Clone, Copy, Structural)]
pub enum ExitCode {
    /// A shutdown that was asked for.
    Normal,
    /// A shutdown because the signal to shut down could not be waited for.
    Shutdown,
}

impl ExitCode {
    /// The code that the process exits with.
    pub open spec fn spec_code(self) -> i32 {
        match self {
            ExitCode::Normal => 0i32,
            ExitCode::Shutdown => -1i32,
        }
    }

    /// The code that the process exits with: 0 for `Normal`, -1 for `Shutdown`.
    pub fn code(self) -> (code: i32)
        ensures
            code == self.spec_code(),
    {
        match self {
            ExitCode::Normal => 0,
            ExitCode::Shutdown => -1,
        }
    }
}

} // verus!
