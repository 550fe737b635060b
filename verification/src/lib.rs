//! A minimal in-memory key-value server that speaks the Redis wire protocol.
//!
//! Clients send commands encoded in RESP and get replies encoded in RESP. This
//! library holds what the server decides and computes:
//!
//! - [`resp`]: the codec, from bytes to typed values and back;
//! - [`cmd`]: the command router and the handlers of `PING`, `ECHO`, `GET`
//!   and `SET`;
//! - [`storage`]: the storage engine, a map from keys to values and a map
//!   from keys to expiration times;
//! - [`expiry`]: the sweep that deletes expired keys;
//! - [`conn`]: what a connection does after each read and write.
//!
//! Sockets, threads and locks belong to the program around the library.
//! What each function returns and changes is stated in its contract over
//! the mathematical models in [`resp::grammar`] and [`cmd::semantics`];
//! [`resp::laws`] and [`cmd::laws`] hold what follows for all inputs.
//! [`foreign`] lists what is taken on trust from other crates.

pub mod cli;
pub mod cmd;
pub mod conn;
pub mod constants;
pub mod errors;
pub mod expiry;
pub mod foreign;
pub mod resp;
pub mod storage;
pub mod types;
