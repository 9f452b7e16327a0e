//! Error and result types for the crate.

use vstd::prelude::*;

verus! {

/// Errors produced by discovery, control, music mode and firewall helpers.
#[derive(Debug, Clone, PartialEq, Eq)]
#[non_exhaustive]
pub enum Error {
    /// Underlying I/O failure (socket, process, ...), with its description.
    Io(String),
    /// JSON (de)serialization failure, with the parser's description.
    Json(String),
    /// Writing the device registry to TOML failed, with the writer's description.
    TomlSer(String),
    /// Reading the device registry from TOML failed, with the reader's description.
    TomlDe(String),
    /// The device returned an `error` object in response to a command.
    Protocol {
        /// Device error code.
        code: i64,
        /// Human-readable message from the device.
        message: String,
    },
    /// A command did not receive a response within the timeout.
    Timeout,
    /// A parameter failed local validation before being sent.
    InvalidParam(String),
    /// The target device does not advertise support for this method (its `support` header).
    Unsupported(String),
    /// The control connection is closed.
    NotConnected,
    /// A firewall (`ufw`) operation could not be completed.
    Firewall(String),
}

/// Convenient result alias used throughout the crate.
pub type Result<T> = std::result::Result<T, Error>;

/// `e` is [`Error::InvalidParam`] carrying the message `m`.
pub open spec fn invalid_param(e: Error, m: Seq<char>) -> bool {
    e matches Error::InvalidParam(s) && s@ == m
}

} // verus!
