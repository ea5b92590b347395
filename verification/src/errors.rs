//! The error taxonomy of the driver core.
//!
//! Configuration faults abort a session before any engine invocation;
//! resolution and stack faults abort the running pass; an engine fault
//! carries the engine's own fatal message; an unexpected completion code is
//! an internal fault.

use vstd::prelude::*;

verus! {

/// A provider or bundle could not satisfy a lookup.
#[derive(Clone, Copy, Debug, PartialEq, Eq, Structural)]
pub enum ResolutionError {
    /// No layer holds the resource.
    NotFound,
    /// The configured local bundle path does not exist or is unreadable.
    InvalidBundlePath,
    /// The remote endpoint is unreachable and no cached copy exists.
    ResourceUnavailable,
    /// Only-cached mode is in force and the resource was never cached.
    NotCachedLocally,
    /// An archive bundle's index is malformed.
    CorruptArchive,
}

/// A file operation against the I/O stack failed.
#[derive(Clone, Copy, Debug, PartialEq, Eq, Structural)]
pub enum StackError {
    /// No layer satisfies the identifier (or a hidden-path denial is in force).
    NotFound,
    /// A write was directed at a layer that only serves reads.
    ReadOnlyLayer,
}

/// The session configuration is unusable; reported before any engine call.
#[derive(Clone, Copy, Debug, PartialEq, Eq, Structural)]
pub enum ConfigError {
    /// No input document was specified.
    NoInputSpecified,
    /// No basename could be derived from the input path.
    BadInputPath,
    /// The format name is empty.
    EmptyFormatName,
}

/// The terminal error of a processing session.
#[derive(Clone, Debug, PartialEq, Eq)]
pub enum SessionError {
    /// The configuration was rejected during validation.
    Configuration(ConfigError),
    /// A resource lookup failed during a pass; carries the identifier.
    Resolution(Vec<u8>, ResolutionError),
    /// A stack operation failed during a pass; carries the identifier.
    Stack(Vec<u8>, StackError),
    /// The engine signaled a fatal condition, with its message.
    Engine(String),
    /// The engine returned a completion code outside its protocol.
    Internal(i32),
}

/// A human-readable cause chain, topmost message first, as the status
/// backends consume it.
#[derive(Clone, Debug)]
pub struct ErrorChain {
    pub messages: Vec<String>,
}

impl ErrorChain {
    /// A chain of a single message.
    pub fn single(message: String) -> (r: ErrorChain)
        ensures
            r.messages@.len() == 1,
            r.messages@[0]@ == message@,
    {
        let mut messages: Vec<String> = Vec::new();
        messages.push(message);
        ErrorChain { messages }
    }
}

} // verus!
