//! Error taxonomy of the runtime.
//!
//! Recoverable conditions come back to the caller as values; conditions that
//! signal corrupted coordination state (`InvariantViolation`) are returned so
//! that the embedding program can abort with a diagnostic, since the verified
//! functions themselves never panic.

use vstd::prelude::*;

verus! {

use crate::server::ServerKind;

/// An error of the runtime core.
#[derive(Clone, Copy, Debug, PartialEq, Eq, Structural)]
pub enum ExecError {
    /// A peer thread ended unexpectedly outside an orderly stop.
    ChannelClosed,
    /// A take was requested for a server kind that is not present. A normal
    /// result for a well-formed caller, never a panic.
    ServerAbsent(ServerKind),
    /// A duplicate emplacement or a relocation into an occupied slot. The
    /// embedding program must treat this as fatal.
    InvariantViolation,
    /// A type-erased synchronous call result failed to downcast. Defensive
    /// only: call sites are statically typed, and an embedding whose reply
    /// channels are typed end to end never produces it.
    TypeMismatch,
    /// A rendering context could not be bound or unbound while converting a
    /// server to or from its transferable form.
    ContextBindError,
}

impl ExecError {
    /// A short, fixed description of the error.
    pub fn describe(&self) -> (r: &'static str)
        ensures
            r@ == match *self {
                ExecError::ChannelClosed => "channel was unexpectedly closed"@,
                ExecError::ServerAbsent(_) => "server not found in container"@,
                ExecError::InvariantViolation => "invalid state: server ownership invariant violated"@,
                ExecError::TypeMismatch => "sync call result had an unexpected type"@,
                ExecError::ContextBindError => "unable to (un)bind rendering context"@,
            },
    {
        match *self {
            ExecError::ChannelClosed => "channel was unexpectedly closed",
            ExecError::ServerAbsent(_) => "server not found in container",
            ExecError::InvariantViolation => "invalid state: server ownership invariant violated",
            ExecError::TypeMismatch => "sync call result had an unexpected type",
            ExecError::ContextBindError => "unable to (un)bind rendering context",
        }
    }
}

} // verus!
