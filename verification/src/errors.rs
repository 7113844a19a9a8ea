//! The error taxonomy of the acceptor and framer.
//!
//! Each failure is fatal at its own scope and is never retried: a bind
//! failure is fatal for startup, an accept failure is fatal for that element
//! of the accept sequence, and a decode failure is fatal for its connection
//! alone.

use vstd::prelude::*;

verus! {

/// The listening endpoint could not be bound (already in use, permission
/// denied, or an invalid address).  Fatal at startup.
#[derive(Debug, Clone, Copy, PartialEq, Eq)]
pub struct BindError;

/// Accepting the next connection failed (the underlying socket was
/// interrupted or closed).  Fatal for that element of the accept sequence.
#[derive(Debug, Clone, Copy, PartialEq, Eq)]
pub struct AcceptError;

/// A header line was not valid text.  Fatal for the affected connection
/// alone: the connection is closed and the acceptor moves on.
#[derive(Debug, Clone, Copy, PartialEq, Eq)]
pub struct LineDecodeError;

} // verus!
