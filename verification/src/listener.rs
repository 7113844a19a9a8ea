//! The listening endpoint.
//!
//! A `Listener` models one bound address/port pair.  The operating-system
//! socket itself lives with the caller; the caller binds it with the text
//! that `endpoint_text` renders and keeps the `Listener` as the record of
//! the bound endpoint.

use vstd::prelude::*;
use vstd::string::StringExecFns;

use crate::decimal::{decimal_chars, push_decimal};

verus! {

/// The port a listener binds when none is injected.
pub const DEFAULT_PORT: u16 = 7878;

/// Whether a listening endpoint has been bound.
pub enum ListenerState {
    /// No endpoint is bound yet.
    Unbound,
    /// The endpoint is bound and ready to accept connections.
    Bound,
}

/// The textual endpoint `a.b.c.d:port`.
pub open spec fn endpoint_chars(addr: (u8, u8, u8, u8), port: u16) -> Seq<char> {
    decimal_chars(addr.0 as int) + seq!['.'] + decimal_chars(addr.1 as int) + seq!['.']
        + decimal_chars(addr.2 as int) + seq!['.'] + decimal_chars(addr.3 as int) + seq![':']
        + decimal_chars(port as int)
}

/// One listening endpoint: an IPv4 address, a port, and its state.
pub struct Listener {
    addr: (u8, u8, u8, u8),
    port: u16,
    state: ListenerState,
}

impl Listener {
    /// Whether the endpoint is bound.
    pub closed spec fn bound(&self) -> bool {
        self.state is Bound
    }

    /// The endpoint's IPv4 address, as four octets.
    pub closed spec fn addr_spec(&self) -> (u8, u8, u8, u8) {
        self.addr
    }

    /// The endpoint's port.
    pub closed spec fn port_spec(&self) -> u16 {
        self.port
    }

    /// Binds the given address/port pair: every valid pair yields a
    /// listener in the bound state.  (Whether the operating system grants
    /// the endpoint is the caller's step; a refusal there is a
    /// `BindError`, fatal at startup.)
    pub fn bind(addr: (u8, u8, u8, u8), port: u16) -> (r: Listener)
        ensures
            r.bound(),
            r.addr_spec() == addr,
            r.port_spec() == port,
    {
        Listener { addr, port, state: ListenerState::Bound }
    }

    /// Binds the default endpoint, 127.0.0.1 at the default port.
    pub fn bind_default() -> (r: Listener)
        ensures
            r.bound(),
            r.addr_spec() == (127u8, 0u8, 0u8, 1u8),
            r.port_spec() == DEFAULT_PORT,
    {
        Listener::bind((127, 0, 0, 1), DEFAULT_PORT)
    }

    /// Whether the endpoint is bound.
    pub fn is_bound(&self) -> (b: bool)
        ensures
            b == self.bound(),
    {
        match self.state {
            ListenerState::Bound => true,
            ListenerState::Unbound => false,
        }
    }

    /// The endpoint's address.
    pub fn addr(&self) -> (a: (u8, u8, u8, u8))
        ensures
            a == self.addr_spec(),
    {
        self.addr
    }

    /// The endpoint's port.
    pub fn port(&self) -> (p: u16)
        ensures
            p == self.port_spec(),
    {
        self.port
    }

    /// Renders the endpoint as `a.b.c.d:port` text.
    pub fn endpoint_text(&self) -> (r: String)
        ensures
            r@ == endpoint_chars(self.addr_spec(), self.port_spec()),
    {
        let mut out: String = String::new();
        push_decimal(self.addr.0 as u32, &mut out);
        out.append(".");
        push_decimal(self.addr.1 as u32, &mut out);
        out.append(".");
        push_decimal(self.addr.2 as u32, &mut out);
        out.append(".");
        push_decimal(self.addr.3 as u32, &mut out);
        out.append(":");
        push_decimal(self.port as u32, &mut out);
        proof {
            reveal_strlit(".");
            reveal_strlit(":");
            assert("."@ =~= seq!['.']);
            assert(":"@ =~= seq![':']);
            assert(out@ =~= endpoint_chars(self.addr_spec(), self.port_spec()));
        }
        out
    }
}

} // verus!
