//! The sequential connection acceptor.
//!
//! Connections are handed out strictly one at a time, in the order the
//! clients arrived: a new connection can be accepted only once the previous
//! one has been handled to completion, so two handlers never overlap.  The
//! blocking accept call itself is the caller's; its outcome is reported
//! here as an `AcceptEvent` and the acceptor decides what it means.

use vstd::prelude::*;
use vstd::utf8::decode_utf8;

use crate::errors::{AcceptError, LineDecodeError};
use crate::framer::{
    header_decodes, header_lines, header_span, header_terminated, read_header_lines, HeaderBlock,
};
use crate::listener::Listener;

verus! {

/// The lifecycle of one accepted connection.
#[derive(Clone, Copy, Debug, PartialEq, Eq)]
pub enum ConnState {
    /// The connection has been accepted and its request not yet read.
    Accepted,
    /// The request's header block has been framed.
    HeaderFramed,
    /// The connection is done and its socket may be dropped.
    Closed,
}

/// What one blocking accept call reported.
pub enum AcceptEvent {
    /// A client connected.
    Connected,
    /// The accept call failed.  The failure is fatal for that element of
    /// the accept sequence alone: nothing is retried.
    Failed,
}

/// One accepted client connection.
pub struct Connection {
    id: u64,
    state: ConnState,
}

impl Connection {
    /// The connection's place in arrival order: the k-th accepted
    /// connection carries id k, counting from zero.
    pub closed spec fn id_spec(&self) -> u64 {
        self.id
    }

    /// Where the connection stands in its lifecycle.
    pub closed spec fn state_spec(&self) -> ConnState {
        self.state
    }

    /// The connection's id.
    pub fn id(&self) -> (i: u64)
        ensures
            i == self.id_spec(),
    {
        self.id
    }

    /// The connection's lifecycle state.
    pub fn state(&self) -> (st: ConnState)
        ensures
            st == self.state_spec(),
    {
        self.state
    }

    /// Frames the header block of this connection's request bytes.
    ///
    /// On success the header is framed and the result describes it exactly
    /// as `read_header_lines` does.  A line that fails to decode closes
    /// the connection: the failure is fatal for this connection alone.
    pub fn frame_header(&mut self, data: &[u8]) -> (r: Result<HeaderBlock, LineDecodeError>)
        requires
            old(self).state_spec() is Accepted,
        ensures
            final(self).id_spec() == old(self).id_spec(),
            r is Ok <==> header_decodes(data@),
            r is Ok ==> final(self).state_spec() is HeaderFramed,
            r is Err ==> final(self).state_spec() is Closed,
            r matches Ok(h) ==> h.lines@.len() == header_lines(data@).len(),
            r matches Ok(h) ==> forall|i: int|
                0 <= i < h.lines@.len() ==> (#[trigger] h.lines@[i])@ == decode_utf8(
                    header_lines(data@)[i],
                ),
            r matches Ok(h) ==> h.consumed == header_span(data@),
            r matches Ok(h) ==> h.terminated == header_terminated(data@),
    {
        match read_header_lines(data) {
            Ok(h) => {
                self.state = ConnState::HeaderFramed;
                Ok(h)
            },
            Err(e) => {
                self.state = ConnState::Closed;
                Err(e)
            },
        }
    }

    /// Closes a connection whose header has been framed.
    pub fn close(&mut self)
        requires
            old(self).state_spec() is HeaderFramed,
        ensures
            final(self).state_spec() is Closed,
            final(self).id_spec() == old(self).id_spec(),
    {
        self.state = ConnState::Closed;
    }
}

/// Accepts connections one at a time on a bound listener.
pub struct Acceptor {
    listener: Listener,
    accepted: Ghost<Seq<u64>>,
    open_conn: bool,
    next_id: u64,
}

impl Acceptor {
    /// The ids of the accepted connections, in arrival order.
    pub closed spec fn accepted_ids(&self) -> Seq<u64> {
        self.accepted@
    }

    /// Whether a connection is currently being handled.
    pub closed spec fn handling(&self) -> bool {
        self.open_conn
    }

    /// The listener the acceptor accepts on.
    pub closed spec fn listener_spec(&self) -> Listener {
        self.listener
    }

    /// The acceptor's internal consistency: its listener is bound and ids
    /// were issued in arrival order, counting from zero.
    pub closed spec fn wf(&self) -> bool {
        &&& self.listener.bound()
        &&& self.accepted@.len() == self.next_id
        &&& forall|i: int| 0 <= i < self.accepted@.len() ==> self.accepted@[i] == i
    }

    /// Starts accepting on a bound listener, with nothing accepted yet.
    pub fn new(listener: Listener) -> (r: Acceptor)
        requires
            listener.bound(),
        ensures
            r.wf(),
            r.listener_spec() == listener,
            r.accepted_ids() =~= Seq::<u64>::empty(),
            !r.handling(),
    {
        Acceptor { listener, accepted: Ghost(Seq::empty()), open_conn: false, next_id: 0 }
    }

    /// Whether a connection is currently being handled.
    pub fn is_handling(&self) -> (b: bool)
        ensures
            b == self.handling(),
    {
        self.open_conn
    }

    /// How many connections have been accepted so far.
    pub fn accepted_count(&self) -> (n: u64)
        requires
            self.wf(),
        ensures
            n == self.accepted_ids().len(),
    {
        self.next_id
    }

    /// One blocking accept call, decided by what the operating system
    /// reported.
    ///
    /// A connected client becomes exactly one new `Connection`, appended
    /// to the arrival order; handling it must complete (see `finish`)
    /// before the next accept.  A failed call yields an `AcceptError` and
    /// records nothing: the element is lost, nothing is retried, and the
    /// acceptor is free to accept again.
    pub fn accept(&mut self, event: AcceptEvent) -> (r: Result<Connection, AcceptError>)
        requires
            old(self).wf(),
            !old(self).handling(),
            old(self).accepted_ids().len() < u64::MAX,
        ensures
            final(self).wf(),
            final(self).listener_spec() == old(self).listener_spec(),
            r is Ok <==> event is Connected,
            r matches Ok(c) ==> (c.state_spec() is Accepted
                && c.id_spec() == old(self).accepted_ids().len()
                && final(self).accepted_ids() =~= old(self).accepted_ids().push(c.id_spec())
                && final(self).handling()),
            r is Err ==> (final(self).accepted_ids() == old(self).accepted_ids()
                && !final(self).handling()),
    {
        match event {
            AcceptEvent::Connected => {
                let id: u64 = self.next_id;
                self.next_id = self.next_id + 1;
                self.accepted = Ghost(self.accepted@.push(id));
                self.open_conn = true;
                Ok(Connection { id, state: ConnState::Accepted })
            },
            AcceptEvent::Failed => Err(AcceptError),
        }
    }

    /// Finishes the handling of the current connection, which must be the
    /// last one accepted and must have been closed.  Only then may the
    /// next accept call be made.
    pub fn finish(&mut self, conn: Connection)
        requires
            old(self).wf(),
            old(self).handling(),
            conn.state_spec() is Closed,
            conn.id_spec() + 1 == old(self).accepted_ids().len(),
        ensures
            final(self).wf(),
            final(self).listener_spec() == old(self).listener_spec(),
            final(self).accepted_ids() == old(self).accepted_ids(),
            !final(self).handling(),
    {
        let _consumed = conn;
        self.open_conn = false;
    }

    /// Connections come out in exactly the order the clients connected:
    /// after any run of the acceptor, the k-th accepted connection carries
    /// id k, and a run of n accepted clients has recorded exactly n
    /// connections.
    pub proof fn lemma_arrival_order(&self)
        requires
            self.wf(),
        ensures
            forall|i: int| 0 <= i < self.accepted_ids().len() ==> self.accepted_ids()[i] == i,
    {
    }
}

} // verus!
