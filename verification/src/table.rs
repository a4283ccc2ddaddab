//! The connection table: at most one control block per quad.
//!
//! Arriving segments are routed to the control block of their quad. A SYN
//! for a quad without one opens a connection where its destination is
//! listened on. A control block leaves the table when it reaches `Closed`,
//! and only then.

use std::collections::HashMap;
use vstd::prelude::*;
use crate::error::TcpError;
use crate::segment::{ConnectionQuad, Location, Segment};
use crate::seq_arith::{add_wrapping, advance};
use crate::tcp::{Processed, SegmentClass, TCPConnection, TCPConnectionState, Tcb};

verus! {

broadcast use vstd::std_specs::hash::group_hash_axioms;

/// How far the initial send sequence number moves from one new connection
/// to the next: one second of a clock that ticks every four microseconds.
pub const ISS_STRIDE: u32 = 250_000;

/// The number that stands for an endpoint.
pub open spec fn location_key(l: Location) -> int {
    l.address * 0x1_0000 + l.port
}

/// The number that stands for a quad. Different quads have different
/// numbers.
pub open spec fn quad_key(q: ConnectionQuad) -> int {
    location_key(q.source) * 0x1_0000_0000_0000 + location_key(q.destination)
}

/// Different quads have different keys, and every key fits in 96 bits.
pub proof fn lemma_quad_key_injective(a: ConnectionQuad, b: ConnectionQuad)
    ensures
        0 <= quad_key(a) < 0x1_0000_0000_0000_0000_0000_0000,
        quad_key(a) == quad_key(b) <==> a == b,
{
    let sa = location_key(a.source);
    let da = location_key(a.destination);
    let sb = location_key(b.source);
    let db = location_key(b.destination);
    assert(0 <= sa < 0x1_0000_0000_0000 && 0 <= da < 0x1_0000_0000_0000);
    assert(0 <= sb < 0x1_0000_0000_0000 && 0 <= db < 0x1_0000_0000_0000);
    if quad_key(a) == quad_key(b) {
        assert(sa == sb && da == db);
        assert(a.source.address == b.source.address && a.source.port == b.source.port);
        assert(a.destination.address == b.destination.address && a.destination.port
            == b.destination.port);
    }
}

/// The mathematical content of a connection table.
pub struct Table {
    /// The control block of each quad that has one.
    pub connections: Map<ConnectionQuad, Tcb>,
    /// The endpoints listened on.
    pub listeners: Seq<Location>,
    /// Whether every endpoint is listened on.
    pub accept_any: bool,
    /// The initial send sequence number of the next new connection.
    pub next_iss: u32,
}

/// What looking up a segment's quad found.
#[derive(Clone, Copy, Debug)]
pub enum Lookup {
    /// The quad's control block, as the table holds it.
    Existing(TCPConnection),
    /// The control block that the segment has just opened, now in the
    /// table, and the SYN+ACK to send.
    Created(TCPConnection, Segment),
}

impl Table {
    /// Whether `endpoint` is listened on.
    pub open spec fn listens_on(self, endpoint: Location) -> bool {
        self.accept_any || self.listeners.contains(endpoint)
    }

    /// Whether `seg` opens a new connection: its quad has no control
    /// block, it is a SYN without ACK, and its destination is listened on.
    pub open spec fn opens(self, seg: Segment) -> bool {
        &&& !self.connections.contains_key(seg.quad)
        &&& seg.spec_is_opening_syn()
        &&& self.listens_on(seg.quad.destination)
    }

    /// Every control block in the table is well formed and not closed.
    pub open spec fn wf(self) -> bool {
        forall|q: ConnectionQuad| #[trigger]
            self.connections.contains_key(q) ==> self.connections[q].wf()
                && self.connections[q].state != TCPConnectionState::Closed
    }

    /// The table with the control block `t` for `quad`; a closed control
    /// block leaves the table instead.
    pub open spec fn with(self, quad: ConnectionQuad, t: Tcb) -> Table {
        Table {
            connections: if t.state == TCPConnectionState::Closed {
                self.connections.remove(quad)
            } else {
                self.connections.insert(quad, t)
            },
            ..self
        }
    }

    /// The table after an arriving segment.
    pub open spec fn after_segment(self, seg: Segment) -> Table {
        if self.connections.contains_key(seg.quad) {
            self.with(seg.quad, self.connections[seg.quad].after(seg))
        } else if self.opens(seg) {
            Table {
                connections: self.connections.insert(
                    seg.quad,
                    Tcb::opened_by(seg, self.next_iss),
                ),
                next_iss: advance(self.next_iss, ISS_STRIDE as int),
                ..self
            }
        } else {
            self
        }
    }

    /// Whether an arriving segment finds a control block or opens one;
    /// otherwise it is refused.
    pub open spec fn admits(self, seg: Segment) -> bool {
        self.connections.contains_key(seg.quad) || self.opens(seg)
    }

    /// How an arriving segment that is not refused is classified.
    pub open spec fn class_of(self, seg: Segment) -> SegmentClass {
        if self.connections.contains_key(seg.quad) {
            self.connections[seg.quad].class_of(seg)
        } else {
            SegmentClass::AcceptedInOrder
        }
    }

    /// How many octets of the segment's payload go to the application.
    pub open spec fn delivered_from(self, seg: Segment) -> int {
        if self.connections.contains_key(seg.quad) {
            self.connections[seg.quad].delivered_from(seg)
        } else {
            0
        }
    }

    /// The segments a local close of `quad` sends.
    pub open spec fn close_sends(self, quad: ConnectionQuad) -> Seq<Segment> {
        if self.connections.contains_key(quad) {
            self.connections[quad].close_sends(quad)
        } else {
            Seq::empty()
        }
    }

    /// The segments sent in answer to an arriving segment.
    pub open spec fn replies_to(self, seg: Segment) -> Seq<Segment> {
        if self.connections.contains_key(seg.quad) {
            self.connections[seg.quad].replies_to(seg)
        } else if self.opens(seg) {
            seq![Tcb::opened_by(seg, self.next_iss).syn_ack(seg.quad)]
        } else {
            Seq::empty()
        }
    }

    /// The table after a local close of `quad`.
    pub open spec fn after_close(self, quad: ConnectionQuad) -> Table {
        if self.connections.contains_key(quad) {
            self.with(quad, self.connections[quad].after_close())
        } else {
            self
        }
    }

    /// The table after an abort of `quad`: its control block is gone.
    pub open spec fn after_abort(self, quad: ConnectionQuad) -> Table {
        Table { connections: self.connections.remove(quad), ..self }
    }

    /// The segments sent again when the retransmission timer of `quad`
    /// fires.
    pub open spec fn retransmission(self, quad: ConnectionQuad) -> Seq<Segment> {
        if self.connections.contains_key(quad) {
            self.connections[quad].retransmission(quad)
        } else {
            Seq::empty()
        }
    }

    /// The table after the quiet-time timer of `quad` has fired.
    pub open spec fn after_quiet_time(self, quad: ConnectionQuad) -> Table {
        if self.connections.contains_key(quad) {
            self.with(quad, self.connections[quad].after_quiet_time())
        } else {
            self
        }
    }
}

/// The connection table.
pub struct ConnectionTable {
    connections: HashMap<u128, TCPConnection>,
    listeners: Vec<Location>,
    accept_any: bool,
    next_iss: u32,
}

impl View for ConnectionTable {
    type V = Table;

    closed spec fn view(&self) -> Table {
        Table {
            connections: Map::new(
                |q: ConnectionQuad| self.connections@.contains_key(quad_key(q) as u128),
                |q: ConnectionQuad| self.connections@[quad_key(q) as u128]@,
            ),
            listeners: self.listeners@,
            accept_any: self.accept_any,
            next_iss: self.next_iss,
        }
    }
}

fn key_of(quad: &ConnectionQuad) -> (k: u128)
    ensures
        k == quad_key(*quad),
{
    let source: u128 = (quad.source.address as u128) * 0x1_0000 + (quad.source.port as u128);
    let destination: u128 = (quad.destination.address as u128) * 0x1_0000 + (
    quad.destination.port as u128);
    source * 0x1_0000_0000_0000 + destination
}

impl ConnectionTable {
    /// An empty table that listens on nothing. `iss_seed` is the initial
    /// send sequence number of the first connection.
    pub fn new(iss_seed: u32) -> (r: ConnectionTable)
        ensures
            r@.connections == Map::<ConnectionQuad, Tcb>::empty(),
            r@.listeners == Seq::<Location>::empty(),
            !r@.accept_any,
            r@.next_iss == iss_seed,
            r@.wf(),
    {
        let r = ConnectionTable {
            connections: HashMap::new(),
            listeners: Vec::new(),
            accept_any: false,
            next_iss: iss_seed,
        };
        assert(r@.connections =~= Map::<ConnectionQuad, Tcb>::empty());
        r
    }

    /// Starts listening on `endpoint`.
    pub fn listen(&mut self, endpoint: Location)
        ensures
            final(self)@ == (Table { listeners: old(self)@.listeners.push(endpoint), ..old(self)@ }),
            final(self)@.listens_on(endpoint),
            forall|e: Location| old(self)@.listens_on(e) ==> final(self)@.listens_on(e),
    {
        let ghost before = self.listeners@;
        self.listeners.push(endpoint);
        proof {
            assert(self.listeners@[before.len() as int] == endpoint);
            assert forall|e: Location| before.contains(e) implies self.listeners@.contains(e) by {
                let i = choose|i: int| 0 <= i < before.len() && before[i] == e;
                assert(self.listeners@[i] == e);
            }
        }
    }

    /// Starts listening on every endpoint.
    pub fn listen_on_any(&mut self)
        ensures
            final(self)@ == (Table { accept_any: true, ..old(self)@ }),
    {
        self.accept_any = true;
    }

    /// Whether `endpoint` is listened on.
    pub fn is_listening(&self, endpoint: &Location) -> (r: bool)
        ensures
            r == self@.listens_on(*endpoint),
    {
        if self.accept_any {
            return true;
        }
        let mut i: usize = 0;
        while i < self.listeners.len()
            invariant
                i <= self.listeners@.len(),
                forall|j: int| 0 <= j < i ==> self.listeners@[j] != *endpoint,
            decreases self.listeners@.len() - i,
        {
            if self.listeners[i] == *endpoint {
                return true;
            }
            i += 1;
        }
        false
    }

    /// The initial send sequence number of the next new connection.
    pub fn next_iss(&self) -> (r: u32)
        ensures
            r == self@.next_iss,
    {
        self.next_iss
    }

    /// The control block of `quad`, if it has one.
    pub fn get(&self, quad: &ConnectionQuad) -> (r: Option<TCPConnection>)
        ensures
            r.is_some() == self@.connections.contains_key(*quad),
            r matches Some(c) ==> c@ == self@.connections[*quad],
    {
        let key = key_of(quad);
        match self.connections.get(&key) {
            Some(c) => Some(*c),
            None => None,
        }
    }

    /// Whether `quad` has a control block.
    pub fn contains(&self, quad: &ConnectionQuad) -> (r: bool)
        ensures
            r == self@.connections.contains_key(*quad),
    {
        self.get(quad).is_some()
    }

    /// Puts `connection` in the table as the control block of `quad`, or
    /// takes the quad's control block out where `connection` is closed.
    pub fn put(&mut self, quad: &ConnectionQuad, connection: TCPConnection)
        ensures
            final(self)@ == old(self)@.with(*quad, connection@),
    {
        let key = key_of(quad);
        if connection.state() == TCPConnectionState::Closed {
            self.connections.remove(&key);
        } else {
            self.connections.insert(key, connection);
        }
        proof {
            assert forall|q: ConnectionQuad| q != *quad implies quad_key(q) as u128 != key by {
                lemma_quad_key_injective(q, *quad);
                lemma_quad_key_injective(q, q);
            }
            lemma_quad_key_injective(*quad, *quad);
            assert(self@.connections =~= old(self)@.with(*quad, connection@).connections);
        }
    }

    /// Finds the control block that an arriving segment belongs to, or
    /// opens one.
    ///
    /// A quad that has a control block yields it, and the table stays as
    /// it is. A SYN without ACK for a quad that has none, addressed to an
    /// endpoint that is listened on, opens a connection with the table's
    /// next initial send sequence number and puts it in the table. Any
    /// other segment is refused with `NoMatchingConnection` and changes
    /// nothing.
    pub fn lookup_or_create(&mut self, segment: &Segment) -> (r: Result<Lookup, TcpError>)
        ensures
            r.is_ok() <==> old(self)@.admits(*segment),
            r matches Err(e) ==> e == TcpError::NoMatchingConnection && final(self)@ == old(self)@,
            r matches Ok(Lookup::Existing(c)) ==> {
                &&& old(self)@.connections.contains_key(segment.quad)
                &&& c@ == old(self)@.connections[segment.quad]
                &&& final(self)@ == old(self)@
            },
            r matches Ok(Lookup::Created(c, reply)) ==> {
                &&& old(self)@.opens(*segment)
                &&& c@ == Tcb::opened_by(*segment, old(self)@.next_iss)
                &&& reply == c@.syn_ack(segment.quad)
                &&& final(self)@ == old(self)@.after_segment(*segment)
            },
            !segment.spec_is_opening_syn() ==> final(self)@ == old(self)@,
    {
        if let Some(existing) = self.get(&segment.quad) {
            return Ok(Lookup::Existing(existing));
        }
        if !segment.is_opening_syn() || !self.is_listening(&segment.quad.destination) {
            return Err(TcpError::NoMatchingConnection);
        }
        match TCPConnection::accept(segment, self.next_iss) {
            Ok((connection, reply)) => {
                self.put(&segment.quad, connection);
                self.next_iss = add_wrapping(self.next_iss, ISS_STRIDE);
                Ok(Lookup::Created(connection, reply))
            },
            Err(_) => Err(TcpError::NoMatchingConnection),
        }
    }

    /// Routes an arriving segment.
    ///
    /// The segment is applied to its quad's control block, which leaves
    /// the table if that closes it; or it opens a connection; or it is
    /// refused with `NoMatchingConnection`, and the table stays as it is.
    pub fn deliver(&mut self, segment: &Segment) -> (r: Result<Processed, TcpError>)
        ensures
            final(self)@ == old(self)@.after_segment(*segment),
            r.is_ok() <==> old(self)@.admits(*segment),
            r matches Err(e) ==> e == TcpError::NoMatchingConnection,
            r matches Ok(p) ==> {
                &&& p.class == old(self)@.class_of(*segment)
                &&& p.delivered == old(self)@.delivered_from(*segment)
                &&& p.replies@ == old(self)@.replies_to(*segment)
            },
            old(self)@.wf() ==> final(self)@.wf(),
    {
        match self.lookup_or_create(segment) {
            Err(e) => Err(e),
            Ok(Lookup::Created(_, reply)) => {
                let mut replies: Vec<Segment> = Vec::new();
                replies.push(reply);
                Ok(Processed { class: SegmentClass::AcceptedInOrder, delivered: 0, replies })
            },
            Ok(Lookup::Existing(existing)) => {
                let mut connection = existing;
                let processed = connection.process_segment(segment);
                self.put(&segment.quad, connection);
                Ok(processed)
            },
        }
    }

    /// Local close of the connection `quad`: its FIN is sent where none
    /// was sent yet. A quad without a control block sends nothing.
    pub fn close(&mut self, quad: &ConnectionQuad) -> (sent: Vec<Segment>)
        ensures
            final(self)@ == old(self)@.after_close(*quad),
            sent@ == old(self)@.close_sends(*quad),
            old(self)@.wf() ==> final(self)@.wf(),
    {
        match self.get(quad) {
            None => Vec::new(),
            Some(existing) => {
                let mut connection = existing;
                let sent = connection.close(*quad);
                self.put(quad, connection);
                sent
            },
        }
    }

    /// The retransmission timer of the connection `quad` has fired: what
    /// is sent again. The table does not change; a quad without a control
    /// block sends nothing.
    pub fn retransmit(&self, quad: &ConnectionQuad) -> (sent: Vec<Segment>)
        ensures
            sent@ == self@.retransmission(*quad),
    {
        match self.get(quad) {
            None => Vec::new(),
            Some(connection) => connection.retransmit(*quad),
        }
    }

    /// Abort of the connection `quad`: its control block is closed and
    /// leaves the table. Returns whether there was one.
    pub fn abort(&mut self, quad: &ConnectionQuad) -> (r: bool)
        ensures
            r == old(self)@.connections.contains_key(*quad),
            final(self)@ == old(self)@.after_abort(*quad),
            old(self)@.wf() ==> final(self)@.wf(),
    {
        match self.get(quad) {
            None => {
                assert(self@.connections.remove(*quad) =~= self@.connections);
                false
            },
            Some(existing) => {
                let mut connection = existing;
                connection.abort();
                self.put(quad, connection);
                true
            },
        }
    }

    /// The quiet-time timer of the connection `quad` has fired: a
    /// connection in `TimeWait` is closed and leaves the table.
    pub fn quiet_time_elapsed(&mut self, quad: &ConnectionQuad)
        ensures
            final(self)@ == old(self)@.after_quiet_time(*quad),
            old(self)@.wf() ==> final(self)@.wf(),
    {
        match self.get(quad) {
            None => {},
            Some(existing) => {
                let mut connection = existing;
                connection.quiet_time_elapsed();
                self.put(quad, connection);
            },
        }
    }
}

} // verus!
