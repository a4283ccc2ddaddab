//! The steps of the engine: from a packet as it was read, a timer that
//! has come due or a local close, to the packets to write, with the
//! connection table and the timers brought up to date in between.
//!
//! The engine never reads a clock or an interface. Its caller hands it
//! each packet together with the time, asks it which timers are due, and
//! writes what it returns.

use vstd::prelude::*;
use vstd::slice::{slice_subrange, slice_to_vec};
use crate::codec::{decode_segment, decoded, encode_segment, encoded, payload_offset, DecodeError};
use crate::engine_lemmas::{
    in_line, lemma_abort_preserves_wf, lemma_close_preserves_wf, lemma_empty_engine_is_wf,
    lemma_packet_preserves_wf, lemma_timer_preserves_wf, wf,
};
use crate::error::TcpError;
use crate::segment::{ConnectionQuad, Location, Segment};
use crate::table::{ConnectionTable, Table};
use crate::tcp::{SegmentClass, TCPConnection, Tcb};
use crate::timers::{armed, cancelled, due_at, timer_of, Timer, TimerKind, Timers};

verus! {

/// What became of a packet.
#[derive(Clone, Copy, Debug, PartialEq, Eq, Structural)]
pub enum Fate {
    /// It carried no TCP segment and was discarded.
    Dropped(DecodeError),
    /// Its segment belongs to no connection and opens none.
    Refused(TcpError),
    /// Its segment reached a connection, or opened one, and was classified.
    Routed(SegmentClass),
}

/// What handling one packet came to.
#[derive(Debug)]
pub struct Handled {
    /// What became of the packet.
    pub fate: Fate,
    /// The quad of the packet's segment, where it carried one.
    pub quad: Option<ConnectionQuad>,
    /// The payload octets that go to the application.
    pub delivered: Vec<u8>,
    /// The packets to write, in order.
    pub outbound: Vec<Vec<u8>>,
}

/// What becomes of the packet `s` at the table `t`.
pub open spec fn fate_of(t: Table, s: Seq<u8>) -> Fate {
    match decoded(s) {
        Err(e) => Fate::Dropped(e),
        Ok(seg) => if t.admits(seg) {
            Fate::Routed(t.class_of(seg))
        } else {
            Fate::Refused(TcpError::NoMatchingConnection)
        },
    }
}

/// The quad of the segment that the packet `s` carries.
pub open spec fn quad_of(s: Seq<u8>) -> Option<ConnectionQuad> {
    match decoded(s) {
        Err(_) => None,
        Ok(seg) => Some(seg.quad),
    }
}

/// The table after the packet `s`.
pub open spec fn table_after(t: Table, s: Seq<u8>) -> Table {
    match decoded(s) {
        Err(_) => t,
        Ok(seg) => t.after_segment(seg),
    }
}

/// The segments sent in answer to the packet `s`.
pub open spec fn replies_to(t: Table, s: Seq<u8>) -> Seq<Segment> {
    match decoded(s) {
        Err(_) => Seq::empty(),
        Ok(seg) => t.replies_to(seg),
    }
}

/// The payload octets of the packet `s` that go to the application: all
/// of them where the segment's data is taken, none otherwise.
pub open spec fn delivered_from(t: Table, s: Seq<u8>) -> Seq<u8> {
    match decoded(s) {
        Err(_) => Seq::empty(),
        Ok(seg) => if t.delivered_from(seg) > 0 {
            s.subrange(payload_offset(s), s.len() as int)
        } else {
            Seq::empty()
        },
    }
}

/// Writes each segment as a packet without payload.
pub fn encode_replies(replies: &Vec<Segment>) -> (packets: Vec<Vec<u8>>)
    ensures
        packets@.len() == replies@.len(),
        forall|i: int|
            0 <= i < replies@.len() ==> (#[trigger] packets@[i])@ == encoded(
                replies@[i],
                Seq::empty(),
            ),
{
    let mut packets: Vec<Vec<u8>> = Vec::new();
    let nothing: Vec<u8> = Vec::new();
    let mut i: usize = 0;
    while i < replies.len()
        invariant
            i <= replies@.len(),
            nothing@ == Seq::<u8>::empty(),
            packets@.len() == i,
            forall|j: int|
                0 <= j < i ==> (#[trigger] packets@[j])@ == encoded(replies@[j], Seq::empty()),
        decreases replies@.len() - i,
    {
        if let Some(packet) = encode_segment(&replies[i], nothing.as_slice()) {
            packets.push(packet);
        }
        i += 1;
    }
    packets
}

/// Handles one packet read from the interface.
///
/// A packet that carries no TCP segment is dropped and changes nothing.
/// Otherwise its segment is routed by the table: it is refused where it
/// belongs to no connection and opens none; else the table is brought up
/// to date, the payload is handed out where the segment's data is taken,
/// and every segment sent in answer is written as a packet, in order.
pub fn handle_packet(table: &mut ConnectionTable, packet: &[u8]) -> (r: Handled)
    ensures
        final(table)@ == table_after(old(table)@, packet@),
        r.fate == fate_of(old(table)@, packet@),
        r.quad == quad_of(packet@),
        r.delivered@ == delivered_from(old(table)@, packet@),
        r.outbound@.len() == replies_to(old(table)@, packet@).len(),
        forall|i: int|
            0 <= i < r.outbound@.len() ==> (#[trigger] r.outbound@[i])@ == encoded(
                replies_to(old(table)@, packet@)[i],
                Seq::empty(),
            ),
        old(table)@.wf() ==> final(table)@.wf(),
        decoded(packet@).is_err() ==> final(table)@ == old(table)@ && r.outbound@.len() == 0
            && r.delivered@.len() == 0,
{
    let (segment, offset) = match decode_segment(packet) {
        Ok(found) => found,
        Err(e) => {
            return Handled {
                fate: Fate::Dropped(e),
                quad: None,
                delivered: Vec::new(),
                outbound: Vec::new(),
            };
        },
    };
    match table.deliver(&segment) {
        Err(e) => Handled {
            fate: Fate::Refused(e),
            quad: Some(segment.quad),
            delivered: Vec::new(),
            outbound: Vec::new(),
        },
        Ok(processed) => {
            let delivered = if processed.delivered > 0 {
                slice_to_vec(slice_subrange(packet, offset, packet.len()))
            } else {
                Vec::new()
            };
            let outbound = encode_replies(&processed.replies);
            Handled {
                fate: Fate::Routed(processed.class),
                quad: Some(segment.quad),
                delivered,
                outbound,
            }
        },
    }
}

/// The mathematical content of an engine: its connections and their
/// pending timers.
pub struct EngineState {
    pub table: Table,
    pub timers: Seq<Timer>,
}

impl EngineState {
    /// The timer that `quad` needs: that of its control block, none where
    /// it has no control block.
    pub open spec fn timer_needed(self, quad: ConnectionQuad) -> Option<TimerKind> {
        if self.table.connections.contains_key(quad) {
            self.table.connections[quad].timer_needed()
        } else {
            None
        }
    }

    /// The engine with the timers of `quad` brought in line with its
    /// control block at `now`: the timer it needs is pending, and no
    /// other.
    pub open spec fn settled(self, quad: ConnectionQuad, now: u64) -> EngineState {
        EngineState {
            table: self.table,
            timers: match self.timer_needed(quad) {
                Some(kind) => armed(self.timers, quad, kind, now),
                None => cancelled(self.timers, quad),
            },
        }
    }

    /// The engine after the packet `s`, read at `now`.
    pub open spec fn after_packet(self, s: Seq<u8>, now: u64) -> EngineState {
        match decoded(s) {
            Err(_) => self,
            Ok(seg) => (EngineState { table: self.table.after_segment(seg), ..self }).settled(
                seg.quad,
                now,
            ),
        }
    }

    /// The engine after a local close of `quad` at `now`.
    pub open spec fn after_close(self, quad: ConnectionQuad, now: u64) -> EngineState {
        (EngineState { table: self.table.after_close(quad), ..self }).settled(quad, now)
    }

    /// The engine after an abort of `quad`.
    pub open spec fn after_abort(self, quad: ConnectionQuad) -> EngineState {
        EngineState {
            table: self.table.after_abort(quad),
            timers: cancelled(self.timers, quad),
        }
    }

    /// Whether the timer of `quad` fires at `now`: one is pending and has
    /// reached its deadline.
    pub open spec fn fires(self, quad: ConnectionQuad, now: u64) -> bool {
        timer_of(self.timers, quad).is_some() && timer_of(self.timers, quad)->Some_0.deadline
            <= now
    }

    /// The engine after the timer of `quad` has been given its chance at
    /// `now`. A quiet-time timer that fires closes the connection; a
    /// retransmission timer that fires starts anew.
    pub open spec fn after_timer(self, quad: ConnectionQuad, now: u64) -> EngineState {
        if self.fires(quad, now) {
            (EngineState {
                table: if timer_of(self.timers, quad)->Some_0.kind == TimerKind::QuietTime {
                    self.table.after_quiet_time(quad)
                } else {
                    self.table
                },
                timers: cancelled(self.timers, quad),
            }).settled(quad, now)
        } else {
            self
        }
    }

    /// The segments sent when the timer of `quad` is given its chance at
    /// `now`.
    pub open spec fn timer_sends(self, quad: ConnectionQuad, now: u64) -> Seq<Segment> {
        if self.fires(quad, now) && timer_of(self.timers, quad)->Some_0.kind
            == TimerKind::Retransmission {
            self.table.retransmission(quad)
        } else {
            Seq::empty()
        }
    }
}

/// The engine: the connection table and the timers of its connections.
pub struct Engine {
    table: ConnectionTable,
    timers: Timers,
}

impl View for Engine {
    type V = EngineState;

    closed spec fn view(&self) -> EngineState {
        EngineState { table: self.table@, timers: self.timers@ }
    }
}

impl Engine {
    /// An engine without connections or timers that listens on nothing.
    /// `iss_seed` is the initial send sequence number of its first
    /// connection.
    pub fn new(iss_seed: u32) -> (r: Engine)
        ensures
            r@.table.connections == Map::<ConnectionQuad, Tcb>::empty(),
            r@.table.listeners == Seq::<Location>::empty(),
            !r@.table.accept_any,
            r@.table.next_iss == iss_seed,
            r@.timers == Seq::<Timer>::empty(),
            wf(r@),
    {
        let r = Engine { table: ConnectionTable::new(iss_seed), timers: Timers::new() };
        proof {
            lemma_empty_engine_is_wf(r@);
        }
        r
    }

    /// Starts listening on `endpoint`.
    pub fn listen(&mut self, endpoint: Location)
        ensures
            final(self)@ == (EngineState {
                table: Table {
                    listeners: old(self)@.table.listeners.push(endpoint),
                    ..old(self)@.table
                },
                ..old(self)@
            }),
            final(self)@.table.listens_on(endpoint),
            wf(old(self)@) ==> wf(final(self)@),
    {
        self.table.listen(endpoint);
        proof {
            if wf(old(self)@) {
                assert forall|q: ConnectionQuad| #[trigger] in_line(self@, q) by {
                    assert(in_line(old(self)@, q));
                }
            }
        }
    }

    /// Starts listening on every endpoint.
    pub fn listen_on_any(&mut self)
        ensures
            final(self)@ == (EngineState {
                table: Table { accept_any: true, ..old(self)@.table },
                ..old(self)@
            }),
            wf(old(self)@) ==> wf(final(self)@),
    {
        self.table.listen_on_any();
        proof {
            if wf(old(self)@) {
                assert forall|q: ConnectionQuad| #[trigger] in_line(self@, q) by {
                    assert(in_line(old(self)@, q));
                }
            }
        }
    }

    /// The control block of `quad`, if it has one.
    pub fn connection(&self, quad: &ConnectionQuad) -> (r: Option<TCPConnection>)
        ensures
            r.is_some() == self@.table.connections.contains_key(*quad),
            r matches Some(c) ==> c@ == self@.table.connections[*quad],
    {
        self.table.get(quad)
    }

    /// The timer pending for `quad`, if there is one.
    pub fn timer(&self, quad: &ConnectionQuad) -> (r: Option<Timer>)
        ensures
            r == timer_of(self@.timers, *quad),
    {
        self.timers.get(quad)
    }

    /// Brings the timers of `quad` in line with its control block.
    fn settle(&mut self, quad: &ConnectionQuad, now: u64)
        ensures
            final(self)@ == old(self)@.settled(*quad, now),
    {
        let needed = match self.table.get(quad) {
            Some(connection) => connection.timer_needed(),
            None => None,
        };
        match needed {
            Some(kind) => self.timers.arm(quad, kind, now),
            None => self.timers.cancel(quad),
        }
    }

    /// Handles one packet read from the interface at `now`.
    ///
    /// The packet is handled as `handle_packet` says, and the timers of
    /// its connection are brought in line with the connection's new
    /// state. A packet that carries no segment changes nothing.
    pub fn handle_packet(&mut self, packet: &[u8], now: u64) -> (r: Handled)
        ensures
            final(self)@ == old(self)@.after_packet(packet@, now),
            r.fate == fate_of(old(self)@.table, packet@),
            r.quad == quad_of(packet@),
            r.delivered@ == delivered_from(old(self)@.table, packet@),
            r.outbound@.len() == replies_to(old(self)@.table, packet@).len(),
            forall|i: int|
                0 <= i < r.outbound@.len() ==> (#[trigger] r.outbound@[i])@ == encoded(
                    replies_to(old(self)@.table, packet@)[i],
                    Seq::empty(),
                ),
            wf(old(self)@) ==> wf(final(self)@),
    {
        let handled = handle_packet(&mut self.table, packet);
        if let Some(quad) = handled.quad {
            self.settle(&quad, now);
        }
        proof {
            if wf(old(self)@) {
                lemma_packet_preserves_wf(old(self)@, packet@, now);
            }
        }
        handled
    }

    /// Local close of the connection `quad` at `now`: the packets to
    /// write, which carry its FIN where none was sent yet.
    pub fn close(&mut self, quad: &ConnectionQuad, now: u64) -> (packets: Vec<Vec<u8>>)
        ensures
            final(self)@ == old(self)@.after_close(*quad, now),
            packets@.len() == old(self)@.table.close_sends(*quad).len(),
            forall|i: int|
                0 <= i < packets@.len() ==> (#[trigger] packets@[i])@ == encoded(
                    old(self)@.table.close_sends(*quad)[i],
                    Seq::empty(),
                ),
            wf(old(self)@) ==> wf(final(self)@),
    {
        let sent = self.table.close(quad);
        self.settle(quad, now);
        proof {
            if wf(old(self)@) {
                lemma_close_preserves_wf(old(self)@, *quad, now);
            }
        }
        encode_replies(&sent)
    }

    /// Abort of the connection `quad`: its timers are cancelled and its
    /// control block leaves the table. Returns whether there was one.
    pub fn abort(&mut self, quad: &ConnectionQuad) -> (r: bool)
        ensures
            r == old(self)@.table.connections.contains_key(*quad),
            final(self)@ == old(self)@.after_abort(*quad),
            wf(old(self)@) ==> wf(final(self)@),
    {
        proof {
            if wf(old(self)@) {
                lemma_abort_preserves_wf(old(self)@, *quad);
            }
        }
        self.timers.cancel(quad);
        self.table.abort(quad)
    }

    /// The timers that have reached their deadline at `now`, in the order
    /// in which they were started.
    pub fn due(&self, now: u64) -> (r: Vec<Timer>)
        ensures
            r@ == due_at(self@.timers, now),
    {
        self.timers.due(now)
    }

    /// The earliest deadline among the pending timers.
    pub fn next_deadline(&self) -> (r: Option<u64>)
        ensures
            r.is_none() <==> self@.timers.len() == 0,
            r matches Some(d) ==> {
                &&& exists|i: int| 0 <= i < self@.timers.len() && self@.timers[i].deadline == d
                &&& forall|i: int| 0 <= i < self@.timers.len() ==> d <= self@.timers[i].deadline
            },
    {
        self.timers.next_deadline()
    }

    /// Gives the timer of `quad` its chance at `now`: the packets to
    /// write.
    ///
    /// Where a timer is pending for `quad` and has reached its deadline,
    /// it fires. A quiet-time timer closes a connection in `TimeWait`,
    /// which leaves the table. A retransmission timer sends again what is
    /// unacknowledged and starts anew. Otherwise nothing happens.
    pub fn fire(&mut self, quad: &ConnectionQuad, now: u64) -> (packets: Vec<Vec<u8>>)
        ensures
            final(self)@ == old(self)@.after_timer(*quad, now),
            packets@.len() == old(self)@.timer_sends(*quad, now).len(),
            forall|i: int|
                0 <= i < packets@.len() ==> (#[trigger] packets@[i])@ == encoded(
                    old(self)@.timer_sends(*quad, now)[i],
                    Seq::empty(),
                ),
            wf(old(self)@) ==> wf(final(self)@),
    {
        proof {
            if wf(old(self)@) {
                lemma_timer_preserves_wf(old(self)@, *quad, now);
            }
        }
        let timer = match self.timers.get(quad) {
            Some(timer) => timer,
            None => {
                return Vec::new();
            },
        };
        if timer.deadline > now {
            return Vec::new();
        }
        let sent = match timer.kind {
            TimerKind::QuietTime => {
                self.table.quiet_time_elapsed(quad);
                Vec::new()
            },
            TimerKind::Retransmission => self.table.retransmit(quad),
        };
        self.timers.cancel(quad);
        self.settle(quad, now);
        encode_replies(&sent)
    }
}

} // verus!
