//! The transmission control block: the record a connection keeps, and the
//! rules by which arriving segments, a local close, an abort and its timers
//! move it from state to state.

use vstd::prelude::*;
use crate::error::TcpError;
use crate::segment::{ConnectionQuad, Segment};
use crate::seq_arith::{
    add_wrapping, advance, distance, in_closed_range, in_window, less_or_equal, less_than,
    spec_in_closed_range, spec_in_window, spec_less_or_equal, spec_less_than, sub_wrapping,
};
use crate::timers::TimerKind;

verus! {

/// Send window a new connection starts with, until the peer's first
/// acknowledgment announces the real one.
pub const DEFAULT_SEND_WINDOW: u16 = 1024;

/// The states of a connection.
///
/// This engine only opens connections passively, so `Listen` and `SYNSent`
/// are never held by a control block; they are here so that the set of
/// states is the protocol's own.
#[derive(Clone, Copy, Debug, PartialEq, Eq, Structural)]
pub enum TCPConnectionState {
    Closed,
    Listen,
    SYNSent,
    SYNReceived,
    Established,
    FinWait1,
    FinWait2,
    CloseWait,
    Closing,
    LastAck,
    TimeWait,
}

impl Default for TCPConnectionState {
    fn default() -> (r: TCPConnectionState)
        ensures
            r == TCPConnectionState::Closed,
    {
        TCPConnectionState::Closed
    }
}

impl TCPConnectionState {
    /// States in which the peer has not yet sent its FIN, so that arriving
    /// data is taken.
    pub open spec fn spec_takes_data(self) -> bool {
        self == TCPConnectionState::Established || self == TCPConnectionState::FinWait1 || self
            == TCPConnectionState::FinWait2
    }

    /// States of a connection whose handshake is complete and that is not
    /// yet closed.
    pub open spec fn spec_is_synchronized(self) -> bool {
        self.spec_takes_data() || self == TCPConnectionState::CloseWait || self
            == TCPConnectionState::Closing || self == TCPConnectionState::LastAck || self
            == TCPConnectionState::TimeWait
    }

    /// States in which this side has not sent its FIN yet, so that a local
    /// close sends one.
    pub open spec fn spec_can_close(self) -> bool {
        self == TCPConnectionState::SYNReceived || self == TCPConnectionState::Established || self
            == TCPConnectionState::CloseWait
    }

    /// How far a connection in this state has come, for comparing two
    /// states of one connection: no event ever lowers it.
    pub open spec fn spec_progress(self) -> int {
        match self {
            TCPConnectionState::Listen => 0,
            TCPConnectionState::SYNSent => 1,
            TCPConnectionState::SYNReceived => 2,
            TCPConnectionState::Established => 3,
            TCPConnectionState::FinWait1 => 4,
            TCPConnectionState::CloseWait => 4,
            TCPConnectionState::FinWait2 => 5,
            TCPConnectionState::Closing => 5,
            TCPConnectionState::LastAck => 5,
            TCPConnectionState::TimeWait => 6,
            TCPConnectionState::Closed => 7,
        }
    }

    /// Whether arriving data is taken in this state.
    pub fn takes_data(&self) -> (r: bool)
        ensures
            r == self.spec_takes_data(),
    {
        match self {
            TCPConnectionState::Established
            | TCPConnectionState::FinWait1
            | TCPConnectionState::FinWait2 => true,
            _ => false,
        }
    }

    /// Whether the handshake is complete and the connection not yet closed.
    pub fn is_synchronized(&self) -> (r: bool)
        ensures
            r == self.spec_is_synchronized(),
    {
        match self {
            TCPConnectionState::Established
            | TCPConnectionState::FinWait1
            | TCPConnectionState::FinWait2
            | TCPConnectionState::CloseWait
            | TCPConnectionState::Closing
            | TCPConnectionState::LastAck
            | TCPConnectionState::TimeWait => true,
            _ => false,
        }
    }

    /// Whether a local close sends a FIN from this state.
    pub fn can_close(&self) -> (r: bool)
        ensures
            r == self.spec_can_close(),
    {
        match self {
            TCPConnectionState::SYNReceived
            | TCPConnectionState::Established
            | TCPConnectionState::CloseWait => true,
            _ => false,
        }
    }
}

/// What a connection remembers about the stream it receives.
#[derive(Clone, Copy, Debug, PartialEq, Eq, Structural)]
pub struct ReceiveSequenceVariables {
    /// Next sequence number expected from the peer: the left edge of the
    /// receive window.
    pub next: u32,
    /// Size of the receive window.
    pub window: u16,
    /// Whether urgent data is pending.
    pub urgent_pointer: bool,
    /// Sequence number of the peer's SYN.
    pub initial: u32,
}

/// What a connection remembers about the stream it sends.
#[derive(Clone, Copy, Debug, PartialEq, Eq, Structural)]
pub struct SendSequenceVariables {
    /// Oldest sequence number sent and not yet acknowledged.
    pub oldest_unacknowledged: u32,
    /// Next sequence number to send.
    pub next: u32,
    /// The peer's receive window, as last announced.
    pub window: u16,
    /// Whether urgent data is being sent.
    pub urgent_pointer: bool,
    /// Sequence number of the segment that last set the window.
    pub last_window_update_seq: u32,
    /// Acknowledgment number of the segment that last set the window.
    pub last_window_update_ack: u32,
    /// Sequence number of this side's SYN.
    pub initial: u32,
}

/// Where an arriving segment stands relative to the receive window.
#[derive(Clone, Copy, Debug, PartialEq, Eq, Structural)]
pub enum SegmentClass {
    /// Inside the window: taken.
    AcceptedInOrder,
    /// Before the window: already received, acknowledged again.
    AcceptedDuplicate,
    /// Beyond the window, or not acceptable in the current state: dropped
    /// without an answer.
    RejectedOutOfWindow,
}

/// The mathematical content of a control block.
pub struct Tcb {
    pub state: TCPConnectionState,
    pub receive: ReceiveSequenceVariables,
    pub send: SendSequenceVariables,
}

/// The segment sent in answer on connection `quad` (named as inbound
/// segments name it) with the given flags, taking every number from `t`.
pub open spec fn outbound(t: Tcb, quad: ConnectionQuad, seq: u32, syn: bool, fin: bool) -> Segment {
    Segment {
        quad: quad.spec_reversed(),
        sequence_number: seq,
        acknowledgment_number: t.receive.next,
        syn,
        ack: true,
        fin,
        window_size: t.receive.window,
        payload_len: 0,
    }
}

impl Tcb {
    /// The control block that a valid opening SYN creates, given the
    /// initial send sequence number chosen for it.
    pub open spec fn opened_by(syn: Segment, iss: u32) -> Tcb {
        Tcb {
            state: TCPConnectionState::SYNReceived,
            receive: ReceiveSequenceVariables {
                next: advance(syn.sequence_number, 1),
                window: syn.window_size,
                urgent_pointer: false,
                initial: syn.sequence_number,
            },
            send: SendSequenceVariables {
                oldest_unacknowledged: iss,
                next: advance(iss, 1),
                window: DEFAULT_SEND_WINDOW,
                urgent_pointer: false,
                last_window_update_seq: iss,
                last_window_update_ack: iss,
                initial: iss,
            },
        }
    }

    /// The SYN+ACK that answers the peer's SYN.
    pub open spec fn syn_ack(self, quad: ConnectionQuad) -> Segment {
        outbound(self, quad, self.send.initial, true, false)
    }

    /// A bare acknowledgment of everything received so far.
    pub open spec fn ack_reply(self, quad: ConnectionQuad) -> Segment {
        outbound(self, quad, self.send.next, false, false)
    }

    /// The invariant of every control block: what is unacknowledged never
    /// runs ahead of what was sent. The only octets this engine sends are
    /// its SYN and its FIN, so at most one number is outstanding before the
    /// FIN and at most two after.
    pub open spec fn wf(self) -> bool {
        let outstanding = distance(self.send.oldest_unacknowledged, self.send.next);
        if self.state.spec_can_close() {
            outstanding <= 1
        } else {
            outstanding <= 2
        }
    }

    /// Where `seg` stands relative to the receive window.
    pub open spec fn window_class(self, seg: Segment) -> SegmentClass {
        if spec_in_window(seg.sequence_number, self.receive.next, self.receive.window as u32) {
            SegmentClass::AcceptedInOrder
        } else if spec_less_than(seg.sequence_number, self.receive.next) {
            SegmentClass::AcceptedDuplicate
        } else {
            SegmentClass::RejectedOutOfWindow
        }
    }

    /// `seg` acknowledges something between the oldest unacknowledged
    /// number and the next number to send, both included.
    pub open spec fn acks_in_range(self, seg: Segment) -> bool {
        seg.ack && spec_in_closed_range(
            self.send.oldest_unacknowledged,
            seg.acknowledgment_number,
            self.send.next,
        )
    }

    /// `seg` is the peer's opening SYN once more.
    pub open spec fn repeats_syn(self, seg: Segment) -> bool {
        seg.spec_is_opening_syn() && seg.sequence_number == self.receive.initial
    }

    /// `seg` is newer than the segment that last set the window: its
    /// sequence number is later, or the same with a later acknowledgment.
    pub open spec fn window_is_fresh(self, seg: Segment) -> bool {
        spec_less_than(self.send.last_window_update_seq, seg.sequence_number) || (
        spec_less_or_equal(self.send.last_window_update_seq, seg.sequence_number)
            && spec_less_than(self.send.last_window_update_ack, seg.acknowledgment_number))
    }

    /// The oldest unacknowledged number after `seg` has been seen.
    pub open spec fn acknowledged_by(self, seg: Segment) -> u32 {
        if self.acks_in_range(seg) {
            seg.acknowledgment_number
        } else {
            self.send.oldest_unacknowledged
        }
    }

    /// How many sequence numbers of `seg` are taken: its data and FIN while
    /// the peer's stream is still open, nothing afterwards.
    pub open spec fn consumed_from(self, seg: Segment) -> int {
        if self.state.spec_takes_data() {
            seg.spec_data_span()
        } else {
            0
        }
    }

    /// The state after an in-window segment, given whether it carried the
    /// peer's FIN and whether this side's FIN is now acknowledged.
    pub open spec fn state_after(
        state: TCPConnectionState,
        peer_fin: bool,
        fin_acked: bool,
    ) -> TCPConnectionState {
        match state {
            TCPConnectionState::Established => if peer_fin {
                TCPConnectionState::CloseWait
            } else {
                TCPConnectionState::Established
            },
            TCPConnectionState::FinWait1 => if peer_fin && fin_acked {
                TCPConnectionState::TimeWait
            } else if peer_fin {
                TCPConnectionState::Closing
            } else if fin_acked {
                TCPConnectionState::FinWait2
            } else {
                TCPConnectionState::FinWait1
            },
            TCPConnectionState::FinWait2 => if peer_fin {
                TCPConnectionState::TimeWait
            } else {
                TCPConnectionState::FinWait2
            },
            TCPConnectionState::Closing => if fin_acked {
                TCPConnectionState::TimeWait
            } else {
                TCPConnectionState::Closing
            },
            TCPConnectionState::LastAck => if fin_acked {
                TCPConnectionState::Closed
            } else {
                TCPConnectionState::LastAck
            },
            other => other,
        }
    }

    /// The control block after the handshake's last acknowledgment: the
    /// connection is established, and the peer's window is recorded
    /// together with the segment that announced it.
    pub open spec fn established_by(self, seg: Segment) -> Tcb {
        Tcb {
            state: TCPConnectionState::Established,
            receive: self.receive,
            send: SendSequenceVariables {
                oldest_unacknowledged: seg.acknowledgment_number,
                window: seg.window_size,
                last_window_update_seq: seg.sequence_number,
                last_window_update_ack: seg.acknowledgment_number,
                ..self.send
            },
        }
    }

    /// The control block after a segment inside the receive window, in a
    /// synchronized state.
    pub open spec fn taken(self, seg: Segment) -> Tcb {
        let fresh = self.window_is_fresh(seg);
        let una = self.acknowledged_by(seg);
        Tcb {
            state: Tcb::state_after(
                self.state,
                self.state.spec_takes_data() && seg.fin,
                una == self.send.next,
            ),
            receive: ReceiveSequenceVariables {
                next: advance(self.receive.next, self.consumed_from(seg)),
                window: if fresh {
                    seg.window_size
                } else {
                    self.receive.window
                },
                ..self.receive
            },
            send: SendSequenceVariables {
                oldest_unacknowledged: una,
                window: if fresh {
                    seg.window_size
                } else {
                    self.send.window
                },
                last_window_update_seq: if fresh {
                    seg.sequence_number
                } else {
                    self.send.last_window_update_seq
                },
                last_window_update_ack: if fresh {
                    seg.acknowledgment_number
                } else {
                    self.send.last_window_update_ack
                },
                ..self.send
            },
        }
    }

    /// How an arriving segment is classified.
    pub open spec fn class_of(self, seg: Segment) -> SegmentClass {
        if self.state == TCPConnectionState::SYNReceived {
            if self.acks_in_range(seg) {
                SegmentClass::AcceptedInOrder
            } else if self.repeats_syn(seg) {
                SegmentClass::AcceptedDuplicate
            } else {
                SegmentClass::RejectedOutOfWindow
            }
        } else if self.state.spec_is_synchronized() {
            self.window_class(seg)
        } else {
            SegmentClass::RejectedOutOfWindow
        }
    }

    /// The control block after an arriving segment.
    pub open spec fn after(self, seg: Segment) -> Tcb {
        if self.class_of(seg) != SegmentClass::AcceptedInOrder {
            self
        } else if self.state == TCPConnectionState::SYNReceived {
            self.established_by(seg)
        } else {
            self.taken(seg)
        }
    }

    /// How many octets of the segment's payload are handed to the
    /// application.
    pub open spec fn delivered_from(self, seg: Segment) -> int {
        if self.class_of(seg) == SegmentClass::AcceptedInOrder && self.state.spec_takes_data() {
            seg.payload_len as int
        } else {
            0
        }
    }

    /// The segments sent in answer to an arriving segment.
    pub open spec fn replies_to(self, seg: Segment) -> Seq<Segment> {
        match self.class_of(seg) {
            SegmentClass::RejectedOutOfWindow => Seq::empty(),
            SegmentClass::AcceptedDuplicate => if self.state == TCPConnectionState::SYNReceived {
                seq![self.syn_ack(seg.quad)]
            } else {
                seq![self.ack_reply(seg.quad)]
            },
            SegmentClass::AcceptedInOrder => if self.state.spec_takes_data() {
                seq![self.after(seg).ack_reply(seg.quad)]
            } else {
                Seq::empty()
            },
        }
    }

    /// The control block after a local close.
    pub open spec fn after_close(self) -> Tcb {
        if self.state.spec_can_close() {
            Tcb {
                state: if self.state == TCPConnectionState::CloseWait {
                    TCPConnectionState::LastAck
                } else {
                    TCPConnectionState::FinWait1
                },
                receive: self.receive,
                send: SendSequenceVariables { next: advance(self.send.next, 1), ..self.send },
            }
        } else {
            self
        }
    }

    /// The segments a local close sends: one FIN where the connection can
    /// still be closed, nothing otherwise.
    pub open spec fn close_sends(self, quad: ConnectionQuad) -> Seq<Segment> {
        if self.state.spec_can_close() {
            seq![outbound(self, quad, self.send.next, false, true)]
        } else {
            Seq::empty()
        }
    }

    /// The control block after the quiet-time timer has fired.
    pub open spec fn after_quiet_time(self) -> Tcb {
        if self.state == TCPConnectionState::TimeWait {
            Tcb { state: TCPConnectionState::Closed, ..self }
        } else {
            self
        }
    }

    /// Whether this side's FIN was sent and is not acknowledged yet.
    pub open spec fn fin_is_outstanding(self) -> bool {
        (self.state == TCPConnectionState::FinWait1 || self.state == TCPConnectionState::Closing
            || self.state == TCPConnectionState::LastAck) && self.send.oldest_unacknowledged
            != self.send.next
    }

    /// The segments sent again when the retransmission timer fires: the
    /// SYN+ACK while the handshake is open, the FIN while it is
    /// unacknowledged, nothing otherwise.
    pub open spec fn retransmission(self, quad: ConnectionQuad) -> Seq<Segment> {
        if self.state == TCPConnectionState::SYNReceived {
            seq![self.syn_ack(quad)]
        } else if self.fin_is_outstanding() {
            seq![outbound(self, quad, advance(self.send.next, -1), false, true)]
        } else {
            Seq::empty()
        }
    }

    /// The timer a connection needs: the quiet-time timer in `TimeWait`,
    /// the retransmission timer while its SYN+ACK or its FIN may have to
    /// be sent again, none otherwise.
    pub open spec fn timer_needed(self) -> Option<TimerKind> {
        if self.state == TCPConnectionState::TimeWait {
            Some(TimerKind::QuietTime)
        } else if self.state == TCPConnectionState::SYNReceived || self.fin_is_outstanding() {
            Some(TimerKind::Retransmission)
        } else {
            None
        }
    }

    /// The control block after an abort: closed, whatever its state was.
    pub open spec fn after_abort(self) -> Tcb {
        Tcb { state: TCPConnectionState::Closed, ..self }
    }
}

/// What processing one arriving segment came to.
#[derive(Debug)]
pub struct Processed {
    /// How the segment was classified.
    pub class: SegmentClass,
    /// How many octets of its payload go to the application.
    pub delivered: u16,
    /// The segments to send in answer, in order.
    pub replies: Vec<Segment>,
}

/// A transmission control block: the state of one connection.
#[derive(Clone, Copy, Debug)]
pub struct TCPConnection {
    state: TCPConnectionState,
    receive: ReceiveSequenceVariables,
    send: SendSequenceVariables,
}

impl View for TCPConnection {
    type V = Tcb;

    closed spec fn view(&self) -> Tcb {
        Tcb { state: self.state, receive: self.receive, send: self.send }
    }
}

fn state_after(state: TCPConnectionState, peer_fin: bool, fin_acked: bool) -> (r:
    TCPConnectionState)
    ensures
        r == Tcb::state_after(state, peer_fin, fin_acked),
{
    match state {
        TCPConnectionState::Established => if peer_fin {
            TCPConnectionState::CloseWait
        } else {
            TCPConnectionState::Established
        },
        TCPConnectionState::FinWait1 => if peer_fin && fin_acked {
            TCPConnectionState::TimeWait
        } else if peer_fin {
            TCPConnectionState::Closing
        } else if fin_acked {
            TCPConnectionState::FinWait2
        } else {
            TCPConnectionState::FinWait1
        },
        TCPConnectionState::FinWait2 => if peer_fin {
            TCPConnectionState::TimeWait
        } else {
            TCPConnectionState::FinWait2
        },
        TCPConnectionState::Closing => if fin_acked {
            TCPConnectionState::TimeWait
        } else {
            TCPConnectionState::Closing
        },
        TCPConnectionState::LastAck => if fin_acked {
            TCPConnectionState::Closed
        } else {
            TCPConnectionState::LastAck
        },
        other => other,
    }
}

impl TCPConnection {
    #[verifier::type_invariant]
    spec fn inv(self) -> bool {
        self@.wf()
    }

    /// The connection's state.
    pub fn state(&self) -> (r: TCPConnectionState)
        ensures
            r == self@.state,
    {
        self.state
    }

    /// The receive sequence variables.
    pub fn receive_variables(&self) -> (r: ReceiveSequenceVariables)
        ensures
            r == self@.receive,
    {
        self.receive
    }

    /// The send sequence variables.
    pub fn send_variables(&self) -> (r: SendSequenceVariables)
        ensures
            r == self@.send,
            self@.wf(),
            spec_less_or_equal(r.oldest_unacknowledged, r.next),
    {
        proof {
            use_type_invariant(self);
        }
        self.send
    }

    fn outbound(&self, quad: ConnectionQuad, seq: u32, syn: bool, fin: bool) -> (r: Segment)
        ensures
            r == outbound(self@, quad, seq, syn, fin),
    {
        Segment {
            quad: quad.reversed(),
            sequence_number: seq,
            acknowledgment_number: self.receive.next,
            syn,
            ack: true,
            fin,
            window_size: self.receive.window,
            payload_len: 0,
        }
    }

    /// Passive open: answers the peer's SYN.
    ///
    /// A SYN without ACK creates a control block in `SYNReceived` that has
    /// taken the SYN's sequence number, and the SYN+ACK to send back, which
    /// carries `iss` and acknowledges the number after the peer's. Any
    /// other segment is refused and creates nothing.
    pub fn accept(segment: &Segment, iss: u32) -> (r: Result<(TCPConnection, Segment), TcpError>)
        ensures
            segment.spec_is_opening_syn() ==> r.is_ok(),
            !segment.spec_is_opening_syn() ==> r == Err::<(TCPConnection, Segment), TcpError>(
                TcpError::HandshakeIncomplete,
            ),
            r matches Ok((connection, reply)) ==> {
                &&& connection@ == Tcb::opened_by(*segment, iss)
                &&& connection@.wf()
                &&& connection@.state == TCPConnectionState::SYNReceived
                &&& reply == connection@.syn_ack(segment.quad)
                &&& reply.syn && reply.ack && !reply.fin
                &&& reply.sequence_number == iss
                &&& reply.acknowledgment_number == advance(segment.sequence_number, 1)
                &&& reply.window_size == segment.window_size
                &&& reply.quad == segment.quad.spec_reversed()
            },
    {
        if !segment.is_opening_syn() {
            return Err(TcpError::HandshakeIncomplete);
        }
        let connection = TCPConnection {
            state: TCPConnectionState::SYNReceived,
            receive: ReceiveSequenceVariables {
                next: add_wrapping(segment.sequence_number, 1),
                window: segment.window_size,
                urgent_pointer: false,
                initial: segment.sequence_number,
            },
            send: SendSequenceVariables {
                oldest_unacknowledged: iss,
                next: add_wrapping(iss, 1),
                window: DEFAULT_SEND_WINDOW,
                urgent_pointer: false,
                last_window_update_seq: iss,
                last_window_update_ack: iss,
                initial: iss,
            },
        };
        let reply = connection.outbound(segment.quad, iss, true, false);
        Ok((connection, reply))
    }

    fn window_class(&self, segment: &Segment) -> (r: SegmentClass)
        ensures
            r == self@.window_class(*segment),
    {
        if in_window(segment.sequence_number, self.receive.next, self.receive.window as u32) {
            SegmentClass::AcceptedInOrder
        } else if less_than(segment.sequence_number, self.receive.next) {
            SegmentClass::AcceptedDuplicate
        } else {
            SegmentClass::RejectedOutOfWindow
        }
    }

    fn acks_in_range(&self, segment: &Segment) -> (r: bool)
        ensures
            r == self@.acks_in_range(*segment),
    {
        segment.ack && in_closed_range(
            self.send.oldest_unacknowledged,
            segment.acknowledgment_number,
            self.send.next,
        )
    }

    fn window_is_fresh(&self, segment: &Segment) -> (r: bool)
        ensures
            r == self@.window_is_fresh(*segment),
    {
        less_than(self.send.last_window_update_seq, segment.sequence_number) || (less_or_equal(
            self.send.last_window_update_seq,
            segment.sequence_number,
        ) && less_than(self.send.last_window_update_ack, segment.acknowledgment_number))
    }

    /// Handles the handshake's last step.
    fn process_in_syn_received(&mut self, segment: &Segment) -> (out: Processed)
        requires
            old(self)@.state == TCPConnectionState::SYNReceived,
        ensures
            final(self)@ == old(self)@.after(*segment),
            out.class == old(self)@.class_of(*segment),
            out.delivered == old(self)@.delivered_from(*segment),
            out.replies@ == old(self)@.replies_to(*segment),
    {
        proof {
            use_type_invariant(&*self);
        }
        let mut replies: Vec<Segment> = Vec::new();
        if self.acks_in_range(segment) {
            *self = TCPConnection {
                state: TCPConnectionState::Established,
                receive: self.receive,
                send: SendSequenceVariables {
                    oldest_unacknowledged: segment.acknowledgment_number,
                    next: self.send.next,
                    window: segment.window_size,
                    urgent_pointer: self.send.urgent_pointer,
                    last_window_update_seq: segment.sequence_number,
                    last_window_update_ack: segment.acknowledgment_number,
                    initial: self.send.initial,
                },
            };
            Processed { class: SegmentClass::AcceptedInOrder, delivered: 0, replies }
        } else if segment.is_opening_syn() && segment.sequence_number == self.receive.initial {
            replies.push(self.outbound(segment.quad, self.send.initial, true, false));
            Processed { class: SegmentClass::AcceptedDuplicate, delivered: 0, replies }
        } else {
            Processed { class: SegmentClass::RejectedOutOfWindow, delivered: 0, replies }
        }
    }

    /// Takes a segment that lies inside the receive window.
    fn take(&mut self, segment: &Segment)
        requires
            old(self)@.state.spec_is_synchronized(),
        ensures
            final(self)@ == old(self)@.taken(*segment),
    {
        proof {
            use_type_invariant(&*self);
        }
        let takes_data = self.state.takes_data();
        let fresh = self.window_is_fresh(segment);
        let una = if self.acks_in_range(segment) {
            segment.acknowledgment_number
        } else {
            self.send.oldest_unacknowledged
        };
        let consumed: u32 = if takes_data {
            segment.payload_len as u32 + if segment.fin {
                1u32
            } else {
                0u32
            }
        } else {
            0
        };
        *self = TCPConnection {
            state: state_after(self.state, takes_data && segment.fin, una == self.send.next),
            receive: ReceiveSequenceVariables {
                next: add_wrapping(self.receive.next, consumed),
                window: if fresh {
                    segment.window_size
                } else {
                    self.receive.window
                },
                urgent_pointer: self.receive.urgent_pointer,
                initial: self.receive.initial,
            },
            send: SendSequenceVariables {
                oldest_unacknowledged: una,
                next: self.send.next,
                window: if fresh {
                    segment.window_size
                } else {
                    self.send.window
                },
                urgent_pointer: self.send.urgent_pointer,
                last_window_update_seq: if fresh {
                    segment.sequence_number
                } else {
                    self.send.last_window_update_seq
                },
                last_window_update_ack: if fresh {
                    segment.acknowledgment_number
                } else {
                    self.send.last_window_update_ack
                },
                initial: self.send.initial,
            },
        };
    }

    /// Applies one arriving segment to the connection.
    ///
    /// In `SYNReceived` an acknowledgment between the oldest unacknowledged
    /// and the next send number establishes the connection; the peer's SYN
    /// once more is answered with the SYN+ACK again; anything else is
    /// dropped. Once synchronized, a segment whose sequence number lies in
    /// the receive window is taken and, while the peer's stream is open,
    /// acknowledged; one that lies before the window is acknowledged with
    /// the unchanged next expected number; one beyond it is dropped without
    /// an answer. The connection changes only when the segment is taken.
    pub fn process_segment(&mut self, segment: &Segment) -> (out: Processed)
        ensures
            final(self)@ == old(self)@.after(*segment),
            final(self)@.wf(),
            out.class == old(self)@.class_of(*segment),
            out.delivered == old(self)@.delivered_from(*segment),
            out.replies@ == old(self)@.replies_to(*segment),
            out.class != SegmentClass::AcceptedInOrder ==> final(self)@ == old(self)@,
            out.class == SegmentClass::RejectedOutOfWindow ==> out.replies@.len() == 0,
            out.replies@.len() <= 1,
    {
        proof {
            use_type_invariant(&*self);
        }
        let out = if self.state == TCPConnectionState::SYNReceived {
            self.process_in_syn_received(segment)
        } else if self.state.is_synchronized() {
            let class = self.window_class(segment);
            let takes_data = self.state.takes_data();
            let mut replies: Vec<Segment> = Vec::new();
            match class {
                SegmentClass::RejectedOutOfWindow => Processed { class, delivered: 0, replies },
                SegmentClass::AcceptedDuplicate => {
                    replies.push(self.outbound(segment.quad, self.send.next, false, false));
                    Processed { class, delivered: 0, replies }
                },
                SegmentClass::AcceptedInOrder => {
                    self.take(segment);
                    if takes_data {
                        replies.push(self.outbound(segment.quad, self.send.next, false, false));
                        Processed { class, delivered: segment.payload_len, replies }
                    } else {
                        Processed { class, delivered: 0, replies }
                    }
                },
            }
        } else {
            Processed {
                class: SegmentClass::RejectedOutOfWindow,
                delivered: 0,
                replies: Vec::new(),
            }
        };
        proof {
            use_type_invariant(&*self);
        }
        out
    }

    /// Local close: sends this side's FIN where none was sent yet.
    ///
    /// From `SYNReceived` and `Established` the connection goes to
    /// `FinWait1`, from `CloseWait` to `LastAck`; the FIN takes one
    /// sequence number. In every other state nothing changes and nothing
    /// is sent. `quad` names the connection as inbound segments name it.
    pub fn close(&mut self, quad: ConnectionQuad) -> (sent: Vec<Segment>)
        ensures
            final(self)@ == old(self)@.after_close(),
            final(self)@.wf(),
            sent@ == old(self)@.close_sends(quad),
    {
        proof {
            use_type_invariant(&*self);
        }
        let mut sent: Vec<Segment> = Vec::new();
        if self.state.can_close() {
            sent.push(self.outbound(quad, self.send.next, false, true));
            *self = TCPConnection {
                state: if self.state == TCPConnectionState::CloseWait {
                    TCPConnectionState::LastAck
                } else {
                    TCPConnectionState::FinWait1
                },
                receive: self.receive,
                send: SendSequenceVariables {
                    oldest_unacknowledged: self.send.oldest_unacknowledged,
                    next: add_wrapping(self.send.next, 1),
                    window: self.send.window,
                    urgent_pointer: self.send.urgent_pointer,
                    last_window_update_seq: self.send.last_window_update_seq,
                    last_window_update_ack: self.send.last_window_update_ack,
                    initial: self.send.initial,
                },
            };
        }
        sent
    }

    /// The timer this connection needs now.
    pub fn timer_needed(&self) -> (r: Option<TimerKind>)
        ensures
            r == self@.timer_needed(),
    {
        match self.state {
            TCPConnectionState::TimeWait => Some(TimerKind::QuietTime),
            TCPConnectionState::SYNReceived => Some(TimerKind::Retransmission),
            TCPConnectionState::FinWait1
            | TCPConnectionState::Closing
            | TCPConnectionState::LastAck => if self.send.oldest_unacknowledged
                != self.send.next {
                Some(TimerKind::Retransmission)
            } else {
                None
            },
            _ => None,
        }
    }

    /// The retransmission timer has fired: what is sent again.
    ///
    /// While the handshake is open that is the SYN+ACK; while this side's
    /// FIN is unacknowledged, the FIN, under the sequence number it was
    /// sent with. The connection itself does not change. `quad` names the
    /// connection as inbound segments name it.
    pub fn retransmit(&self, quad: ConnectionQuad) -> (sent: Vec<Segment>)
        ensures
            sent@ == self@.retransmission(quad),
    {
        let mut sent: Vec<Segment> = Vec::new();
        if self.state == TCPConnectionState::SYNReceived {
            sent.push(self.outbound(quad, self.send.initial, true, false));
        } else {
            let after_fin = match self.state {
                TCPConnectionState::FinWait1
                | TCPConnectionState::Closing
                | TCPConnectionState::LastAck => true,
                _ => false,
            };
            if after_fin && self.send.oldest_unacknowledged != self.send.next {
                sent.push(self.outbound(quad, sub_wrapping(self.send.next, 1), false, true));
            }
        }
        sent
    }

    /// Abort: the connection is closed at once, from whatever state.
    pub fn abort(&mut self)
        ensures
            final(self)@ == old(self)@.after_abort(),
            final(self)@.state == TCPConnectionState::Closed,
            final(self)@.wf(),
    {
        proof {
            use_type_invariant(&*self);
        }
        *self = TCPConnection {
            state: TCPConnectionState::Closed,
            receive: self.receive,
            send: self.send,
        };
    }

    /// The quiet-time timer has fired: a connection in `TimeWait` is
    /// closed, any other is left as it is.
    pub fn quiet_time_elapsed(&mut self)
        ensures
            final(self)@ == old(self)@.after_quiet_time(),
            final(self)@.wf(),
    {
        proof {
            use_type_invariant(&*self);
        }
        if self.state == TCPConnectionState::TimeWait {
            *self = TCPConnection {
                state: TCPConnectionState::Closed,
                receive: self.receive,
                send: self.send,
            };
        }
    }
}

} // verus!
