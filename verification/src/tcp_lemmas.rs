//! What holds of every control block, whatever arrives.

use vstd::prelude::*;
use crate::segment::{ConnectionQuad, Segment};
use crate::seq_arith::{
    advance, distance, half_space, spec_in_closed_range, spec_in_window, spec_less_or_equal,
    spec_less_than,
};
use crate::tcp::{SegmentClass, TCPConnectionState, Tcb};

verus! {

/// A well-formed control block never has its oldest unacknowledged number
/// after its next send number.
pub proof fn lemma_unacknowledged_not_after_next(t: Tcb)
    requires
        t.wf(),
    ensures
        spec_less_or_equal(t.send.oldest_unacknowledged, t.send.next),
{
}

/// The control block that a SYN opens is well formed, is in `SYNReceived`,
/// and its SYN+ACK acknowledges the number after the peer's.
pub proof fn lemma_open_yields_syn_received(syn: Segment, iss: u32)
    ensures
        Tcb::opened_by(syn, iss).wf(),
        Tcb::opened_by(syn, iss).state == TCPConnectionState::SYNReceived,
        Tcb::opened_by(syn, iss).syn_ack(syn.quad).acknowledgment_number == advance(
            syn.sequence_number,
            1,
        ),
        Tcb::opened_by(syn, iss).syn_ack(syn.quad).sequence_number == iss,
        Tcb::opened_by(syn, iss).syn_ack(syn.quad).syn,
        Tcb::opened_by(syn, iss).syn_ack(syn.quad).ack,
{
}

/// An acknowledgment between the oldest unacknowledged and the next send
/// number leaves no more outstanding than before.
pub proof fn lemma_acknowledgment_shrinks_outstanding(t: Tcb, seg: Segment)
    ensures
        distance(t.acknowledged_by(seg), t.send.next) <= distance(
            t.send.oldest_unacknowledged,
            t.send.next,
        ),
{
}

/// An arriving segment leaves a well-formed control block well formed.
pub proof fn lemma_segment_preserves_wf(t: Tcb, seg: Segment)
    requires
        t.wf(),
    ensures
        t.after(seg).wf(),
{
    lemma_acknowledgment_shrinks_outstanding(t, seg);
    if t.class_of(seg) == SegmentClass::AcceptedInOrder {
        if t.state == TCPConnectionState::SYNReceived {
            assert(t.after(seg).send.oldest_unacknowledged == t.acknowledged_by(seg));
            assert(t.after(seg).send.next == t.send.next);
        } else {
            assert(t.after(seg) == t.taken(seg));
            assert(t.taken(seg).send.oldest_unacknowledged == t.acknowledged_by(seg));
            assert(t.taken(seg).send.next == t.send.next);
            assert(t.taken(seg).state.spec_can_close() ==> t.state.spec_can_close());
        }
    }
}

/// A local close and the quiet-time timer leave a well-formed control block
/// well formed.
pub proof fn lemma_close_and_timer_preserve_wf(t: Tcb)
    requires
        t.wf(),
    ensures
        t.after_close().wf(),
        t.after_quiet_time().wf(),
{
}

/// In `SYNReceived` a segment establishes the connection exactly when it
/// carries an acknowledgment between the oldest unacknowledged and the next
/// send number, both included; that acknowledgment then becomes the oldest
/// unacknowledged number. Any other segment leaves the connection in
/// `SYNReceived`, unchanged.
pub proof fn lemma_handshake_completion(t: Tcb, seg: Segment)
    requires
        t.state == TCPConnectionState::SYNReceived,
    ensures
        t.after(seg).state == TCPConnectionState::Established <==> seg.ack && spec_in_closed_range(
            t.send.oldest_unacknowledged,
            seg.acknowledgment_number,
            t.send.next,
        ),
        t.after(seg).state == TCPConnectionState::Established ==> t.after(
            seg,
        ).send.oldest_unacknowledged == seg.acknowledgment_number,
        t.after(seg).state != TCPConnectionState::Established ==> t.after(seg) == t,
{
}

/// A segment changes a control block only when it is classified as taken;
/// a rejected one is not answered either.
pub proof fn lemma_only_taken_segments_change_state(t: Tcb, seg: Segment)
    ensures
        t.class_of(seg) != SegmentClass::AcceptedInOrder ==> t.after(seg) == t,
        t.class_of(seg) == SegmentClass::RejectedOutOfWindow ==> t.replies_to(seg).len() == 0,
        t.class_of(seg) != SegmentClass::AcceptedInOrder ==> t.delivered_from(seg) == 0,
{
}

/// Data reaches the application only from a segment whose sequence number
/// lies in the receive window, and the next expected number then moves by
/// exactly what the segment occupies.
pub proof fn lemma_data_accepted_only_in_window(t: Tcb, seg: Segment)
    requires
        t.delivered_from(seg) > 0,
    ensures
        spec_in_window(seg.sequence_number, t.receive.next, t.receive.window as u32),
        t.delivered_from(seg) == seg.payload_len,
        t.after(seg).receive.next == advance(t.receive.next, seg.spec_data_span()),
{
}

/// Once synchronized, the three classes are decided by the place of the
/// sequence number alone: inside the window, before it, or beyond it.
pub proof fn lemma_classes_partition_sequence_space(t: Tcb, seg: Segment)
    requires
        t.state.spec_is_synchronized(),
    ensures
        t.class_of(seg) == SegmentClass::AcceptedInOrder <==> distance(
            t.receive.next,
            seg.sequence_number,
        ) < t.receive.window,
        t.class_of(seg) == SegmentClass::AcceptedDuplicate <==> distance(
            t.receive.next,
            seg.sequence_number,
        ) >= half_space(),
        t.class_of(seg) == SegmentClass::RejectedOutOfWindow <==> t.receive.window <= distance(
            t.receive.next,
            seg.sequence_number,
        ) < half_space(),
{
}

/// A segment that arrives at the left edge of an open window, in a state
/// that takes data, moves the next expected number by what it occupies and
/// is acknowledged with the new number.
pub proof fn lemma_in_order_segment_is_acknowledged(t: Tcb, seg: Segment)
    requires
        t.state.spec_takes_data(),
        seg.sequence_number == t.receive.next,
        t.receive.window > 0,
    ensures
        t.class_of(seg) == SegmentClass::AcceptedInOrder,
        t.after(seg).receive.next == advance(t.receive.next, seg.spec_data_span()),
        t.delivered_from(seg) == seg.payload_len,
        t.replies_to(seg).len() == 1,
        t.replies_to(seg)[0].ack,
        !t.replies_to(seg)[0].syn,
        !t.replies_to(seg)[0].fin,
        t.replies_to(seg)[0].acknowledgment_number == advance(
            t.receive.next,
            seg.spec_data_span(),
        ),
        t.replies_to(seg)[0].sequence_number == t.send.next,
        seg.fin && t.state == TCPConnectionState::Established ==> t.after(seg).state
            == TCPConnectionState::CloseWait,
{
}

/// A segment before the window is acknowledged with the unchanged next
/// expected number, and nothing of it is taken.
pub proof fn lemma_stale_segment_is_acknowledged(t: Tcb, seg: Segment)
    requires
        t.state.spec_is_synchronized(),
        spec_less_than(seg.sequence_number, t.receive.next),
    ensures
        t.class_of(seg) == SegmentClass::AcceptedDuplicate,
        t.after(seg) == t,
        t.delivered_from(seg) == 0,
        t.replies_to(seg) == seq![t.ack_reply(seg.quad)],
        t.replies_to(seg)[0].acknowledgment_number == t.receive.next,
{
}

/// Delivering the same in-order segment twice moves the next expected
/// number only once. The second delivery changes nothing that the first
/// had not changed, and, where the segment occupies sequence space or the
/// window is still open, it is acknowledged with the number the first
/// delivery left.
pub proof fn lemma_second_delivery_is_idempotent(t: Tcb, seg: Segment)
    requires
        t.state.spec_takes_data(),
        seg.sequence_number == t.receive.next,
        t.receive.window > 0,
    ensures
        t.after(seg).receive.next == advance(t.receive.next, seg.spec_data_span()),
        t.after(seg).after(seg).receive.next == t.after(seg).receive.next,
        seg.spec_data_span() > 0 ==> {
            &&& t.after(seg).class_of(seg) == SegmentClass::AcceptedDuplicate
            &&& t.after(seg).after(seg) == t.after(seg)
            &&& t.after(seg).delivered_from(seg) == 0
        },
        seg.spec_data_span() > 0 || t.after(seg).receive.window > 0 ==> {
            &&& t.after(seg).replies_to(seg).len() == 1
            &&& t.after(seg).replies_to(seg)[0].ack
            &&& t.after(seg).replies_to(seg)[0].acknowledgment_number == t.after(seg).receive.next
        },
{
}

/// What the retransmission timer sends again carries the sequence number
/// it was first sent with: the initial one for the SYN+ACK, the last
/// number before the next for the FIN.
pub proof fn lemma_retransmission_repeats(t: Tcb, quad: ConnectionQuad)
    requires
        t.wf(),
    ensures
        t.retransmission(quad).len() <= 1,
        t.state == TCPConnectionState::SYNReceived ==> t.retransmission(quad) == seq![
            t.syn_ack(quad),
        ],
        t.state.spec_can_close() ==> t.after_close().retransmission(quad) == t.close_sends(quad),
        t.send.oldest_unacknowledged == t.send.next && t.state != TCPConnectionState::SYNReceived
            ==> t.retransmission(quad).len() == 0,
{
}

/// No event moves a connection backwards: the handshake cannot be skipped
/// and a closing connection cannot reopen.
pub proof fn lemma_state_only_moves_forward(t: Tcb, seg: Segment)
    ensures
        t.after(seg).state.spec_progress() >= t.state.spec_progress(),
        t.after_close().state.spec_progress() >= t.state.spec_progress(),
        t.after_quiet_time().state.spec_progress() >= t.state.spec_progress(),
        t.after_abort().state.spec_progress() >= t.state.spec_progress(),
        t.state == TCPConnectionState::SYNReceived ==> t.after(seg).state
            == TCPConnectionState::SYNReceived || t.after(seg).state
            == TCPConnectionState::Established,
{
}

/// A segment closes a connection only in `LastAck`, when it lies in the
/// window and this side's FIN is acknowledged; the timer closes it only
/// from `TimeWait`; a local close never does.
pub proof fn lemma_closed_only_after_teardown(t: Tcb, seg: Segment)
    requires
        t.state != TCPConnectionState::Closed,
    ensures
        t.after(seg).state == TCPConnectionState::Closed ==> t.state == TCPConnectionState::LastAck
            && t.class_of(seg) == SegmentClass::AcceptedInOrder && t.acknowledged_by(seg)
            == t.send.next,
        t.after_quiet_time().state == TCPConnectionState::Closed ==> t.state
            == TCPConnectionState::TimeWait,
        t.after_close().state != TCPConnectionState::Closed,
{
}

/// A local close sends exactly one FIN from the states that still can, and
/// the FIN takes the next send number.
pub proof fn lemma_close_sends_one_fin(t: Tcb, quad: ConnectionQuad)
    requires
        t.state.spec_can_close(),
    ensures
        t.close_sends(quad).len() == 1,
        t.close_sends(quad)[0].fin,
        t.close_sends(quad)[0].ack,
        t.close_sends(quad)[0].sequence_number == t.send.next,
        t.close_sends(quad)[0].acknowledgment_number == t.receive.next,
        t.after_close().send.next == advance(t.send.next, 1),
        t.after_close().state == TCPConnectionState::FinWait1 || t.after_close().state
            == TCPConnectionState::LastAck,
{
}

} // verus!
