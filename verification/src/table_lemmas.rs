//! What holds of every connection table, whatever arrives.

use vstd::prelude::*;
use crate::segment::{ConnectionQuad, Segment};
use crate::seq_arith::advance;
use crate::table::Table;
use crate::tcp::{TCPConnectionState, Tcb};
use crate::tcp_lemmas::{lemma_close_and_timer_preserve_wf, lemma_segment_preserves_wf};

verus! {

/// Every event leaves a table of well-formed, open control blocks a table
/// of well-formed, open control blocks.
pub proof fn lemma_events_preserve_wf(t: Table, seg: Segment, quad: ConnectionQuad)
    requires
        t.wf(),
    ensures
        t.after_segment(seg).wf(),
        t.after_close(quad).wf(),
        t.after_quiet_time(quad).wf(),
{
    if t.connections.contains_key(seg.quad) {
        lemma_segment_preserves_wf(t.connections[seg.quad], seg);
    }
    if t.connections.contains_key(quad) {
        lemma_close_and_timer_preserve_wf(t.connections[quad]);
    }
    assert(Tcb::opened_by(seg, t.next_iss).wf());
}

/// A SYN without ACK, for a quad that has no control block and addressed
/// to an endpoint that is listened on, puts a control block in
/// `SYNReceived` into the table and is answered by exactly one segment:
/// the SYN+ACK that acknowledges the number after the peer's.
pub proof fn lemma_syn_opens_connection(t: Table, seg: Segment)
    requires
        !t.connections.contains_key(seg.quad),
        seg.spec_is_opening_syn(),
        t.listens_on(seg.quad.destination),
    ensures
        t.admits(seg),
        t.after_segment(seg).connections.contains_key(seg.quad),
        t.after_segment(seg).connections[seg.quad] == Tcb::opened_by(seg, t.next_iss),
        t.after_segment(seg).connections[seg.quad].state == TCPConnectionState::SYNReceived,
        t.replies_to(seg).len() == 1,
        t.replies_to(seg)[0].syn,
        t.replies_to(seg)[0].ack,
        t.replies_to(seg)[0].sequence_number == t.next_iss,
        t.replies_to(seg)[0].acknowledgment_number == advance(seg.sequence_number, 1),
        t.replies_to(seg)[0].quad == seg.quad.spec_reversed(),
        t.after_segment(seg).next_iss != t.next_iss,
{
}

/// A segment without SYN, for a quad that has no control block, creates
/// none: it is refused, the table stays as it is and nothing is sent. The
/// same holds of a SYN that carries an ACK, and of one addressed to an
/// endpoint that is not listened on.
pub proof fn lemma_only_a_syn_opens(t: Table, seg: Segment)
    requires
        !t.connections.contains_key(seg.quad),
        !seg.syn || seg.ack || !t.listens_on(seg.quad.destination),
    ensures
        !t.admits(seg),
        t.after_segment(seg) == t,
        t.replies_to(seg).len() == 0,
{
}

/// An arriving segment touches no quad but its own.
pub proof fn lemma_segment_touches_one_quad(t: Table, seg: Segment, other: ConnectionQuad)
    requires
        other != seg.quad,
    ensures
        t.after_segment(seg).connections.contains_key(other) == t.connections.contains_key(other),
        t.connections.contains_key(other) ==> t.after_segment(seg).connections[other]
            == t.connections[other],
{
}

/// A control block leaves the table exactly when an event closes it: a
/// segment that acknowledges this side's FIN in `LastAck`, or the
/// quiet-time timer in `TimeWait`. Until then it stays, and a local close
/// never removes it.
pub proof fn lemma_removed_only_when_closed(t: Table, seg: Segment, quad: ConnectionQuad)
    requires
        t.wf(),
        t.connections.contains_key(quad),
        seg.quad == quad,
    ensures
        !t.after_segment(seg).connections.contains_key(quad) <==> t.connections[quad].after(
            seg,
        ).state == TCPConnectionState::Closed,
        !t.after_segment(seg).connections.contains_key(quad) ==> t.connections[quad].state
            == TCPConnectionState::LastAck,
        !t.after_quiet_time(quad).connections.contains_key(quad) <==> t.connections[quad].state
            == TCPConnectionState::TimeWait,
        t.after_close(quad).connections.contains_key(quad),
        t.after_segment(seg).connections.contains_key(quad) ==> t.after_segment(
            seg,
        ).connections[quad] == t.connections[quad].after(seg),
{
}

/// An abort removes a control block by closing it first: the table after
/// an abort is the table with the closed control block put in its place,
/// which takes it out.
pub proof fn lemma_abort_closes_before_removal(t: Table, quad: ConnectionQuad)
    requires
        t.connections.contains_key(quad),
    ensures
        t.connections[quad].after_abort().state == TCPConnectionState::Closed,
        t.after_abort(quad) == t.with(quad, t.connections[quad].after_abort()),
        !t.after_abort(quad).connections.contains_key(quad),
{
}

} // verus!
