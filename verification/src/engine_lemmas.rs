//! What holds of every engine, whatever arrives and whenever: each
//! connection has the timer it needs, and no timer outlives its
//! connection.

use vstd::prelude::*;
use crate::codec::decoded;
use crate::engine::EngineState;
use crate::segment::{ConnectionQuad, Segment};
use crate::table_lemmas::lemma_events_preserve_wf;
use crate::tcp::{TCPConnectionState, Tcb};
use crate::timers::{cancelled, started, timer_of, Timer, TimerKind};
use crate::timers_lemmas::{distinct, holds, lemma_armed, lemma_cancelled, lemma_timer_of};

verus! {

/// The timers of `quad` are in line with its control block: where it
/// needs a timer, one of that kind is pending for it; where it needs none
/// or has no control block, none is pending.
pub open spec fn in_line(e: EngineState, quad: ConnectionQuad) -> bool {
    match e.timer_needed(quad) {
        Some(kind) => timer_of(e.timers, quad).is_some() && timer_of(e.timers, quad)->Some_0.kind
            == kind,
        None => timer_of(e.timers, quad).is_none(),
    }
}

/// The invariant of an engine: its table is well formed, no quad has two
/// timers, and the timers of every quad are in line with its control
/// block.
pub open spec fn wf(e: EngineState) -> bool {
    &&& e.table.wf()
    &&& distinct(e.timers)
    &&& forall|q: ConnectionQuad| #[trigger] in_line(e, q)
}

/// An engine that is well formed but for the timers of one quad is well
/// formed once that quad is settled.
pub proof fn lemma_settling_restores(e: EngineState, quad: ConnectionQuad, now: u64)
    requires
        e.table.wf(),
        distinct(e.timers),
        forall|q: ConnectionQuad| q != quad ==> #[trigger] in_line(e, q),
    ensures
        wf(e.settled(quad, now)),
{
    let after = e.settled(quad, now);
    assert forall|q: ConnectionQuad| #[trigger] in_line(after, q) by {
        match e.timer_needed(quad) {
            Some(kind) => {
                lemma_armed(e.timers, quad, kind, now, q);
            },
            None => {
                lemma_cancelled(e.timers, quad, q);
            },
        }
        if q != quad {
            assert(in_line(e, q));
        }
    }
    match e.timer_needed(quad) {
        Some(kind) => {
            lemma_armed(e.timers, quad, kind, now, quad);
        },
        None => {
            lemma_cancelled(e.timers, quad, quad);
        },
    }
}

/// A packet leaves a well-formed engine well formed.
pub proof fn lemma_packet_preserves_wf(e: EngineState, packet: Seq<u8>, now: u64)
    requires
        wf(e),
    ensures
        wf(e.after_packet(packet, now)),
{
    match decoded(packet) {
        Err(_) => {},
        Ok(seg) => {
            let mid = EngineState { table: e.table.after_segment(seg), ..e };
            lemma_events_preserve_wf(e.table, seg, seg.quad);
            assert forall|q: ConnectionQuad| q != seg.quad implies #[trigger] in_line(mid, q) by {
                assert(in_line(e, q));
            }
            lemma_settling_restores(mid, seg.quad, now);
        },
    }
}

/// A local close leaves a well-formed engine well formed.
pub proof fn lemma_close_preserves_wf(e: EngineState, quad: ConnectionQuad, now: u64)
    requires
        wf(e),
    ensures
        wf(e.after_close(quad, now)),
{
    let mid = EngineState { table: e.table.after_close(quad), ..e };
    let any = Segment {
        quad,
        sequence_number: 0,
        acknowledgment_number: 0,
        syn: false,
        ack: false,
        fin: false,
        window_size: 0,
        payload_len: 0,
    };
    lemma_events_preserve_wf(e.table, any, quad);
    assert forall|q: ConnectionQuad| q != quad implies #[trigger] in_line(mid, q) by {
        assert(in_line(e, q));
    }
    lemma_settling_restores(mid, quad, now);
}

/// An abort leaves a well-formed engine well formed, and the aborted quad
/// without control block and without timer.
pub proof fn lemma_abort_preserves_wf(e: EngineState, quad: ConnectionQuad)
    requires
        wf(e),
    ensures
        wf(e.after_abort(quad)),
        !e.after_abort(quad).table.connections.contains_key(quad),
        timer_of(e.after_abort(quad).timers, quad).is_none(),
{
    let after = e.after_abort(quad);
    assert(after.table.wf()) by {
        assert forall|q: ConnectionQuad| #[trigger]
            after.table.connections.contains_key(q) implies after.table.connections[q].wf()
            && after.table.connections[q].state != TCPConnectionState::Closed by {
            assert(e.table.connections.contains_key(q));
        }
    }
    lemma_cancelled(e.timers, quad, quad);
    assert forall|q: ConnectionQuad| #[trigger] in_line(after, q) by {
        lemma_cancelled(e.timers, quad, q);
        if q != quad {
            assert(in_line(e, q));
        }
    }
}

/// A timer's chance leaves a well-formed engine well formed.
pub proof fn lemma_timer_preserves_wf(e: EngineState, quad: ConnectionQuad, now: u64)
    requires
        wf(e),
    ensures
        wf(e.after_timer(quad, now)),
{
    if e.fires(quad, now) {
        let table = if timer_of(e.timers, quad)->Some_0.kind == TimerKind::QuietTime {
            e.table.after_quiet_time(quad)
        } else {
            e.table
        };
        let mid = EngineState { table, timers: cancelled(e.timers, quad) };
        let any = Segment {
            quad,
            sequence_number: 0,
            acknowledgment_number: 0,
            syn: false,
            ack: false,
            fin: false,
            window_size: 0,
            payload_len: 0,
        };
        lemma_events_preserve_wf(e.table, any, quad);
        lemma_cancelled(e.timers, quad, quad);
        assert forall|q: ConnectionQuad| q != quad implies #[trigger] in_line(mid, q) by {
            lemma_cancelled(e.timers, quad, q);
            assert(in_line(e, q));
        }
        lemma_settling_restores(mid, quad, now);
    }
}

/// In a well-formed engine no timer is pending for a quad that has no
/// control block, every timer is of the kind its connection needs, and a
/// connection in `TimeWait` has its quiet-time timer pending.
pub proof fn lemma_timers_follow_connections(e: EngineState, quad: ConnectionQuad)
    requires
        wf(e),
    ensures
        !e.table.connections.contains_key(quad) ==> timer_of(e.timers, quad).is_none(),
        !e.table.connections.contains_key(quad) ==> !holds(e.timers, quad),
        timer_of(e.timers, quad) matches Some(t) ==> e.table.connections[quad].timer_needed()
            == Some(t.kind),
        e.table.connections.contains_key(quad) && e.table.connections[quad].state
            == TCPConnectionState::TimeWait ==> timer_of(e.timers, quad).is_some() && timer_of(
            e.timers,
            quad,
        )->Some_0.kind == TimerKind::QuietTime,
        e.table.connections.contains_key(quad) && e.table.connections[quad].state
            == TCPConnectionState::SYNReceived ==> timer_of(e.timers, quad).is_some() && timer_of(
            e.timers,
            quad,
        )->Some_0.kind == TimerKind::Retransmission,
{
    assert(in_line(e, quad));
    lemma_timer_of(e.timers, quad);
}

/// In a well-formed engine a quiet-time timer that fires closes its
/// connection: the control block leaves the table and no timer stays
/// behind. A retransmission timer that fires leaves the connection as it
/// is and is pending again, started anew.
pub proof fn lemma_firing(e: EngineState, quad: ConnectionQuad, now: u64)
    requires
        wf(e),
        e.fires(quad, now),
    ensures
        e.table.connections.contains_key(quad),
        timer_of(e.timers, quad)->Some_0.kind == TimerKind::QuietTime ==> {
            &&& e.table.connections[quad].state == TCPConnectionState::TimeWait
            &&& !e.after_timer(quad, now).table.connections.contains_key(quad)
            &&& timer_of(e.after_timer(quad, now).timers, quad).is_none()
            &&& e.timer_sends(quad, now).len() == 0
        },
        timer_of(e.timers, quad)->Some_0.kind == TimerKind::Retransmission ==> {
            &&& e.after_timer(quad, now).table == e.table
            &&& timer_of(e.after_timer(quad, now).timers, quad) == Some(
                started(quad, TimerKind::Retransmission, now),
            )
            &&& e.timer_sends(quad, now) == e.table.connections[quad].retransmission(quad)
            &&& e.timer_sends(quad, now).len() == 1
        },
{
    assert(in_line(e, quad));
    lemma_cancelled(e.timers, quad, quad);
    let kind = timer_of(e.timers, quad)->Some_0.kind;
    let c = cancelled(e.timers, quad);
    if kind == TimerKind::Retransmission {
        lemma_armed(c, quad, TimerKind::Retransmission, now, quad);
    } else {
        lemma_cancelled(c, quad, quad);
    }
}

/// An engine without connections and timers is well formed.
pub proof fn lemma_empty_engine_is_wf(e: EngineState)
    requires
        e.table.connections == Map::<ConnectionQuad, Tcb>::empty(),
        e.timers == Seq::<Timer>::empty(),
    ensures
        wf(e),
{
    assert forall|q: ConnectionQuad| #[trigger] in_line(e, q) by {
        lemma_timer_of(e.timers, q);
    }
}

} // verus!
