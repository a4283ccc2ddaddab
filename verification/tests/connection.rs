use tcp_engine::error::TcpError;
use tcp_engine::segment::{ConnectionQuad, Location, Segment};
use tcp_engine::tcp::{
    SegmentClass, TCPConnection, TCPConnectionState, DEFAULT_SEND_WINDOW,
};

const ISS: u32 = 7000;

fn peer_quad() -> ConnectionQuad {
    ConnectionQuad {
        source: Location::from_octets(1, 2, 3, 4, 5000),
        destination: Location::from_octets(10, 0, 0, 1, 80),
    }
}

fn segment_with(seq: u32, ack_number: u32, syn: bool, ack: bool, fin: bool, len: u16) -> Segment {
    Segment {
        quad: peer_quad(),
        sequence_number: seq,
        acknowledgment_number: ack_number,
        syn,
        ack,
        fin,
        window_size: 4096,
        payload_len: len,
    }
}

fn opening_syn(seq: u32) -> Segment {
    segment_with(seq, 0, true, false, false, 0)
}

fn syn_received(peer_seq: u32) -> TCPConnection {
    TCPConnection::accept(&opening_syn(peer_seq), ISS).unwrap().0
}

/// An established connection whose next expected number is `rcv_next`.
fn established(rcv_next: u32) -> TCPConnection {
    let mut connection = syn_received(rcv_next.wrapping_sub(1));
    let out = connection.process_segment(&segment_with(rcv_next, ISS + 1, false, true, false, 0));
    assert_eq!(out.class, SegmentClass::AcceptedInOrder);
    assert_eq!(connection.state(), TCPConnectionState::Established);
    connection
}

#[test]
fn default_state_is_closed() {
    assert_eq!(TCPConnectionState::default(), TCPConnectionState::Closed);
}

#[test]
fn location_octets_round_trip() {
    let l = Location::from_octets(10, 0, 0, 1, 80);
    assert_eq!(l.address, 0x0A00_0001);
    assert_eq!(l.port, 80);
    assert_eq!(l.octets(), [10, 0, 0, 1]);
    let m = Location::from_octets(255, 254, 253, 252, 65535);
    assert_eq!(m.address, 0xFFFE_FDFC);
    assert_eq!(m.octets(), [255, 254, 253, 252]);
    let q = peer_quad();
    assert_eq!(q.reversed().source, q.destination);
    assert_eq!(q.reversed().destination, q.source);
    assert_eq!(q.reversed().reversed(), q);
}

#[test]
fn syn_creates_syn_received_and_one_syn_ack() {
    let (connection, reply) = TCPConnection::accept(&opening_syn(1000), ISS).unwrap();
    assert_eq!(connection.state(), TCPConnectionState::SYNReceived);
    let rcv = connection.receive_variables();
    assert_eq!(rcv.initial, 1000);
    assert_eq!(rcv.next, 1001);
    assert_eq!(rcv.window, 4096);
    assert!(!rcv.urgent_pointer);
    let snd = connection.send_variables();
    assert_eq!(snd.initial, ISS);
    assert_eq!(snd.oldest_unacknowledged, ISS);
    assert_eq!(snd.next, ISS + 1);
    assert_eq!(snd.window, DEFAULT_SEND_WINDOW);
    assert_eq!(snd.window, 1024);
    assert!(reply.syn && reply.ack && !reply.fin);
    assert_eq!(reply.sequence_number, ISS);
    assert_eq!(reply.acknowledgment_number, 1001);
    assert_eq!(reply.window_size, 4096);
    assert_eq!(reply.payload_len, 0);
    assert_eq!(reply.quad, peer_quad().reversed());
}

#[test]
fn syn_at_the_top_of_the_sequence_space_wraps() {
    let (connection, reply) = TCPConnection::accept(&opening_syn(u32::MAX), u32::MAX).unwrap();
    assert_eq!(connection.receive_variables().next, 0);
    assert_eq!(connection.send_variables().next, 0);
    assert_eq!(connection.send_variables().oldest_unacknowledged, u32::MAX);
    assert_eq!(reply.acknowledgment_number, 0);
    assert_eq!(reply.sequence_number, u32::MAX);
}

#[test]
fn segment_without_syn_is_refused() {
    let plain_ack = segment_with(1000, 1, false, true, false, 0);
    assert_eq!(TCPConnection::accept(&plain_ack, ISS).err(), Some(TcpError::HandshakeIncomplete));
    let data = segment_with(1000, 0, false, false, false, 10);
    assert_eq!(TCPConnection::accept(&data, ISS).err(), Some(TcpError::HandshakeIncomplete));
    let fin = segment_with(1000, 0, false, false, true, 0);
    assert_eq!(TCPConnection::accept(&fin, ISS).err(), Some(TcpError::HandshakeIncomplete));
}

#[test]
fn syn_with_ack_is_refused() {
    let syn_ack = segment_with(1000, 1, true, true, false, 0);
    assert!(!syn_ack.is_opening_syn());
    assert!(opening_syn(1).is_opening_syn());
    assert_eq!(TCPConnection::accept(&syn_ack, ISS).err(), Some(TcpError::HandshakeIncomplete));
}

#[test]
fn handshake_scenario() {
    let (mut connection, reply) = TCPConnection::accept(&opening_syn(1000), ISS).unwrap();
    assert_eq!(reply.sequence_number, ISS);
    assert_eq!(reply.acknowledgment_number, 1001);
    assert_eq!(connection.state(), TCPConnectionState::SYNReceived);
    let out = connection.process_segment(&segment_with(1001, ISS + 1, false, true, false, 0));
    assert_eq!(out.class, SegmentClass::AcceptedInOrder);
    assert!(out.replies.is_empty());
    assert_eq!(out.delivered, 0);
    assert_eq!(connection.state(), TCPConnectionState::Established);
    assert_eq!(connection.send_variables().oldest_unacknowledged, ISS + 1);
    assert_eq!(connection.send_variables().next, ISS + 1);
    assert_eq!(connection.send_variables().window, 4096);
    assert_eq!(connection.send_variables().last_window_update_seq, 1001);
    assert_eq!(connection.send_variables().last_window_update_ack, ISS + 1);
    assert_eq!(connection.receive_variables().next, 1001);
}

#[test]
fn acknowledgment_at_the_lower_edge_establishes() {
    let mut connection = syn_received(1000);
    connection.process_segment(&segment_with(1001, ISS, false, true, false, 0));
    assert_eq!(connection.state(), TCPConnectionState::Established);
    assert_eq!(connection.send_variables().oldest_unacknowledged, ISS);
}

#[test]
fn acknowledgment_outside_range_does_not_establish() {
    for ack_number in [ISS + 2, ISS - 1, ISS + 1000, 0, ISS.wrapping_add(0x8000_0000)] {
        let mut connection = syn_received(1000);
        let out = connection.process_segment(&segment_with(1001, ack_number, false, true, false, 0));
        assert_eq!(out.class, SegmentClass::RejectedOutOfWindow);
        assert!(out.replies.is_empty());
        assert_eq!(connection.state(), TCPConnectionState::SYNReceived);
        assert_eq!(connection.send_variables().oldest_unacknowledged, ISS);
    }
}

#[test]
fn segment_without_ack_does_not_establish() {
    let mut connection = syn_received(1000);
    let out = connection.process_segment(&segment_with(1001, ISS + 1, false, false, false, 0));
    assert_eq!(out.class, SegmentClass::RejectedOutOfWindow);
    assert!(out.replies.is_empty());
    assert_eq!(connection.state(), TCPConnectionState::SYNReceived);
}

#[test]
fn repeated_syn_is_answered_with_the_syn_ack_again() {
    let (mut connection, first) = TCPConnection::accept(&opening_syn(1000), ISS).unwrap();
    let out = connection.process_segment(&opening_syn(1000));
    assert_eq!(out.class, SegmentClass::AcceptedDuplicate);
    assert_eq!(out.replies, vec![first]);
    assert_eq!(connection.state(), TCPConnectionState::SYNReceived);
    let other = connection.process_segment(&opening_syn(2000));
    assert_eq!(other.class, SegmentClass::RejectedOutOfWindow);
    assert!(other.replies.is_empty());
}

#[test]
fn in_order_data_scenario() {
    let mut connection = established(2000);
    let out = connection.process_segment(&segment_with(2000, ISS + 1, false, true, false, 10));
    assert_eq!(out.class, SegmentClass::AcceptedInOrder);
    assert_eq!(out.delivered, 10);
    assert_eq!(connection.receive_variables().next, 2010);
    assert_eq!(out.replies.len(), 1);
    let ack = out.replies[0];
    assert!(ack.ack && !ack.syn && !ack.fin);
    assert_eq!(ack.acknowledgment_number, 2010);
    assert_eq!(ack.sequence_number, ISS + 1);
    assert_eq!(ack.payload_len, 0);
    assert_eq!(ack.quad, peer_quad().reversed());
    assert_eq!(connection.state(), TCPConnectionState::Established);
}

#[test]
fn stale_data_scenario() {
    let mut connection = established(2000);
    let out = connection.process_segment(&segment_with(1995, ISS + 1, false, true, false, 10));
    assert_eq!(out.class, SegmentClass::AcceptedDuplicate);
    assert_eq!(out.delivered, 0);
    assert_eq!(connection.receive_variables().next, 2000);
    assert_eq!(out.replies.len(), 1);
    assert!(out.replies[0].ack);
    assert_eq!(out.replies[0].acknowledgment_number, 2000);
    assert_eq!(connection.state(), TCPConnectionState::Established);
}

#[test]
fn same_segment_twice_advances_once() {
    let mut connection = established(2000);
    let data = segment_with(2000, ISS + 1, false, true, false, 10);
    let first = connection.process_segment(&data);
    assert_eq!(first.class, SegmentClass::AcceptedInOrder);
    assert_eq!(connection.receive_variables().next, 2010);
    let before = (connection.state(), connection.receive_variables(), connection.send_variables());
    let second = connection.process_segment(&data);
    assert_eq!(second.class, SegmentClass::AcceptedDuplicate);
    assert_eq!(second.delivered, 0);
    assert_eq!(connection.receive_variables().next, 2010);
    assert_eq!(second.replies.len(), 1);
    assert_eq!(second.replies[0].acknowledgment_number, 2010);
    let after = (connection.state(), connection.receive_variables(), connection.send_variables());
    assert_eq!(before, after);
}

#[test]
fn segment_beyond_window_is_dropped_silently() {
    let mut connection = established(2000);
    for seq in [2000 + 4096, 2000 + 4097, 2000 + 100_000, 2000 + 0x7FFF_FFFF] {
        let out = connection.process_segment(&segment_with(seq, ISS + 1, false, true, false, 10));
        assert_eq!(out.class, SegmentClass::RejectedOutOfWindow);
        assert!(out.replies.is_empty());
        assert_eq!(out.delivered, 0);
        assert_eq!(connection.receive_variables().next, 2000);
    }
    let last_inside = connection.process_segment(&segment_with(2000 + 4095, ISS + 1, false, true, false, 0));
    assert_eq!(last_inside.class, SegmentClass::AcceptedInOrder);
}

#[test]
fn data_wraps_the_sequence_space() {
    let mut connection = established(u32::MAX - 3);
    let out = connection.process_segment(&segment_with(u32::MAX - 3, ISS + 1, false, true, false, 10));
    assert_eq!(out.class, SegmentClass::AcceptedInOrder);
    assert_eq!(connection.receive_variables().next, 6);
    assert_eq!(out.replies[0].acknowledgment_number, 6);
    let again = connection.process_segment(&segment_with(u32::MAX - 3, ISS + 1, false, true, false, 10));
    assert_eq!(again.class, SegmentClass::AcceptedDuplicate);
    assert_eq!(again.replies[0].acknowledgment_number, 6);
}

#[test]
fn window_follows_fresh_segments_only() {
    let mut connection = established(2000);
    let mut wider = segment_with(2000, ISS + 1, false, true, false, 10);
    wider.window_size = 8192;
    connection.process_segment(&wider);
    assert_eq!(connection.send_variables().window, 4096);
    assert_eq!(connection.receive_variables().window, 4096);
    let mut newer = segment_with(2010, ISS + 1, false, true, false, 10);
    newer.window_size = 8192;
    let out = connection.process_segment(&newer);
    assert_eq!(connection.send_variables().window, 8192);
    assert_eq!(connection.receive_variables().window, 8192);
    assert_eq!(connection.send_variables().last_window_update_seq, 2010);
    assert_eq!(connection.send_variables().last_window_update_ack, ISS + 1);
    assert_eq!(out.replies[0].window_size, 8192);
}

#[test]
fn fin_moves_established_to_close_wait() {
    let mut connection = established(2000);
    let out = connection.process_segment(&segment_with(2000, ISS + 1, false, true, true, 5));
    assert_eq!(out.class, SegmentClass::AcceptedInOrder);
    assert_eq!(out.delivered, 5);
    assert_eq!(connection.state(), TCPConnectionState::CloseWait);
    assert_eq!(connection.receive_variables().next, 2006);
    assert_eq!(out.replies.len(), 1);
    assert_eq!(out.replies[0].acknowledgment_number, 2006);
    let again = connection.process_segment(&segment_with(2000, ISS + 1, false, true, true, 5));
    assert_eq!(again.class, SegmentClass::AcceptedDuplicate);
    assert_eq!(again.replies[0].acknowledgment_number, 2006);
    assert_eq!(connection.state(), TCPConnectionState::CloseWait);
}

#[test]
fn passive_close_runs_to_closed() {
    let mut connection = established(2000);
    connection.process_segment(&segment_with(2000, ISS + 1, false, true, true, 0));
    assert_eq!(connection.state(), TCPConnectionState::CloseWait);
    let sent = connection.close(peer_quad());
    assert_eq!(connection.state(), TCPConnectionState::LastAck);
    assert_eq!(sent.len(), 1);
    assert!(sent[0].fin && sent[0].ack && !sent[0].syn);
    assert_eq!(sent[0].sequence_number, ISS + 1);
    assert_eq!(sent[0].acknowledgment_number, 2001);
    assert_eq!(sent[0].quad, peer_quad().reversed());
    assert_eq!(connection.send_variables().next, ISS + 2);
    let early = connection.process_segment(&segment_with(2001, ISS + 1, false, true, false, 0));
    assert_eq!(early.class, SegmentClass::AcceptedInOrder);
    assert!(early.replies.is_empty());
    assert_eq!(connection.state(), TCPConnectionState::LastAck);
    let last = connection.process_segment(&segment_with(2001, ISS + 2, false, true, false, 0));
    assert_eq!(last.class, SegmentClass::AcceptedInOrder);
    assert!(last.replies.is_empty());
    assert_eq!(connection.state(), TCPConnectionState::Closed);
    let late = connection.process_segment(&segment_with(2001, ISS + 2, false, true, false, 0));
    assert_eq!(late.class, SegmentClass::RejectedOutOfWindow);
    assert!(late.replies.is_empty());
}

#[test]
fn active_close_runs_through_time_wait() {
    let mut connection = established(2000);
    let sent = connection.close(peer_quad());
    assert_eq!(connection.state(), TCPConnectionState::FinWait1);
    assert_eq!(sent.len(), 1);
    assert!(sent[0].fin);
    assert_eq!(sent[0].sequence_number, ISS + 1);
    assert!(connection.close(peer_quad()).is_empty());
    assert_eq!(connection.state(), TCPConnectionState::FinWait1);
    connection.process_segment(&segment_with(2000, ISS + 2, false, true, false, 0));
    assert_eq!(connection.state(), TCPConnectionState::FinWait2);
    let data = connection.process_segment(&segment_with(2000, ISS + 2, false, true, false, 7));
    assert_eq!(data.delivered, 7);
    assert_eq!(connection.state(), TCPConnectionState::FinWait2);
    let fin = connection.process_segment(&segment_with(2007, ISS + 2, false, true, true, 0));
    assert_eq!(connection.state(), TCPConnectionState::TimeWait);
    assert_eq!(fin.replies.len(), 1);
    assert_eq!(fin.replies[0].acknowledgment_number, 2008);
    assert_eq!(fin.replies[0].sequence_number, ISS + 2);
    let repeated = connection.process_segment(&segment_with(2007, ISS + 2, false, true, true, 0));
    assert_eq!(repeated.class, SegmentClass::AcceptedDuplicate);
    assert_eq!(repeated.replies[0].acknowledgment_number, 2008);
    assert_eq!(connection.state(), TCPConnectionState::TimeWait);
    connection.quiet_time_elapsed();
    assert_eq!(connection.state(), TCPConnectionState::Closed);
}

#[test]
fn simultaneous_close_goes_through_closing() {
    let mut connection = established(2000);
    connection.close(peer_quad());
    let fin = connection.process_segment(&segment_with(2000, ISS + 1, false, true, true, 0));
    assert_eq!(connection.state(), TCPConnectionState::Closing);
    assert_eq!(fin.replies[0].acknowledgment_number, 2001);
    connection.process_segment(&segment_with(2001, ISS + 2, false, true, false, 0));
    assert_eq!(connection.state(), TCPConnectionState::TimeWait);
}

#[test]
fn fin_that_acknowledges_our_fin_goes_straight_to_time_wait() {
    let mut connection = established(2000);
    connection.close(peer_quad());
    connection.process_segment(&segment_with(2000, ISS + 2, false, true, true, 0));
    assert_eq!(connection.state(), TCPConnectionState::TimeWait);
}

#[test]
fn close_during_handshake_sends_fin() {
    let mut connection = syn_received(1000);
    let sent = connection.close(peer_quad());
    assert_eq!(connection.state(), TCPConnectionState::FinWait1);
    assert_eq!(sent.len(), 1);
    assert_eq!(sent[0].sequence_number, ISS + 1);
    assert_eq!(connection.send_variables().next, ISS + 2);
    assert_eq!(connection.send_variables().oldest_unacknowledged, ISS);
}

#[test]
fn quiet_time_timer_only_closes_time_wait() {
    let mut connection = established(2000);
    connection.quiet_time_elapsed();
    assert_eq!(connection.state(), TCPConnectionState::Established);
    let mut opening = syn_received(1000);
    opening.quiet_time_elapsed();
    assert_eq!(opening.state(), TCPConnectionState::SYNReceived);
}

#[test]
fn retransmission_repeats_what_is_unacknowledged() {
    let (mut connection, syn_ack) = TCPConnection::accept(&opening_syn(1999), ISS).unwrap();
    assert_eq!(connection.retransmit(peer_quad()), vec![syn_ack]);
    connection.process_segment(&segment_with(2000, ISS + 1, false, true, false, 0));
    assert!(connection.retransmit(peer_quad()).is_empty());
    let fin = connection.close(peer_quad());
    assert_eq!(connection.retransmit(peer_quad()), fin);
    assert_eq!(connection.retransmit(peer_quad())[0].sequence_number, ISS + 1);
    connection.process_segment(&segment_with(2000, ISS + 2, false, true, false, 0));
    assert_eq!(connection.state(), TCPConnectionState::FinWait2);
    assert!(connection.retransmit(peer_quad()).is_empty());
}

#[test]
fn abort_closes_from_any_state() {
    let mut connection = established(2000);
    connection.abort();
    assert_eq!(connection.state(), TCPConnectionState::Closed);
    let mut opening = syn_received(1000);
    opening.abort();
    assert_eq!(opening.state(), TCPConnectionState::Closed);
}

#[test]
fn state_predicates() {
    assert!(TCPConnectionState::Established.takes_data());
    assert!(TCPConnectionState::FinWait1.takes_data());
    assert!(TCPConnectionState::FinWait2.takes_data());
    assert!(!TCPConnectionState::CloseWait.takes_data());
    assert!(!TCPConnectionState::SYNReceived.takes_data());
    assert!(TCPConnectionState::TimeWait.is_synchronized());
    assert!(!TCPConnectionState::SYNReceived.is_synchronized());
    assert!(!TCPConnectionState::Closed.is_synchronized());
    assert!(!TCPConnectionState::Listen.is_synchronized());
    assert!(TCPConnectionState::SYNReceived.can_close());
    assert!(TCPConnectionState::CloseWait.can_close());
    assert!(!TCPConnectionState::FinWait1.can_close());
    assert!(!TCPConnectionState::Closed.can_close());
}

#[test]
fn data_after_peer_fin_is_not_taken() {
    let mut connection = established(2000);
    connection.process_segment(&segment_with(2000, ISS + 1, false, true, true, 0));
    assert_eq!(connection.state(), TCPConnectionState::CloseWait);
    let out = connection.process_segment(&segment_with(2001, ISS + 1, false, true, false, 10));
    assert_eq!(out.class, SegmentClass::AcceptedInOrder);
    assert_eq!(out.delivered, 0);
    assert!(out.replies.is_empty());
    assert_eq!(connection.receive_variables().next, 2001);
}
