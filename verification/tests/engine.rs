use etherparse::{Ipv4HeaderSlice, PacketBuilder, TcpHeaderSlice};
use tcp_engine::codec::DecodeError;
use tcp_engine::engine::{encode_replies, handle_packet, Engine, Fate};
use tcp_engine::error::TcpError;
use tcp_engine::segment::{ConnectionQuad, Location, Segment};
use tcp_engine::table::ConnectionTable;
use tcp_engine::tcp::{SegmentClass, TCPConnectionState};
use tcp_engine::timers::{Timer, TimerKind};

const ENGINE_SEED: u32 = 31_000;

fn engine_quad() -> ConnectionQuad {
    ConnectionQuad {
        source: Location::from_octets(1, 2, 3, 4, 5000),
        destination: Location::from_octets(10, 0, 0, 1, 80),
    }
}

fn from_peer(seq: u32, ack: Option<u32>, syn: bool, fin: bool, payload: &[u8]) -> Vec<u8> {
    let mut builder = PacketBuilder::ipv4([1, 2, 3, 4], [10, 0, 0, 1], 64).tcp(5000, 80, seq, 4096);
    if syn {
        builder = builder.syn();
    }
    if fin {
        builder = builder.fin();
    }
    if let Some(number) = ack {
        builder = builder.ack(number);
    }
    let mut packet = Vec::new();
    builder.write(&mut packet, payload).unwrap();
    packet
}

fn engine_table() -> ConnectionTable {
    let mut table = ConnectionTable::new(ENGINE_SEED);
    table.listen_on_any();
    table
}

#[test]
fn syn_packet_is_answered_with_a_syn_ack_packet() {
    let mut table = engine_table();
    let handled = handle_packet(&mut table, &from_peer(1000, None, true, false, &[]));
    assert_eq!(handled.fate, Fate::Routed(SegmentClass::AcceptedInOrder));
    assert_eq!(handled.quad, Some(engine_quad()));
    assert!(handled.delivered.is_empty());
    assert_eq!(handled.outbound.len(), 1);
    let packet = &handled.outbound[0];
    assert_eq!(packet.len(), 40);
    let ip = Ipv4HeaderSlice::from_slice(packet).unwrap();
    assert_eq!(ip.source(), [10, 0, 0, 1]);
    assert_eq!(ip.destination(), [1, 2, 3, 4]);
    assert_eq!(ip.ttl(), 64);
    let tcp = TcpHeaderSlice::from_slice(&packet[20..]).unwrap();
    assert_eq!(tcp.source_port(), 80);
    assert_eq!(tcp.destination_port(), 5000);
    assert!(tcp.syn() && tcp.ack() && !tcp.fin());
    assert_eq!(tcp.sequence_number(), ENGINE_SEED);
    assert_eq!(tcp.acknowledgment_number(), 1001);
    assert_eq!(tcp.window_size(), 4096);
    assert_eq!(tcp.checksum(), tcp.calc_checksum_ipv4(&ip, &[]).unwrap());
    assert_eq!(table.get(&engine_quad()).unwrap().state(), TCPConnectionState::SYNReceived);
}

#[test]
fn packets_drive_a_connection_from_open_to_data() {
    let mut table = engine_table();
    handle_packet(&mut table, &from_peer(1999, None, true, false, &[]));
    let acked = handle_packet(&mut table, &from_peer(2000, Some(ENGINE_SEED + 1), false, false, &[]));
    assert_eq!(acked.fate, Fate::Routed(SegmentClass::AcceptedInOrder));
    assert!(acked.outbound.is_empty());
    let connection = table.get(&engine_quad()).unwrap();
    assert_eq!(connection.state(), TCPConnectionState::Established);
    assert_eq!(connection.send_variables().oldest_unacknowledged, ENGINE_SEED + 1);
    let payload = [1u8, 2, 3, 4, 5, 6, 7, 8, 9, 10];
    let data = handle_packet(&mut table, &from_peer(2000, Some(ENGINE_SEED + 1), false, false, &payload));
    assert_eq!(data.fate, Fate::Routed(SegmentClass::AcceptedInOrder));
    assert_eq!(data.delivered, payload.to_vec());
    assert_eq!(data.outbound.len(), 1);
    let tcp = TcpHeaderSlice::from_slice(&data.outbound[0][20..]).unwrap();
    assert!(tcp.ack() && !tcp.syn() && !tcp.fin());
    assert_eq!(tcp.acknowledgment_number(), 2010);
    assert_eq!(tcp.sequence_number(), ENGINE_SEED + 1);
    assert_eq!(table.get(&engine_quad()).unwrap().receive_variables().next, 2010);
    let again = handle_packet(&mut table, &from_peer(2000, Some(ENGINE_SEED + 1), false, false, &payload));
    assert_eq!(again.fate, Fate::Routed(SegmentClass::AcceptedDuplicate));
    assert!(again.delivered.is_empty());
    assert_eq!(again.outbound.len(), 1);
    let tcp = TcpHeaderSlice::from_slice(&again.outbound[0][20..]).unwrap();
    assert_eq!(tcp.acknowledgment_number(), 2010);
    assert_eq!(table.get(&engine_quad()).unwrap().receive_variables().next, 2010);
    let beyond = handle_packet(&mut table, &from_peer(900_000, Some(ENGINE_SEED + 1), false, false, &payload));
    assert_eq!(beyond.fate, Fate::Routed(SegmentClass::RejectedOutOfWindow));
    assert!(beyond.delivered.is_empty());
    assert!(beyond.outbound.is_empty());
}

#[test]
fn malformed_packets_are_dropped() {
    let mut table = engine_table();
    let dropped = handle_packet(&mut table, &[0u8; 10]);
    assert_eq!(dropped.fate, Fate::Dropped(DecodeError::InvalidIPv4));
    assert_eq!(dropped.quad, None);
    assert!(dropped.outbound.is_empty());
    assert!(dropped.delivered.is_empty());
    let syn = from_peer(1000, None, true, false, &[]);
    let truncated = handle_packet(&mut table, &syn[..30]);
    assert_eq!(truncated.fate, Fate::Dropped(DecodeError::InvalidTCP));
    let mut udp = Vec::new();
    PacketBuilder::ipv4([1, 2, 3, 4], [10, 0, 0, 1], 64).udp(5000, 80).write(&mut udp, &[1]).unwrap();
    let other = handle_packet(&mut table, &udp);
    assert_eq!(other.fate, Fate::Dropped(DecodeError::NotTcp));
    assert!(!table.contains(&engine_quad()));
    assert_eq!(table.next_iss(), ENGINE_SEED);
}

#[test]
fn stray_segments_are_refused() {
    let mut table = engine_table();
    let stray = handle_packet(&mut table, &from_peer(1000, Some(5), false, false, &[1, 2, 3]));
    assert_eq!(stray.fate, Fate::Refused(TcpError::NoMatchingConnection));
    assert_eq!(stray.quad, Some(engine_quad()));
    assert!(stray.outbound.is_empty());
    assert!(stray.delivered.is_empty());
    assert!(!table.contains(&engine_quad()));
    let mut deaf = ConnectionTable::new(ENGINE_SEED);
    let syn = handle_packet(&mut deaf, &from_peer(1000, None, true, false, &[]));
    assert_eq!(syn.fate, Fate::Refused(TcpError::NoMatchingConnection));
    assert!(!deaf.contains(&engine_quad()));
}

#[test]
fn fin_packet_closes_the_peers_side() {
    let mut table = engine_table();
    handle_packet(&mut table, &from_peer(1999, None, true, false, &[]));
    handle_packet(&mut table, &from_peer(2000, Some(ENGINE_SEED + 1), false, false, &[]));
    let fin = handle_packet(&mut table, &from_peer(2000, Some(ENGINE_SEED + 1), false, true, &[42]));
    assert_eq!(fin.delivered, vec![42]);
    assert_eq!(table.get(&engine_quad()).unwrap().state(), TCPConnectionState::CloseWait);
    let tcp = TcpHeaderSlice::from_slice(&fin.outbound[0][20..]).unwrap();
    assert_eq!(tcp.acknowledgment_number(), 2002);
    let sent = table.close(&engine_quad());
    let packets = encode_replies(&sent);
    assert_eq!(packets.len(), 1);
    let tcp = TcpHeaderSlice::from_slice(&packets[0][20..]).unwrap();
    assert!(tcp.fin() && tcp.ack());
    assert_eq!(tcp.sequence_number(), ENGINE_SEED + 1);
    let last = handle_packet(&mut table, &from_peer(2002, Some(ENGINE_SEED + 2), false, false, &[]));
    assert_eq!(last.fate, Fate::Routed(SegmentClass::AcceptedInOrder));
    assert!(last.outbound.is_empty());
    assert!(!table.contains(&engine_quad()));
}

#[test]
fn replies_are_encoded_in_order() {
    let first = Segment {
        quad: engine_quad().reversed(),
        sequence_number: 1,
        acknowledgment_number: 2,
        syn: false,
        ack: true,
        fin: false,
        window_size: 3,
        payload_len: 0,
    };
    let second = Segment { sequence_number: 9, fin: true, ..first };
    let packets = encode_replies(&vec![first, second]);
    assert_eq!(packets.len(), 2);
    assert_eq!(TcpHeaderSlice::from_slice(&packets[0][20..]).unwrap().sequence_number(), 1);
    assert_eq!(TcpHeaderSlice::from_slice(&packets[1][20..]).unwrap().sequence_number(), 9);
    assert!(TcpHeaderSlice::from_slice(&packets[1][20..]).unwrap().fin());
    assert!(encode_replies(&Vec::new()).is_empty());
}

fn listening_engine() -> Engine {
    let mut engine = Engine::new(ENGINE_SEED);
    engine.listen(Location::from_octets(10, 0, 0, 1, 80));
    engine
}

fn established_engine() -> Engine {
    let mut engine = listening_engine();
    engine.handle_packet(&from_peer(1999, None, true, false, &[]), 0);
    engine.handle_packet(&from_peer(2000, Some(ENGINE_SEED + 1), false, false, &[]), 10);
    assert_eq!(engine.connection(&engine_quad()).unwrap().state(), TCPConnectionState::Established);
    engine
}

#[test]
fn new_engine_has_nothing_pending() {
    let mut engine = Engine::new(ENGINE_SEED);
    assert!(engine.connection(&engine_quad()).is_none());
    assert_eq!(engine.timer(&engine_quad()), None);
    assert_eq!(engine.next_deadline(), None);
    assert!(engine.due(u64::MAX).is_empty());
    let refused = engine.handle_packet(&from_peer(1000, None, true, false, &[]), 0);
    assert_eq!(refused.fate, Fate::Refused(TcpError::NoMatchingConnection));
    engine.listen_on_any();
    let opened = engine.handle_packet(&from_peer(1000, None, true, false, &[]), 0);
    assert_eq!(opened.fate, Fate::Routed(SegmentClass::AcceptedInOrder));
}

#[test]
fn open_handshake_arms_the_retransmission_timer() {
    let mut engine = listening_engine();
    let opened = engine.handle_packet(&from_peer(1999, None, true, false, &[]), 5_000);
    assert_eq!(opened.outbound.len(), 1);
    let expected = Timer { quad: engine_quad(), kind: TimerKind::Retransmission, deadline: 6_000 };
    assert_eq!(engine.timer(&engine_quad()), Some(expected));
    assert_eq!(engine.next_deadline(), Some(6_000));
    assert!(engine.due(5_999).is_empty());
    assert_eq!(engine.due(6_000), vec![expected]);
    assert!(engine.fire(&engine_quad(), 5_999).is_empty());
    assert_eq!(engine.timer(&engine_quad()), Some(expected));
    let resent = engine.fire(&engine_quad(), 6_000);
    assert_eq!(resent, opened.outbound);
    assert_eq!(engine.timer(&engine_quad()).unwrap().deadline, 7_000);
    engine.handle_packet(&from_peer(2000, Some(ENGINE_SEED + 1), false, false, &[]), 6_500);
    assert_eq!(engine.timer(&engine_quad()), None);
    assert_eq!(engine.next_deadline(), None);
    assert!(engine.fire(&engine_quad(), 100_000).is_empty());
}

#[test]
fn malformed_packet_leaves_the_engine_untouched() {
    let mut engine = established_engine();
    let dropped = engine.handle_packet(&[1, 2, 3], 50);
    assert_eq!(dropped.fate, Fate::Dropped(DecodeError::InvalidIPv4));
    assert_eq!(engine.timer(&engine_quad()), None);
    assert_eq!(engine.connection(&engine_quad()).unwrap().receive_variables().next, 2000);
}

#[test]
fn close_sends_a_fin_and_waits_for_its_acknowledgment() {
    let mut engine = established_engine();
    let packets = engine.close(&engine_quad(), 20_000);
    assert_eq!(packets.len(), 1);
    let tcp = TcpHeaderSlice::from_slice(&packets[0][20..]).unwrap();
    assert!(tcp.fin() && tcp.ack());
    assert_eq!(tcp.sequence_number(), ENGINE_SEED + 1);
    assert_eq!(tcp.acknowledgment_number(), 2000);
    assert_eq!(engine.timer(&engine_quad()).unwrap().kind, TimerKind::Retransmission);
    assert_eq!(engine.timer(&engine_quad()).unwrap().deadline, 21_000);
    assert_eq!(engine.fire(&engine_quad(), 21_500), packets);
    assert_eq!(engine.timer(&engine_quad()).unwrap().deadline, 22_500);
    engine.handle_packet(&from_peer(2000, Some(ENGINE_SEED + 2), false, false, &[]), 22_000);
    assert_eq!(engine.connection(&engine_quad()).unwrap().state(), TCPConnectionState::FinWait2);
    assert_eq!(engine.timer(&engine_quad()), None);
    assert!(engine.close(&engine_quad(), 22_001).is_empty());
}

#[test]
fn time_wait_ends_when_the_quiet_time_is_over() {
    let mut engine = established_engine();
    engine.close(&engine_quad(), 1_000);
    engine.handle_packet(&from_peer(2000, Some(ENGINE_SEED + 2), false, true, &[]), 2_000);
    assert_eq!(engine.connection(&engine_quad()).unwrap().state(), TCPConnectionState::TimeWait);
    let quiet = engine.timer(&engine_quad()).unwrap();
    assert_eq!(quiet.kind, TimerKind::QuietTime);
    assert_eq!(quiet.deadline, 242_000);
    engine.handle_packet(&from_peer(2000, Some(ENGINE_SEED + 2), false, true, &[]), 3_000);
    assert_eq!(engine.timer(&engine_quad()).unwrap().deadline, 242_000);
    assert!(engine.fire(&engine_quad(), 241_999).is_empty());
    assert!(engine.connection(&engine_quad()).is_some());
    assert_eq!(engine.due(242_000), vec![quiet]);
    assert!(engine.fire(&engine_quad(), 242_000).is_empty());
    assert!(engine.connection(&engine_quad()).is_none());
    assert_eq!(engine.timer(&engine_quad()), None);
    assert_eq!(engine.next_deadline(), None);
}

#[test]
fn last_acknowledgment_removes_connection_and_timer() {
    let mut engine = established_engine();
    engine.handle_packet(&from_peer(2000, Some(ENGINE_SEED + 1), false, true, &[]), 100);
    assert_eq!(engine.connection(&engine_quad()).unwrap().state(), TCPConnectionState::CloseWait);
    assert_eq!(engine.timer(&engine_quad()), None);
    engine.close(&engine_quad(), 200);
    assert_eq!(engine.connection(&engine_quad()).unwrap().state(), TCPConnectionState::LastAck);
    assert_eq!(engine.timer(&engine_quad()).unwrap().deadline, 1_200);
    engine.handle_packet(&from_peer(2001, Some(ENGINE_SEED + 2), false, false, &[]), 300);
    assert!(engine.connection(&engine_quad()).is_none());
    assert_eq!(engine.timer(&engine_quad()), None);
}

#[test]
fn abort_cancels_the_timer_with_the_connection() {
    let mut engine = listening_engine();
    engine.handle_packet(&from_peer(1999, None, true, false, &[]), 0);
    assert!(engine.timer(&engine_quad()).is_some());
    assert!(engine.abort(&engine_quad()));
    assert!(engine.connection(&engine_quad()).is_none());
    assert_eq!(engine.timer(&engine_quad()), None);
    assert!(!engine.abort(&engine_quad()));
    assert!(engine.fire(&engine_quad(), u64::MAX).is_empty());
}

#[test]
fn engine_delivers_payload() {
    let mut engine = established_engine();
    let data = engine.handle_packet(&from_peer(2000, Some(ENGINE_SEED + 1), false, false, &[7, 8, 9]), 20);
    assert_eq!(data.delivered, vec![7, 8, 9]);
    assert_eq!(data.outbound.len(), 1);
    assert_eq!(TcpHeaderSlice::from_slice(&data.outbound[0][20..]).unwrap().acknowledgment_number(), 2003);
    let stale = engine.handle_packet(&from_peer(1995, Some(ENGINE_SEED + 1), false, false, &[1; 10]), 30);
    assert_eq!(stale.fate, Fate::Routed(SegmentClass::AcceptedDuplicate));
    assert!(stale.delivered.is_empty());
    assert_eq!(TcpHeaderSlice::from_slice(&stale.outbound[0][20..]).unwrap().acknowledgment_number(), 2003);
}
