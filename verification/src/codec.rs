//! The wire format of IPv4 and TCP headers.
//!
//! Reading and writing header octets is left to `etherparse`; this module
//! states what those calls return and builds the engine's decoded segments
//! from them. Options are read past, never written.

use vstd::prelude::*;
use vstd::slice::slice_subrange;
use crate::segment::{address_of, ConnectionQuad, Location, Segment};

verus! {

/// The IPv4 protocol number of TCP.
pub const PROTOCOL_TCP: u8 = 6;

/// Time to live of every packet the engine sends.
pub const DEFAULT_TTL: u8 = 64;

/// Length of a header without options, IPv4 and TCP alike.
pub const MIN_HEADER_LEN: usize = 20;

/// The longest IPv4 packet: its length field has sixteen bits.
pub const MAX_PACKET_LEN: usize = 65535;

/// The longest payload that fits a packet with two option-free headers.
pub const MAX_PAYLOAD_LEN: usize = 65495;

/// Why a packet yields no segment.
#[derive(Clone, Copy, Debug, PartialEq, Eq, Structural)]
pub enum DecodeError {
    /// The packet does not start with a complete IPv4 header, or is longer
    /// than an IPv4 packet can be.
    InvalidIPv4,
    /// The packet is IPv4 but carries another protocol than TCP.
    NotTcp,
    /// What follows the IPv4 header is not a complete TCP header.
    InvalidTCP,
}

/// What the engine reads from an IPv4 header.
#[derive(Clone, Copy, Debug)]
pub struct Ipv4Fields {
    /// Length of the header with its options, in octets.
    pub header_len: usize,
    pub protocol: u8,
    pub source: [u8; 4],
    pub destination: [u8; 4],
}

/// What the engine reads from, and writes to, a TCP header.
#[derive(Clone, Copy, Debug, PartialEq, Eq, Structural)]
pub struct TcpFields {
    pub source_port: u16,
    pub destination_port: u16,
    pub sequence_number: u32,
    pub acknowledgment_number: u32,
    pub syn: bool,
    pub ack: bool,
    pub fin: bool,
    pub window_size: u16,
}

/// The 16-bit number stored big-endian at offset `i`.
pub open spec fn be16(s: Seq<u8>, i: int) -> int {
    s[i] * 256 + s[i + 1]
}

/// The 32-bit number stored big-endian at offset `i`.
pub open spec fn be32(s: Seq<u8>, i: int) -> int {
    address_of(s[i], s[i + 1], s[i + 2], s[i + 3])
}

/// The octets of a 16-bit number, big-endian.
pub open spec fn be16_octets(x: u16) -> Seq<u8> {
    seq![(x / 256) as u8, (x % 256) as u8]
}

/// The octets of a 32-bit number, big-endian.
pub open spec fn be32_octets(x: u32) -> Seq<u8> {
    seq![
        (x / 0x100_0000) as u8,
        ((x / 0x1_0000) % 256) as u8,
        ((x / 0x100) % 256) as u8,
        (x % 256) as u8,
    ]
}

/// Length of the IPv4 header that `s` starts with: its low four bits of
/// the first octet, in 32-bit words.
pub open spec fn ipv4_header_len(s: Seq<u8>) -> int {
    (s[0] % 16) * 4
}

/// `s` starts with a complete IPv4 header: version 4, at least five words
/// long, and all of it present.
pub open spec fn ipv4_header_ok(s: Seq<u8>) -> bool {
    &&& s.len() >= MIN_HEADER_LEN
    &&& s[0] / 16 == 4
    &&& s[0] % 16 >= 5
    &&& s.len() >= ipv4_header_len(s)
}

/// Length of the TCP header that `s` starts with: the high four bits of
/// octet 12, in 32-bit words.
pub open spec fn tcp_header_len(s: Seq<u8>) -> int {
    (s[12] / 16) * 4
}

/// `s` starts with a complete TCP header: at least five words long, and
/// all of it present.
pub open spec fn tcp_header_ok(s: Seq<u8>) -> bool {
    &&& s.len() >= MIN_HEADER_LEN
    &&& s[12] / 16 >= 5
    &&& s.len() >= tcp_header_len(s)
}

/// The octet of control bits for the three flags the engine uses.
pub open spec fn flag_octet(syn: bool, ack: bool, fin: bool) -> int {
    (if fin { 1int } else { 0int }) + (if syn { 2int } else { 0int }) + (if ack { 16int } else { 0int })
}

/// The fields of the TCP header that `s` starts with.
pub open spec fn tcp_fields_of(s: Seq<u8>) -> TcpFields {
    TcpFields {
        source_port: be16(s, 0) as u16,
        destination_port: be16(s, 2) as u16,
        sequence_number: be32(s, 4) as u32,
        acknowledgment_number: be32(s, 8) as u32,
        syn: (s[13] / 2) % 2 == 1,
        ack: (s[13] / 16) % 2 == 1,
        fin: s[13] % 2 == 1,
        window_size: be16(s, 14) as u16,
    }
}

/// The checksum that `etherparse` computes for an option-free IPv4 header
/// with these fields.
pub uninterp spec fn ipv4_header_checksum(
    payload_len: u16,
    time_to_live: u8,
    protocol: u8,
    source: Seq<u8>,
    destination: Seq<u8>,
) -> u16;

/// The checksum that `etherparse` computes for an option-free TCP header
/// with these fields, sent between these addresses with this payload.
pub uninterp spec fn tcp_checksum(
    source_port: u16,
    destination_port: u16,
    sequence_number: u32,
    acknowledgment_number: u32,
    syn: bool,
    ack: bool,
    fin: bool,
    window_size: u16,
    source: Seq<u8>,
    destination: Seq<u8>,
    payload: Seq<u8>,
) -> u16;

/// The twenty octets of an option-free IPv4 header that may not be
/// fragmented, with the given checksum.
pub open spec fn ipv4_header_layout(
    payload_len: u16,
    time_to_live: u8,
    protocol: u8,
    source: Seq<u8>,
    destination: Seq<u8>,
    checksum: u16,
) -> Seq<u8> {
    seq![0x45u8, 0u8] + be16_octets((payload_len + MIN_HEADER_LEN) as u16) + seq![
        0u8,
        0u8,
        0x40u8,
        0u8,
        time_to_live,
        protocol,
    ] + be16_octets(checksum) + source + destination
}

/// The twenty octets of an option-free TCP header with the given checksum
/// and no urgent pointer.
pub open spec fn tcp_header_layout(f: TcpFields, checksum: u16) -> Seq<u8> {
    be16_octets(f.source_port) + be16_octets(f.destination_port) + be32_octets(f.sequence_number)
        + be32_octets(f.acknowledgment_number) + seq![
        0x50u8,
        flag_octet(f.syn, f.ack, f.fin) as u8,
    ] + be16_octets(f.window_size) + be16_octets(checksum) + seq![0u8, 0u8]
}

/// Reads an IPv4 header with `etherparse::Ipv4HeaderSlice::from_slice`.
///
/// Trusted: the call succeeds exactly on a slice that starts with a
/// complete version-4 header, and its getters return the header's length,
/// octet 9 as the protocol and octets 12 to 19 as the two addresses.
#[verifier::external_body]
fn parse_ipv4_header(bytes: &[u8]) -> (r: Option<Ipv4Fields>)
    ensures
        r.is_some() <==> ipv4_header_ok(bytes@),
        r matches Some(f) ==> {
            &&& f.header_len == ipv4_header_len(bytes@)
            &&& f.protocol == bytes@[9]
            &&& f.source@ == bytes@.subrange(12, 16)
            &&& f.destination@ == bytes@.subrange(16, 20)
        },
{
    let h = etherparse::Ipv4HeaderSlice::from_slice(bytes).ok()?;
    Some(
        Ipv4Fields {
            header_len: h.slice().len(),
            protocol: h.protocol().0,
            source: h.source(),
            destination: h.destination(),
        },
    )
}

/// Reads a TCP header with `etherparse::TcpHeaderSlice::from_slice`.
///
/// Trusted: the call succeeds exactly on a slice that starts with a
/// complete TCP header, and its getters return the big-endian numbers and
/// the control bits at their places in the header. The second component
/// is the header's length with its options.
#[verifier::external_body]
fn parse_tcp_header(bytes: &[u8]) -> (r: Option<(TcpFields, usize)>)
    ensures
        r.is_some() <==> tcp_header_ok(bytes@),
        r matches Some((f, header_len)) ==> {
            &&& f == tcp_fields_of(bytes@)
            &&& header_len == tcp_header_len(bytes@)
        },
{
    let h = etherparse::TcpHeaderSlice::from_slice(bytes).ok()?;
    let fields = TcpFields {
        source_port: h.source_port(),
        destination_port: h.destination_port(),
        sequence_number: h.sequence_number(),
        acknowledgment_number: h.acknowledgment_number(),
        syn: h.syn(),
        ack: h.ack(),
        fin: h.fin(),
        window_size: h.window_size(),
    };
    Some((fields, h.slice().len()))
}

/// Writes an IPv4 header with `etherparse::Ipv4Header::new` and `write`.
///
/// Trusted: `new` refuses a payload longer than 65515 octets and nothing
/// else; `write` then produces the twenty octets of an option-free header
/// with the don't-fragment bit set and the checksum it computes itself.
#[verifier::external_body]
fn write_ipv4_header(
    payload_len: u16,
    time_to_live: u8,
    protocol: u8,
    source: [u8; 4],
    destination: [u8; 4],
) -> (r: Option<Vec<u8>>)
    ensures
        r.is_some() <==> payload_len <= MAX_PACKET_LEN - MIN_HEADER_LEN,
        r matches Some(v) ==> v@ == ipv4_header_layout(
            payload_len,
            time_to_live,
            protocol,
            source@,
            destination@,
            ipv4_header_checksum(payload_len, time_to_live, protocol, source@, destination@),
        ),
{
    let protocol = etherparse::IpNumber(protocol);
    let header = etherparse::Ipv4Header::new(payload_len, time_to_live, protocol, source, destination)
        .ok()?;
    let mut out = Vec::new();
    header.write(&mut out).ok()?;
    Some(out)
}

/// Computes a TCP checksum with
/// `etherparse::TcpHeader::calc_checksum_ipv4_raw`.
///
/// Trusted: the call refuses a payload longer than 65515 octets and
/// nothing else, and its result depends only on the header's fields, the
/// two addresses and the payload.
#[verifier::external_body]
fn compute_tcp_checksum(f: &TcpFields, source: [u8; 4], destination: [u8; 4], payload: &[u8]) -> (r:
    Option<u16>)
    ensures
        r.is_some() <==> payload@.len() <= MAX_PACKET_LEN - MIN_HEADER_LEN,
        r matches Some(c) ==> c == tcp_checksum(
            f.source_port,
            f.destination_port,
            f.sequence_number,
            f.acknowledgment_number,
            f.syn,
            f.ack,
            f.fin,
            f.window_size,
            source@,
            destination@,
            payload@,
        ),
{
    let (from, to) = (f.source_port, f.destination_port);
    let mut header = etherparse::TcpHeader::new(from, to, f.sequence_number, f.window_size);
    header.acknowledgment_number = f.acknowledgment_number;
    header.syn = f.syn;
    header.ack = f.ack;
    header.fin = f.fin;
    header.calc_checksum_ipv4_raw(source, destination, payload).ok()
}

/// Writes a TCP header with `etherparse::TcpHeader::to_bytes`.
///
/// Trusted: for a header without options the call returns twenty octets:
/// the numbers big-endian, a data offset of five words, the control bits,
/// the checksum as given and a zero urgent pointer.
#[verifier::external_body]
fn write_tcp_header(f: &TcpFields, checksum: u16) -> (r: Vec<u8>)
    ensures
        r@ == tcp_header_layout(*f, checksum),
{
    let (from, to) = (f.source_port, f.destination_port);
    let mut header = etherparse::TcpHeader::new(from, to, f.sequence_number, f.window_size);
    header.acknowledgment_number = f.acknowledgment_number;
    header.syn = f.syn;
    header.ack = f.ack;
    header.fin = f.fin;
    header.checksum = checksum;
    header.to_bytes().to_vec()
}

/// Where the payload starts in a packet whose two headers are complete.
pub open spec fn payload_offset(s: Seq<u8>) -> int {
    ipv4_header_len(s) + tcp_header_len(s.subrange(ipv4_header_len(s), s.len() as int))
}

/// The segment carried by a packet whose two headers are complete.
pub open spec fn segment_of(s: Seq<u8>) -> Segment {
    let f = tcp_fields_of(s.subrange(ipv4_header_len(s), s.len() as int));
    Segment {
        quad: ConnectionQuad {
            source: Location { address: be32(s, 12) as u32, port: f.source_port },
            destination: Location { address: be32(s, 16) as u32, port: f.destination_port },
        },
        sequence_number: f.sequence_number,
        acknowledgment_number: f.acknowledgment_number,
        syn: f.syn,
        ack: f.ack,
        fin: f.fin,
        window_size: f.window_size,
        payload_len: (s.len() - payload_offset(s)) as u16,
    }
}

/// The segment that the packet `s` carries, or why it carries none.
pub open spec fn decoded(s: Seq<u8>) -> Result<Segment, DecodeError> {
    if s.len() > MAX_PACKET_LEN || !ipv4_header_ok(s) {
        Err(DecodeError::InvalidIPv4)
    } else if s[9] != PROTOCOL_TCP {
        Err(DecodeError::NotTcp)
    } else if !tcp_header_ok(s.subrange(ipv4_header_len(s), s.len() as int)) {
        Err(DecodeError::InvalidTCP)
    } else {
        Ok(segment_of(s))
    }
}

/// The header fields that a segment is written with.
pub open spec fn fields_of(seg: Segment) -> TcpFields {
    TcpFields {
        source_port: seg.quad.source.port,
        destination_port: seg.quad.destination.port,
        sequence_number: seg.sequence_number,
        acknowledgment_number: seg.acknowledgment_number,
        syn: seg.syn,
        ack: seg.ack,
        fin: seg.fin,
        window_size: seg.window_size,
    }
}

/// The IPv4 header of the packet that carries `seg` with `payload`.
pub open spec fn encoded_ipv4_header(seg: Segment, payload: Seq<u8>) -> Seq<u8> {
    let source = seg.quad.source.spec_octets();
    let destination = seg.quad.destination.spec_octets();
    let len = (payload.len() + MIN_HEADER_LEN) as u16;
    ipv4_header_layout(
        len,
        DEFAULT_TTL,
        PROTOCOL_TCP,
        source,
        destination,
        ipv4_header_checksum(len, DEFAULT_TTL, PROTOCOL_TCP, source, destination),
    )
}

/// The TCP header of the packet that carries `seg` with `payload`.
pub open spec fn encoded_tcp_header(seg: Segment, payload: Seq<u8>) -> Seq<u8> {
    tcp_header_layout(
        fields_of(seg),
        tcp_checksum(
            seg.quad.source.port,
            seg.quad.destination.port,
            seg.sequence_number,
            seg.acknowledgment_number,
            seg.syn,
            seg.ack,
            seg.fin,
            seg.window_size,
            seg.quad.source.spec_octets(),
            seg.quad.destination.spec_octets(),
            payload,
        ),
    )
}

/// The packet that carries `seg` with `payload`: the two headers, then the
/// payload. The segment's own `payload_len` plays no part; the length of
/// `payload` does.
pub open spec fn encoded(seg: Segment, payload: Seq<u8>) -> Seq<u8> {
    encoded_ipv4_header(seg, payload) + encoded_tcp_header(seg, payload) + payload
}

/// Reads the segment that a packet carries.
///
/// A packet longer than an IPv4 packet can be, or without a complete IPv4
/// header, is `InvalidIPv4`; one of another protocol is `NotTcp`; one
/// whose TCP header is incomplete is `InvalidTCP`. Otherwise the result is
/// the segment and the offset at which its payload starts; the payload
/// runs to the end of the packet.
pub fn decode_segment(bytes: &[u8]) -> (r: Result<(Segment, usize), DecodeError>)
    ensures
        match r {
            Ok((segment, offset)) => {
                &&& decoded(bytes@) == Ok::<Segment, DecodeError>(segment)
                &&& offset == payload_offset(bytes@)
                &&& offset + segment.payload_len == bytes@.len()
            },
            Err(e) => decoded(bytes@) == Err::<Segment, DecodeError>(e),
        },
{
    if bytes.len() > MAX_PACKET_LEN {
        return Err(DecodeError::InvalidIPv4);
    }
    let ip = match parse_ipv4_header(bytes) {
        Some(ip) => ip,
        None => {
            return Err(DecodeError::InvalidIPv4);
        },
    };
    if ip.protocol != PROTOCOL_TCP {
        return Err(DecodeError::NotTcp);
    }
    let rest = slice_subrange(bytes, ip.header_len, bytes.len());
    let (tcp, tcp_header_len) = match parse_tcp_header(rest) {
        Some(parsed) => parsed,
        None => {
            return Err(DecodeError::InvalidTCP);
        },
    };
    let source = Location::from_octets(
        ip.source[0],
        ip.source[1],
        ip.source[2],
        ip.source[3],
        tcp.source_port,
    );
    let destination = Location::from_octets(
        ip.destination[0],
        ip.destination[1],
        ip.destination[2],
        ip.destination[3],
        tcp.destination_port,
    );
    proof {
        let s = bytes@;
        assert(ip.source@[0] == s[12] && ip.source@[1] == s[13] && ip.source@[2] == s[14]
            && ip.source@[3] == s[15]);
        assert(ip.destination@[0] == s[16] && ip.destination@[1] == s[17] && ip.destination@[2]
            == s[18] && ip.destination@[3] == s[19]);
    }
    let offset = ip.header_len + tcp_header_len;
    let segment = Segment {
        quad: ConnectionQuad { source, destination },
        sequence_number: tcp.sequence_number,
        acknowledgment_number: tcp.acknowledgment_number,
        syn: tcp.syn,
        ack: tcp.ack,
        fin: tcp.fin,
        window_size: tcp.window_size,
        payload_len: (bytes.len() - offset) as u16,
    };
    Ok((segment, offset))
}

/// Joins two headers and a payload into one packet.
pub fn assemble_packet(ipv4_header: Vec<u8>, tcp_header: &Vec<u8>, payload: &[u8]) -> (r: Vec<u8>)
    ensures
        r@ == ipv4_header@ + tcp_header@ + payload@,
{
    let mut packet = ipv4_header;
    packet.extend_from_slice(tcp_header.as_slice());
    packet.extend_from_slice(payload);
    packet
}

/// Writes the packet that carries `segment` with `payload`.
///
/// The packet goes from the segment's source to its destination. It is
/// written exactly when the payload leaves room for the two headers in an
/// IPv4 packet.
pub fn encode_segment(segment: &Segment, payload: &[u8]) -> (r: Option<Vec<u8>>)
    ensures
        r.is_some() <==> payload@.len() <= MAX_PAYLOAD_LEN,
        r matches Some(packet) ==> packet@ == encoded(*segment, payload@),
{
    if payload.len() > MAX_PAYLOAD_LEN {
        return None;
    }
    let source = segment.quad.source.octets();
    let destination = segment.quad.destination.octets();
    let fields = TcpFields {
        source_port: segment.quad.source.port,
        destination_port: segment.quad.destination.port,
        sequence_number: segment.sequence_number,
        acknowledgment_number: segment.acknowledgment_number,
        syn: segment.syn,
        ack: segment.ack,
        fin: segment.fin,
        window_size: segment.window_size,
    };
    let tcp_len: u16 = (payload.len() + MIN_HEADER_LEN) as u16;
    let ipv4_header = write_ipv4_header(tcp_len, DEFAULT_TTL, PROTOCOL_TCP, source, destination);
    let checksum = compute_tcp_checksum(&fields, source, destination, payload);
    match (ipv4_header, checksum) {
        (Some(ipv4_header), Some(checksum)) => {
            let tcp_header = write_tcp_header(&fields, checksum);
            Some(assemble_packet(ipv4_header, &tcp_header, payload))
        },
        _ => None,
    }
}

} // verus!
