//! Reading a packet back gives what was written.

use vstd::prelude::*;
use crate::codec::{
    be16, be16_octets, be32, be32_octets, decoded, encoded, encoded_ipv4_header,
    encoded_tcp_header, fields_of, flag_octet, ipv4_header_len, ipv4_header_ok, payload_offset,
    tcp_fields_of, tcp_header_len, tcp_header_ok, DecodeError, MAX_PAYLOAD_LEN, PROTOCOL_TCP,
};
use crate::segment::{Location, Segment};

verus! {

/// A 16-bit number is read back from its big-endian octets.
pub proof fn lemma_be16_round_trip(x: u16)
    ensures
        be16_octets(x).len() == 2,
        be16(be16_octets(x), 0) == x,
{
}

/// A 32-bit number is read back from its big-endian octets.
pub proof fn lemma_be32_round_trip(x: u32)
    ensures
        be32_octets(x).len() == 4,
        be32(be32_octets(x), 0) == x,
{
}

/// An address is read back from its octets.
pub proof fn lemma_octets_round_trip(l: Location)
    ensures
        l.spec_octets().len() == 4,
        be32(l.spec_octets(), 0) == l.address,
{
}

/// The three control bits are read back from their octet.
pub proof fn lemma_flag_octet_round_trip(syn: bool, ack: bool, fin: bool)
    ensures
        0 <= flag_octet(syn, ack, fin) < 256,
        (flag_octet(syn, ack, fin) / 2) % 2 == 1 <==> syn,
        (flag_octet(syn, ack, fin) / 16) % 2 == 1 <==> ack,
        flag_octet(syn, ack, fin) % 2 == 1 <==> fin,
{
}

/// The IPv4 header that is written is twenty octets long, of version 4,
/// names TCP and carries the segment's two addresses.
pub proof fn lemma_written_ipv4_header(seg: Segment, payload: Seq<u8>)
    requires
        payload.len() <= MAX_PAYLOAD_LEN,
    ensures
        encoded_ipv4_header(seg, payload).len() == 20,
        ipv4_header_ok(encoded_ipv4_header(seg, payload)),
        ipv4_header_len(encoded_ipv4_header(seg, payload)) == 20,
        encoded_ipv4_header(seg, payload)[9] == PROTOCOL_TCP,
        be16(encoded_ipv4_header(seg, payload), 2) == payload.len() + 40,
        be32(encoded_ipv4_header(seg, payload), 12) == seg.quad.source.address,
        be32(encoded_ipv4_header(seg, payload), 16) == seg.quad.destination.address,
{
    let h = encoded_ipv4_header(seg, payload);
    let src = seg.quad.source.spec_octets();
    let dst = seg.quad.destination.spec_octets();
    lemma_octets_round_trip(seg.quad.source);
    lemma_octets_round_trip(seg.quad.destination);
    assert(h.len() == 20);
    assert(h[0] == 0x45u8);
    assert(h[9] == PROTOCOL_TCP);
    assert(h[12] == src[0] && h[13] == src[1] && h[14] == src[2] && h[15] == src[3]);
    assert(h[16] == dst[0] && h[17] == dst[1] && h[18] == dst[2] && h[19] == dst[3]);
    let total = (payload.len() + 20) as u16;
    assert(h[2] == be16_octets((total + 20) as u16)[0]);
    assert(h[3] == be16_octets((total + 20) as u16)[1]);
}

/// The TCP header that is written is twenty octets long and carries the
/// segment's fields.
pub proof fn lemma_written_tcp_header(seg: Segment, payload: Seq<u8>)
    ensures
        encoded_tcp_header(seg, payload).len() == 20,
        tcp_header_ok(encoded_tcp_header(seg, payload) + payload),
        tcp_header_len(encoded_tcp_header(seg, payload) + payload) == 20,
        tcp_fields_of(encoded_tcp_header(seg, payload) + payload) == fields_of(seg),
{
    let h = encoded_tcp_header(seg, payload);
    let f = fields_of(seg);
    let s = h + payload;
    assert(h.len() == 20);
    lemma_be16_round_trip(f.source_port);
    lemma_be16_round_trip(f.destination_port);
    lemma_be16_round_trip(f.window_size);
    lemma_be32_round_trip(f.sequence_number);
    lemma_be32_round_trip(f.acknowledgment_number);
    lemma_flag_octet_round_trip(f.syn, f.ack, f.fin);
    assert(s[0] == be16_octets(f.source_port)[0] && s[1] == be16_octets(f.source_port)[1]);
    assert(s[2] == be16_octets(f.destination_port)[0] && s[3] == be16_octets(
        f.destination_port,
    )[1]);
    assert(s[4] == be32_octets(f.sequence_number)[0] && s[5] == be32_octets(f.sequence_number)[1]
        && s[6] == be32_octets(f.sequence_number)[2] && s[7] == be32_octets(
        f.sequence_number,
    )[3]);
    assert(s[8] == be32_octets(f.acknowledgment_number)[0] && s[9] == be32_octets(
        f.acknowledgment_number,
    )[1] && s[10] == be32_octets(f.acknowledgment_number)[2] && s[11] == be32_octets(
        f.acknowledgment_number,
    )[3]);
    assert(s[12] == 0x50u8);
    assert(s[13] == flag_octet(f.syn, f.ack, f.fin) as u8);
    assert(s[14] == be16_octets(f.window_size)[0] && s[15] == be16_octets(f.window_size)[1]);
    assert(be16(s, 0) == f.source_port);
    assert(be16(s, 2) == f.destination_port);
    assert(be32(s, 4) == f.sequence_number);
    assert(be32(s, 8) == f.acknowledgment_number);
    assert(be16(s, 14) == f.window_size);
}

/// Decoding a written packet gives back the segment, with the payload's
/// length as its `payload_len`, and finds the payload after forty octets
/// of headers.
pub proof fn lemma_decode_inverts_encode(seg: Segment, payload: Seq<u8>)
    requires
        payload.len() <= MAX_PAYLOAD_LEN,
    ensures
        encoded(seg, payload).len() == payload.len() + 40,
        decoded(encoded(seg, payload)) == Ok::<Segment, DecodeError>(
            Segment { payload_len: payload.len() as u16, ..seg },
        ),
        payload_offset(encoded(seg, payload)) == 40,
        encoded(seg, payload).subrange(40, encoded(seg, payload).len() as int) == payload,
{
    let ip = encoded_ipv4_header(seg, payload);
    let tcp = encoded_tcp_header(seg, payload);
    let e = encoded(seg, payload);
    lemma_written_ipv4_header(seg, payload);
    lemma_written_tcp_header(seg, payload);
    assert(e.len() == payload.len() + 40);
    assert(e.subrange(0, 20) =~= ip);
    assert(e[0] == ip[0] && e[9] == ip[9]);
    assert(e[12] == ip[12] && e[13] == ip[13] && e[14] == ip[14] && e[15] == ip[15]);
    assert(e[16] == ip[16] && e[17] == ip[17] && e[18] == ip[18] && e[19] == ip[19]);
    assert(ipv4_header_ok(e));
    assert(ipv4_header_len(e) == 20);
    assert(e.subrange(20, e.len() as int) =~= tcp + payload);
    assert(e.subrange(40, e.len() as int) =~= payload);
    assert(be32(e, 12) == seg.quad.source.address);
    assert(be32(e, 16) == seg.quad.destination.address);
}

} // verus!
