//! Endpoints, connection identities and decoded segments.

use vstd::prelude::*;

verus! {

/// One endpoint of a connection: an IPv4 address and a port.
///
/// The address is the big-endian value of its four octets, so `10.0.0.1`
/// is `0x0A00_0001`.
#[derive(Clone, Copy, Debug, PartialEq, Eq, Hash, Structural)]
pub struct Location {
    pub address: u32,
    pub port: u16,
}

/// The value of the address whose octets, in network order, are `a.b.c.d`.
pub open spec fn address_of(a: u8, b: u8, c: u8, d: u8) -> int {
    ((a * 256 + b) * 256 + c) * 256 + d
}

impl Location {
    /// The endpoint `a.b.c.d:port`.
    pub fn from_octets(a: u8, b: u8, c: u8, d: u8, port: u16) -> (r: Location)
        ensures
            r.address == address_of(a, b, c, d),
            r.port == port,
    {
        let hi: u32 = (a as u32) * 256 + (b as u32);
        let mid: u32 = hi * 256 + (c as u32);
        Location { address: mid * 256 + (d as u32), port }
    }

    /// The four octets of the address, in network order.
    pub open spec fn spec_octets(self) -> Seq<u8> {
        seq![
            (self.address / 0x100_0000) as u8,
            ((self.address / 0x1_0000) % 256) as u8,
            ((self.address / 0x100) % 256) as u8,
            (self.address % 256) as u8,
        ]
    }

    /// The four octets of the address, in network order.
    pub fn octets(&self) -> (r: [u8; 4])
        ensures
            r@ == self.spec_octets(),
            address_of(r[0], r[1], r[2], r[3]) == self.address,
    {
        let a: u32 = self.address;
        [
            (a / 0x100_0000) as u8,
            ((a / 0x1_0000) % 256) as u8,
            ((a / 0x100) % 256) as u8,
            (a % 256) as u8,
        ]
    }
}

/// The identity of one connection as seen on an inbound segment: the
/// remote peer is the source, this engine the destination.
#[derive(Clone, Copy, Debug, PartialEq, Eq, Hash, Structural)]
pub struct ConnectionQuad {
    pub source: Location,
    pub destination: Location,
}

impl ConnectionQuad {
    /// The same connection seen from the other side.
    pub open spec fn spec_reversed(self) -> ConnectionQuad {
        ConnectionQuad { source: self.destination, destination: self.source }
    }

    /// The same connection seen from the other side: what an answer to a
    /// segment of this quad carries.
    pub fn reversed(&self) -> (r: ConnectionQuad)
        ensures
            r == self.spec_reversed(),
    {
        ConnectionQuad { source: self.destination, destination: self.source }
    }
}

/// A segment reduced to the header values the engine reasons about.
///
/// `payload_len` is the number of data octets that follow the header; the
/// octets themselves never reach the state machine.
#[derive(Clone, Copy, Debug, PartialEq, Eq, Structural)]
pub struct Segment {
    pub quad: ConnectionQuad,
    pub sequence_number: u32,
    pub acknowledgment_number: u32,
    pub syn: bool,
    pub ack: bool,
    pub fin: bool,
    pub window_size: u16,
    pub payload_len: u16,
}

impl Segment {
    /// How many sequence numbers the segment's data and FIN occupy.
    pub open spec fn spec_data_span(self) -> int {
        self.payload_len + if self.fin { 1int } else { 0int }
    }

    /// A segment that can start a connection: SYN without ACK.
    pub open spec fn spec_is_opening_syn(self) -> bool {
        self.syn && !self.ack
    }

    /// A segment that can start a connection: SYN without ACK.
    pub fn is_opening_syn(&self) -> (r: bool)
        ensures
            r == self.spec_is_opening_syn(),
    {
        self.syn && !self.ack
    }
}

} // verus!
