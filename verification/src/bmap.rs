//! BMAP (Bose Multi-device Application Protocol) packet framing.
//!
//! Device-agnostic: handles only serialization and deserialization of the
//! fixed 4-byte header followed by a variable-length payload.
//!
//! Header layout:
//!   byte 0 — function block
//!   byte 1 — function
//!   byte 2 — device id (2 bit) | port num (2 bit) | operator (4 bit)
//!   byte 3 — payload length
use vstd::prelude::*;

verus! {

pub const OP_GET: u8 = 0x01;

pub const OP_SET_GET: u8 = 0x02;

pub const OP_STATUS: u8 = 0x03;

pub const OP_ERROR: u8 = 0x04;

pub const HEADER_SIZE: usize = 4;

/// Why a byte sequence is not a BMAP frame, or a payload is not a status.
#[derive(Debug, PartialEq, Eq, Structural)]
pub enum PacketError {
    /// `TooShort(have, need)`: fewer bytes than the minimum `need`.
    TooShort(usize, usize),
    /// `PayloadTruncated(have, need)`: the header announces `need` payload
    /// bytes but only `have` follow it.
    PayloadTruncated(usize, usize),
    /// A status payload was empty.
    EmptyPayload,
}

/// A BMAP packet: header fields and payload.
#[derive(Debug)]
pub struct Packet {
    pub function_block: u8,
    pub function: u8,
    pub device_id: u8,
    pub port_num: u8,
    pub operator: u8,
    pub payload: Vec<u8>,
}

/// Mathematical model of a [`Packet`].
pub struct PacketView {
    pub function_block: u8,
    pub function: u8,
    pub device_id: u8,
    pub port_num: u8,
    pub operator: u8,
    pub payload: Seq<u8>,
}

impl View for Packet {
    type V = PacketView;

    open spec fn view(&self) -> PacketView {
        PacketView {
            function_block: self.function_block,
            function: self.function,
            device_id: self.device_id,
            port_num: self.port_num,
            operator: self.operator,
            payload: self.payload@,
        }
    }
}

/// The third header byte: device id in bits 7-6, port number in bits 5-4,
/// operator in bits 3-0 (bits shifted past the byte are lost).
pub open spec fn dpo(device_id: u8, port_num: u8, operator: u8) -> u8 {
    (device_id << 6u8) | (port_num << 4u8) | (operator & 0x0Fu8)
}

/// The bytes of a frame: the four header bytes, then the payload. The length
/// byte is the payload length modulo 256.
pub open spec fn frame(function_block: u8, function: u8, dpo_byte: u8, payload: Seq<u8>) -> Seq<u8> {
    seq![function_block, function, dpo_byte, payload.len() as u8] + payload
}

impl PacketView {
    /// The serialized form of this packet.
    pub open spec fn bytes(self) -> Seq<u8> {
        frame(
            self.function_block,
            self.function,
            dpo(self.device_id, self.port_num, self.operator),
            self.payload,
        )
    }

    /// Every header field fits its bit width and the payload length fits the
    /// length byte, so that the packet survives serialization.
    pub open spec fn well_formed(self) -> bool {
        &&& self.device_id < 4
        &&& self.port_num < 4
        &&& self.operator < 16
        &&& self.payload.len() <= 255
    }
}

/// The packet that [`Packet::new`] builds: device id and port number 0.
pub open spec fn request(function_block: u8, function: u8, operator: u8, payload: Seq<u8>) -> PacketView {
    PacketView { function_block, function, device_id: 0, port_num: 0, operator, payload }
}

/// What parsing `data` yields.
pub open spec fn spec_parse(data: Seq<u8>) -> Result<PacketView, PacketError> {
    if data.len() < 4 {
        Err(PacketError::TooShort(data.len() as usize, 4))
    } else if data.len() < 4 + data[3] {
        Err(PacketError::PayloadTruncated((data.len() - 4) as usize, data[3] as usize))
    } else {
        Ok(
            PacketView {
                function_block: data[0],
                function: data[1],
                device_id: (data[2] >> 6u8) & 0x03u8,
                port_num: (data[2] >> 4u8) & 0x03u8,
                operator: data[2] & 0x0Fu8,
                payload: data.subrange(4, 4 + data[3]),
            },
        )
    }
}

/// The model of a parse result.
pub open spec fn parse_result_view(r: Result<Packet, PacketError>) -> Result<PacketView, PacketError> {
    match r {
        Ok(p) => Ok(p@),
        Err(e) => Err(e),
    }
}

impl Packet {
    pub fn new(function_block: u8, function: u8, operator: u8, payload: Vec<u8>) -> (p: Self)
        ensures
            p@ == request(function_block, function, operator, payload@),
    {
        Packet { function_block, function, device_id: 0, port_num: 0, operator, payload }
    }

    pub fn dpo_byte(&self) -> (b: u8)
        ensures
            b == dpo(self.device_id, self.port_num, self.operator),
    {
        (self.device_id << 6u8) | (self.port_num << 4u8) | (self.operator & 0x0Fu8)
    }

    pub fn to_bytes(&self) -> (buf: Vec<u8>)
        ensures
            buf@ == self@.bytes(),
    {
        let mut buf: Vec<u8> = Vec::new();
        buf.push(self.function_block);
        buf.push(self.function);
        buf.push(self.dpo_byte());
        buf.push(self.payload.len() as u8);
        let n = self.payload.len();
        let mut i: usize = 0;
        while i < n
            invariant
                n == self.payload@.len(),
                i <= n,
                buf@ == seq![
                    self.function_block,
                    self.function,
                    dpo(self.device_id, self.port_num, self.operator),
                    self.payload@.len() as u8,
                ] + self.payload@.take(i as int),
            decreases n - i,
        {
            buf.push(self.payload[i]);
            i = i + 1;
            assert(self.payload@.take(i as int) =~= self.payload@.take(i - 1).push(self.payload@[i - 1]));
        }
        assert(self.payload@.take(n as int) =~= self.payload@);
        buf
    }

    pub fn parse(data: &[u8]) -> (r: Result<Packet, PacketError>)
        ensures
            parse_result_view(r) == spec_parse(data@),
    {
        if data.len() < HEADER_SIZE {
            return Err(PacketError::TooShort(data.len(), HEADER_SIZE));
        }
        let payload_len = data[3] as usize;
        if data.len() < HEADER_SIZE + payload_len {
            return Err(PacketError::PayloadTruncated(data.len() - HEADER_SIZE, payload_len));
        }
        let mut payload: Vec<u8> = Vec::new();
        let mut i: usize = 0;
        while i < payload_len
            invariant
                i <= payload_len,
                payload_len == data@[3],
                HEADER_SIZE + payload_len <= data@.len(),
                payload@ == data@.subrange(4, 4 + i),
            decreases payload_len - i,
        {
            payload.push(data[HEADER_SIZE + i]);
            i = i + 1;
            assert(payload@ =~= data@.subrange(4, 4 + i));
        }
        Ok(
            Packet {
                function_block: data[0],
                function: data[1],
                device_id: (data[2] >> 6u8) & 0x03u8,
                port_num: (data[2] >> 4u8) & 0x03u8,
                operator: data[2] & 0x0Fu8,
                payload,
            },
        )
    }
}

proof fn lemma_header_byte(d: u8, p: u8, o: u8)
    requires
        d < 4,
        p < 4,
        o < 16,
    ensures
        (dpo(d, p, o) >> 6u8) & 0x03u8 == d,
        (dpo(d, p, o) >> 4u8) & 0x03u8 == p,
        dpo(d, p, o) & 0x0Fu8 == o,
{
    assert(((d << 6u8) | (p << 4u8) | (o & 0x0Fu8)) >> 6u8 & 0x03u8 == d) by (bit_vector)
        requires
            d < 4,
            p < 4,
            o < 16,
    ;
    assert(((d << 6u8) | (p << 4u8) | (o & 0x0Fu8)) >> 4u8 & 0x03u8 == p) by (bit_vector)
        requires
            d < 4,
            p < 4,
            o < 16,
    ;
    assert(((d << 6u8) | (p << 4u8) | (o & 0x0Fu8)) & 0x0Fu8 == o) by (bit_vector)
        requires
            d < 4,
            p < 4,
            o < 16,
    ;
}

/// Serializing a well-formed packet and parsing the bytes gives the packet back.
pub proof fn lemma_serialize_parse(p: PacketView)
    requires
        p.well_formed(),
    ensures
        spec_parse(p.bytes()) == Ok::<PacketView, PacketError>(p),
{
    lemma_header_byte(p.device_id, p.port_num, p.operator);
    let b = p.bytes();
    assert(b[3] == p.payload.len());
    assert(b.subrange(4, 4 + b[3]) =~= p.payload);
}

/// Parsing succeeds exactly on byte sequences of at least four bytes that hold
/// the whole payload announced by the length byte; a parsed packet is always
/// well formed, and serializing it gives back the bytes that it was parsed
/// from, up to the end of its payload.
pub proof fn lemma_parse_serialize(data: Seq<u8>)
    ensures
        spec_parse(data) is Ok <==> (data.len() >= 4 && data.len() >= 4 + data[3]),
        spec_parse(data) matches Ok(p) ==> p.well_formed() && p.bytes() == data.take(4 + data[3]),
{
    if data.len() >= 4 && data.len() >= 4 + data[3] {
        let p = spec_parse(data)->Ok_0;
        let b2 = data[2];
        assert((((b2 >> 6u8) & 0x03u8) << 6u8) | (((b2 >> 4u8) & 0x03u8) << 4u8) | ((b2
            & 0x0Fu8) & 0x0Fu8) == b2) by (bit_vector);
        assert(((b2 >> 6u8) & 0x03u8) < 4 && ((b2 >> 4u8) & 0x03u8) < 4 && (b2 & 0x0Fu8) < 16)
            by (bit_vector);
        assert(p.bytes() =~= data.take(4 + data[3]));
    }
}

} // verus!
