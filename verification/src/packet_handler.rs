//! Fixed-layout binary codec for one state snapshot.
//!
//! A packet is `PACKET_SIZE` bytes: a little-endian 32-bit length prefix
//! (always `OID_LENGTH`), the identifier bytes, the frame counter and the four
//! motion fields as little-endian 32-bit words, and one flag byte.

use vstd::prelude::*;
use vstd::bytes::{
    lemma_auto_spec_u32_to_from_le_bytes, spec_u32_from_le_bytes, spec_u32_to_le_bytes,
    u32_from_le_bytes, u32_to_le_bytes,
};
use vstd::slice::{slice_subrange, slice_to_vec};
use vstd::utf8::{
    decode_utf8, decode_utf8_encode_utf8, encode_utf8, encode_utf8_decode_utf8,
    encode_utf8_valid_utf8, valid_utf8,
};
use crate::error::NetError;

verus! {

/// Byte length of a peer identifier on the wire.
pub const OID_LENGTH: usize = 32;

/// Byte length of every snapshot packet.
pub const PACKET_SIZE: usize = 4 + OID_LENGTH + 4 + 4 + 4 + 4 + 4 + 1;

/// One peer's state at one tick.  The motion fields hold the bit patterns of
/// IEEE-754 single-precision numbers, which is what travels on the wire.
#[derive(Debug, Clone, PartialEq, Eq)]
pub struct GameState {
    pub oid: String,
    pub frame: u32,
    pub x_bits: u32,
    pub y_bits: u32,
    pub vx_bits: u32,
    pub vy_bits: u32,
    pub is_jumping: bool,
}

/// The mathematical value of a [`GameState`].
pub struct Snapshot {
    pub oid: Seq<char>,
    pub frame: u32,
    pub x_bits: u32,
    pub y_bits: u32,
    pub vx_bits: u32,
    pub vy_bits: u32,
    pub is_jumping: bool,
}

impl View for GameState {
    type V = Snapshot;

    open spec fn view(&self) -> Snapshot {
        Snapshot {
            oid: self.oid@,
            frame: self.frame,
            x_bits: self.x_bits,
            y_bits: self.y_bits,
            vx_bits: self.vx_bits,
            vy_bits: self.vy_bits,
            is_jumping: self.is_jumping,
        }
    }
}

/// A snapshot ready for the wire.
#[derive(Debug, Clone, PartialEq, Eq)]
pub struct GameStatePacket(pub GameState);

/// A snapshot can be encoded exactly when its identifier takes `OID_LENGTH`
/// bytes in UTF-8.
pub open spec fn encodable(s: Snapshot) -> bool {
    encode_utf8(s.oid).len() == OID_LENGTH
}

/// The byte that stands for a flag on the wire.
pub open spec fn flag_byte(b: bool) -> u8 {
    if b { 1u8 } else { 0u8 }
}

/// The packet that carries `s`.
pub open spec fn wire_image(s: Snapshot) -> Seq<u8> {
    spec_u32_to_le_bytes(32u32) + encode_utf8(s.oid) + spec_u32_to_le_bytes(s.frame)
        + spec_u32_to_le_bytes(s.x_bits) + spec_u32_to_le_bytes(s.y_bits)
        + spec_u32_to_le_bytes(s.vx_bits) + spec_u32_to_le_bytes(s.vy_bits)
        + seq![flag_byte(s.is_jumping)]
}

/// The snapshot that `b` carries, if it is a well-formed packet.
pub open spec fn parse_image(b: Seq<u8>) -> Option<Snapshot> {
    if b.len() != PACKET_SIZE {
        None
    } else if spec_u32_from_le_bytes(b.subrange(0, 4)) != 32u32 {
        None
    } else if !valid_utf8(b.subrange(4, 36)) {
        None
    } else if b[56] > 1u8 {
        None
    } else {
        Some(
            Snapshot {
                oid: decode_utf8(b.subrange(4, 36)),
                frame: spec_u32_from_le_bytes(b.subrange(36, 40)),
                x_bits: spec_u32_from_le_bytes(b.subrange(40, 44)),
                y_bits: spec_u32_from_le_bytes(b.subrange(44, 48)),
                vx_bits: spec_u32_from_le_bytes(b.subrange(48, 52)),
                vy_bits: spec_u32_from_le_bytes(b.subrange(52, 56)),
                is_jumping: b[56] == 1u8,
            },
        )
    }
}

/// Calls `String::from_utf8`.  The standard library returns the string made
/// of exactly these bytes when they are valid UTF-8, and an error otherwise;
/// the error is mapped to `None`.
#[verifier::external_body]
pub(crate) fn string_from_utf8(bytes: Vec<u8>) -> (res: Option<String>)
    ensures
        res is Some <==> valid_utf8(bytes@),
        res is Some ==> res->0@ == decode_utf8(bytes@),
{
    String::from_utf8(bytes).ok()
}

impl GameStatePacket {
    /// Encodes the snapshot, or rejects it when its identifier is not
    /// `OID_LENGTH` bytes long.
    pub fn to_bytes(&self) -> (res: Result<Vec<u8>, NetError>)
        ensures
            encodable(self.0@) ==> res is Ok && res->Ok_0@ == wire_image(self.0@),
            !encodable(self.0@) ==> res == Err::<Vec<u8>, NetError>(NetError::Serialization),
            res is Ok ==> res->Ok_0@.len() == PACKET_SIZE,
    {
        Self::encode(&self.0)
    }

    /// Encodes a snapshot without taking it over.
    pub fn encode(state: &GameState) -> (res: Result<Vec<u8>, NetError>)
        ensures
            encodable(state@) ==> res is Ok && res->Ok_0@ == wire_image(state@),
            !encodable(state@) ==> res == Err::<Vec<u8>, NetError>(NetError::Serialization),
            res is Ok ==> res->Ok_0@.len() == PACKET_SIZE,
    {
        let id = state.oid.as_str().as_bytes();
        if id.len() != OID_LENGTH {
            return Err(NetError::Serialization);
        }
        proof {
            lemma_auto_spec_u32_to_from_le_bytes();
        }
        let mut out = u32_to_le_bytes(32u32);
        out.extend_from_slice(id);
        let frame = u32_to_le_bytes(state.frame);
        out.extend_from_slice(frame.as_slice());
        let x = u32_to_le_bytes(state.x_bits);
        out.extend_from_slice(x.as_slice());
        let y = u32_to_le_bytes(state.y_bits);
        out.extend_from_slice(y.as_slice());
        let vx = u32_to_le_bytes(state.vx_bits);
        out.extend_from_slice(vx.as_slice());
        let vy = u32_to_le_bytes(state.vy_bits);
        out.extend_from_slice(vy.as_slice());
        let flag: u8 = if state.is_jumping { 1u8 } else { 0u8 };
        out.push(flag);
        Ok(out)
    }

    /// Decodes one packet.  Fails, without panicking, on any input that is
    /// not a well-formed packet.
    pub fn from_bytes(bytes: &[u8]) -> (res: Result<GameStatePacket, NetError>)
        ensures
            match parse_image(bytes@) {
                Some(s) => res is Ok && res->Ok_0.0@ == s,
                None => res == Err::<GameStatePacket, NetError>(NetError::Serialization),
            },
    {
        if bytes.len() != PACKET_SIZE {
            return Err(NetError::Serialization);
        }
        let prefix = u32_from_le_bytes(slice_subrange(bytes, 0, 4));
        if prefix != 32u32 {
            return Err(NetError::Serialization);
        }
        let id = slice_to_vec(slice_subrange(bytes, 4, 36));
        let oid = match string_from_utf8(id) {
            Some(oid) => oid,
            None => {
                return Err(NetError::Serialization);
            },
        };
        let flag = bytes[56];
        if flag > 1u8 {
            return Err(NetError::Serialization);
        }
        let state = GameState {
            oid,
            frame: u32_from_le_bytes(slice_subrange(bytes, 36, 40)),
            x_bits: u32_from_le_bytes(slice_subrange(bytes, 40, 44)),
            y_bits: u32_from_le_bytes(slice_subrange(bytes, 44, 48)),
            vx_bits: u32_from_le_bytes(slice_subrange(bytes, 48, 52)),
            vy_bits: u32_from_le_bytes(slice_subrange(bytes, 52, 56)),
            is_jumping: flag == 1u8,
        };
        Ok(GameStatePacket(state))
    }
}

/// Decoding undoes encoding: every encodable snapshot is read back from its
/// packet unchanged.
pub proof fn lemma_decode_inverts_encode(s: Snapshot)
    requires
        encodable(s),
    ensures
        wire_image(s).len() == PACKET_SIZE,
        parse_image(wire_image(s)) == Some(s),
{
    lemma_auto_spec_u32_to_from_le_bytes();
    encode_utf8_valid_utf8(s.oid);
    encode_utf8_decode_utf8(s.oid);
    let b = wire_image(s);
    assert(b.subrange(0, 4) =~= spec_u32_to_le_bytes(32u32));
    assert(b.subrange(4, 36) =~= encode_utf8(s.oid));
    assert(b.subrange(36, 40) =~= spec_u32_to_le_bytes(s.frame));
    assert(b.subrange(40, 44) =~= spec_u32_to_le_bytes(s.x_bits));
    assert(b.subrange(44, 48) =~= spec_u32_to_le_bytes(s.y_bits));
    assert(b.subrange(48, 52) =~= spec_u32_to_le_bytes(s.vx_bits));
    assert(b.subrange(52, 56) =~= spec_u32_to_le_bytes(s.vy_bits));
}

/// Encoding undoes decoding: a well-formed packet is the image of the
/// snapshot it carries, so no two packets carry the same snapshot.
pub proof fn lemma_encode_inverts_decode(b: Seq<u8>)
    requires
        parse_image(b) is Some,
    ensures
        encodable(parse_image(b)->0),
        wire_image(parse_image(b)->0) == b,
{
    lemma_auto_spec_u32_to_from_le_bytes();
    decode_utf8_encode_utf8(b.subrange(4, 36));
    let s = parse_image(b)->0;
    assert(wire_image(s) =~= b.subrange(0, 4) + b.subrange(4, 36) + b.subrange(36, 40)
        + b.subrange(40, 44) + b.subrange(44, 48) + b.subrange(48, 52) + b.subrange(52, 56)
        + seq![b[56]]);
}

} // verus!
