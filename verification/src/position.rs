//! The 8-byte position payload: validation and (de)serialization.
//!
//! A coordinate travels on the wire as a little-endian 32-bit IEEE 754 float
//! constrained to the closed interval [0.0, 1.0]. The crate carries each
//! coordinate as its raw bit pattern, which makes both the range check and
//! the wire encoding exact integer logic: for non-negative floats the bit
//! pattern is monotone in the value, NaN and infinity patterns sit strictly
//! above the pattern of 1.0, and the only in-range pattern with the sign bit
//! set is -0.0.

use vstd::bytes::lemma_auto_spec_u32_to_from_le_bytes;
use vstd::bytes::spec_u32_from_le_bytes;
use vstd::bytes::spec_u32_to_le_bytes;
use vstd::bytes::u32_from_le_bytes;
use vstd::bytes::u32_to_le_bytes;
use vstd::prelude::*;
use vstd::slice::slice_subrange;

verus! {

/// Bit pattern of the IEEE 754 single-precision value 1.0.
pub const ONE_BITS: u32 = 0x3F80_0000;

/// Bit pattern of the IEEE 754 single-precision value -0.0.
pub const NEG_ZERO_BITS: u32 = 0x8000_0000;

/// A normalized 2D cursor position; each field is the bit pattern of one
/// little-endian 32-bit float coordinate, x then y on the wire.
#[derive(Clone, Copy, Debug, PartialEq, Eq, Structural)]
pub struct Position {
    pub x_bits: u32,
    pub y_bits: u32,
}

/// Why an inbound position payload was rejected.
#[derive(Clone, Copy, Debug, PartialEq, Eq, Structural)]
pub enum PositionError {
    /// The payload was not exactly 8 bytes long.
    BadMessageSize,
    /// A coordinate lies outside the closed interval [0.0, 1.0].
    OutOfBoundsFloats,
}

/// The bit patterns whose float value lies in [0.0, 1.0]: every non-negative
/// pattern up to that of 1.0, plus -0.0 (which compares equal to 0.0).
pub open spec fn component_in_range(bits: u32) -> bool {
    bits <= ONE_BITS || bits == NEG_ZERO_BITS
}

impl Position {
    /// Both coordinates lie in [0.0, 1.0].
    pub open spec fn wf(self) -> bool {
        component_in_range(self.x_bits) && component_in_range(self.y_bits)
    }

    /// The position (0.0, 0.0), given to every client at connect time.
    pub open spec fn origin() -> Position {
        Position { x_bits: 0, y_bits: 0 }
    }
}

/// Constructs the origin position (0.0, 0.0).
pub fn origin_position() -> (p: Position)
    ensures
        p == Position::origin(),
        p.wf(),
{
    Position { x_bits: 0, y_bits: 0 }
}

/// Maps -0.0 to 0.0; every other in-range pattern stands for itself.
pub open spec fn canon_bits(bits: u32) -> u32 {
    if bits == NEG_ZERO_BITS {
        0u32
    } else {
        bits
    }
}

/// Float equality of two in-range positions: bit equality up to -0.0 == 0.0.
pub open spec fn same_point(a: Position, b: Position) -> bool {
    canon_bits(a.x_bits) == canon_bits(b.x_bits) && canon_bits(a.y_bits) == canon_bits(b.y_bits)
}

/// Decides whether two positions denote the same point, under the float
/// comparison semantics of the wire format (-0.0 equals 0.0).
pub fn position_eq(a: &Position, b: &Position) -> (r: bool)
    ensures
        r == same_point(*a, *b),
{
    let ax: u32 = if a.x_bits == NEG_ZERO_BITS {
        0
    } else {
        a.x_bits
    };
    let ay: u32 = if a.y_bits == NEG_ZERO_BITS {
        0
    } else {
        a.y_bits
    };
    let bx: u32 = if b.x_bits == NEG_ZERO_BITS {
        0
    } else {
        b.x_bits
    };
    let by: u32 = if b.y_bits == NEG_ZERO_BITS {
        0
    } else {
        b.y_bits
    };
    ax == bx && ay == by
}

/// The 8-byte wire form of a position: x bits then y bits, little-endian.
pub open spec fn position_bytes(p: Position) -> Seq<u8> {
    spec_u32_to_le_bytes(p.x_bits) + spec_u32_to_le_bytes(p.y_bits)
}

/// What `decode_position` returns on any byte sequence.
pub open spec fn spec_decode_position(s: Seq<u8>) -> Result<Position, PositionError> {
    if s.len() != 8 {
        Err(PositionError::BadMessageSize)
    } else {
        let x = spec_u32_from_le_bytes(s.subrange(0, 4));
        let y = spec_u32_from_le_bytes(s.subrange(4, 8));
        if component_in_range(x) && component_in_range(y) {
            Ok(Position { x_bits: x, y_bits: y })
        } else {
            Err(PositionError::OutOfBoundsFloats)
        }
    }
}

/// Validates and decodes an inbound position payload: exactly 8 bytes, two
/// little-endian 32-bit float coordinates, each in [0.0, 1.0].
pub fn decode_position(b: &[u8]) -> (r: Result<Position, PositionError>)
    ensures
        r == spec_decode_position(b@),
        r matches Ok(p) ==> p.wf(),
{
    if b.len() != 8 {
        return Err(PositionError::BadMessageSize);
    }
    let xs: &[u8] = slice_subrange(b, 0, 4);
    let ys: &[u8] = slice_subrange(b, 4, 8);
    let x: u32 = u32_from_le_bytes(xs);
    let y: u32 = u32_from_le_bytes(ys);
    if (x <= ONE_BITS || x == NEG_ZERO_BITS) && (y <= ONE_BITS || y == NEG_ZERO_BITS) {
        Ok(Position { x_bits: x, y_bits: y })
    } else {
        Err(PositionError::OutOfBoundsFloats)
    }
}

/// Encodes a position into its 8-byte wire form.
pub fn encode_position(p: &Position) -> (r: Vec<u8>)
    ensures
        r@ == position_bytes(*p),
{
    let mut out: Vec<u8> = u32_to_le_bytes(p.x_bits);
    let mut tail: Vec<u8> = u32_to_le_bytes(p.y_bits);
    out.append(&mut tail);
    out
}

/// Round trip: decoding the encoding of any well-formed position yields that
/// position back exactly, -0.0 bit patterns included.
pub proof fn lemma_position_round_trip(p: Position)
    requires
        p.wf(),
    ensures
        spec_decode_position(position_bytes(p)) == Ok::<Position, PositionError>(p),
{
    lemma_auto_spec_u32_to_from_le_bytes();
    let s = position_bytes(p);
    assert(s.subrange(0, 4) =~= spec_u32_to_le_bytes(p.x_bits));
    assert(s.subrange(4, 8) =~= spec_u32_to_le_bytes(p.y_bits));
}

/// Rejection is exhaustive: a payload of the wrong length always fails with
/// `BadMessageSize`, and an 8-byte payload fails with `OutOfBoundsFloats`
/// exactly when one of its coordinates falls outside [0.0, 1.0].
pub proof fn lemma_decode_rejects(s: Seq<u8>)
    ensures
        s.len() != 8 ==> spec_decode_position(s) == Err::<Position, PositionError>(
            PositionError::BadMessageSize,
        ),
        s.len() == 8 ==> (spec_decode_position(s) == Err::<Position, PositionError>(
            PositionError::OutOfBoundsFloats,
        ) <==> !(component_in_range(spec_u32_from_le_bytes(s.subrange(0, 4)))
            && component_in_range(spec_u32_from_le_bytes(s.subrange(4, 8))))),
{
}

} // verus!
