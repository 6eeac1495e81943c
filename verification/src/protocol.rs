//! The wire format between sensor and backend.
//!
//! The firmware sends every accelerometer sample as twelve bytes: the three
//! axes x, y and z, each an IEEE-754 single-precision value in
//! little-endian byte order. The backend reads frames of twelve bytes and
//! takes them as the rotation of the client's shape. Floating-point values
//! cross this module only as their bit patterns.

use vstd::prelude::*;

verus! {

/// Length in bytes of one sample on the wire.
pub const FRAME_LEN: usize = 12;

/// The bit patterns (as given by `f32::to_bits`) of the three axes of a
/// sample or rotation.
#[derive(Debug, Clone, Copy, PartialEq, Eq, Structural)]
pub struct AxisBits {
    pub x: u32,
    pub y: u32,
    pub z: u32,
}

impl AxisBits {
    /// All three axes zero (positive zero), as a freshly seen client starts.
    pub open spec fn spec_zero() -> AxisBits {
        AxisBits { x: 0, y: 0, z: 0 }
    }

    /// The rotation of a client that has not sent anything yet.
    pub fn zero() -> (r: AxisBits)
        ensures
            r == AxisBits::spec_zero(),
    {
        AxisBits { x: 0, y: 0, z: 0 }
    }
}

/// The little-endian value of the four bytes of `s` from `at` on.
pub open spec fn le_word(s: Seq<u8>, at: int) -> int {
    s[at] + 256 * s[at + 1] + 65536 * s[at + 2] + 16777216 * s[at + 3]
}

/// The `i`-th byte (least significant first) of `x`.
pub open spec fn le_byte(x: u32, i: int) -> u8 {
    ((x as int / pow256(i)) % 256) as u8
}

/// 256 to the power `i`, for the four byte positions of a word.
pub open spec fn pow256(i: int) -> int {
    if i == 0 {
        1
    } else if i == 1 {
        256
    } else if i == 2 {
        65536
    } else {
        16777216
    }
}

/// The twelve bytes of a frame carrying `s`: x, y, z, each little-endian.
pub open spec fn spec_encode(s: AxisBits) -> Seq<u8> {
    seq![
        le_byte(s.x, 0), le_byte(s.x, 1), le_byte(s.x, 2), le_byte(s.x, 3),
        le_byte(s.y, 0), le_byte(s.y, 1), le_byte(s.y, 2), le_byte(s.y, 3),
        le_byte(s.z, 0), le_byte(s.z, 1), le_byte(s.z, 2), le_byte(s.z, 3),
    ]
}

/// The axes a frame carries.
pub open spec fn spec_decode(f: Seq<u8>) -> AxisBits {
    AxisBits { x: le_word(f, 0) as u32, y: le_word(f, 4) as u32, z: le_word(f, 8) as u32 }
}

fn word_to_le(x: u32) -> (b: (u8, u8, u8, u8))
    ensures
        b.0 == le_byte(x, 0),
        b.1 == le_byte(x, 1),
        b.2 == le_byte(x, 2),
        b.3 == le_byte(x, 3),
{
    let w0 = x & 0xff;
    let w1 = (x >> 8) & 0xff;
    let w2 = (x >> 16) & 0xff;
    let w3 = (x >> 24) & 0xff;
    assert(w0 == x % 256 && w1 == (x / 256) % 256 && w2 == (x / 65536) % 256 && w3 == (x / 16777216) % 256
        && w0 < 256 && w1 < 256 && w2 < 256 && w3 < 256) by (bit_vector)
        requires
            w0 == x & 0xff,
            w1 == (x >> 8) & 0xff,
            w2 == (x >> 16) & 0xff,
            w3 == (x >> 24) & 0xff;
    (w0 as u8, w1 as u8, w2 as u8, w3 as u8)
}

fn le_to_word(b0: u8, b1: u8, b2: u8, b3: u8) -> (x: u32)
    ensures
        x == b0 + 256 * b1 + 65536 * b2 + 16777216 * b3,
{
    let w0 = b0 as u32;
    let w1 = b1 as u32;
    let w2 = b2 as u32;
    let w3 = b3 as u32;
    let x = w0 | (w1 << 8) | (w2 << 16) | (w3 << 24);
    assert(x == w0 + 256 * w1 + 65536 * w2 + 16777216 * w3) by (bit_vector)
        requires
            x == w0 | (w1 << 8) | (w2 << 16) | (w3 << 24),
            w0 < 256,
            w1 < 256,
            w2 < 256,
            w3 < 256;
    x
}

/// The frame the firmware sends for a sample: `x.to_le_bytes()`, then
/// `y.to_le_bytes()`, then `z.to_le_bytes()`.
pub fn encode_sample(s: AxisBits) -> (f: [u8; 12])
    ensures
        f@ == spec_encode(s),
{
    let (x0, x1, x2, x3) = word_to_le(s.x);
    let (y0, y1, y2, y3) = word_to_le(s.y);
    let (z0, z1, z2, z3) = word_to_le(s.z);
    let f = [x0, x1, x2, x3, y0, y1, y2, y3, z0, z1, z2, z3];
    assert(f@ =~= spec_encode(s));
    f
}

/// The axes of a frame as the backend reads them: bytes 0..4, 4..8 and
/// 8..12, each as a little-endian word.
pub fn decode_frame(f: &[u8; 12]) -> (s: AxisBits)
    ensures
        s == spec_decode(f@),
{
    let x = le_to_word(f[0], f[1], f[2], f[3]);
    let y = le_to_word(f[4], f[5], f[6], f[7]);
    let z = le_to_word(f[8], f[9], f[10], f[11]);
    AxisBits { x, y, z }
}

/// Whether the single-precision value with these bits is finite, that is
/// neither infinite nor NaN: its exponent field is not all ones.
pub open spec fn spec_is_finite_bits(bits: u32) -> bool {
    bits & 0x7f80_0000 != 0x7f80_0000
}

/// `f32::from_bits(bits).is_finite()`, decided on the bits.
pub fn is_finite_bits(bits: u32) -> (r: bool)
    ensures
        r == spec_is_finite_bits(bits),
{
    bits & 0x7f80_0000 != 0x7f80_0000
}

/// All three axes are finite.
pub open spec fn spec_all_finite(s: AxisBits) -> bool {
    spec_is_finite_bits(s.x) && spec_is_finite_bits(s.y) && spec_is_finite_bits(s.z)
}

/// Reads a frame and keeps it only if all three axes are finite; a frame
/// with an infinite or NaN axis is dropped.
pub fn checked_decode_frame(f: &[u8; 12]) -> (r: Option<AxisBits>)
    ensures
        r == (if spec_all_finite(spec_decode(f@)) { Some(spec_decode(f@)) } else { None::<AxisBits> }),
{
    let s = decode_frame(f);
    if is_finite_bits(s.x) && is_finite_bits(s.y) && is_finite_bits(s.z) {
        Some(s)
    } else {
        None
    }
}

/// Decoding a frame gives back the sample it was encoded from.
pub proof fn lemma_decode_encode(s: AxisBits)
    ensures
        spec_decode(spec_encode(s)) == s,
{
    lemma_word_roundtrip(s.x);
    lemma_word_roundtrip(s.y);
    lemma_word_roundtrip(s.z);
}

/// Encoding the sample read from a frame gives back the frame.
pub proof fn lemma_encode_decode(f: Seq<u8>)
    requires
        f.len() == FRAME_LEN,
    ensures
        spec_encode(spec_decode(f)) == f,
{
    lemma_bytes_roundtrip(f[0], f[1], f[2], f[3]);
    lemma_bytes_roundtrip(f[4], f[5], f[6], f[7]);
    lemma_bytes_roundtrip(f[8], f[9], f[10], f[11]);
    assert(spec_encode(spec_decode(f)) =~= f);
}

proof fn lemma_word_roundtrip(x: u32)
    ensures
        le_byte(x, 0) + 256 * le_byte(x, 1) + 65536 * le_byte(x, 2) + 16777216 * le_byte(x, 3) == x,
{
    assert(x % 256 + 256 * ((x / 256) % 256) + 65536 * ((x / 65536) % 256) + 16777216 * ((x / 16777216) % 256) == x)
        by (bit_vector);
}

proof fn lemma_bytes_roundtrip(b0: u8, b1: u8, b2: u8, b3: u8)
    ensures
        ({
            let x = (b0 + 256 * b1 + 65536 * b2 + 16777216 * b3) as u32;
            le_byte(x, 0) == b0 && le_byte(x, 1) == b1 && le_byte(x, 2) == b2 && le_byte(x, 3) == b3
        }),
{
    let w0 = b0 as u32;
    let w1 = b1 as u32;
    let w2 = b2 as u32;
    let w3 = b3 as u32;
    let x = (b0 + 256 * b1 + 65536 * b2 + 16777216 * b3) as u32;
    assert(x == w0 + 256 * w1 + 65536 * w2 + 16777216 * w3);
    assert(x % 256 == w0 && (x / 256) % 256 == w1 && (x / 65536) % 256 == w2 && (x / 16777216) % 256 == w3)
        by (bit_vector)
        requires
            x == w0 + 256 * w1 + 65536 * w2 + 16777216 * w3,
            w0 < 256,
            w1 < 256,
            w2 < 256,
            w3 < 256;
}

} // verus!
