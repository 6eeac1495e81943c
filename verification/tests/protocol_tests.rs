use embedded_workshop::protocol::{checked_decode_frame, decode_frame, encode_sample, is_finite_bits, AxisBits, FRAME_LEN};

fn bits(x: f32, y: f32, z: f32) -> AxisBits {
    AxisBits { x: x.to_bits(), y: y.to_bits(), z: z.to_bits() }
}

#[test]
fn frame_is_three_little_endian_floats() {
    let s = bits(1.0, -2.5, 0.125);
    let f = encode_sample(s);
    assert_eq!(f.len(), FRAME_LEN);
    assert_eq!(&f[0..4], &1.0f32.to_le_bytes());
    assert_eq!(&f[4..8], &(-2.5f32).to_le_bytes());
    assert_eq!(&f[8..12], &0.125f32.to_le_bytes());
}

#[test]
fn decode_reads_what_encode_wrote() {
    for s in [bits(0.0, 0.0, 0.0), bits(1.5, -0.75, 9.81), AxisBits { x: 0xdead_beef, y: 1, z: u32::MAX }] {
        assert_eq!(decode_frame(&encode_sample(s)), s);
    }
}

#[test]
fn encode_gives_back_the_frame() {
    let f: [u8; 12] = [1, 2, 3, 4, 5, 6, 7, 8, 9, 10, 11, 12];
    assert_eq!(encode_sample(decode_frame(&f)), f);
    assert_eq!(decode_frame(&f).x, 0x0403_0201);
}

#[test]
fn finiteness_on_bits_matches_f32() {
    for v in [0.0f32, -0.0, 1.0, f32::MAX, f32::MIN_POSITIVE, 1e-40, f32::INFINITY, f32::NEG_INFINITY, f32::NAN] {
        assert_eq!(is_finite_bits(v.to_bits()), v.is_finite());
    }
}

#[test]
fn frames_with_non_finite_axes_are_dropped() {
    assert_eq!(checked_decode_frame(&encode_sample(bits(1.0, 2.0, 3.0))), Some(bits(1.0, 2.0, 3.0)));
    assert_eq!(checked_decode_frame(&encode_sample(bits(f32::NAN, 2.0, 3.0))), None);
    assert_eq!(checked_decode_frame(&encode_sample(bits(1.0, f32::INFINITY, 3.0))), None);
    assert_eq!(checked_decode_frame(&encode_sample(bits(1.0, 2.0, f32::NEG_INFINITY))), None);
}
