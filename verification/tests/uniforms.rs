use minka_fx::scalar::Scalar;
use minka_fx::uniforms::{
    encode, encode_native, order_of_one, uniform_words, ByteOrder, Geometry, BORDER_ALPHA,
    BORDER_BLUE, BORDER_GREEN, BORDER_RED, BORDER_WIDTH, CORNER_RADIUS, FILL_ALPHA_FLOATING,
    FILL_ALPHA_TILING, FILL_BLUE, FILL_GREEN, FILL_RED,
};

fn s(x: f32) -> Scalar {
    Scalar { bits: x.to_bits() }
}

fn geometry() -> Geometry {
    Geometry { x: s(2.0), y: s(4.0), w: s(640.0), h: s(480.0), radius: s(20.0), border: s(4.0) }
}

#[test]
fn patterns_of_the_theme() {
    assert_eq!(BORDER_RED, 0.878f32.to_bits());
    assert_eq!(BORDER_GREEN, 0.149f32.to_bits());
    assert_eq!(BORDER_BLUE, 0.235f32.to_bits());
    assert_eq!(BORDER_ALPHA, 0.9f32.to_bits());
    assert_eq!(FILL_RED, 0.561f32.to_bits());
    assert_eq!(FILL_GREEN, 0.118f32.to_bits());
    assert_eq!(FILL_BLUE, 0.176f32.to_bits());
    assert_eq!(FILL_ALPHA_FLOATING, 0.16f32.to_bits());
    assert_eq!(FILL_ALPHA_TILING, 0.26f32.to_bits());
    assert_eq!(BORDER_WIDTH, 2.0f32.to_bits());
    assert_eq!(CORNER_RADIUS, 10.0f32.to_bits());
}

#[test]
fn colours_are_those_of_the_theme() {
    let byte = |bits: u32| (f32::from_bits(bits) * 255.0).round() as u8;
    assert_eq!([byte(BORDER_RED), byte(BORDER_GREEN), byte(BORDER_BLUE)], [0xe0, 0x26, 0x3c]);
    assert_eq!([byte(FILL_RED), byte(FILL_GREEN), byte(FILL_BLUE)], [0x8f, 0x1e, 0x2d]);
}

#[test]
fn words_stand_in_shader_order() {
    let expected = |fill: f32| -> Vec<u32> {
        [
            2.0, 4.0, 640.0, 480.0, 0.878, 0.149, 0.235, 0.9, 0.561, 0.118, 0.176, fill, 20.0, 0.5,
            4.0, 0.0f32,
        ]
        .iter()
        .map(|v| v.to_bits())
        .collect()
    };
    assert_eq!(uniform_words(geometry(), false, s(0.5)).to_vec(), expected(0.16));
    assert_eq!(uniform_words(geometry(), true, s(0.5)).to_vec(), expected(0.26));
}

#[test]
fn words_read_back_in_either_order() {
    let mut words = [0u32; 16];
    for (i, word) in words.iter_mut().enumerate() {
        *word = 0x0102_0304u32.wrapping_mul(i as u32 + 1) ^ 0xf0e1_0000;
    }
    let little = encode(&words, ByteOrder::Little);
    let big = encode(&words, ByteOrder::Big);
    for i in 0..16 {
        let at = |b: &[u8; 64]| [b[4 * i], b[4 * i + 1], b[4 * i + 2], b[4 * i + 3]];
        assert_eq!(u32::from_le_bytes(at(&little)), words[i]);
        assert_eq!(u32::from_be_bytes(at(&big)), words[i]);
    }
}

#[test]
fn native_bytes_are_the_machine_s_own() {
    let words = uniform_words(geometry(), true, s(0.25));
    let bytes = encode_native(&words);
    for i in 0..16 {
        assert_eq!(bytes[4 * i..4 * i + 4], f32::from_bits(words[i]).to_ne_bytes());
    }
}

#[test]
fn order_shows_in_the_number_one() {
    assert_eq!(order_of_one(&1u32.to_le_bytes()), ByteOrder::Little);
    assert_eq!(order_of_one(&1u32.to_be_bytes()), ByteOrder::Big);
}
