use pong::codec::PongInputState;
use pong::num::axis_q16;

#[test]
fn it_works() {
    assert_eq!(2 + 2, 4);
}

#[test]
fn encode_is_eight_bytes() {
    let s = PongInputState::new();
    assert_eq!(s.into_u8().len(), 8);
    let s = PongInputState { frame: 123456, input: 0.75f32.to_bits() };
    assert_eq!(s.into_u8().len(), 8);
}

#[test]
fn encode_layout_little_endian() {
    let s = PongInputState { frame: 1, input: 1.0f32.to_bits() };
    let bytes = s.into_u8();
    assert_eq!(bytes, vec![0x01, 0x00, 0x00, 0x00, 0x00, 0x00, 0x80, 0x3f]);
}

#[test]
fn round_trip_bit_identical() {
    let cases = [
        (0u32, 0.0f32),
        (1, 1.0),
        (7, 0.25),
        (u32::MAX, -1.0),
        (0xDEADBEEF, -0.000123),
        (60, f32::NAN),
    ];
    for (frame, x) in cases {
        let s = PongInputState { frame, input: x.to_bits() };
        let bytes = s.into_u8();
        let back = PongInputState::from_u8(&bytes);
        assert_eq!(back.frame, frame);
        assert_eq!(back.input, x.to_bits());
    }
}

#[test]
fn constructors() {
    let z = PongInputState::new();
    assert_eq!(z.frame, 0);
    assert_eq!(z.input, 0);
    let s = PongInputState::from_input(0.5f32.to_bits());
    assert_eq!(s.frame, 0);
    assert_eq!(s.input, 0.5f32.to_bits());
}

#[test]
fn axis_reads_exact_q16_values() {
    assert_eq!(axis_q16(0.0f32.to_bits()), 0);
    assert_eq!(axis_q16(1.0f32.to_bits()), 65536);
    assert_eq!(axis_q16((-1.0f32).to_bits()), -65536);
    assert_eq!(axis_q16(0.5f32.to_bits()), 32768);
    assert_eq!(axis_q16((-0.75f32).to_bits()), -49152);
    // out-of-range magnitudes saturate at one unit
    assert_eq!(axis_q16(2.0f32.to_bits()), 65536);
    assert_eq!(axis_q16((-100.0f32).to_bits()), -65536);
    // tiny magnitudes truncate to zero
    assert_eq!(axis_q16(1.0e-9f32.to_bits()), 0);
}
