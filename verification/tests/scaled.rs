use cdis::scaled::{saturate_signed, saturate_unsigned};

#[test]
fn scaled_integer_saturates_to_its_field() {
    assert_eq!(saturate_signed(0, 16), 0);
    assert_eq!(saturate_signed(32767, 16), 32767);
    assert_eq!(saturate_signed(32768, 16), 32767);
    assert_eq!(saturate_signed(-32768, 16), -32768);
    assert_eq!(saturate_signed(-32769, 16), -32768);
    assert_eq!(saturate_signed(i64::MAX, 32), 0x7FFF_FFFF);
    assert_eq!(saturate_signed(i64::MIN, 32), -0x8000_0000);
    assert_eq!(saturate_signed(5, 1), 0);
    assert_eq!(saturate_signed(-5, 1), -1);
    assert_eq!(saturate_unsigned(-1, 8), 0);
    assert_eq!(saturate_unsigned(255, 8), 255);
    assert_eq!(saturate_unsigned(256, 8), 255);
    assert_eq!(saturate_unsigned(i64::MAX, 32), 0xFFFF_FFFF);
}

#[test]
fn scaled_round_trip_stays_within_one_unit() {
    // A velocity in metres per second, sent in decimetres per second in 16 bits.
    let scaling = 10.0f32;
    for value in [0.0f32, 0.04, 0.05, 1.26, -3.14159, 123.456, -3276.8, 3276.7] {
        let stored = saturate_signed((value * scaling).round() as i64, 16);
        let decoded = stored as f32 / scaling;
        assert!((decoded - value).abs() <= 1.0 / scaling, "{value} came back as {decoded}");
        // The stored integer survives another round exactly.
        assert_eq!(saturate_signed((decoded * scaling).round() as i64, 16), stored);
    }
    // Beyond the field the value is sent as the nearest end of the range.
    assert_eq!(saturate_signed((5000.0f32 * scaling).round() as i64, 16), 32767);
    assert_eq!(saturate_signed((-5000.0f32 * scaling).round() as i64, 16), -32768);
}
