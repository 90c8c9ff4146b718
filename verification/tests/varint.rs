use cdis::bit_buffer::BitBuffer;
use cdis::error::CdisError;
use cdis::parsing::ParseCdis;
use cdis::types::{SVINT12, SVINT14, SVINT16, SVINT24, UVINT16, UVINT32, UVINT8};
use cdis::varint::{read_var, var_length, Ladder, VarInt};
use cdis::writing::{try_serialize, SerializeCdis};

#[test]
fn canonical_width_on_a_ladder_of_8_and_16() {
    let ladder = Ladder::new(false, &[8, 16]).unwrap();
    let small = VarInt::encode(ladder, 200);
    assert_eq!(small.width(), 8);
    assert_eq!(small.decode(), 200);
    let large = VarInt::encode(ladder, 1000);
    assert_eq!(large.width(), 16);
    assert_eq!(large.decode(), 1000);
}

#[test]
fn encode_picks_the_narrowest_rung() {
    let ladder = Ladder::uvint16();
    assert_eq!(VarInt::encode(ladder, 0).width(), 8);
    assert_eq!(VarInt::encode(ladder, 255).width(), 8);
    assert_eq!(VarInt::encode(ladder, 256).width(), 11);
    assert_eq!(VarInt::encode(ladder, 2047).width(), 11);
    assert_eq!(VarInt::encode(ladder, 2048).width(), 14);
    assert_eq!(VarInt::encode(ladder, 16383).width(), 14);
    assert_eq!(VarInt::encode(ladder, 16384).width(), 16);
    assert_eq!(VarInt::encode(ladder, 65535).width(), 16);
    let signed = Ladder::svint12();
    assert_eq!(VarInt::encode(signed, -4).width(), 3);
    assert_eq!(VarInt::encode(signed, 3).width(), 3);
    assert_eq!(VarInt::encode(signed, 4).width(), 6);
    assert_eq!(VarInt::encode(signed, -5).width(), 6);
    assert_eq!(VarInt::encode(signed, -2048).width(), 12);
}

#[test]
fn decode_of_encode_is_identity_within_range() {
    let ladder = Ladder::uvint8();
    for raw in 0..=255i64 {
        assert_eq!(VarInt::encode(ladder, raw).decode(), raw);
    }
    let ladder = Ladder::svint13();
    for raw in -4096..=4095i64 {
        let v = VarInt::encode(ladder, raw);
        assert_eq!(v.decode(), raw);
        assert!(v.is_valid());
    }
}

#[test]
fn encode_saturates_beyond_the_widest_rung() {
    assert_eq!(VarInt::encode(Ladder::uvint8(), 256).decode(), 255);
    assert_eq!(VarInt::encode(Ladder::uvint8(), -1).decode(), 0);
    assert_eq!(VarInt::encode(Ladder::svint16(), 40000).decode(), 32767);
    assert_eq!(VarInt::encode(Ladder::svint16(), -40000).decode(), -32768);
    assert_eq!(VarInt::encode(Ladder::uvint32(), i64::MAX).decode(), 0xFFFF_FFFF);
    assert_eq!(VarInt::encode(Ladder::svint24(), i64::MIN).decode(), -0x80_0000);
}

#[test]
fn ladders_must_climb() {
    assert!(Ladder::new(false, &[8, 16]).is_some());
    assert!(Ladder::new(true, &[3, 6, 9, 12]).is_some());
    assert_eq!(Ladder::new(true, &[3, 6, 9, 12]), Some(Ladder::svint12()));
    assert_eq!(Ladder::new(false, &[4, 8]), Some(Ladder::uvint8()));
    assert!(Ladder::new(false, &[8, 8]).is_none());
    assert!(Ladder::new(false, &[16, 8]).is_none());
    assert!(Ladder::new(false, &[0, 8]).is_none());
    assert!(Ladder::new(false, &[8, 33]).is_none());
    assert!(Ladder::new(false, &[8]).is_none());
    assert!(Ladder::new(false, &[1, 2, 3]).is_none());
    assert!(Ladder::new(false, &[1, 2, 3, 4, 5]).is_none());
}

#[test]
fn wire_form_is_discriminator_then_value() {
    let mut buf = BitBuffer::new();
    // Discriminator 01, then 1000 in 11 bits.
    let next = try_serialize(&UVINT16::new(1000), &mut buf, 0).unwrap();
    assert_eq!(next, 13);
    assert_eq!(buf.to_bytes(2).unwrap(), vec![0b01_011111, 0b01000_000]);
    // Discriminator 0, then 9 in 4 bits.
    let mut buf = BitBuffer::new();
    assert_eq!(try_serialize(&UVINT8::new(9), &mut buf, 0), Ok(5));
    assert_eq!(buf.to_bytes(1).unwrap(), vec![0b0_1001_000]);
    // Discriminator 00, then -2 in three bits of two's complement.
    let mut buf = BitBuffer::new();
    assert_eq!(try_serialize(&SVINT12::new(-2), &mut buf, 0), Ok(5));
    assert_eq!(buf.to_bytes(1).unwrap(), vec![0b00_110_000]);
}

#[test]
fn typed_fields_round_trip_through_a_buffer() {
    let mut buf = BitBuffer::new();
    let mut cursor = 7;
    cursor = try_serialize(&UVINT8::new(200), &mut buf, cursor).unwrap();
    cursor = try_serialize(&UVINT16::new(40000), &mut buf, cursor).unwrap();
    cursor = try_serialize(&UVINT32::new(4_000_000_000), &mut buf, cursor).unwrap();
    cursor = try_serialize(&SVINT12::new(-2048), &mut buf, cursor).unwrap();
    cursor = try_serialize(&SVINT14::new(8191), &mut buf, cursor).unwrap();
    cursor = try_serialize(&SVINT16::new(-1), &mut buf, cursor).unwrap();
    let end = try_serialize(&SVINT24::new(-70000), &mut buf, cursor).unwrap();

    let (a, at) = UVINT8::parse(&buf, 7).unwrap();
    let (b, at) = UVINT16::parse(&buf, at).unwrap();
    let (c, at) = UVINT32::parse(&buf, at).unwrap();
    let (d, at) = SVINT12::parse(&buf, at).unwrap();
    let (e, at) = SVINT14::parse(&buf, at).unwrap();
    let (f, at) = SVINT16::parse(&buf, at).unwrap();
    let (g, at) = SVINT24::parse(&buf, at).unwrap();
    assert_eq!(
        (a.value(), b.value(), c.value(), d.value(), e.value(), f.value(), g.value()),
        (200, 40000, 4_000_000_000, -2048, 8191, -1, -70000)
    );
    assert_eq!(at, end);
}

#[test]
fn typed_fields_saturate() {
    assert_eq!(UVINT8::new(300).value(), 255);
    assert_eq!(UVINT16::new(70000).value(), 65535);
    assert_eq!(SVINT12::new(5000).value(), 2047);
    assert_eq!(SVINT12::new(-5000).value(), -2048);
    assert_eq!(SVINT24::new(i32::MAX).value(), 0x7F_FFFF);
    assert!(!UVINT8 { value: 256 }.is_valid());
    let mut buf = BitBuffer::new();
    assert_eq!(
        try_serialize(&UVINT8 { value: 256 }, &mut buf, 0),
        Err(CdisError::ValueOutOfRange)
    );
}

#[test]
fn a_value_on_a_wider_rung_than_needed_keeps_its_integer() {
    // Discriminator 11 selects the 16-bit rung; the value is 5.
    let buf = BitBuffer::from_bytes(&[0b11_000000, 0b00000001, 0b01_000000]).unwrap();
    let (v, next) = VarInt::parse(&buf, 0, Ladder::uvint16()).unwrap();
    assert_eq!((v.decode(), v.width(), next), (5, 16, 18));
    assert_eq!(read_var(&buf, 0, Ladder::uvint16()), Ok((5, 18)));
    // Written again, the value takes the narrowest rung.
    assert_eq!(var_length(Ladder::uvint16(), 5), 10);
    assert_eq!(v.bit_length(), 18);
}

#[test]
fn value_that_does_not_fit_its_rung_is_refused() {
    let bad = VarInt { ladder: Ladder::uvint8(), index: 0, value: 16 };
    assert!(!bad.is_valid());
    let mut buf = BitBuffer::new();
    assert_eq!(bad.try_serialize(&mut buf, 0), Err(CdisError::ValueOutOfRange));
    let good = VarInt { ladder: Ladder::uvint8(), index: 1, value: 16 };
    assert_eq!(good.try_serialize(&mut buf, 0), Ok(9));
    assert_eq!(buf.to_bytes(2).unwrap(), vec![0b1_0001000, 0b0_0000000]);
}

#[test]
fn var_int_stops_at_the_end_of_the_buffer() {
    let mut buf = BitBuffer::new();
    let v = VarInt::encode(Ladder::uvint16(), 1);
    assert_eq!(v.try_serialize(&mut buf, 96000 - 10), Ok(96000));
    assert_eq!(v.try_serialize(&mut buf, 96000 - 9), Err(CdisError::OutOfBounds));
    assert_eq!(
        VarInt::parse(&buf, 96000 - 10, Ladder::uvint16()).map(|(v, n)| (v.decode(), n)),
        Ok((1, 96000))
    );
    assert_eq!(VarInt::parse(&buf, 96000 - 1, Ladder::uvint16()).err(), Some(CdisError::OutOfBounds));
    assert_eq!(VarInt::parse(&buf, 96000 - 9, Ladder::uvint16()).err(), Some(CdisError::OutOfBounds));
}
