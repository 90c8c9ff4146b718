use cdis::bit_buffer::{create_bit_buffer, read_unsigned, write_unsigned, BitBuffer};
use cdis::constants::BUFFER_BITS;
use cdis::error::CdisError;

#[test]
fn write_then_read_returns_value_and_cursor() {
    let mut buf = BitBuffer::new();
    let next = write_unsigned(&mut buf, 3, 10, 0x2A5).unwrap();
    assert_eq!(next, 13);
    assert_eq!(read_unsigned(&buf, 3, 10), Ok((0x2A5, 13)));
}

#[test]
fn write_then_read_at_every_width() {
    for width in 1..=64usize {
        let value = if width == 64 { u64::MAX } else { (1u64 << width) - 1 };
        let mut buf = BitBuffer::new();
        let next = write_unsigned(&mut buf, 5, width, value).unwrap();
        assert_eq!(next, 5 + width);
        assert_eq!(read_unsigned(&buf, 5, width), Ok((value, 5 + width)));
        let half = value >> 1;
        let next = write_unsigned(&mut buf, 5, width, half).unwrap();
        assert_eq!(read_unsigned(&buf, 5, width), Ok((half, next)));
    }
}

#[test]
fn write_is_most_significant_bit_first() {
    let mut buf = BitBuffer::new();
    write_unsigned(&mut buf, 2, 5, 22).unwrap();
    assert_eq!(buf.to_bytes(1).unwrap(), vec![0b0010_1100]);
}

#[test]
fn write_spans_octets_without_alignment() {
    let mut buf = BitBuffer::new();
    let next = write_unsigned(&mut buf, 4, 16, 0x2018).unwrap();
    assert_eq!(next, 20);
    assert_eq!(buf.to_bytes(3).unwrap(), vec![0x02, 0x01, 0x80]);
}

#[test]
fn write_leaves_neighbours_alone() {
    let mut buf = BitBuffer::new();
    write_unsigned(&mut buf, 0, 8, 0xFF).unwrap();
    write_unsigned(&mut buf, 16, 8, 0xFF).unwrap();
    write_unsigned(&mut buf, 8, 8, 0x5A).unwrap();
    assert_eq!(buf.to_bytes(3).unwrap(), vec![0xFF, 0x5A, 0xFF]);
    write_unsigned(&mut buf, 8, 8, 0).unwrap();
    assert_eq!(buf.to_bytes(3).unwrap(), vec![0xFF, 0x00, 0xFF]);
}

#[test]
fn write_rejects_wide_value() {
    let mut buf = BitBuffer::new();
    assert_eq!(write_unsigned(&mut buf, 0, 4, 16), Err(CdisError::ValueOutOfRange));
    assert_eq!(buf.to_bytes(1).unwrap(), vec![0]);
    assert_eq!(write_unsigned(&mut buf, 0, 4, 15), Ok(4));
}

#[test]
fn write_rejects_bad_width() {
    let mut buf = BitBuffer::new();
    assert_eq!(write_unsigned(&mut buf, 0, 0, 0), Err(CdisError::InvalidWidth));
    assert_eq!(write_unsigned(&mut buf, 0, 65, 0), Err(CdisError::InvalidWidth));
    assert_eq!(read_unsigned(&buf, 0, 0), Err(CdisError::InvalidWidth));
    assert_eq!(read_unsigned(&buf, 0, 65), Err(CdisError::InvalidWidth));
}

#[test]
fn write_and_read_fail_past_capacity() {
    let mut buf = create_bit_buffer();
    assert_eq!(buf.capacity(), BUFFER_BITS);
    assert_eq!(write_unsigned(&mut buf, BUFFER_BITS - 8, 8, 0xAB), Ok(BUFFER_BITS));
    assert_eq!(write_unsigned(&mut buf, BUFFER_BITS - 7, 8, 0xAB), Err(CdisError::OutOfBounds));
    assert_eq!(write_unsigned(&mut buf, usize::MAX, 8, 0), Err(CdisError::OutOfBounds));
    assert_eq!(read_unsigned(&buf, BUFFER_BITS - 8, 8), Ok((0xAB, BUFFER_BITS)));
    assert_eq!(read_unsigned(&buf, BUFFER_BITS - 7, 8), Err(CdisError::OutOfBounds));
    assert_eq!(read_unsigned(&buf, usize::MAX, 1), Err(CdisError::OutOfBounds));
}

#[test]
fn octets_go_in_and_come_out() {
    let octets = vec![0x12, 0x34, 0x56, 0x78, 0x9A];
    let buf = BitBuffer::from_bytes(&octets).unwrap();
    assert_eq!(buf.to_bytes(5).unwrap(), octets);
    assert_eq!(buf.to_bytes(6).unwrap(), vec![0x12, 0x34, 0x56, 0x78, 0x9A, 0x00]);
    assert_eq!(read_unsigned(&buf, 4, 8), Ok((0x23, 12)));
}

#[test]
fn too_many_octets_are_refused() {
    let octets = vec![0u8; BUFFER_BITS / 8 + 1];
    assert_eq!(BitBuffer::from_bytes(&octets).err(), Some(CdisError::OutOfBounds));
    let buf = BitBuffer::new();
    assert_eq!(buf.to_bytes(BUFFER_BITS / 8 + 1), Err(CdisError::OutOfBounds));
    assert_eq!(buf.to_bytes(BUFFER_BITS / 8).unwrap().len(), BUFFER_BITS / 8);
}

#[test]
fn errors_describe_themselves() {
    assert_eq!(CdisError::OutOfBounds.describe(), "field runs past the end of the bit buffer");
    assert_ne!(CdisError::MissingHistory.describe(), CdisError::UnknownDiscriminant.describe());
}
