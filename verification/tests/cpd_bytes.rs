//! Bounds-checked little-endian readers.

use lib::cpd::bytes::{slice, u32_at, u8_at};
use lib::cpd::CpdError;

#[test]
fn reads_little_endian() {
    let buf = [0x78, 0x56, 0x34, 0x12, 0xAA];
    assert_eq!(u32_at(&buf, 0).unwrap(), 0x1234_5678);
    assert_eq!(u8_at(&buf, 4).unwrap(), 0xAA);
    assert_eq!(slice(&buf, 1, 2).unwrap(), &[0x56, 0x34]);
}

#[test]
fn out_of_bounds_is_typed_error() {
    let buf = [0u8; 3];
    assert!(matches!(u32_at(&buf, 0), Err(CpdError::OutOfBounds { .. })));
    assert!(matches!(u32_at(&buf, 1), Err(CpdError::OutOfBounds { .. })));
    assert!(matches!(u8_at(&buf, 3), Err(CpdError::OutOfBounds { .. })));
    assert!(matches!(slice(&buf, 2, 5), Err(CpdError::OutOfBounds { .. })));
}

#[test]
fn offset_overflow_is_caught() {
    let buf = [0u8; 4];
    assert!(matches!(
        slice(&buf, usize::MAX, 8),
        Err(CpdError::ArithmeticOverflow)
    ));
}

#[test]
fn out_of_bounds_reports_offset_len_and_buffer_size() {
    let buf = [0u8; 3];
    match u32_at(&buf, 1) {
        Err(CpdError::OutOfBounds { offset, need, len }) => {
            assert_eq!((offset, need, len), (1, 4, 3));
        }
        other => panic!("unexpected {:?}", other),
    }
    // A read that ends exactly at the end of the buffer succeeds.
    assert_eq!(slice(&buf, 3, 0).unwrap(), &[] as &[u8]);
    assert_eq!(slice(&buf, 0, 3).unwrap(), &[0u8, 0, 0]);
}
