//! Errno mapping, messages and the validated value types.

use lib::dw9714::consts::{EINVAL, EIO, ENODEV, ENOMEM};
use lib::dw9714::{DW9714Error, LensPosition, VcmStep};

#[test]
fn errno_mapping_matches_c_returns() {
    assert_eq!(DW9714Error::Io.to_errno(), -EIO);
    assert_eq!(DW9714Error::InvalidArgument.to_errno(), -EINVAL);
    assert_eq!(DW9714Error::OutOfMemory.to_errno(), -ENOMEM);
    assert_eq!(DW9714Error::NoDevice.to_errno(), -ENODEV);
    assert_eq!(
        DW9714Error::PositionOutOfRange {
            requested: 2000,
            max: 1023
        }
        .to_errno(),
        -EINVAL
    );
    assert_eq!(DW9714Error::AlreadyInitialized.to_errno(), -EINVAL);
    assert_eq!(DW9714Error::NotInitialized.to_errno(), -EINVAL);
}

#[test]
fn all_errnos_are_negative() {
    for e in [
        DW9714Error::Io,
        DW9714Error::InvalidArgument,
        DW9714Error::OutOfMemory,
        DW9714Error::NoDevice,
        DW9714Error::AlreadyInitialized,
        DW9714Error::NotInitialized,
    ] {
        assert!(e.to_errno() < 0, "{} should map to a negative errno", e.to_string());
    }
}

#[test]
fn display_is_non_empty() {
    assert!(!DW9714Error::Io.to_string().is_empty());
    assert!(DW9714Error::PositionOutOfRange {
        requested: 2000,
        max: 1023
    }
    .to_string()
    .contains("2000"));
}

#[test]
fn lens_position_accepts_full_range() {
    assert_eq!(LensPosition::new(0).unwrap().get(), 0);
    assert_eq!(LensPosition::new(1023).unwrap().get(), 1023);
}

#[test]
fn lens_position_rejects_out_of_range() {
    assert_eq!(
        LensPosition::new(1024),
        Err(DW9714Error::PositionOutOfRange {
            requested: 1024,
            max: 1023
        })
    );
    assert_eq!(
        LensPosition::new(u16::MAX),
        Err(DW9714Error::PositionOutOfRange {
            requested: u16::MAX,
            max: 1023
        })
    );
}

#[test]
fn lens_position_saturates() {
    assert_eq!(LensPosition::new_saturating(5000).get(), 1023);
    assert_eq!(LensPosition::new_saturating(100).get(), 100);
}

#[test]
fn vcm_step_masks_to_nibble() {
    assert_eq!(VcmStep::new(0xff).get(), 0x0f);
    assert_eq!(VcmStep::new(0x3).get(), 0x3);
    assert_eq!(VcmStep::DEFAULT().get(), 0);
}

#[test]
fn register_value_matches_c_macro() {
    // VCM_VAL(data, s) == (data << 4) | s
    let pos = LensPosition::new(512).unwrap();
    assert_eq!(pos.default_register_value().get(), 512 << 4);
    assert_eq!(
        pos.register_value(VcmStep::new(0x5)).get(),
        (512 << 4) | 0x5
    );
    // Big-endian encoding, like cpu_to_be16.
    assert_eq!(
        pos.default_register_value().to_be_bytes(),
        (512u16 << 4).to_be_bytes()
    );
}

#[test]
fn register_value_for_max_position_fits_u16() {
    let pos = LensPosition::new(1023).unwrap();
    assert_eq!(pos.default_register_value().get(), 1023 << 4); // 16368
}
