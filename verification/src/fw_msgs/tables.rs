//! Static firmware lookup tables.

use vstd::prelude::*;
use crate::fw_msgs::layout::N_IPU_FW_ISYS_MIPI_DATA_TYPE;

verus! {

/// Value used for MIPI data types that carry no defined bit width.
pub const IPU_FW_UNSUPPORTED_DATA_TYPE: u32 = 0;

/// Native bits per pixel of each MIPI data type, indexed by data type
/// (`extracted_bits_per_pixel_per_mipi_data_type`); `0` where no width is
/// defined. [`bits_per_pixel`] gives the same values.
pub const EXTRACTED_BITS_PER_PIXEL_PER_MIPI_DATA_TYPE: [u32; 64] = [
    64, 64, 64, 64, 0, 0, 0, 0,
    64, 64, 64, 64, 64, 64, 64, 64,
    0, 0, 8, 0, 0, 0, 0, 0,
    12, 15, 12, 0, 12, 15, 16, 20,
    16, 16, 16, 18, 24, 0, 0, 0,
    6, 7, 8, 10, 12, 14, 16, 8,
    8, 8, 8, 8, 8, 8, 8, 8,
    0, 0, 0, 0, 0, 0, 0, 0,
];

/// Native bits per pixel of each MIPI data type
/// (`extracted_bits_per_pixel_per_mipi_data_type`).
pub open spec fn spec_bits_per_pixel(dt: u8) -> u32 {
    if dt <= 0x03 {
        64
    } else if 0x08 <= dt <= 0x0F {
        64
    } else if dt == 0x12 {
        8
    } else if dt == 0x18 || dt == 0x1A || dt == 0x1C {
        12
    } else if dt == 0x19 || dt == 0x1D {
        15
    } else if dt == 0x1E || dt == 0x20 || dt == 0x21 || dt == 0x22 || dt == 0x2E {
        16
    } else if dt == 0x1F {
        20
    } else if dt == 0x23 {
        18
    } else if dt == 0x24 {
        24
    } else if dt == 0x28 {
        6
    } else if dt == 0x29 {
        7
    } else if dt == 0x2A || 0x2F <= dt <= 0x37 {
        8
    } else if dt == 0x2B {
        10
    } else if dt == 0x2C {
        12
    } else if dt == 0x2D {
        14
    } else {
        IPU_FW_UNSUPPORTED_DATA_TYPE
    }
}

/// The native bits per pixel of MIPI data type `dt`; data types without a
/// defined width, and those past the table (`>= N_IPU_FW_ISYS_MIPI_DATA_TYPE`),
/// give `0`.
pub fn bits_per_pixel(dt: u8) -> (r: u32)
    ensures
        r == spec_bits_per_pixel(dt),
        (dt as usize) >= N_IPU_FW_ISYS_MIPI_DATA_TYPE ==> r == IPU_FW_UNSUPPORTED_DATA_TYPE,
{
    if dt <= 0x03 {
        64
    } else if 0x08 <= dt && dt <= 0x0F {
        64
    } else if dt == 0x12 {
        8
    } else if dt == 0x18 || dt == 0x1A || dt == 0x1C {
        12
    } else if dt == 0x19 || dt == 0x1D {
        15
    } else if dt == 0x1E || dt == 0x20 || dt == 0x21 || dt == 0x22 || dt == 0x2E {
        16
    } else if dt == 0x1F {
        20
    } else if dt == 0x23 {
        18
    } else if dt == 0x24 {
        24
    } else if dt == 0x28 {
        6
    } else if dt == 0x29 {
        7
    } else if dt == 0x2A || (0x2F <= dt && dt <= 0x37) {
        8
    } else if dt == 0x2B {
        10
    } else if dt == 0x2C {
        12
    } else if dt == 0x2D {
        14
    } else {
        IPU_FW_UNSUPPORTED_DATA_TYPE
    }
}

} // verus!
