//! Validated value types: lens positions, the mode/step nibble, and packed
//! register words.

use vstd::prelude::*;
use crate::dw9714::consts::{DW9714_MAX_FOCUS_POS, VCM_DEFAULT_S};
use crate::dw9714::error::DW9714Error;

verus! {

/// The register word of a position and a mode/step nibble (`VCM_VAL`):
/// the position in bits 4..16, the nibble in bits 0..4.
pub open spec fn vcm_val(data: u16, s: u16) -> u16 {
    (data << 4u16) | s
}

/// The big-endian bytes of a register word, as sent over I2C.
pub open spec fn be_bytes(w: u16) -> Seq<u8> {
    seq![(w >> 8u16) as u8].push((w & 0xff) as u8)
}

/// The register word of position `pos` (at most 1023) and nibble `s` (below
/// 16) is `pos * 16 + s`, and a word goes on the wire high byte first.
pub proof fn lemma_register_word(pos: u16, s: u16, w: u16)
    requires
        pos <= 1023,
        s < 16,
    ensures
        vcm_val(pos, s) == pos * 16 + s,
        be_bytes(w) == seq![(w / 256) as u8, (w % 256) as u8],
{
    assert((pos << 4u16) | s == pos * 16 + s) by (bit_vector)
        requires
            pos <= 1023,
            s < 16,
    ;
    assert((w >> 8u16) as u8 == (w / 256) as u8 && (w & 0xff) as u8 == (w % 256) as u8) by (bit_vector);
    assert(be_bytes(w) =~= seq![(w / 256) as u8, (w % 256) as u8]);
}

/// A lens position in `0..=1023`.
#[derive(Debug, Clone, Copy, PartialEq, Eq, PartialOrd, Ord, Hash)]
pub struct LensPosition(u16);

impl LensPosition {
    /// The maximum position.
    pub const MAX: u16 = DW9714_MAX_FOCUS_POS;

    /// The fully retracted position.
    #[allow(non_snake_case)]
    pub fn ZERO() -> (r: LensPosition)
        ensures
            r.spec_get() == 0,
    {
        LensPosition(0)
    }

    /// The raw position.
    pub closed spec fn spec_get(self) -> u16 {
        self.0
    }

    #[verifier::type_invariant]
    spec fn inv(self) -> bool {
        self.0 <= DW9714_MAX_FOCUS_POS
    }

    /// A validated position; anything above the maximum is rejected.
    pub fn new(value: u16) -> (r: Result<Self, DW9714Error>)
        ensures
            value <= DW9714_MAX_FOCUS_POS ==> (r matches Ok(p) && p.spec_get() == value),
            value > DW9714_MAX_FOCUS_POS ==> r == Err::<Self, DW9714Error>(
                DW9714Error::PositionOutOfRange { requested: value, max: DW9714_MAX_FOCUS_POS },
            ),
    {
        if value > Self::MAX {
            Err(DW9714Error::PositionOutOfRange { requested: value, max: Self::MAX })
        } else {
            Ok(LensPosition(value))
        }
    }

    /// A position, saturating at the maximum instead of failing.
    pub fn new_saturating(value: u16) -> (r: Self)
        ensures
            r.spec_get() == (if value > DW9714_MAX_FOCUS_POS { DW9714_MAX_FOCUS_POS } else { value }),
    {
        if value > Self::MAX {
            LensPosition(Self::MAX)
        } else {
            LensPosition(value)
        }
    }

    /// The raw 10-bit DAC value.
    pub fn get(self) -> (r: u16)
        ensures
            r == self.spec_get(),
            r <= DW9714_MAX_FOCUS_POS,
    {
        proof { use_type_invariant(&self); }
        self.0
    }

    /// The register word of this position with the mode/step nibble `step`.
    pub fn register_value(self, step: VcmStep) -> (r: RegisterValue)
        ensures
            r.spec_get() == vcm_val(self.spec_get(), step.spec_get()),
    {
        RegisterValue((self.0 << 4u16) | step.0)
    }

    /// The register word of this position with the default nibble.
    pub fn default_register_value(self) -> (r: RegisterValue)
        ensures
            r.spec_get() == vcm_val(self.spec_get(), VCM_DEFAULT_S),
    {
        self.register_value(VcmStep::DEFAULT())
    }
}

/// The 4-bit mode/step nibble of the register word.
#[derive(Debug, Clone, Copy, PartialEq, Eq, PartialOrd, Ord, Hash)]
pub struct VcmStep(u16);

impl VcmStep {
    /// The default nibble (`VCM_DEFAULT_S`).
    #[allow(non_snake_case)]
    pub fn DEFAULT() -> (r: VcmStep)
        ensures
            r.spec_get() == VCM_DEFAULT_S,
    {
        VcmStep(VCM_DEFAULT_S)
    }

    /// The raw nibble.
    pub closed spec fn spec_get(self) -> u16 {
        self.0
    }

    /// A nibble: the low four bits of `value`.
    pub fn new(value: u16) -> (r: Self)
        ensures
            r.spec_get() == value & 0x0f,
    {
        VcmStep(value & 0x0f)
    }

    /// The raw nibble value.
    pub fn get(self) -> (r: u16)
        ensures
            r == self.spec_get(),
    {
        self.0
    }
}

impl Default for VcmStep {
    fn default() -> (r: Self)
        ensures
            r.spec_get() == VCM_DEFAULT_S,
    {
        VcmStep::DEFAULT()
    }
}

/// A packed 16-bit register word ready for an I2C write.
#[derive(Debug, Clone, Copy, PartialEq, Eq, PartialOrd, Ord, Hash)]
pub struct RegisterValue(u16);

impl RegisterValue {
    /// The raw word.
    pub closed spec fn spec_get(self) -> u16 {
        self.0
    }

    /// The raw 16-bit word.
    pub fn get(self) -> (r: u16)
        ensures
            r == self.spec_get(),
    {
        self.0
    }

    /// The big-endian byte encoding sent over I2C.
    pub fn to_be_bytes(self) -> (r: [u8; 2])
        ensures
            r@ == be_bytes(self.spec_get()),
    {
        let r = [(self.0 >> 8u16) as u8, (self.0 & 0xff) as u8];
        assert(r@ =~= be_bytes(self.spec_get()));
        r
    }
}

} // verus!
