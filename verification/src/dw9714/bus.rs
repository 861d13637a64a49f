//! The hardware interface of the driver: one I2C write, a delay, the
//! xshutdown GPIO and the gating sensor's power references.
//!
//! Every implementation keeps a record of the hardware actions it performed,
//! in order, with their outcomes; the driver's contracts are stated over
//! that record.

use vstd::prelude::*;
use crate::text::push_str;

verus! {

/// A low-level transfer error: the transfer or control did not complete.
#[derive(Debug, Clone, Copy, PartialEq, Eq)]
pub struct BusError;

impl BusError {
    /// The human-readable description of the error.
    pub fn to_string(&self) -> (r: String)
        ensures
            r@ == "i2c bus transfer error"@,
    {
        let mut s = String::new();
        push_str(&mut s, "i2c bus transfer error");
        assert(s@ =~= "i2c bus transfer error"@);
        s
    }
}

/// One hardware action and its outcome.
pub enum BusEvent {
    /// A single I2C write of `bytes` to slave `addr`.
    Write { addr: u16, bytes: Seq<u8>, ok: bool },
    /// A delay of about `us` microseconds.
    Delay { us: u32 },
    /// Driving the xshutdown GPIO.
    Gpio { on: bool, ok: bool },
    /// Taking a power reference on the gating sensor.
    PowerGet { ok: bool },
    /// Releasing a power reference on the gating sensor.
    PowerPut,
}

/// The bus `b` keeps every property that `a` has.
pub open spec fn keeps<B: Dw9714Bus>(a: B, b: B) -> bool {
    forall|k: int| #[trigger] a.holds(k) ==> b.holds(k)
}

/// Access to the I2C bus and the platform controls of a DW9714.
///
/// Each call is exactly one hardware action; retries are the driver's
/// business. A bus keeps the history of the actions performed through it
/// (`log`), and each method's contract extends that history by the action it
/// performed and its outcome.
pub trait Dw9714Bus {
    /// The hardware actions performed through this bus so far, oldest first.
    /// An implementation checked by Verus defines it; one that is not
    /// (driven from outside, such as through C callbacks) keeps this empty
    /// default and is trusted to perform the actions its methods describe.
    closed spec fn log(&self) -> Seq<BusEvent> {
        Seq::empty()
    }

    /// A property of the bus, indexed by `setup`, that every method keeps.
    /// An implementation uses it to say how its outcomes and its records
    /// follow from its configuration (the in-memory bus: from its failure
    /// settings); by default it holds of every bus.
    closed spec fn holds(&self, setup: int) -> bool {
        true
    }

    /// One I2C write of `bytes` to slave `addr`, without retry.
    fn i2c_write(&mut self, addr: u16, bytes: &[u8]) -> (r: Result<(), BusError>)
        ensures
            final(self).log() == old(self).log().push(BusEvent::Write { addr, bytes: bytes@, ok: r is Ok }),
            forall|k: int| #[trigger] old(self).holds(k) ==> final(self).holds(k),
    ;

    /// Wait about `us` microseconds (`usleep_range(us, us + 10)`).
    fn delay_us(&mut self, us: u32)
        ensures
            final(self).log() == old(self).log().push(BusEvent::Delay { us }),
            forall|k: int| #[trigger] old(self).holds(k) ==> final(self).holds(k),
    ;

    /// Drive the xshutdown GPIO high (`on`) or low.
    fn set_gpio_xsd(&mut self, on: bool) -> (r: Result<(), BusError>)
        ensures
            final(self).log() == old(self).log().push(BusEvent::Gpio { on, ok: r is Ok }),
            forall|k: int| #[trigger] old(self).holds(k) ==> final(self).holds(k),
    ;

    /// Take a runtime-PM reference on the gating sensor
    /// (`pm_runtime_get_sync`).
    fn sensor_power_get(&mut self) -> (r: Result<(), BusError>)
        ensures
            final(self).log() == old(self).log().push(BusEvent::PowerGet { ok: r is Ok }),
            forall|k: int| #[trigger] old(self).holds(k) ==> final(self).holds(k),
    ;

    /// Release a runtime-PM reference on the gating sensor (`pm_runtime_put`).
    fn sensor_power_put(&mut self)
        ensures
            final(self).log() == old(self).log().push(BusEvent::PowerPut),
            forall|k: int| #[trigger] old(self).holds(k) ==> final(self).holds(k),
    ;
}

} // verus!
