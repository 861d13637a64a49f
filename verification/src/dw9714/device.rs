//! The DW9714 device: focus programming with a single write retry, the V4L2
//! focus control, and the power sequences that ramp the lens down before
//! power is dropped and back up after it returns.
//!
//! Every contract is stated over the record of hardware actions kept by the
//! bus ([`Dw9714Bus::log`]): which writes, delays, GPIO and power actions a
//! call performs, in order, as a function of the outcomes the bus reported.

use vstd::prelude::*;
use crate::dw9714::bus::{keeps, BusEvent, Dw9714Bus};
use crate::dw9714::consts::{
    DW9714_CTRL_DELAY_US, DW9714_CTRL_STEPS, DW9714_MAX_FOCUS_POS, V4L2_CID_FOCUS_ABSOLUTE, VCM_DEFAULT_S,
};
use crate::dw9714::error::{DW9714Error, Result};
use crate::dw9714::types::{be_bytes, vcm_val, LensPosition, RegisterValue, VcmStep};

verus! {

/// Platform configuration of a device.
#[derive(Debug, Clone, Copy, PartialEq, Eq)]
pub struct DeviceConfig {
    /// I2C slave address.
    pub i2c_addr: u16,
    /// xshutdown GPIO number, if the board has one.
    pub gpio_xsd: Option<u32>,
    /// Whether a gating sensor device is present.
    pub has_sensor_dev: bool,
}

impl DeviceConfig {
    /// A configuration with an I2C address and no platform data.
    pub fn new(i2c_addr: u16) -> (r: Self)
        ensures
            r == (DeviceConfig { i2c_addr, gpio_xsd: None, has_sensor_dev: false }),
    {
        DeviceConfig { i2c_addr, gpio_xsd: None, has_sensor_dev: false }
    }
}

// ---------------------------------------------------------------------------
// The hardware actions of the driver's operations.

/// `after` is `before` followed by more actions.
pub open spec fn extends(before: Seq<BusEvent>, after: Seq<BusEvent>) -> bool {
    after.len() >= before.len() && after.take(before.len() as int) == before
}

/// The actions of `after` past those of `before`.
pub open spec fn appended(before: Seq<BusEvent>, after: Seq<BusEvent>) -> Seq<BusEvent> {
    after.skip(before.len() as int)
}

/// Reading the write of `word` to `addr` at the front of `evs`: one attempt,
/// and a retry when it failed; the write fails only when both attempts do.
/// The number of actions it took and its outcome, or `None` when `evs` does
/// not start that way.
pub open spec fn parse_write(addr: u16, word: u16, evs: Seq<BusEvent>) -> Option<(nat, Result<()>)> {
    let ok = BusEvent::Write { addr, bytes: be_bytes(word), ok: true };
    let failed = BusEvent::Write { addr, bytes: be_bytes(word), ok: false };
    if evs.len() >= 1 && evs[0] == ok {
        Some((1, Ok(())))
    } else if evs.len() >= 2 && evs[0] == failed && evs[1] == ok {
        Some((2, Ok(())))
    } else if evs.len() >= 2 && evs[0] == failed && evs[1] == failed {
        Some((2, Err(DW9714Error::Io)))
    } else {
        None
    }
}

/// The write of `word` to `addr` took exactly the actions from `before` to
/// `after`, with outcome `r`.
pub open spec fn wrote(before: Seq<BusEvent>, after: Seq<BusEvent>, addr: u16, word: u16, r: Result<()>) -> bool {
    &&& extends(before, after)
    &&& parse_write(addr, word, appended(before, after)) == Some((appended(before, after).len(), r))
}

/// The register word of a ramp value: the position saturated at the maximum,
/// with the default nibble.
pub open spec fn ramp_word(val: u16) -> u16 {
    vcm_val(if val > DW9714_MAX_FOCUS_POS { DW9714_MAX_FOCUS_POS } else { val }, VCM_DEFAULT_S)
}

/// Reading a ramp over `vals` at the front of `evs`: for each value its
/// write (whatever the outcome) and then the step delay. The number of
/// actions it took, or `None`.
pub open spec fn parse_ramp(addr: u16, vals: Seq<u16>, evs: Seq<BusEvent>) -> Option<nat>
    decreases vals.len(),
{
    if vals.len() == 0 {
        Some(0)
    } else {
        match parse_write(addr, ramp_word(vals[0]), evs) {
            None => None,
            Some((n, _)) => if evs.len() > n && evs[n as int] == (BusEvent::Delay { us: DW9714_CTRL_DELAY_US }) {
                match parse_ramp(addr, vals.drop_first(), evs.skip(n + 1int)) {
                    None => None,
                    Some(m) => Some(n + 1 + m),
                }
            } else {
                None
            },
        }
    }
}

/// The ramp-down values from position `cur`: the step boundary at or below
/// it, then every step boundary below, down to 0.
pub open spec fn suspend_vals(cur: u16) -> Seq<u16> {
    let start = cur - cur % 16;
    Seq::new((start / 16 + 1) as nat, |k: int| (start - 16 * k) as u16)
}

/// The ramp-up values to position `cur`: from `cur` modulo the step size up
/// to `cur`, one step at a time.
pub open spec fn resume_vals(cur: u16) -> Seq<u16> {
    Seq::new((cur / 16 + 1) as nat, |k: int| (cur % 16 + 16 * k) as u16)
}

/// The release of the sensor reference, when there is a sensor.
pub open spec fn put_if_sensor(c: DeviceConfig) -> Seq<BusEvent> {
    if c.has_sensor_dev {
        seq![BusEvent::PowerPut]
    } else {
        Seq::empty()
    }
}

/// The close of a ramp-down: the GPIO driven low when there is one (whatever
/// the outcome), then the sensor reference released when there is a sensor.
pub open spec fn suspend_tail(c: DeviceConfig, t: Seq<BusEvent>) -> bool {
    let g: int = if c.gpio_xsd is Some { 1 } else { 0 };
    &&& t.len() == g + put_if_sensor(c).len()
    &&& c.gpio_xsd is Some ==> (t[0] matches BusEvent::Gpio { on: false, .. })
    &&& t.skip(g) == put_if_sensor(c)
}

/// The actions of a ramp-down from position `cur`.
pub open spec fn suspend_events(c: DeviceConfig, cur: u16, evs: Seq<BusEvent>) -> bool {
    match parse_ramp(c.i2c_addr, suspend_vals(cur), evs) {
        Some(n) => suspend_tail(c, evs.skip(n as int)),
        None => false,
    }
}

/// The actions of a power-up to position `cur`, with outcome `r`: the sensor
/// reference taken (a failure releases it again and ends with `Io`), the GPIO
/// driven high (a failure releases the sensor and ends with `Io`), the ramp
/// up, and the write restoring `cur` (a failure releases the sensor and ends
/// with that write's error).
pub open spec fn resume_events(c: DeviceConfig, cur: u16, evs: Seq<BusEvent>, r: Result<()>) -> bool {
    let s: int = if c.has_sensor_dev { 1 } else { 0 };
    let g: int = if c.gpio_xsd is Some { 1 } else { 0 };
    if c.has_sensor_dev && evs.len() >= 1 && evs[0] == (BusEvent::PowerGet { ok: false }) {
        evs == seq![BusEvent::PowerGet { ok: false }].push(BusEvent::PowerPut) && r == Err::<(), DW9714Error>(
            DW9714Error::Io,
        )
    } else if c.has_sensor_dev && !(evs.len() >= 1 && evs[0] == (BusEvent::PowerGet { ok: true })) {
        false
    } else {
        let e1 = evs.skip(s);
        if c.gpio_xsd is Some && e1.len() >= 1 && e1[0] == (BusEvent::Gpio { on: true, ok: false }) {
            e1 == seq![BusEvent::Gpio { on: true, ok: false }] + put_if_sensor(c) && r == Err::<(), DW9714Error>(
                DW9714Error::Io,
            )
        } else if c.gpio_xsd is Some && !(e1.len() >= 1 && e1[0] == (BusEvent::Gpio { on: true, ok: true })) {
            false
        } else {
            let e2 = e1.skip(g);
            match parse_ramp(c.i2c_addr, resume_vals(cur), e2) {
                None => false,
                Some(n) => {
                    let e3 = e2.skip(n as int);
                    match parse_write(c.i2c_addr, ramp_word(cur), e3) {
                        None => false,
                        Some((m, Ok(()))) => e3.len() == m && r is Ok,
                        Some((m, Err(e))) => e3.skip(m as int) == put_if_sensor(c) && r == Err::<(), DW9714Error>(e),
                    }
                },
            }
        }
    }
}

// ---------------------------------------------------------------------------
// Reading actions back.

/// A write read at the front of a sequence reads the same with more actions
/// after it.
proof fn lemma_parse_write_prefix(addr: u16, word: u16, x: Seq<BusEvent>, y: Seq<BusEvent>)
    requires
        parse_write(addr, word, x) matches Some((n, _)) && n <= x.len(),
    ensures
        parse_write(addr, word, x + y) == parse_write(addr, word, x),
{
    assert(x.len() >= 1 ==> (x + y)[0] == x[0]);
    assert(x.len() >= 2 ==> (x + y)[1] == x[1]);
}

/// A ramp that reads exactly `x`, followed by anything, reads as the ramp
/// over the concatenated values.
proof fn lemma_parse_ramp_concat(addr: u16, v1: Seq<u16>, v2: Seq<u16>, x: Seq<BusEvent>, y: Seq<BusEvent>)
    requires
        parse_ramp(addr, v1, x) == Some(x.len()),
    ensures
        parse_ramp(addr, v1 + v2, x + y) == (match parse_ramp(addr, v2, y) {
            Some(m) => Some(x.len() + m),
            None => None,
        }),
    decreases v1.len(),
{
    if v1.len() == 0 {
        assert(x =~= Seq::<BusEvent>::empty());
        assert(v1 + v2 =~= v2);
        assert(x + y =~= y);
    } else {
        let n = parse_write(addr, ramp_word(v1[0]), x)->Some_0.0;
        lemma_parse_write_prefix(addr, ramp_word(v1[0]), x, y);
        assert((v1 + v2)[0] == v1[0]);
        assert((x + y)[n as int] == x[n as int]);
        assert((v1 + v2).drop_first() =~= v1.drop_first() + v2);
        assert((x + y).skip(n + 1int) =~= x.skip(n + 1int) + y);
        lemma_parse_ramp_concat(addr, v1.drop_first(), v2, x.skip(n + 1int), y);
    }
}

/// One ramp step: the write of a value's word followed by the step delay.
proof fn lemma_parse_ramp_step(addr: u16, v: u16, s: Seq<BusEvent>, r: Result<()>)
    requires
        parse_write(addr, ramp_word(v), s) == Some((s.len(), r)),
    ensures
        parse_ramp(addr, seq![v], s.push(BusEvent::Delay { us: DW9714_CTRL_DELAY_US })) == Some(s.len() + 1),
{
    let d = BusEvent::Delay { us: DW9714_CTRL_DELAY_US };
    let e = s.push(d);
    assert(e =~= s + seq![d]);
    lemma_parse_write_prefix(addr, ramp_word(v), s, seq![d]);
    assert(parse_write(addr, ramp_word(v), e) == Some((s.len(), r)));
    assert(seq![v][0] == v);
    assert(e.len() > s.len() && e[s.len() as int] == d);
    assert(e.skip(s.len() + 1int) =~= Seq::<BusEvent>::empty());
    assert(seq![v].drop_first() =~= Seq::<u16>::empty());
    assert(parse_ramp(addr, seq![v].drop_first(), e.skip(s.len() + 1int)) == Some(0nat));
}

/// Extending a ramp by one step keeps it readable.
proof fn lemma_ramp_extend(
    addr: u16,
    vals: Seq<u16>,
    k: int,
    a: Seq<BusEvent>,
    s: Seq<BusEvent>,
    r: Result<()>,
)
    requires
        0 <= k < vals.len(),
        parse_ramp(addr, vals.take(k), a) == Some(a.len()),
        parse_write(addr, ramp_word(vals[k]), s) == Some((s.len(), r)),
    ensures
        parse_ramp(addr, vals.take(k + 1), a + s.push(BusEvent::Delay { us: DW9714_CTRL_DELAY_US })) == Some(
            a.len() + s.len() + 1,
        ),
{
    lemma_parse_ramp_step(addr, vals[k], s, r);
    assert(vals.take(k + 1) =~= vals.take(k) + seq![vals[k]]);
    lemma_parse_ramp_concat(addr, vals.take(k), seq![vals[k]], a, s.push(BusEvent::Delay { us: DW9714_CTRL_DELAY_US }));
}

/// The actions appended by two consecutive stretches are the first
/// stretch's followed by the second's.
proof fn lemma_appended_chain(l0: Seq<BusEvent>, l1: Seq<BusEvent>, l2: Seq<BusEvent>)
    requires
        extends(l0, l1),
        extends(l1, l2),
    ensures
        extends(l0, l2),
        appended(l0, l2) == appended(l0, l1) + appended(l1, l2),
{
    assert(l2.take(l0.len() as int) =~= l1.take(l0.len() as int));
    assert(appended(l0, l2) =~= appended(l0, l1) + appended(l1, l2));
}

/// The step boundary at or below a position, as the driver computes it.
proof fn lemma_step_floor(c: i32)
    requires
        0 <= c <= 0xffff,
    ensures
        c & !15i32 == c - c % 16,
{
    assert(c & !15i32 == c - c % 16) by (bit_vector)
        requires
            0 <= c <= 0xffff,
    ;
}

// ---------------------------------------------------------------------------
// The device.

/// The state of a device.
#[verifier::ext_equal]
pub struct DeviceState<B> {
    pub bus: B,
    pub config: DeviceConfig,
    /// The last position programmed into the DAC.
    pub current_val: u16,
    pub initialized: bool,
    pub powered: bool,
}

/// A DW9714 lens actuator driven through a bus it owns.
#[derive(Debug)]
pub struct Dw9714<B: Dw9714Bus> {
    bus: B,
    config: DeviceConfig,
    current_val: u16,
    initialized: bool,
    powered: bool,
}

impl<B: Dw9714Bus> View for Dw9714<B> {
    type V = DeviceState<B>;

    closed spec fn view(&self) -> DeviceState<B> {
        DeviceState {
            bus: self.bus,
            config: self.config,
            current_val: self.current_val,
            initialized: self.initialized,
            powered: self.powered,
        }
    }
}

/// What powering up does to a device in state `before`: on an initialised
/// device, the power-up actions with their outcome `r`, the device powered
/// when `r` is `Ok` and as it was otherwise, and every property of the bus
/// kept.
pub open spec fn resumed<B: Dw9714Bus>(before: DeviceState<B>, after: DeviceState<B>, r: Result<()>) -> bool {
    if !before.initialized {
        r == Err::<(), DW9714Error>(DW9714Error::NotInitialized) && after == before
    } else {
        &&& after == (DeviceState { bus: after.bus, powered: if r is Ok { true } else { before.powered }, ..before })
        &&& keeps(before.bus, after.bus)
        &&& extends(before.bus.log(), after.bus.log())
        &&& resume_events(before.config, before.current_val, appended(before.bus.log(), after.bus.log()), r)
    }
}

/// What powering down does to a device in state `before`: on an initialised
/// device, the ramp-down actions, the device unpowered and every property of
/// the bus kept.
pub open spec fn suspended<B: Dw9714Bus>(before: DeviceState<B>, after: DeviceState<B>, r: Result<()>) -> bool {
    if !before.initialized {
        r == Err::<(), DW9714Error>(DW9714Error::NotInitialized) && after == before
    } else {
        &&& r is Ok
        &&& after == (DeviceState { bus: after.bus, powered: false, ..before })
        &&& keeps(before.bus, after.bus)
        &&& extends(before.bus.log(), after.bus.log())
        &&& suspend_events(before.config, before.current_val, appended(before.bus.log(), after.bus.log()))
    }
}

/// What programming position `pos` does to a device in state `before`: on
/// an initialised device, `pos` recorded, its word written and every
/// property of the bus kept.
pub open spec fn positioned<B: Dw9714Bus>(before: DeviceState<B>, after: DeviceState<B>, pos: u16, r: Result<()>) -> bool {
    if !before.initialized {
        r == Err::<(), DW9714Error>(DW9714Error::NotInitialized) && after == before
    } else {
        &&& after == (DeviceState { bus: after.bus, current_val: pos, ..before })
        &&& keeps(before.bus, after.bus)
        &&& wrote(before.bus.log(), after.bus.log(), before.config.i2c_addr, vcm_val(pos, VCM_DEFAULT_S), r)
    }
}

/// A power cycle (ramp down, then ramp up) leaves the lens position and the
/// configuration as they were, and the device ends powered exactly when the
/// power-up succeeded; the ramp down ends at position 0 and the ramp up at the
/// position itself.
pub proof fn lemma_power_cycle<B: Dw9714Bus>(
    s0: DeviceState<B>,
    s1: DeviceState<B>,
    s2: DeviceState<B>,
    r1: Result<()>,
    r2: Result<()>,
)
    requires
        suspended(s0, s1, r1),
        resumed(s1, s2, r2),
    ensures
        s2.current_val == s0.current_val,
        s2.config == s0.config,
        s2.initialized == s0.initialized,
        s0.initialized ==> r1 is Ok && !s1.powered && (s2.powered <==> r2 is Ok),
        suspend_vals(s0.current_val).last() == 0,
        resume_vals(s0.current_val).last() == s0.current_val,
{
    let cur = s0.current_val as int;
    vstd::arithmetic::div_mod::lemma_fundamental_div_mod(cur, 16);
    let start = cur - cur % 16;
    assert(start == 16 * (cur / 16));
    assert(start / 16 == cur / 16) by (nonlinear_arith)
        requires
            start == 16 * (cur / 16),
    ;
}

impl<B: Dw9714Bus> Dw9714<B> {
    /// An uninitialised device: position 0, unpowered, no hardware touched.
    pub fn new(bus: B, config: DeviceConfig) -> (r: Self)
        ensures
            r@ == (DeviceState { bus, config, current_val: 0, initialized: false, powered: false }),
    {
        Dw9714 { bus, config, current_val: 0, initialized: false, powered: false }
    }

    /// Initialise: set up the focus control at position 0. A second
    /// initialisation is rejected.
    pub fn init(&mut self) -> (r: Result<()>)
        ensures
            old(self)@.initialized ==> r == Err::<(), DW9714Error>(DW9714Error::AlreadyInitialized) && final(self)@
                == old(self)@,
            !old(self)@.initialized ==> r is Ok && final(self)@ == (DeviceState {
                current_val: 0,
                initialized: true,
                ..old(self)@
            }),
    {
        if self.initialized {
            return Err(DW9714Error::AlreadyInitialized);
        }
        self.current_val = 0;
        self.initialized = true;
        Ok(())
    }

    /// Build and initialise in one step (`probe`).
    pub fn probe(bus: B, config: DeviceConfig) -> (r: Result<Self>)
        ensures
            r matches Ok(dev) && dev@ == (DeviceState { bus, config, current_val: 0, initialized: true, powered: false }),
    {
        let mut dev = Self::new(bus, config);
        dev.init()?;
        Ok(dev)
    }

    /// The last position programmed.
    pub fn position(&self) -> (r: LensPosition)
        ensures
            r.spec_get() == (if self@.current_val > DW9714_MAX_FOCUS_POS {
                DW9714_MAX_FOCUS_POS
            } else {
                self@.current_val
            }),
    {
        LensPosition::new_saturating(self.current_val)
    }

    /// The raw last position programmed.
    pub fn current_val(&self) -> (r: u16)
        ensures
            r == self@.current_val,
    {
        self.current_val
    }

    /// Whether the device is initialised.
    pub fn is_initialized(&self) -> (r: bool)
        ensures
            r == self@.initialized,
    {
        self.initialized
    }

    /// Whether the device is powered.
    pub fn is_powered(&self) -> (r: bool)
        ensures
            r == self@.powered,
    {
        self.powered
    }

    /// The bus.
    pub fn bus(&self) -> (r: &B)
        ensures
            *r == self@.bus,
    {
        &self.bus
    }

    /// The bus, mutably; the driver state is not affected.
    pub fn bus_mut(&mut self) -> (r: &mut B)
        ensures
            *r == old(self)@.bus,
            final(self)@ == (DeviceState { bus: *final(r), ..old(self)@ }),
    {
        &mut self.bus
    }

    /// The device configuration.
    pub fn config(&self) -> (r: &DeviceConfig)
        ensures
            *r == self@.config,
    {
        &self.config
    }

    fn ensure_initialized(&self) -> (r: Result<()>)
        ensures
            self@.initialized ==> r is Ok,
            !self@.initialized ==> r == Err::<(), DW9714Error>(DW9714Error::NotInitialized),
    {
        if self.initialized {
            Ok(())
        } else {
            Err(DW9714Error::NotInitialized)
        }
    }

    /// Write a register word big-endian, retrying once; `Io` when both
    /// attempts fail (`dw9714_i2c_write`).
    fn write_word(&mut self, word: RegisterValue) -> (r: Result<()>)
        ensures
            final(self)@ == (DeviceState { bus: final(self)@.bus, ..old(self)@ }),
            wrote(old(self)@.bus.log(), final(self)@.bus.log(), old(self)@.config.i2c_addr, word.spec_get(), r),
            keeps(old(self)@.bus, final(self)@.bus),
    {
        let bytes = word.to_be_bytes();
        let addr = self.config.i2c_addr;
        let ghost l0 = self.bus.log();
        if self.bus.i2c_write(addr, &bytes).is_ok() {
            proof {
                assert(appended(l0, self.bus.log()) =~= seq![self.bus.log().last()]);
                assert(self.bus.log().take(l0.len() as int) =~= l0);
            }
            return Ok(());
        }
        let ghost l1 = self.bus.log();
        let second = self.bus.i2c_write(addr, &bytes);
        proof {
            assert(appended(l0, self.bus.log()) =~= seq![l1.last()].push(self.bus.log().last()));
            assert(self.bus.log().take(l0.len() as int) =~= l0);
        }
        if second.is_ok() {
            return Ok(());
        }
        Err(DW9714Error::Io)
    }

    /// Record `val` as the position and program it (`dw9714_t_focus_vcm`).
    /// The position is recorded before the write and stays recorded when the
    /// write fails.
    pub fn set_position(&mut self, val: LensPosition) -> (r: Result<()>)
        ensures
            positioned(old(self)@, final(self)@, val.spec_get(), r),
    {
        self.ensure_initialized()?;
        self.current_val = val.get();
        self.write_word(val.default_register_value())
    }

    /// Program a raw position, rejecting one above the maximum before
    /// anything else.
    pub fn set_position_raw(&mut self, pos: u16) -> (r: Result<()>)
        ensures
            pos > DW9714_MAX_FOCUS_POS ==> r == Err::<(), DW9714Error>(
                DW9714Error::PositionOutOfRange { requested: pos, max: DW9714_MAX_FOCUS_POS },
            ) && final(self)@ == old(self)@,
            pos <= DW9714_MAX_FOCUS_POS ==> positioned(old(self)@, final(self)@, pos, r),
    {
        let pos = LensPosition::new(pos)?;
        self.set_position(pos)
    }

    /// The V4L2 control bridge (`dw9714_set_ctrl`): only the absolute focus
    /// control is accepted, with a value in `0..=1023`. An unknown control
    /// and a negative value are invalid arguments; a value past `u16` is out
    /// of range as `u16::MAX`, and one past the maximum as itself.
    pub fn set_ctrl(&mut self, id: u32, val: i32) -> (r: Result<()>)
        ensures
            id != V4L2_CID_FOCUS_ABSOLUTE || val < 0 ==> r == Err::<(), DW9714Error>(DW9714Error::InvalidArgument)
                && final(self)@ == old(self)@,
            id == V4L2_CID_FOCUS_ABSOLUTE && val > 0xffff ==> r == Err::<(), DW9714Error>(
                DW9714Error::PositionOutOfRange { requested: 0xffff, max: DW9714_MAX_FOCUS_POS },
            ) && final(self)@ == old(self)@,
            id == V4L2_CID_FOCUS_ABSOLUTE && DW9714_MAX_FOCUS_POS < val <= 0xffff ==> r == Err::<(), DW9714Error>(
                DW9714Error::PositionOutOfRange { requested: val as u16, max: DW9714_MAX_FOCUS_POS },
            ) && final(self)@ == old(self)@,
            id == V4L2_CID_FOCUS_ABSOLUTE && 0 <= val <= DW9714_MAX_FOCUS_POS ==> positioned(
                old(self)@,
                final(self)@,
                val as u16,
                r,
            ),
    {
        if id != V4L2_CID_FOCUS_ABSOLUTE {
            return Err(DW9714Error::InvalidArgument);
        }
        if val < 0 {
            return Err(DW9714Error::InvalidArgument);
        }
        if val > 0xffff {
            return Err(DW9714Error::PositionOutOfRange { requested: u16::MAX, max: LensPosition::MAX });
        }
        let raw = val as u16;
        let pos = LensPosition::new(raw)?;
        self.set_position(pos)
    }

    /// Write a ramp value, saturated at the maximum position.
    fn write_ramp_value(&mut self, val: u16) -> (r: Result<()>)
        ensures
            final(self)@ == (DeviceState { bus: final(self)@.bus, ..old(self)@ }),
            wrote(old(self)@.bus.log(), final(self)@.bus.log(), old(self)@.config.i2c_addr, ramp_word(val), r),
            keeps(old(self)@.bus, final(self)@.bus),
    {
        let word = LensPosition::new_saturating(val).register_value(VcmStep::DEFAULT());
        self.write_word(word)
    }

    /// Ramp the lens down and drop power (`dw9714_runtime_suspend`): from
    /// the step boundary at or below the current position down to 0, one
    /// write and one delay per step, failed writes ignored; then the GPIO
    /// low and the sensor reference released, where present.
    pub fn runtime_suspend(&mut self) -> (r: Result<()>)
        ensures
            suspended(old(self)@, final(self)@, r),
    {
        self.ensure_initialized()?;
        let ghost l0 = self.bus.log();
        let ghost vals = suspend_vals(self.current_val);
        let ghost before = self@;
        let steps = DW9714_CTRL_STEPS as i32;
        let cur = self.current_val as i32;
        proof { lemma_step_floor(cur); }
        let start = cur & !(steps - 1);
        let mut val = start;
        let ghost mut k: int = 0;
        proof {
            assert(vals.take(0) =~= Seq::<u16>::empty());
            assert(appended(l0, self.bus.log()) =~= Seq::<BusEvent>::empty());
            assert(l0.take(l0.len() as int) =~= l0);
        }
        while val >= 0
            invariant
                steps == 16,
                before.initialized,
                self@ == (DeviceState { bus: self@.bus, ..before }),
                l0 == before.bus.log(),
                vals == suspend_vals(before.current_val),
                start == before.current_val - before.current_val % 16,
                val == start - 16 * k,
                0 <= k <= vals.len(),
                k == vals.len() <==> val < 0,
                extends(l0, self.bus.log()),
                keeps(before.bus, self@.bus),
                parse_ramp(before.config.i2c_addr, vals.take(k), appended(l0, self.bus.log())) == Some(
                    appended(l0, self.bus.log()).len(),
                ),
            decreases val + 16,
        {
            let ghost la = self.bus.log();
            let _ = self.write_ramp_value(val as u16);
            let ghost lb = self.bus.log();
            self.bus.delay_us(DW9714_CTRL_DELAY_US);
            proof {
                let lc = self.bus.log();
                assert(extends(lb, lc) && appended(lb, lc) =~= seq![BusEvent::Delay { us: DW9714_CTRL_DELAY_US }]) by {
                    assert(lc.take(lb.len() as int) =~= lb);
                }
                lemma_appended_chain(l0, la, lb);
                lemma_appended_chain(l0, lb, lc);
                assert((val as u16) == vals[k]);
                let wres = parse_write(before.config.i2c_addr, ramp_word(vals[k]), appended(la, lb))->Some_0.1;
                lemma_ramp_extend(before.config.i2c_addr, vals, k, appended(l0, la), appended(la, lb), wres);
                assert(appended(la, lb).push(BusEvent::Delay { us: DW9714_CTRL_DELAY_US }) =~= appended(la, lb)
                    + appended(lb, lc));
                assert(appended(l0, lc) =~= appended(l0, la) + appended(la, lb).push(
                    BusEvent::Delay { us: DW9714_CTRL_DELAY_US },
                ));
                k = k + 1;
            }
            val = val - steps;
        }
        let ghost lr = self.bus.log();
        if self.config.gpio_xsd.is_some() {
            let _ = self.bus.set_gpio_xsd(false);
        }
        if self.config.has_sensor_dev {
            self.bus.sensor_power_put();
        }
        self.powered = false;
        proof {
            let lf = self.bus.log();
            assert(vals.take(k) =~= vals);
            assert(lf.take(lr.len() as int) =~= lr);
            lemma_appended_chain(l0, lr, lf);
            let t = appended(lr, lf);
            lemma_parse_ramp_concat(before.config.i2c_addr, vals, Seq::empty(), appended(l0, lr), t);
            assert(vals + Seq::<u16>::empty() =~= vals);
            assert(appended(l0, lf).skip(appended(l0, lr).len() as int) =~= t);
            if before.config.gpio_xsd is Some {
                assert(t[0] matches BusEvent::Gpio { on: false, .. });
            }
            assert(t.skip(if before.config.gpio_xsd is Some { 1int } else { 0int }) =~= put_if_sensor(before.config));
        }
        Ok(())
    }

    /// Restore power and ramp the lens up (`dw9714_runtime_resume`): the
    /// sensor reference and the GPIO first, where present (on a failure the
    /// sensor reference is released and the result is `Io`); then from the
    /// current position modulo the step size up to the position, one write
    /// and one delay per step, failed writes ignored; then the position
    /// written again (on a failure the sensor reference is released and the
    /// write's error returned).
    pub fn runtime_resume(&mut self) -> (r: Result<()>)
        ensures
            resumed(old(self)@, final(self)@, r),
    {
        self.ensure_initialized()?;
        let ghost l0 = self.bus.log();
        let ghost before = self@;
        let ghost c = self.config;
        if self.config.has_sensor_dev {
            if self.bus.sensor_power_get().is_err() {
                self.bus.sensor_power_put();
                proof {
                    assert(appended(l0, self.bus.log()) =~= seq![BusEvent::PowerGet { ok: false }].push(BusEvent::PowerPut));
                    assert(self.bus.log().take(l0.len() as int) =~= l0);
                }
                return Err(DW9714Error::Io);
            }
        }
        let ghost l1 = self.bus.log();
        proof {
            assert(l1.take(l0.len() as int) =~= l0);
            if c.has_sensor_dev {
                assert(appended(l0, l1) =~= seq![BusEvent::PowerGet { ok: true }]);
            } else {
                assert(appended(l0, l1) =~= Seq::<BusEvent>::empty());
            }
        }
        if self.config.gpio_xsd.is_some() {
            if self.bus.set_gpio_xsd(true).is_err() {
                let ghost lg = self.bus.log();
                if self.config.has_sensor_dev {
                    self.bus.sensor_power_put();
                }
                proof {
                    let lf = self.bus.log();
                    assert(lg.take(l1.len() as int) =~= l1);
                    assert(lf.take(lg.len() as int) =~= lg);
                    lemma_appended_chain(l0, l1, lg);
                    lemma_appended_chain(l0, lg, lf);
                    assert(appended(l0, lf).skip(if c.has_sensor_dev { 1int } else { 0int }) =~= seq![
                        BusEvent::Gpio { on: true, ok: false },
                    ] + put_if_sensor(c));
                }
                return Err(DW9714Error::Io);
            }
        }
        let ghost l2 = self.bus.log();
        proof {
            assert(l2.take(l1.len() as int) =~= l1);
            lemma_appended_chain(l0, l1, l2);
            if c.gpio_xsd is Some {
                assert(appended(l1, l2) =~= seq![BusEvent::Gpio { on: true, ok: true }]);
            } else {
                assert(appended(l1, l2) =~= Seq::<BusEvent>::empty());
            }
        }
        let steps = DW9714_CTRL_STEPS as i32;
        let target = self.current_val as i32;
        let ghost vals = resume_vals(self.current_val);
        let mut val = target % steps;
        let ghost mut k: int = 0;
        proof {
            assert(vals.take(0) =~= Seq::<u16>::empty());
            assert(appended(l2, self.bus.log()) =~= Seq::<BusEvent>::empty());
            assert(l2.take(l2.len() as int) =~= l2);
        }
        while val < target + steps - 1
            invariant
                before.initialized,
                self@ == (DeviceState { bus: self@.bus, ..before }),
                target == before.current_val,
                steps == 16,
                vals == resume_vals(before.current_val),
                val == target % 16 + 16 * k,
                0 <= k <= vals.len(),
                k == vals.len() <==> val >= target + 15,
                extends(l2, self.bus.log()),
                keeps(before.bus, self@.bus),
                parse_ramp(before.config.i2c_addr, vals.take(k), appended(l2, self.bus.log())) == Some(
                    appended(l2, self.bus.log()).len(),
                ),
            decreases target + 16 - val,
        {
            let ghost la = self.bus.log();
            let _ = self.write_ramp_value(val as u16);
            let ghost lb = self.bus.log();
            self.bus.delay_us(DW9714_CTRL_DELAY_US);
            proof {
                let lc = self.bus.log();
                assert(extends(lb, lc) && appended(lb, lc) =~= seq![BusEvent::Delay { us: DW9714_CTRL_DELAY_US }]) by {
                    assert(lc.take(lb.len() as int) =~= lb);
                }
                lemma_appended_chain(l2, la, lb);
                lemma_appended_chain(l2, lb, lc);
                assert((val as u16) == vals[k]);
                let wres = parse_write(before.config.i2c_addr, ramp_word(vals[k]), appended(la, lb))->Some_0.1;
                lemma_ramp_extend(before.config.i2c_addr, vals, k, appended(l2, la), appended(la, lb), wres);
                assert(appended(la, lb).push(BusEvent::Delay { us: DW9714_CTRL_DELAY_US }) =~= appended(la, lb)
                    + appended(lb, lc));
                assert(appended(l2, lc) =~= appended(l2, la) + appended(la, lb).push(
                    BusEvent::Delay { us: DW9714_CTRL_DELAY_US },
                ));
                k = k + 1;
            }
            val = val + steps;
        }
        let ghost l3 = self.bus.log();
        let restore = LensPosition::new_saturating(self.current_val);
        let ret = self.write_word(restore.default_register_value());
        let ghost l4 = self.bus.log();
        if let Err(e) = ret {
            if self.config.has_sensor_dev {
                self.bus.sensor_power_put();
            }
            proof {
                let lf = self.bus.log();
                assert(lf.take(l4.len() as int) =~= l4);
                assert(appended(l4, lf) =~= put_if_sensor(before.config));
            }
            proof { self.lemma_resume_close(l0, l1, l2, l3, l4, vals, k, before, Err(e)); }
            return Err(e);
        }
        self.powered = true;
        proof { self.lemma_resume_close(l0, l1, l2, l3, l4, vals, k, before, Ok(())); }
        Ok(())
    }

    /// Reassemble the power-up actions from their stretches: the sensor and
    /// GPIO stretch, the ramp and the restoring write with its cleanup.
    proof fn lemma_resume_close(
        &self,
        l0: Seq<BusEvent>,
        l1: Seq<BusEvent>,
        l2: Seq<BusEvent>,
        l3: Seq<BusEvent>,
        l4: Seq<BusEvent>,
        vals: Seq<u16>,
        k: int,
        before: DeviceState<B>,
        r: Result<()>,
    )
        requires
            before.initialized,
            l0 == before.bus.log(),
            vals == resume_vals(before.current_val),
            k == vals.len(),
            extends(l0, l1),
            extends(l1, l2),
            extends(l2, l3),
            before.config.has_sensor_dev ==> appended(l0, l1) == seq![BusEvent::PowerGet { ok: true }],
            !before.config.has_sensor_dev ==> appended(l0, l1) == Seq::<BusEvent>::empty(),
            before.config.gpio_xsd is Some ==> appended(l1, l2) == seq![BusEvent::Gpio { on: true, ok: true }],
            before.config.gpio_xsd is None ==> appended(l1, l2) == Seq::<BusEvent>::empty(),
            parse_ramp(before.config.i2c_addr, vals.take(k), appended(l2, l3)) == Some(appended(l2, l3).len()),
            wrote(l3, l4, before.config.i2c_addr, ramp_word(before.current_val), r),
            r is Ok ==> self@.bus.log() == l4,
            r is Err ==> extends(l4, self@.bus.log()) && appended(l4, self@.bus.log()) == put_if_sensor(before.config),
        ensures
            extends(l0, self@.bus.log()),
            resume_events(before.config, before.current_val, appended(l0, self@.bus.log()), r),
    {
        let lf = self@.bus.log();
        let c = before.config;
        let addr = c.i2c_addr;
        lemma_appended_chain(l0, l1, l2);
        lemma_appended_chain(l0, l2, l3);
        lemma_appended_chain(l0, l3, l4);
        if r is Err {
            lemma_appended_chain(l0, l4, lf);
        }
        assert(vals.take(k) =~= vals);
        let s: int = if c.has_sensor_dev { 1 } else { 0 };
        let g: int = if c.gpio_xsd is Some { 1 } else { 0 };
        let all = appended(l0, lf);
        let w = appended(l3, lf);
        assert(w =~= appended(l3, l4) + appended(l4, lf)) by {
            if r is Err {
                lemma_appended_chain(l3, l4, lf);
            } else {
                assert(appended(l4, lf) =~= Seq::<BusEvent>::empty());
            }
        }
        assert(all =~= appended(l0, l1) + appended(l1, l2) + appended(l2, l3) + w) by {
            if r is Err {
                lemma_appended_chain(l3, l4, lf);
                lemma_appended_chain(l0, l3, lf);
            } else {
                lemma_appended_chain(l0, l3, lf);
            }
        }
        let e1 = all.skip(s);
        assert(e1 =~= appended(l1, l2) + appended(l2, l3) + w);
        let e2 = e1.skip(g);
        assert(e2 =~= appended(l2, l3) + w);
        lemma_parse_ramp_concat(addr, vals, Seq::empty(), appended(l2, l3), w);
        assert(vals + Seq::<u16>::empty() =~= vals);
        let n = appended(l2, l3).len();
        assert(e2.skip(n as int) =~= w);
        lemma_parse_write_prefix(addr, ramp_word(before.current_val), appended(l3, l4), appended(l4, lf));
        let m = appended(l3, l4).len();
        assert(w.skip(m as int) =~= appended(l4, lf));
        if c.has_sensor_dev {
            assert(all[0] == BusEvent::PowerGet { ok: true });
        }
        if c.gpio_xsd is Some {
            assert(e1[0] == BusEvent::Gpio { on: true, ok: true });
        }
    }

    /// Power up and hand out the open device (`dw9714_open`); the device is
    /// powered down again by [`PowerGuard::close`].
    pub fn open(&mut self) -> (r: Result<PowerGuard<'_, B>>)
        ensures
            match r {
                Ok(g) => resumed(old(self)@, g.device@, Ok(())) && final(self)@ == final(g.device)@,
                Err(e) => resumed(old(self)@, final(self)@, Err(e)),
            },
    {
        self.runtime_resume()?;
        Ok(PowerGuard { device: self })
    }
}

/// An open, powered device, from [`Dw9714::open`]. Lens positions are set
/// through it; [`close`](PowerGuard::close) powers the device down
/// (`dw9714_close`).
#[derive(Debug)]
#[must_use]
pub struct PowerGuard<'a, B: Dw9714Bus> {
    /// The open device.
    pub device: &'a mut Dw9714<B>,
}

impl<'a, B: Dw9714Bus> PowerGuard<'a, B> {
    /// Whether the device is powered.
    pub fn is_powered(&self) -> (r: bool)
        ensures
            r == old(self.device)@.powered,
    {
        self.device.is_powered()
    }

    /// Whether the device is initialised.
    pub fn is_initialized(&self) -> (r: bool)
        ensures
            r == old(self.device)@.initialized,
    {
        self.device.is_initialized()
    }

    /// The raw last position programmed.
    pub fn current_val(&self) -> (r: u16)
        ensures
            r == old(self.device)@.current_val,
    {
        self.device.current_val()
    }

    /// The last position programmed.
    pub fn position(&self) -> (r: LensPosition)
        ensures
            r.spec_get() == (if old(self.device)@.current_val > DW9714_MAX_FOCUS_POS {
                DW9714_MAX_FOCUS_POS
            } else {
                old(self.device)@.current_val
            }),
    {
        self.device.position()
    }

    /// The device configuration.
    pub fn config(&self) -> (r: &DeviceConfig)
        ensures
            *r == old(self.device)@.config,
    {
        self.device.config()
    }

    /// The bus.
    pub fn bus(&self) -> (r: &B)
        ensures
            *r == old(self.device)@.bus,
    {
        self.device.bus()
    }

    /// Program a position, as [`Dw9714::set_position`].
    pub fn set_position(&mut self, val: LensPosition) -> (r: Result<()>)
        ensures
            positioned(old(self).device@, final(self).device@, val.spec_get(), r),
            *final(final(self).device) == *final(old(self).device),
    {
        self.device.set_position(val)
    }

    /// Program a raw position, as [`Dw9714::set_position_raw`].
    pub fn set_position_raw(&mut self, pos: u16) -> (r: Result<()>)
        ensures
            pos > DW9714_MAX_FOCUS_POS ==> r == Err::<(), DW9714Error>(
                DW9714Error::PositionOutOfRange { requested: pos, max: DW9714_MAX_FOCUS_POS },
            ) && final(self).device@ == old(self).device@,
            pos <= DW9714_MAX_FOCUS_POS ==> positioned(old(self).device@, final(self).device@, pos, r),
            *final(final(self).device) == *final(old(self).device),
    {
        self.device.set_position_raw(pos)
    }

    /// Close the device (`dw9714_close`): power it down as
    /// [`Dw9714::runtime_suspend`] does.
    pub fn close(self) -> (r: Result<()>)
        ensures
            suspended(old(self.device)@, final(self.device)@, r),
    {
        self.device.runtime_suspend()
    }
}

} // verus!
