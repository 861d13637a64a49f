//! An in-memory bus that records every hardware action and can be set to
//! fail transfers, so the driver runs without hardware.

use vstd::prelude::*;
use crate::dw9714::bus::{BusError, BusEvent, Dw9714Bus};

verus! {

/// A recorded I2C write: slave address and payload bytes.
pub type RecordedWrite = (u16, Vec<u8>);

/// A hardware action the mock performed, with its outcome.
#[derive(Debug, Clone)]
pub enum MockEvent {
    Write { addr: u16, bytes: Vec<u8>, ok: bool },
    Delay { us: u32 },
    Gpio { on: bool, ok: bool },
    PowerGet { ok: bool },
    PowerPut,
}

impl View for MockEvent {
    type V = BusEvent;

    open spec fn view(&self) -> BusEvent {
        match self {
            MockEvent::Write { addr, bytes, ok } => BusEvent::Write { addr: *addr, bytes: bytes@, ok: *ok },
            MockEvent::Delay { us } => BusEvent::Delay { us: *us },
            MockEvent::Gpio { on, ok } => BusEvent::Gpio { on: *on, ok: *ok },
            MockEvent::PowerGet { ok } => BusEvent::PowerGet { ok: *ok },
            MockEvent::PowerPut => BusEvent::PowerPut,
        }
    }
}

/// The register words of the two-byte writes among `ws`, big-endian
/// decoded, in order.
pub open spec fn words_of(ws: Seq<(u16, Seq<u8>)>) -> Seq<u16>
    decreases ws.len(),
{
    if ws.len() == 0 {
        Seq::empty()
    } else {
        let rest = words_of(ws.drop_last());
        let b = ws.last().1;
        if b.len() == 2 {
            rest.push(be_word(b[0], b[1]))
        } else {
            rest
        }
    }
}

/// The word with big-endian bytes `hi`, `lo`.
pub open spec fn be_word(hi: u8, lo: u8) -> u16 {
    ((hi as u16) << 8u16) | (lo as u16)
}

/// Number of write attempts in the history `log`.
pub open spec fn count_writes(log: Seq<BusEvent>) -> nat
    decreases log.len(),
{
    if log.len() == 0 {
        0
    } else {
        count_writes(log.drop_last()) + if log.last() is Write { 1nat } else { 0nat }
    }
}

/// Number of sensor references taken successfully in `log`.
pub open spec fn count_gets(log: Seq<BusEvent>) -> nat
    decreases log.len(),
{
    if log.len() == 0 {
        0
    } else {
        count_gets(log.drop_last()) + if log.last() == (BusEvent::PowerGet { ok: true }) { 1nat } else { 0nat }
    }
}

/// Number of sensor references released in `log`.
pub open spec fn count_puts(log: Seq<BusEvent>) -> nat
    decreases log.len(),
{
    if log.len() == 0 {
        0
    } else {
        count_puts(log.drop_last()) + if log.last() is PowerPut { 1nat } else { 0nat }
    }
}

/// The write attempts of `log` as (slave address, payload), in order.
pub open spec fn write_records(log: Seq<BusEvent>) -> Seq<(u16, Seq<u8>)>
    decreases log.len(),
{
    if log.len() == 0 {
        Seq::empty()
    } else {
        let rest = write_records(log.drop_last());
        match log.last() {
            BusEvent::Write { addr, bytes, .. } => rest.push((addr, bytes)),
            _ => rest,
        }
    }
}

/// The delays of `log`, in order.
pub open spec fn delay_records(log: Seq<BusEvent>) -> Seq<u32>
    decreases log.len(),
{
    if log.len() == 0 {
        Seq::empty()
    } else {
        let rest = delay_records(log.drop_last());
        match log.last() {
            BusEvent::Delay { us } => rest.push(us),
            _ => rest,
        }
    }
}

/// The successful xshutdown GPIO transitions of `log`, in order.
pub open spec fn gpio_records(log: Seq<BusEvent>) -> Seq<bool>
    decreases log.len(),
{
    if log.len() == 0 {
        Seq::empty()
    } else {
        let rest = gpio_records(log.drop_last());
        match log.last() {
            BusEvent::Gpio { on, ok: true } => rest.push(on),
            _ => rest,
        }
    }
}

/// The outcome of action `e`, taken after `writes_before` write attempts, is
/// the one the failure settings give it: a write fails when every write
/// fails or when it is among the first `fail_first_n` attempts (counted
/// modulo 2^32); taking a sensor reference and driving the GPIO fail exactly
/// when set to.
pub open spec fn outcome_follows(
    e: BusEvent,
    writes_before: nat,
    fail_all: bool,
    fail_first_n: u32,
    fail_sensor_power: bool,
    fail_gpio: bool,
) -> bool {
    match e {
        BusEvent::Write { ok, .. } => ok == !(fail_all || (writes_before + 1) % 0x1_0000_0000 <= fail_first_n),
        BusEvent::Gpio { ok, .. } => ok == !fail_gpio,
        BusEvent::PowerGet { ok } => ok == !fail_sensor_power,
        _ => true,
    }
}

/// Every action of `log` has the outcome the failure settings give it.
pub open spec fn outcomes_follow(
    log: Seq<BusEvent>,
    fail_all: bool,
    fail_first_n: u32,
    fail_sensor_power: bool,
    fail_gpio: bool,
) -> bool
    decreases log.len(),
{
    if log.len() == 0 {
        true
    } else {
        &&& outcomes_follow(log.drop_last(), fail_all, fail_first_n, fail_sensor_power, fail_gpio)
        &&& outcome_follows(log.last(), count_writes(log.drop_last()), fail_all, fail_first_n, fail_sensor_power, fail_gpio)
    }
}

/// In a history whose outcomes follow the settings, the action at `i` has
/// the outcome the settings give it after the write attempts before it.
pub proof fn lemma_outcome_at(
    log: Seq<BusEvent>,
    fail_all: bool,
    fail_first_n: u32,
    fail_sensor_power: bool,
    fail_gpio: bool,
    i: int,
)
    requires
        outcomes_follow(log, fail_all, fail_first_n, fail_sensor_power, fail_gpio),
        0 <= i < log.len(),
    ensures
        outcome_follows(log[i], count_writes(log.take(i)), fail_all, fail_first_n, fail_sensor_power, fail_gpio),
    decreases log.len(),
{
    let d = log.drop_last();
    if i < log.len() - 1 {
        lemma_outcome_at(d, fail_all, fail_first_n, fail_sensor_power, fail_gpio, i);
        assert(d.take(i) =~= log.take(i));
        assert(d[i] == log[i]);
    } else {
        assert(log.take(i) =~= d);
    }
}

/// Counting one more modulo `m`.
proof fn lemma_mod_succ(c: int, x: int, m: int)
    requires
        m > 1,
        c >= 0,
        x == c % m,
    ensures
        (c + 1) % m == (if x + 1 == m { 0 } else { x + 1 }),
{
    vstd::arithmetic::div_mod::lemma_add_mod_noop(c, 1, m);
    vstd::arithmetic::div_mod::lemma_small_mod(1, m as nat);
    if x + 1 < m {
        vstd::arithmetic::div_mod::lemma_small_mod((x + 1) as nat, m as nat);
    } else {
        vstd::arithmetic::div_mod::lemma_mod_self_0(m);
    }
}

/// Changing the sensor-power setting keeps the outcomes of a history without
/// sensor-power actions.
proof fn lemma_outcomes_without_gets(log: Seq<BusEvent>, fa: bool, fnn: u32, fs: bool, fs2: bool, fg: bool, fg2: bool)
    requires
        outcomes_follow(log, fa, fnn, fs, fg),
        forall|i: int| 0 <= i < log.len() ==> !(#[trigger] log[i] is PowerGet) || fs == fs2,
        forall|i: int| 0 <= i < log.len() ==> !(#[trigger] log[i] is Gpio) || fg == fg2,
    ensures
        outcomes_follow(log, fa, fnn, fs2, fg2),
    decreases log.len(),
{
    if log.len() > 0 {
        let d = log.drop_last();
        assert forall|i: int| 0 <= i < d.len() implies !(#[trigger] d[i] is PowerGet) || fs == fs2 by {
            assert(d[i] == log[i]);
        }
        assert forall|i: int| 0 <= i < d.len() implies !(#[trigger] d[i] is Gpio) || fg == fg2 by {
            assert(d[i] == log[i]);
        }
        lemma_outcomes_without_gets(d, fa, fnn, fs, fs2, fg, fg2);
        assert(log.last() == log[log.len() - 1]);
    }
}

/// A software bus that records activity and can be set to fail.
#[derive(Debug, Default, Clone)]
pub struct MockI2cBus {
    /// Every attempted write, in order, failed attempts included.
    pub writes: Vec<RecordedWrite>,
    /// Requested delays in microseconds, in order.
    pub delays_us: Vec<u32>,
    /// Successful xshutdown GPIO transitions, in order.
    pub gpio_states: Vec<bool>,
    /// Number of successful sensor power references taken.
    pub power_get_count: usize,
    /// Number of sensor power references released.
    pub power_put_count: usize,
    fail_all: bool,
    fail_first_n: u32,
    attempts: u32,
    fail_sensor_power: bool,
    fail_gpio: bool,
    events: Vec<MockEvent>,
}

impl MockI2cBus {
    /// The recorded writes, bytes by value.
    pub closed spec fn spec_writes(&self) -> Seq<(u16, Seq<u8>)> {
        Seq::new(self.writes@.len(), |i: int| (self.writes@[i].0, self.writes@[i].1@))
    }

    /// The recorded delays.
    pub closed spec fn spec_delays(&self) -> Seq<u32> {
        self.delays_us@
    }

    /// The recorded GPIO transitions.
    pub closed spec fn spec_gpio_states(&self) -> Seq<bool> {
        self.gpio_states@
    }

    /// The count of sensor references taken.
    pub closed spec fn spec_get_count(&self) -> usize {
        self.power_get_count
    }

    /// The count of sensor references released.
    pub closed spec fn spec_put_count(&self) -> usize {
        self.power_put_count
    }

    /// Whether every write fails.
    pub closed spec fn spec_fail_all(&self) -> bool {
        self.fail_all
    }

    /// How many leading writes fail.
    pub closed spec fn spec_fail_first_n(&self) -> u32 {
        self.fail_first_n
    }

    /// Write attempts so far.
    pub closed spec fn spec_attempts(&self) -> u32 {
        self.attempts
    }

    /// Whether taking a sensor reference fails.
    pub closed spec fn spec_fail_sensor_power(&self) -> bool {
        self.fail_sensor_power
    }

    /// Whether driving the GPIO fails.
    pub closed spec fn spec_fail_gpio(&self) -> bool {
        self.fail_gpio
    }

    /// The failure settings, as one number.
    pub open spec fn setup_code(&self) -> int {
        (if self.spec_fail_all() { 1int } else { 0int }) + (if self.spec_fail_sensor_power() { 2int } else { 0int }) + (
        if self.spec_fail_gpio() { 4int } else { 0int }) + 8 * self.spec_fail_first_n()
    }

    /// The outcomes of the recorded actions follow from the failure settings,
    /// and the public records (writes, delays, GPIO transitions, counts and
    /// attempts) are those of the history.
    pub open spec fn consistent(&self) -> bool {
        &&& outcomes_follow(
            self.log(),
            self.spec_fail_all(),
            self.spec_fail_first_n(),
            self.spec_fail_sensor_power(),
            self.spec_fail_gpio(),
        )
        &&& self.spec_writes() == write_records(self.log())
        &&& self.spec_delays() == delay_records(self.log())
        &&& self.spec_gpio_states() == gpio_records(self.log())
        &&& self.spec_get_count() as int == (count_gets(self.log()) as int) % (usize::MAX as int + 1)
        &&& self.spec_put_count() as int == (count_puts(self.log()) as int) % (usize::MAX as int + 1)
        &&& self.spec_attempts() as int == (count_writes(self.log()) as int) % 0x1_0000_0000
    }

    /// One recorded action `e` keeps the bus consistent when `e` has the
    /// outcome the settings give it and the records change as `e` says.
    proof fn lemma_step(a: MockI2cBus, b: MockI2cBus, e: BusEvent)
        requires
            a.consistent(),
            b.log() == a.log().push(e),
            b.spec_fail_all() == a.spec_fail_all(),
            b.spec_fail_first_n() == a.spec_fail_first_n(),
            b.spec_fail_sensor_power() == a.spec_fail_sensor_power(),
            b.spec_fail_gpio() == a.spec_fail_gpio(),
            e is Write ==> e->Write_ok == !(a.spec_fail_all() || a.spec_attempts().wrapping_add(1) <= a.spec_fail_first_n()),
            e is Gpio ==> e->Gpio_ok == !a.spec_fail_gpio(),
            e is PowerGet ==> e->PowerGet_ok == !a.spec_fail_sensor_power(),
            b.spec_writes() == (match e {
                BusEvent::Write { addr, bytes, .. } => a.spec_writes().push((addr, bytes)),
                _ => a.spec_writes(),
            }),
            b.spec_delays() == (match e {
                BusEvent::Delay { us } => a.spec_delays().push(us),
                _ => a.spec_delays(),
            }),
            b.spec_gpio_states() == (match e {
                BusEvent::Gpio { on, ok: true } => a.spec_gpio_states().push(on),
                _ => a.spec_gpio_states(),
            }),
            b.spec_get_count() == (if e == (BusEvent::PowerGet { ok: true }) {
                a.spec_get_count().wrapping_add(1)
            } else {
                a.spec_get_count()
            }),
            b.spec_put_count() == (if e is PowerPut {
                a.spec_put_count().wrapping_add(1)
            } else {
                a.spec_put_count()
            }),
            b.spec_attempts() == (if e is Write {
                a.spec_attempts().wrapping_add(1)
            } else {
                a.spec_attempts()
            }),
        ensures
            b.consistent(),
            b.setup_code() == a.setup_code(),
    {
        let l = b.log();
        assert(l.drop_last() =~= a.log());
        assert(l.last() == e);
        lemma_mod_succ(count_writes(a.log()) as int, a.spec_attempts() as int, 0x1_0000_0000);
        lemma_mod_succ(count_gets(a.log()) as int, a.spec_get_count() as int, usize::MAX as int + 1);
        lemma_mod_succ(count_puts(a.log()) as int, a.spec_put_count() as int, usize::MAX as int + 1);
    }

    /// Nothing recorded, no attempt counted.
    pub open spec fn is_fresh(&self) -> bool {
        &&& self.spec_writes().len() == 0
        &&& self.spec_delays().len() == 0
        &&& self.spec_gpio_states().len() == 0
        &&& self.spec_get_count() == 0
        &&& self.spec_put_count() == 0
        &&& self.spec_attempts() == 0
        &&& self.log().len() == 0
    }

    fn pristine() -> (r: Self)
        ensures
            r.is_fresh(),
            r.consistent(),
            !r.spec_fail_all(),
            r.spec_fail_first_n() == 0,
            !r.spec_fail_sensor_power(),
            !r.spec_fail_gpio(),
    {
        let r = MockI2cBus {
            writes: Vec::new(),
            delays_us: Vec::new(),
            gpio_states: Vec::new(),
            power_get_count: 0,
            power_put_count: 0,
            fail_all: false,
            fail_first_n: 0,
            attempts: 0,
            fail_sensor_power: false,
            fail_gpio: false,
            events: Vec::new(),
        };
        assert(r.spec_writes() =~= Seq::<(u16, Seq<u8>)>::empty());
        assert(r.log() =~= Seq::<BusEvent>::empty());
        assert(r.spec_delays() =~= delay_records(r.log()));
        assert(r.spec_gpio_states() =~= gpio_records(r.log()));
        assert(r.spec_writes() =~= write_records(r.log()));
        proof { vstd::arithmetic::div_mod::lemma_small_mod(0, usize::MAX as nat + 1); }
        r
    }

    /// A bus on which everything succeeds.
    pub fn new() -> (r: Self)
        ensures
            r.is_fresh(),
            r.consistent(),
            !r.spec_fail_all(),
            r.spec_fail_first_n() == 0,
            !r.spec_fail_sensor_power(),
            !r.spec_fail_gpio(),
    {
        Self::pristine()
    }

    /// A bus on which every I2C write fails.
    pub fn failing() -> (r: Self)
        ensures
            r.is_fresh(),
            r.consistent(),
            r.spec_fail_all(),
            r.spec_fail_first_n() == 0,
            !r.spec_fail_sensor_power(),
            !r.spec_fail_gpio(),
    {
        let mut r = Self::pristine();
        r.fail_all = true;
        r
    }

    /// A bus on which the first `n` I2C writes fail and later ones succeed.
    pub fn failing_first(n: u32) -> (r: Self)
        ensures
            r.is_fresh(),
            r.consistent(),
            !r.spec_fail_all(),
            r.spec_fail_first_n() == n,
            !r.spec_fail_sensor_power(),
            !r.spec_fail_gpio(),
    {
        let mut r = Self::pristine();
        r.fail_first_n = n;
        r
    }

    /// This bus, with taking a sensor reference failing.
    pub fn with_failing_sensor_power(self) -> (r: Self)
        ensures
            r.spec_fail_sensor_power(),
            r.spec_fail_gpio() == self.spec_fail_gpio(),
            self.consistent() && (forall|i: int| 0 <= i < self.log().len() ==> !(#[trigger] self.log()[i] is PowerGet))
                ==> r.consistent(),
            r.spec_fail_all() == self.spec_fail_all(),
            r.spec_fail_first_n() == self.spec_fail_first_n(),
            r.spec_attempts() == self.spec_attempts(),
            r.log() == self.log(),
            r.spec_writes() == self.spec_writes(),
            r.spec_delays() == self.spec_delays(),
            r.spec_gpio_states() == self.spec_gpio_states(),
            r.spec_get_count() == self.spec_get_count(),
            r.spec_put_count() == self.spec_put_count(),
    {
        let mut r = self;
        r.fail_sensor_power = true;
        proof {
            if self.consistent() && (forall|i: int| 0 <= i < self.log().len() ==> !(#[trigger] self.log()[i] is PowerGet)) {
                lemma_outcomes_without_gets(self.log(), self.fail_all, self.fail_first_n, self.fail_sensor_power, true, self.fail_gpio, self.fail_gpio);
            }
        }
        r
    }

    /// This bus, with driving the GPIO failing.
    pub fn with_failing_gpio(self) -> (r: Self)
        ensures
            r.spec_fail_gpio(),
            r.spec_fail_sensor_power() == self.spec_fail_sensor_power(),
            self.consistent() && (forall|i: int| 0 <= i < self.log().len() ==> !(#[trigger] self.log()[i] is Gpio))
                ==> r.consistent(),
            r.spec_fail_all() == self.spec_fail_all(),
            r.spec_fail_first_n() == self.spec_fail_first_n(),
            r.spec_attempts() == self.spec_attempts(),
            r.log() == self.log(),
            r.spec_writes() == self.spec_writes(),
            r.spec_delays() == self.spec_delays(),
            r.spec_gpio_states() == self.spec_gpio_states(),
            r.spec_get_count() == self.spec_get_count(),
            r.spec_put_count() == self.spec_put_count(),
    {
        let mut r = self;
        r.fail_gpio = true;
        proof {
            if self.consistent() && (forall|i: int| 0 <= i < self.log().len() ==> !(#[trigger] self.log()[i] is Gpio)) {
                lemma_outcomes_without_gets(self.log(), self.fail_all, self.fail_first_n, self.fail_sensor_power, self.fail_sensor_power, self.fail_gpio, true);
            }
        }
        r
    }

    /// The most recent write's word, when it was a two-byte write.
    pub fn last_word(&self) -> (r: Option<u16>)
        ensures
            r == (if self.spec_writes().len() > 0 && self.spec_writes().last().1.len() == 2 {
                Some(be_word(self.spec_writes().last().1[0], self.spec_writes().last().1[1]))
            } else {
                None::<u16>
            }),
    {
        let n = self.writes.len();
        if n == 0 {
            return None;
        }
        let b = &self.writes[n - 1].1;
        if b.len() != 2 {
            return None;
        }
        Some(((b[0] as u16) << 8u16) | (b[1] as u16))
    }

    /// The words of all two-byte writes, in order.
    pub fn words(&self) -> (r: Vec<u16>)
        ensures
            r@ == words_of(self.spec_writes()),
    {
        let mut out: Vec<u16> = Vec::new();
        let mut i: usize = 0;
        while i < self.writes.len()
            invariant
                i <= self.writes@.len(),
                out@ == words_of(self.spec_writes().take(i as int)),
            decreases self.writes@.len() - i,
        {
            let b = &self.writes[i].1;
            proof {
                let t = self.spec_writes().take(i + 1);
                assert(t.drop_last() =~= self.spec_writes().take(i as int));
                assert(t.last() == self.spec_writes()[i as int]);
            }
            if b.len() == 2 {
                out.push(((b[0] as u16) << 8u16) | (b[1] as u16));
            }
            i += 1;
        }
        proof { assert(self.spec_writes().take(i as int) =~= self.spec_writes()); }
        out
    }

    /// Forget all recorded activity and attempts; the failure settings stay.
    pub fn clear(&mut self)
        ensures
            final(self).is_fresh(),
            final(self).consistent(),
            final(self).spec_fail_all() == old(self).spec_fail_all(),
            final(self).spec_fail_first_n() == old(self).spec_fail_first_n(),
            final(self).spec_fail_sensor_power() == old(self).spec_fail_sensor_power(),
            final(self).spec_fail_gpio() == old(self).spec_fail_gpio(),
    {
        self.writes.clear();
        self.delays_us.clear();
        self.gpio_states.clear();
        self.power_get_count = 0;
        self.power_put_count = 0;
        self.attempts = 0;
        self.events.clear();
        assert(self.spec_writes() =~= Seq::<(u16, Seq<u8>)>::empty());
        assert(self.log() =~= Seq::<BusEvent>::empty());
        assert(self.spec_delays() =~= delay_records(self.log()));
        assert(self.spec_gpio_states() =~= gpio_records(self.log()));
        assert(self.spec_writes() =~= write_records(self.log()));
        proof { vstd::arithmetic::div_mod::lemma_small_mod(0, usize::MAX as nat + 1); }
    }

    fn should_fail_write(&self) -> (r: bool)
        ensures
            r == (self.fail_all || self.attempts <= self.fail_first_n),
    {
        self.fail_all || self.attempts <= self.fail_first_n
    }
}

/// A copy of the bytes of `src`.
fn copy_payload(src: &[u8]) -> (r: Vec<u8>)
    ensures
        r@ == src@,
{
    let mut v: Vec<u8> = Vec::new();
    let mut i: usize = 0;
    while i < src.len()
        invariant
            i <= src@.len(),
            v@ == src@.subrange(0, i as int),
        decreases src@.len() - i,
    {
        v.push(src[i]);
        i += 1;
    }
    v
}

impl Dw9714Bus for MockI2cBus {
    closed spec fn log(&self) -> Seq<BusEvent> {
        self.events@.map_values(|e: MockEvent| e@)
    }

    /// The bus has failure settings `setup` (see `setup_code`) and is
    /// consistent.
    open spec fn holds(&self, setup: int) -> bool {
        setup == self.setup_code() && self.consistent()
    }

    /// Record the attempt; it fails when every write fails or when it is
    /// among the first `fail_first_n` attempts.
    fn i2c_write(&mut self, addr: u16, bytes: &[u8]) -> (r: Result<(), BusError>)
        ensures
            final(self).spec_attempts() == old(self).spec_attempts().wrapping_add(1),
            r is Err <==> (old(self).spec_fail_all() || final(self).spec_attempts() <= old(self).spec_fail_first_n()),
            final(self).spec_writes() == old(self).spec_writes().push((addr, bytes@)),
            final(self).spec_delays() == old(self).spec_delays(),
            final(self).spec_gpio_states() == old(self).spec_gpio_states(),
            final(self).spec_get_count() == old(self).spec_get_count(),
            final(self).spec_put_count() == old(self).spec_put_count(),
            final(self).spec_fail_all() == old(self).spec_fail_all(),
            final(self).spec_fail_first_n() == old(self).spec_fail_first_n(),
            final(self).spec_fail_sensor_power() == old(self).spec_fail_sensor_power(),
            final(self).spec_fail_gpio() == old(self).spec_fail_gpio(),
    {
        self.attempts = self.attempts.wrapping_add(1);
        self.writes.push((addr, copy_payload(bytes)));
        let fail = self.should_fail_write();
        self.events.push(MockEvent::Write { addr, bytes: copy_payload(bytes), ok: !fail });
        proof {
            assert(self.spec_writes() =~= old(self).spec_writes().push((addr, bytes@)));
            assert(self.log() =~= old(self).log().push(BusEvent::Write { addr, bytes: bytes@, ok: !fail }));
            if old(self).consistent() {
                MockI2cBus::lemma_step(*old(self), *self, BusEvent::Write { addr, bytes: bytes@, ok: !fail });
            }
        }
        if fail {
            Err(BusError)
        } else {
            Ok(())
        }
    }

    fn delay_us(&mut self, us: u32)
        ensures
            final(self).spec_delays() == old(self).spec_delays().push(us),
            final(self).spec_writes() == old(self).spec_writes(),
            final(self).spec_gpio_states() == old(self).spec_gpio_states(),
            final(self).spec_get_count() == old(self).spec_get_count(),
            final(self).spec_put_count() == old(self).spec_put_count(),
            final(self).spec_attempts() == old(self).spec_attempts(),
            final(self).spec_fail_all() == old(self).spec_fail_all(),
            final(self).spec_fail_first_n() == old(self).spec_fail_first_n(),
            final(self).spec_fail_sensor_power() == old(self).spec_fail_sensor_power(),
            final(self).spec_fail_gpio() == old(self).spec_fail_gpio(),
    {
        self.delays_us.push(us);
        self.events.push(MockEvent::Delay { us });
        proof {
            assert(self.spec_writes() =~= old(self).spec_writes());
            assert(self.log() =~= old(self).log().push(BusEvent::Delay { us }));
            if old(self).consistent() {
                MockI2cBus::lemma_step(*old(self), *self, BusEvent::Delay { us });
            }
        }
    }

    /// Record the transition, unless driving the GPIO is set to fail.
    fn set_gpio_xsd(&mut self, on: bool) -> (r: Result<(), BusError>)
        ensures
            r is Err <==> old(self).spec_fail_gpio(),
            r is Ok ==> final(self).spec_gpio_states() == old(self).spec_gpio_states().push(on),
            r is Err ==> final(self).spec_gpio_states() == old(self).spec_gpio_states(),
            final(self).spec_writes() == old(self).spec_writes(),
            final(self).spec_delays() == old(self).spec_delays(),
            final(self).spec_get_count() == old(self).spec_get_count(),
            final(self).spec_put_count() == old(self).spec_put_count(),
            final(self).spec_attempts() == old(self).spec_attempts(),
            final(self).spec_fail_all() == old(self).spec_fail_all(),
            final(self).spec_fail_first_n() == old(self).spec_fail_first_n(),
            final(self).spec_fail_sensor_power() == old(self).spec_fail_sensor_power(),
            final(self).spec_fail_gpio() == old(self).spec_fail_gpio(),
    {
        if self.fail_gpio {
            self.events.push(MockEvent::Gpio { on, ok: false });
            proof {
                assert(self.spec_writes() =~= old(self).spec_writes());
                assert(self.log() =~= old(self).log().push(BusEvent::Gpio { on, ok: false }));
                if old(self).consistent() {
                    MockI2cBus::lemma_step(*old(self), *self, BusEvent::Gpio { on, ok: false });
                }
            }
            return Err(BusError);
        }
        self.gpio_states.push(on);
        self.events.push(MockEvent::Gpio { on, ok: true });
        proof {
            assert(self.spec_writes() =~= old(self).spec_writes());
            assert(self.log() =~= old(self).log().push(BusEvent::Gpio { on, ok: true }));
            if old(self).consistent() {
                MockI2cBus::lemma_step(*old(self), *self, BusEvent::Gpio { on, ok: true });
            }
        }
        Ok(())
    }

    /// Count the reference, unless taking it is set to fail.
    fn sensor_power_get(&mut self) -> (r: Result<(), BusError>)
        ensures
            r is Err <==> old(self).spec_fail_sensor_power(),
            r is Ok ==> final(self).spec_get_count() == old(self).spec_get_count().wrapping_add(1),
            r is Err ==> final(self).spec_get_count() == old(self).spec_get_count(),
            final(self).spec_writes() == old(self).spec_writes(),
            final(self).spec_delays() == old(self).spec_delays(),
            final(self).spec_gpio_states() == old(self).spec_gpio_states(),
            final(self).spec_put_count() == old(self).spec_put_count(),
            final(self).spec_attempts() == old(self).spec_attempts(),
            final(self).spec_fail_all() == old(self).spec_fail_all(),
            final(self).spec_fail_first_n() == old(self).spec_fail_first_n(),
            final(self).spec_fail_sensor_power() == old(self).spec_fail_sensor_power(),
            final(self).spec_fail_gpio() == old(self).spec_fail_gpio(),
    {
        if self.fail_sensor_power {
            self.events.push(MockEvent::PowerGet { ok: false });
            proof {
                assert(self.spec_writes() =~= old(self).spec_writes());
                assert(self.log() =~= old(self).log().push(BusEvent::PowerGet { ok: false }));
                if old(self).consistent() {
                    MockI2cBus::lemma_step(*old(self), *self, BusEvent::PowerGet { ok: false });
                }
            }
            return Err(BusError);
        }
        self.power_get_count = self.power_get_count.wrapping_add(1);
        self.events.push(MockEvent::PowerGet { ok: true });
        proof {
            assert(self.spec_writes() =~= old(self).spec_writes());
            assert(self.log() =~= old(self).log().push(BusEvent::PowerGet { ok: true }));
            if old(self).consistent() {
                MockI2cBus::lemma_step(*old(self), *self, BusEvent::PowerGet { ok: true });
            }
        }
        Ok(())
    }

    fn sensor_power_put(&mut self)
        ensures
            final(self).spec_put_count() == old(self).spec_put_count().wrapping_add(1),
            final(self).spec_writes() == old(self).spec_writes(),
            final(self).spec_delays() == old(self).spec_delays(),
            final(self).spec_gpio_states() == old(self).spec_gpio_states(),
            final(self).spec_get_count() == old(self).spec_get_count(),
            final(self).spec_attempts() == old(self).spec_attempts(),
            final(self).spec_fail_all() == old(self).spec_fail_all(),
            final(self).spec_fail_first_n() == old(self).spec_fail_first_n(),
            final(self).spec_fail_sensor_power() == old(self).spec_fail_sensor_power(),
            final(self).spec_fail_gpio() == old(self).spec_fail_gpio(),
    {
        self.power_put_count = self.power_put_count.wrapping_add(1);
        self.events.push(MockEvent::PowerPut);
        proof {
            assert(self.spec_writes() =~= old(self).spec_writes());
            assert(self.log() =~= old(self).log().push(BusEvent::PowerPut));
            if old(self).consistent() {
                MockI2cBus::lemma_step(*old(self), *self, BusEvent::PowerPut);
            }
        }
    }
}

} // verus!
