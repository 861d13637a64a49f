//! Concrete instances of what the DW9714 driver promises for every input:
//! the register word of a position, the validation of positions and
//! controls, the state machine, and the error reporting.

use lib::dw9714::consts::V4L2_CID_FOCUS_ABSOLUTE;
use lib::dw9714::mock::MockI2cBus;
use lib::dw9714::{BusError, DW9714Error, DeviceConfig, Dw9714, LensPosition, VcmStep, MAX_FOCUS_POS};

const ADDR: u16 = 0x0c;

fn full_config() -> DeviceConfig {
    DeviceConfig {
        i2c_addr: ADDR,
        gpio_xsd: Some(5),
        has_sensor_dev: true,
    }
}

#[test]
fn register_word_is_position_then_step_nibble() {
    for pos in [0u16, 1, 15, 16, 511, 512, 1000, 1023] {
        let p = LensPosition::new(pos).unwrap();
        for step in 0u16..=0x1f {
            let word = p.register_value(VcmStep::new(step)).get();
            assert_eq!(word, (pos << 4) | (step & 0xf));
            assert_eq!(
                p.register_value(VcmStep::new(step)).to_be_bytes(),
                [(word >> 8) as u8, (word & 0xff) as u8]
            );
        }
        assert_eq!(p.default_register_value().get(), pos << 4);
    }
}

#[test]
fn position_validation_is_exactly_the_range() {
    for v in (0u16..=2100).chain([u16::MAX - 1, u16::MAX]) {
        match LensPosition::new(v) {
            Ok(p) => {
                assert!(v <= MAX_FOCUS_POS);
                assert_eq!(p.get(), v);
            }
            Err(e) => {
                assert!(v > MAX_FOCUS_POS);
                assert_eq!(
                    e,
                    DW9714Error::PositionOutOfRange {
                        requested: v,
                        max: MAX_FOCUS_POS
                    }
                );
            }
        }
        assert_eq!(LensPosition::new_saturating(v).get(), v.min(MAX_FOCUS_POS));
    }
    assert_eq!(LensPosition::ZERO().get(), 0);
    assert_eq!(LensPosition::MAX, 1023);
}

#[test]
fn set_ctrl_maps_values_to_positions_or_errors() {
    let mut dev = Dw9714::probe(MockI2cBus::new(), DeviceConfig::new(ADDR)).unwrap();
    dev.set_ctrl(V4L2_CID_FOCUS_ABSOLUTE, 333).unwrap();
    assert_eq!(dev.current_val(), 333);
    assert_eq!(dev.bus().last_word(), Some(333 << 4));

    let before = dev.bus().writes.len();
    assert_eq!(dev.set_ctrl(V4L2_CID_FOCUS_ABSOLUTE + 1, 5), Err(DW9714Error::InvalidArgument));
    assert_eq!(dev.set_ctrl(V4L2_CID_FOCUS_ABSOLUTE, -1), Err(DW9714Error::InvalidArgument));
    assert_eq!(
        dev.set_ctrl(V4L2_CID_FOCUS_ABSOLUTE, 1024),
        Err(DW9714Error::PositionOutOfRange {
            requested: 1024,
            max: 1023
        })
    );
    assert_eq!(
        dev.set_ctrl(V4L2_CID_FOCUS_ABSOLUTE, 70000),
        Err(DW9714Error::PositionOutOfRange {
            requested: u16::MAX,
            max: 1023
        })
    );
    // Rejected controls touch neither the bus nor the position.
    assert_eq!(dev.bus().writes.len(), before);
    assert_eq!(dev.current_val(), 333);
}

#[test]
fn uninitialized_device_refuses_work_and_init_runs_once() {
    let mut dev = Dw9714::new(MockI2cBus::new(), DeviceConfig::new(ADDR));
    assert!(!dev.is_initialized());
    assert_eq!(
        dev.set_position(LensPosition::new(10).unwrap()),
        Err(DW9714Error::NotInitialized)
    );
    assert_eq!(dev.runtime_suspend(), Err(DW9714Error::NotInitialized));
    assert_eq!(dev.runtime_resume(), Err(DW9714Error::NotInitialized));
    assert!(dev.bus().writes.is_empty());
    dev.init().unwrap();
    assert!(dev.is_initialized());
    assert_eq!(dev.init(), Err(DW9714Error::AlreadyInitialized));
}

#[test]
fn suspend_then_resume_returns_the_lens_to_its_position() {
    for pos in [0u16, 7, 16, 100, 512, 1023] {
        let mut dev = Dw9714::probe(MockI2cBus::new(), full_config()).unwrap();
        dev.set_position(LensPosition::new(pos).unwrap()).unwrap();
        dev.runtime_suspend().unwrap();
        assert!(!dev.is_powered());
        // The ramp down ends at zero.
        assert_eq!(dev.bus().last_word(), Some(0));
        dev.bus_mut().clear();
        dev.runtime_resume().unwrap();
        assert!(dev.is_powered());
        assert_eq!(dev.current_val(), pos);
        // The ramp up starts at the position modulo the step, climbs by the
        // step, and the position itself is written last.
        let words = dev.bus().words();
        assert_eq!(words[0], (pos % 16) << 4);
        for w in words.windows(2).take(words.len() - 2) {
            assert_eq!(w[1], w[0] + (16 << 4));
        }
        assert_eq!(*words.last().unwrap(), pos << 4);
        assert_eq!(dev.bus().gpio_states, vec![true]);
        assert_eq!(dev.bus().power_get_count, 1);
    }
}

#[test]
fn resume_reports_io_when_the_gpio_fails() {
    let mut dev = Dw9714::probe(MockI2cBus::new().with_failing_gpio(), full_config()).unwrap();
    assert_eq!(dev.runtime_resume(), Err(DW9714Error::Io));
    assert!(!dev.is_powered());
    // The sensor reference taken before the GPIO is released again.
    assert_eq!(dev.bus().power_get_count, 1);
    assert_eq!(dev.bus().power_put_count, 1);
    assert!(dev.bus().writes.is_empty());
}

#[test]
fn power_guard_forwards_and_close_suspends() {
    let mut dev = Dw9714::probe(MockI2cBus::new(), full_config()).unwrap();
    {
        let mut guard = dev.open().unwrap();
        assert!(guard.is_powered());
        assert!(guard.is_initialized());
        guard.set_position_raw(300).unwrap();
        assert_eq!(guard.current_val(), 300);
        assert_eq!(guard.position().get(), 300);
        assert_eq!(guard.config().i2c_addr, ADDR);
        assert_eq!(guard.bus().last_word(), Some(300 << 4));
        assert_eq!(
            guard.set_position_raw(5000),
            Err(DW9714Error::PositionOutOfRange {
                requested: 5000,
                max: 1023
            })
        );
        guard.close().unwrap();
    }
    assert!(!dev.is_powered());
    assert_eq!(dev.current_val(), 300);
}

#[test]
fn dw9714_error_messages_and_errnos() {
    let cases = [
        (DW9714Error::Io, "i2c transfer failed", -5),
        (DW9714Error::InvalidArgument, "invalid argument", -22),
        (DW9714Error::OutOfMemory, "out of memory", -12),
        (DW9714Error::NoDevice, "no such device", -19),
        (
            DW9714Error::PositionOutOfRange {
                requested: 2000,
                max: 1023,
            },
            "lens position 2000 out of range (max 1023)",
            -22,
        ),
        (DW9714Error::AlreadyInitialized, "device already initialized", -22),
        (DW9714Error::NotInitialized, "device not initialized", -22),
    ];
    for (err, text, errno) in cases {
        assert_eq!(err.to_string(), text);
        assert_eq!(err.to_errno(), errno);
    }
    assert_eq!(BusError.to_string(), "i2c bus transfer error");
}
