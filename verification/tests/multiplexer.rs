use std::cell::Cell;
use std::rc::Rc;

use embedded_hal::digital::v2::OutputPin;
use libdaisy::multiplexer::Multiplexer;

/// A select-line stand-in whose driven level stays observable through a
/// shared handle after the multiplexer takes ownership of the pin.
struct SharedPin {
    level: Rc<Cell<bool>>,
}

impl SharedPin {
    fn new(initial: bool) -> (SharedPin, Rc<Cell<bool>>) {
        let level = Rc::new(Cell::new(initial));
        let handle = level.clone();
        (SharedPin { level }, handle)
    }
}

impl OutputPin for SharedPin {
    type Error = core::convert::Infallible;

    fn set_low(&mut self) -> Result<(), Self::Error> {
        self.level.set(false);
        Ok(())
    }

    fn set_high(&mut self) -> Result<(), Self::Error> {
        self.level.set(true);
        Ok(())
    }
}

/// A select-line stand-in whose every drive fails.
struct FailingPin;

impl OutputPin for FailingPin {
    type Error = ();

    fn set_low(&mut self) -> Result<(), Self::Error> {
        Err(())
    }

    fn set_high(&mut self) -> Result<(), Self::Error> {
        Err(())
    }
}

#[test]
fn channels_start_at_zero_two() {
    let (pin, _level) = SharedPin::new(false);
    let m = Multiplexer::new_1(0u32, (pin,));
    assert_eq!(m.channels(), &[0u32, 0][..]);
}

#[test]
fn channels_start_at_zero_four() {
    let (p0, _l0) = SharedPin::new(false);
    let (p1, _l1) = SharedPin::new(false);
    let m = Multiplexer::new_2(0u32, (p0, p1));
    assert_eq!(m.channels(), &[0u32, 0, 0, 0][..]);
}

#[test]
fn channels_start_at_zero_eight() {
    let (p0, _l0) = SharedPin::new(false);
    let (p1, _l1) = SharedPin::new(false);
    let (p2, _l2) = SharedPin::new(false);
    let m = Multiplexer::new_3(0u32, (p0, p1, p2));
    assert_eq!(m.channels(), &[0u32, 0, 0, 0, 0, 0, 0, 0][..]);
}

#[test]
fn first_update_stores_at_channel_zero() {
    let (p0, _l0) = SharedPin::new(false);
    let (p1, _l1) = SharedPin::new(false);
    let mut m = Multiplexer::new_2(0u32, (p0, p1));
    m.update(9876);
    assert_eq!(m.channels(), &[9876u32, 0, 0, 0][..]);
}

#[test]
fn channels_read_is_idempotent() {
    let (p0, _l0) = SharedPin::new(false);
    let (p1, _l1) = SharedPin::new(false);
    let mut m = Multiplexer::new_2(0u32, (p0, p1));
    m.tick();
    m.update(55);
    let first: Vec<u32> = m.channels().to_vec();
    let second: Vec<u32> = m.channels().to_vec();
    let third: Vec<u32> = m.channels().to_vec();
    assert_eq!(first, second);
    assert_eq!(second, third);
}

#[test]
fn two_channel_scenario() {
    let (pin, level) = SharedPin::new(false);
    let mut m = Multiplexer::new_1(0u32, (pin,));
    m.tick();
    assert!(level.get());
    m.update(42);
    assert_eq!(m.channels()[1], 42);
    m.tick();
    assert!(!level.get());
    m.update(7);
    assert_eq!(m.channels(), &[7u32, 42][..]);
}

#[test]
fn eight_channel_five_ticks() {
    let (p0, l0) = SharedPin::new(false);
    let (p1, l1) = SharedPin::new(false);
    let (p2, l2) = SharedPin::new(false);
    let mut m = Multiplexer::new_3(0u32, (p0, p1, p2));
    for _ in 0..5 {
        m.tick();
    }
    // Binary 101: line 0 high, line 1 low, line 2 high.
    assert!(l0.get());
    assert!(!l1.get());
    assert!(l2.get());
    // The cursor reads 5: an update lands on channel 5.
    m.update(1234);
    assert_eq!(m.channels(), &[0u32, 0, 0, 0, 0, 1234, 0, 0][..]);
}

#[test]
fn four_channel_line_patterns() {
    let (p0, l0) = SharedPin::new(false);
    let (p1, l1) = SharedPin::new(false);
    let mut m = Multiplexer::new_2(0u32, (p0, p1));
    let expected = [(true, false), (false, true), (true, true), (false, false)];
    for (e0, e1) in expected {
        m.tick();
        assert_eq!(l0.get(), e0);
        assert_eq!(l1.get(), e1);
    }
}

#[test]
fn cursor_wraps_mod_count() {
    let (p0, _l0) = SharedPin::new(false);
    let (p1, _l1) = SharedPin::new(false);
    let mut m = Multiplexer::new_2(0u32, (p0, p1));
    // Six ticks from channel 0: the cursor reads 6 mod 4 == 2.
    for _ in 0..6 {
        m.tick();
    }
    m.update(31);
    assert_eq!(m.channels(), &[0u32, 0, 31, 0][..]);
}

#[test]
fn full_cycle_round_trip_two() {
    let (pin, level) = SharedPin::new(false);
    let mut m = Multiplexer::new_1(0u32, (pin,));
    m.tick();
    let before = level.get();
    m.update(11);
    for _ in 0..2 {
        m.tick();
    }
    assert_eq!(level.get(), before);
    // The cursor is back on the same channel: updating overwrites it.
    m.update(22);
    assert_eq!(m.channels(), &[0u32, 22][..]);
}

#[test]
fn full_cycle_round_trip_eight() {
    let (p0, l0) = SharedPin::new(false);
    let (p1, l1) = SharedPin::new(false);
    let (p2, l2) = SharedPin::new(false);
    let mut m = Multiplexer::new_3(0u32, (p0, p1, p2));
    for _ in 0..3 {
        m.tick();
    }
    let before = (l0.get(), l1.get(), l2.get());
    m.update(77);
    for _ in 0..8 {
        m.tick();
    }
    assert_eq!((l0.get(), l1.get(), l2.get()), before);
    m.update(88);
    assert_eq!(m.channels(), &[0u32, 0, 0, 88, 0, 0, 0, 0][..]);
}

#[test]
fn update_overwrites_current_channel() {
    let (pin, _level) = SharedPin::new(false);
    let mut m = Multiplexer::new_1(0u32, (pin,));
    m.update(1);
    m.update(2);
    assert_eq!(m.channels(), &[2u32, 0][..]);
}

#[test]
fn analog_pin_gives_mutable_access() {
    let (pin, _level) = SharedPin::new(false);
    let mut m = Multiplexer::new_1(5u32, (pin,));
    *m.analog_pin() = 123;
    assert_eq!(*m.analog_pin(), 123);
}

#[test]
fn drive_failures_are_ignored() {
    let mut m = Multiplexer::new_2(0u32, (FailingPin, FailingPin));
    // Every drive fails; ticking still advances the cursor silently.
    for _ in 0..5 {
        m.tick();
    }
    m.update(64);
    assert_eq!(m.channels(), &[0u32, 64, 0, 0][..]);
}
