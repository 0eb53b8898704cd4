use std::cell::RefCell;
use std::rc::Rc;

use embedded_hal::digital::v2::OutputPin;
use led_controller::led::LED;
use led_controller::line::{Line, SteadyPin};

/// A pin that remembers its electrical level and every command it received.
struct ProbePin {
    high: Rc<RefCell<bool>>,
    calls: Rc<RefCell<Vec<bool>>>,
}

struct Probe {
    high: Rc<RefCell<bool>>,
    calls: Rc<RefCell<Vec<bool>>>,
}

impl Probe {
    fn is_high(&self) -> bool {
        *self.high.borrow()
    }

    fn calls(&self) -> Vec<bool> {
        self.calls.borrow().clone()
    }
}

fn led_probe_pin(initially_high: bool) -> (ProbePin, Probe) {
    let high = Rc::new(RefCell::new(initially_high));
    let calls = Rc::new(RefCell::new(Vec::new()));
    (ProbePin { high: high.clone(), calls: calls.clone() }, Probe { high, calls })
}

impl OutputPin for ProbePin {
    type Error = ();

    fn set_low(&mut self) -> Result<(), ()> {
        *self.high.borrow_mut() = false;
        self.calls.borrow_mut().push(false);
        Ok(())
    }

    fn set_high(&mut self) -> Result<(), ()> {
        *self.high.borrow_mut() = true;
        self.calls.borrow_mut().push(true);
        Ok(())
    }
}

impl SteadyPin for ProbePin {}

/// A pin that takes every command and reports a fault each time.
struct FaultyPin {
    calls: Rc<RefCell<Vec<bool>>>,
}

impl OutputPin for FaultyPin {
    type Error = u8;

    fn set_low(&mut self) -> Result<(), u8> {
        self.calls.borrow_mut().push(false);
        Err(1)
    }

    fn set_high(&mut self) -> Result<(), u8> {
        self.calls.borrow_mut().push(true);
        Err(2)
    }
}

impl SteadyPin for FaultyPin {}

#[test]
fn line_new_writes_nothing() {
    let (pin, probe) = led_probe_pin(true);
    let line = Line::new(pin);
    assert_eq!(probe.calls(), Vec::<bool>::new());
    assert!(probe.is_high());
    let _pin = line.free();
    assert_eq!(probe.calls(), Vec::<bool>::new());
}

#[test]
fn line_set_high_reaches_the_pin() {
    let (pin, probe) = led_probe_pin(false);
    let mut line = Line::new(pin);
    line.set_high();
    assert!(probe.is_high());
    assert_eq!(probe.calls(), vec![true]);
}

#[test]
fn line_set_low_reaches_the_pin() {
    let (pin, probe) = led_probe_pin(true);
    let mut line = Line::new(pin);
    line.set_low();
    assert!(!probe.is_high());
    assert_eq!(probe.calls(), vec![false]);
}

#[test]
fn line_does_not_debounce() {
    let (pin, probe) = led_probe_pin(false);
    let mut line = Line::new(pin);
    line.set_high();
    line.set_high();
    line.set_low();
    line.set_low();
    assert_eq!(probe.calls(), vec![true, true, false, false]);
}

#[test]
fn line_free_returns_the_same_pin() {
    let (pin, probe) = led_probe_pin(false);
    let mut line = Line::new(pin);
    line.set_high();
    let mut pin = line.free();
    pin.set_low().unwrap();
    assert_eq!(probe.calls(), vec![true, false]);
}

#[test]
fn new_drives_a_low_pin_low() {
    let (pin, probe) = led_probe_pin(false);
    let led = LED::new(pin);
    assert!(!led.is_on());
    assert_eq!(probe.calls(), vec![false]);
    assert!(!probe.is_high());
}

#[test]
fn new_drives_a_high_pin_low() {
    let (pin, probe) = led_probe_pin(true);
    let led = LED::new(pin);
    assert!(!led.is_on());
    assert_eq!(probe.calls(), vec![false]);
    assert!(!probe.is_high());
}

#[test]
fn fresh_led_on_a_high_pin_takes_two_writes_to_light() {
    let (pin, probe) = led_probe_pin(true);
    let mut led = LED::new(pin);
    led.on();
    assert!(led.is_on());
    assert_eq!(probe.calls(), vec![false, true]);
    assert_eq!(probe.calls().len(), 2);
    assert!(probe.is_high());
}

#[test]
fn on_twice_writes_once() {
    let (pin, probe) = led_probe_pin(false);
    let mut led = LED::new(pin);
    led.on();
    led.on();
    assert!(led.is_on());
    assert_eq!(probe.calls(), vec![false, true]);
}

#[test]
fn off_twice_writes_once() {
    let (pin, probe) = led_probe_pin(false);
    let mut led = LED::new(pin);
    led.on();
    led.off();
    led.off();
    assert!(!led.is_on());
    assert_eq!(probe.calls(), vec![false, true, false]);
}

#[test]
fn off_on_a_fresh_led_writes_nothing() {
    let (pin, probe) = led_probe_pin(false);
    let mut led = LED::new(pin);
    led.off();
    led.off();
    assert!(!led.is_on());
    assert_eq!(probe.calls(), vec![false]);
}

#[test]
fn writes_count_transitions_not_calls() {
    let (pin, probe) = led_probe_pin(false);
    let mut led = LED::new(pin);
    // on on off on on on off off off on: five changes of level in ten calls
    led.on();
    led.on();
    led.off();
    led.on();
    led.on();
    led.on();
    led.off();
    led.off();
    led.off();
    led.on();
    assert!(led.is_on());
    assert_eq!(probe.calls(), vec![false, true, false, true, false, true]);
    assert_eq!(probe.calls().len(), 1 + 5);
}

#[test]
fn written_levels_alternate() {
    let (pin, probe) = led_probe_pin(true);
    let mut led = LED::new(pin);
    for round in 0..7 {
        if round % 3 == 0 {
            led.off();
        } else {
            led.on();
        }
        led.on();
    }
    let calls = probe.calls();
    for pair in calls.windows(2) {
        assert_ne!(pair[0], pair[1]);
    }
    assert_eq!(*calls.last().unwrap(), led.is_on());
}

#[test]
fn release_of_a_lit_led_writes_one_low() {
    let (pin, probe) = led_probe_pin(false);
    let mut led = LED::new(pin);
    led.on();
    assert_eq!(probe.calls(), vec![false, true]);
    let _line = led.release();
    assert_eq!(probe.calls(), vec![false, true, false]);
    assert!(!probe.is_high());
}

#[test]
fn release_of_a_dark_led_writes_nothing() {
    let (pin, probe) = led_probe_pin(false);
    let mut led = LED::new(pin);
    led.on();
    led.off();
    let _line = led.release();
    assert_eq!(probe.calls(), vec![false, true, false]);
}

#[test]
fn release_of_a_fresh_led_writes_nothing() {
    let (pin, probe) = led_probe_pin(true);
    let led = LED::new(pin);
    let _line = led.release();
    assert_eq!(probe.calls(), vec![false]);
}

#[test]
fn released_line_still_drives_the_pin() {
    let (pin, probe) = led_probe_pin(false);
    let mut led = LED::new(pin);
    led.on();
    let mut line = led.release();
    line.set_high();
    assert_eq!(probe.calls(), vec![false, true, false, true]);
    assert!(probe.is_high());
}

#[test]
fn line_passes_commands_to_a_faulty_pin() {
    let calls = Rc::new(RefCell::new(Vec::new()));
    let mut line = Line::new(FaultyPin { calls: calls.clone() });
    line.set_high();
    line.set_low();
    line.set_high();
    assert_eq!(calls.borrow().clone(), vec![true, false, true]);
}

#[test]
fn pin_faults_are_ignored() {
    let calls = Rc::new(RefCell::new(Vec::new()));
    let mut led = LED::new(FaultyPin { calls: calls.clone() });
    assert!(!led.is_on());
    led.on();
    assert!(led.is_on());
    led.on();
    led.off();
    assert!(!led.is_on());
    assert_eq!(calls.borrow().clone(), vec![false, true, false]);
}
