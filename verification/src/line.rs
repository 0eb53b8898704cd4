//! An output pin and the record of what it has been told.

use embedded_hal::digital::v2::OutputPin;
use vstd::prelude::*;

verus! {

/// The two levels a light can be commanded to.
#[derive(Clone, Copy, Debug, PartialEq, Eq, Structural)]
pub enum LEDLevel {
    On,
    Off,
}

/// An output pin whose `set_high` and `set_low` always return and never
/// unwind. They may report a fault; they may not panic.
///
/// The trait has no methods. Implementing it for a pin type is a promise
/// about that type's `OutputPin` impl, which nothing checks: every contract
/// in this crate holds of pins that keep it.
pub trait SteadyPin {
}

/// An `embedded-hal` output pin together with the record of the level
/// commands issued to it through this value.
///
/// The record is ghost state: it lists the calls made on the pin, in
/// order. It says nothing of what the pin did with them, nor of the
/// electrical state the pin was in before the first command.
pub struct Line<P> {
    pin: P,
    log: Ghost<Seq<LEDLevel>>,
}

/// Calls `OutputPin::set_high` on the line's pin once and discards what it
/// reports. Trusted: that this call is what the record gains an `On` for,
/// and that it does not unwind, which is the promise of `SteadyPin`.
/// Nothing is claimed of the pin afterwards.
#[verifier::external_body]
fn drive_high<P: OutputPin + SteadyPin>(line: &mut Line<P>)
    ensures
        final(line).writes() == old(line).writes().push(LEDLevel::On),
    no_unwind
{
    let _ = line.pin.set_high();
}

/// Calls `OutputPin::set_low` on the line's pin once and discards what it
/// reports. Trusted: that this call is what the record gains an `Off` for,
/// and that it does not unwind, which is the promise of `SteadyPin`.
/// Nothing is claimed of the pin afterwards.
#[verifier::external_body]
fn drive_low<P: OutputPin + SteadyPin>(line: &mut Line<P>)
    ensures
        final(line).writes() == old(line).writes().push(LEDLevel::Off),
    no_unwind
{
    let _ = line.pin.set_low();
}

impl<P> Line<P> {
    /// The commands issued to the pin since it was adopted, oldest first:
    /// `On` for a call that drove it high, `Off` for one that drove it low.
    pub closed spec fn writes(&self) -> Seq<LEDLevel> {
        self.log@
    }

    /// The pin as it stands now.
    pub closed spec fn pin(&self) -> P {
        self.pin
    }
}

impl<P: OutputPin + SteadyPin> Line<P> {
    /// Adopts a configured pin. Nothing is written to it.
    pub fn new(pin: P) -> (line: Line<P>)
        ensures
            line.writes() == Seq::<LEDLevel>::empty(),
            line.pin() == pin,
        no_unwind
    {
        Line { pin, log: Ghost(Seq::empty()) }
    }

    /// Drives the pin high, which lights whatever hangs on it. A fault the
    /// pin reports is dropped: a line is taken to accept every command.
    pub fn set_high(&mut self)
        ensures
            final(self).writes() == old(self).writes().push(LEDLevel::On),
        no_unwind
    {
        drive_high(self);
    }

    /// Drives the pin low. A fault the pin reports is dropped, as for
    /// `set_high`.
    pub fn set_low(&mut self)
        ensures
            final(self).writes() == old(self).writes().push(LEDLevel::Off),
        no_unwind
    {
        drive_low(self);
    }

    /// Gives the pin back as it stands and forgets the record.
    pub fn free(self) -> (pin: P)
        ensures
            pin == self.pin(),
        no_unwind
    {
        self.pin
    }
}

} // verus!
