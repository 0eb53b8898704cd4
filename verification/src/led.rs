//! One light on one line, with redundant writes suppressed.

use embedded_hal::digital::v2::OutputPin;
use vstd::prelude::*;
use crate::line::{LEDLevel, Line, SteadyPin};

verus! {

/// What a light is, as far as its contracts are concerned: the level it
/// was last commanded to, and everything its line has been told so far.
pub struct LEDView {
    pub level: LEDLevel,
    pub writes: Seq<LEDLevel>,
}

impl LEDView {
    /// A light that has just been created: its line has been told to go
    /// low, once, and the light is off.
    pub open spec fn fresh() -> LEDView {
        LEDView { level: LEDLevel::Off, writes: seq![LEDLevel::Off] }
    }

    /// The light after it is commanded to `level`: one more write if that
    /// changes the commanded level, nothing otherwise.
    pub open spec fn set(self, level: LEDLevel) -> LEDView {
        if self.level == level {
            self
        } else {
            LEDView { level, writes: self.writes.push(level) }
        }
    }

    /// The light after a whole sequence of commands, first to last.
    pub open spec fn run(self, commands: Seq<LEDLevel>) -> LEDView
        decreases commands.len(),
    {
        if commands.len() == 0 {
            self
        } else {
            self.run(commands.drop_last()).set(commands.last())
        }
    }

    /// The commanded level is the last level written to the line, and the
    /// line was never told the same level twice in a row.
    pub open spec fn wf(self) -> bool {
        &&& self.writes.len() > 0
        &&& self.writes.last() == self.level
        &&& alternating(self.writes)
    }
}

/// No two neighbours in the sequence are the same level.
pub open spec fn alternating(writes: Seq<LEDLevel>) -> bool {
    forall|i: int| 0 < i < writes.len() ==> #[trigger] writes[i] != writes[i - 1]
}

/// How many commands of the sequence ask for a level other than the one in
/// force when they arrive, starting from `level`.
pub open spec fn transitions(level: LEDLevel, commands: Seq<LEDLevel>) -> nat
    decreases commands.len(),
{
    if commands.len() == 0 {
        0
    } else {
        let earlier = commands.drop_last();
        let in_force = if earlier.len() == 0 { level } else { earlier.last() };
        let step: nat = if commands.last() == in_force { 0 } else { 1 };
        transitions(level, earlier) + step
    }
}

/// A light on an output pin that remembers the level it last commanded, so
/// that asking for the level already in force costs no write.
pub struct LED<PIN> {
    line: Line<PIN>,
    state: LEDLevel,
}

impl<PIN> View for LED<PIN> {
    type V = LEDView;

    closed spec fn view(&self) -> LEDView {
        LEDView { level: self.state, writes: self.line.writes() }
    }
}

impl<PIN: OutputPin + SteadyPin> LED<PIN> {
    /// Takes the pin and drives it low once, whatever state it was in, so
    /// that the light starts off and its line says so.
    pub fn new(pin: PIN) -> (led: LED<PIN>)
        ensures
            led@ == LEDView::fresh(),
            led@.wf(),
        no_unwind
    {
        let mut line = Line::new(pin);
        line.set_low();
        LED { line, state: LEDLevel::Off }
    }

    /// Lights the LED. Writes to the line only if the LED was off.
    pub fn on(&mut self)
        ensures
            final(self)@ == old(self)@.set(LEDLevel::On),
        no_unwind
    {
        match self.state {
            LEDLevel::Off => {
                self.line.set_high();
                self.state = LEDLevel::On;
            },
            LEDLevel::On => {},
        }
    }

    /// Puts the LED out. Writes to the line only if the LED was on.
    pub fn off(&mut self)
        ensures
            final(self)@ == old(self)@.set(LEDLevel::Off),
        no_unwind
    {
        match self.state {
            LEDLevel::On => {
                self.line.set_low();
                self.state = LEDLevel::Off;
            },
            LEDLevel::Off => {},
        }
    }

    /// Whether the LED is commanded on.
    pub fn is_on(&self) -> (lit: bool)
        ensures
            lit == (self@.level == LEDLevel::On),
        no_unwind
    {
        match self.state {
            LEDLevel::On => true,
            LEDLevel::Off => false,
        }
    }

    /// Ends the light's hold on its line: puts the light out, with one
    /// write if it was on and none if it was off, and hands the line back.
    pub fn release(self) -> (line: Line<PIN>)
        ensures
            line.writes() == self@.set(LEDLevel::Off).writes,
        no_unwind
    {
        let mut led = self;
        led.off();
        led.line
    }
}

/// Commanding a level leaves the light at that level with at most one more
/// write on its line. It keeps the commanded level equal to the last level
/// written, and the line free of repeated writes.
pub proof fn lemma_set(s: LEDView, level: LEDLevel)
    ensures
        s.set(level).level == level,
        s.level == level ==> s.set(level).writes == s.writes,
        s.level != level ==> s.set(level).writes == s.writes.push(level),
        s.wf() ==> s.set(level).wf(),
{
}

/// Asking twice in a row for the same level writes at most once: the
/// second request changes nothing.
pub proof fn lemma_set_idempotent(s: LEDView, level: LEDLevel)
    ensures
        s.set(level).set(level) == s.set(level),
        s.level != level ==> s.set(level).set(level).writes.len() == s.writes.len() + 1,
{
}

/// After any sequence of commands the line has received one write per
/// change of level, not one per command, and the light is at the level
/// asked for last. A light that tracked its line before still does.
pub proof fn lemma_writes_count_transitions(s: LEDView, commands: Seq<LEDLevel>)
    ensures
        s.run(commands).writes.len() == s.writes.len() + transitions(s.level, commands),
        s.run(commands).level == if commands.len() == 0 { s.level } else { commands.last() },
        s.wf() ==> s.run(commands).wf(),
    decreases commands.len(),
{
    if commands.len() > 0 {
        lemma_writes_count_transitions(s, commands.drop_last());
    }
}

} // verus!
