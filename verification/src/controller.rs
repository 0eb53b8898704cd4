//! Four lights, one lit at a time, in a fixed cycle.

use embedded_hal::digital::v2::OutputPin;
use vstd::prelude::*;
use crate::led::{LED, LEDView};
use crate::line::{LEDLevel, Line, SteadyPin};

verus! {

/// The four roles a light can play in the cycle.
#[derive(Clone, Copy, Debug, PartialEq, Eq, Structural)]
pub enum LEDState {
    Red,
    Blue,
    Green,
    Orange,
}

impl LEDState {
    /// The role the cycle starts from after a reset.
    pub open spec fn start() -> LEDState {
        LEDState::Blue
    }

    /// The role that follows this one: blue, green, orange, red, and
    /// round again.
    pub open spec fn next(self) -> LEDState {
        match self {
            LEDState::Blue => LEDState::Green,
            LEDState::Green => LEDState::Orange,
            LEDState::Orange => LEDState::Red,
            LEDState::Red => LEDState::Blue,
        }
    }

    /// The level that the light of role `role` is commanded to while
    /// `self` is the active role.
    pub open spec fn level_for(self, role: LEDState) -> LEDLevel {
        if self == role {
            LEDLevel::On
        } else {
            LEDLevel::Off
        }
    }
}

/// The sequencer as its contracts see it: the four lights and the active
/// role.
pub struct ControllerView {
    pub red: LEDView,
    pub green: LEDView,
    pub blue: LEDView,
    pub orange: LEDView,
    pub active: LEDState,
}

impl ControllerView {
    /// The light that plays `role`.
    pub open spec fn led(self, role: LEDState) -> LEDView {
        match role {
            LEDState::Red => self.red,
            LEDState::Green => self.green,
            LEDState::Blue => self.blue,
            LEDState::Orange => self.orange,
        }
    }

    /// How many of the four lights are commanded on.
    pub open spec fn lit(self) -> nat {
        let r: nat = if self.red.level == LEDLevel::On { 1 } else { 0 };
        let g: nat = if self.green.level == LEDLevel::On { 1 } else { 0 };
        let b: nat = if self.blue.level == LEDLevel::On { 1 } else { 0 };
        let o: nat = if self.orange.level == LEDLevel::On { 1 } else { 0 };
        r + g + b + o
    }

    /// How many level commands the four lines have received in all.
    pub open spec fn written(self) -> nat {
        self.red.writes.len() + self.green.writes.len() + self.blue.writes.len()
            + self.orange.writes.len()
    }

    /// The light of the active role is on and the other three are off.
    pub open spec fn exclusive(self) -> bool {
        forall|role: LEDState| #[trigger] self.led(role).level == self.active.level_for(role)
    }

    /// All four lights are off.
    pub open spec fn dark(self) -> bool {
        forall|role: LEDState| #[trigger] self.led(role).level == LEDLevel::Off
    }

    /// Every light's commanded level is the last level written to its line.
    pub open spec fn wf(self) -> bool {
        self.red.wf() && self.green.wf() && self.blue.wf() && self.orange.wf()
    }

    /// The sequencer after a reset: every light commanded off, the cycle
    /// back at its start.
    pub open spec fn reset(self) -> ControllerView {
        ControllerView {
            red: self.red.set(LEDLevel::Off),
            green: self.green.set(LEDLevel::Off),
            blue: self.blue.set(LEDLevel::Off),
            orange: self.orange.set(LEDLevel::Off),
            active: LEDState::start(),
        }
    }

    /// The sequencer after one step: the next role becomes active, its
    /// light is commanded on and the other three off.
    pub open spec fn advance(self) -> ControllerView {
        let active = self.active.next();
        ControllerView {
            red: self.red.set(active.level_for(LEDState::Red)),
            green: self.green.set(active.level_for(LEDState::Green)),
            blue: self.blue.set(active.level_for(LEDState::Blue)),
            orange: self.orange.set(active.level_for(LEDState::Orange)),
            active,
        }
    }

    /// The sequencer after `n` steps.
    pub open spec fn advance_by(self, n: nat) -> ControllerView
        decreases n,
    {
        if n == 0 {
            self
        } else {
            self.advance_by((n - 1) as nat).advance()
        }
    }

    /// The same lights at the same levels with the same role active; the
    /// histories of the lines may differ.
    pub open spec fn same_pattern(self, other: ControllerView) -> bool {
        &&& self.active == other.active
        &&& forall|role: LEDState| #[trigger] self.led(role).level == other.led(role).level
    }
}

/// A sequencer over four lights that keeps exactly one of them lit and
/// moves the light one role along the cycle at each step.
pub struct LEDController<RED, GREEN, BLUE, ORANGE> {
    red: LED<RED>,
    green: LED<GREEN>,
    blue: LED<BLUE>,
    orange: LED<ORANGE>,
    state: LEDState,
}

impl<RED, GREEN, BLUE, ORANGE> View for LEDController<RED, GREEN, BLUE, ORANGE> {
    type V = ControllerView;

    closed spec fn view(&self) -> ControllerView {
        ControllerView {
            red: self.red@,
            green: self.green@,
            blue: self.blue@,
            orange: self.orange@,
            active: self.state,
        }
    }
}

impl<RED, GREEN, BLUE, ORANGE> LEDController<RED, GREEN, BLUE, ORANGE> where
    RED: OutputPin + SteadyPin,
    GREEN: OutputPin + SteadyPin,
    BLUE: OutputPin + SteadyPin,
    ORANGE: OutputPin + SteadyPin,
 {
    /// Binds four pins to the four roles and resets the cycle. Every pin
    /// is driven low exactly once; no light is on until the first step.
    pub fn new(red: RED, green: GREEN, blue: BLUE, orange: ORANGE) -> (controller: Self)
        ensures
            controller@ == (ControllerView {
                red: LEDView::fresh(),
                green: LEDView::fresh(),
                blue: LEDView::fresh(),
                orange: LEDView::fresh(),
                active: LEDState::start(),
            }),
            controller@.dark(),
            controller@.wf(),
        no_unwind
    {
        let red = LED::new(red);
        let green = LED::new(green);
        let blue = LED::new(blue);
        let orange = LED::new(orange);
        let mut controller = LEDController { red, green, blue, orange, state: LEDState::Blue };
        controller.reset_state();
        controller
    }

    /// Puts all four lights out and returns the cycle to its start. A
    /// light that was already off is not written to.
    pub fn reset_state(&mut self)
        ensures
            final(self)@ == old(self)@.reset(),
            final(self)@.dark(),
            final(self)@.active == LEDState::start(),
        no_unwind
    {
        self.red.off();
        self.green.off();
        self.blue.off();
        self.orange.off();
        self.state = LEDState::Blue;
    }

    /// Moves to the next role in the cycle, lights its LED and puts the
    /// other three out. Only lights whose level changes are written to.
    pub fn advance_state(&mut self)
        ensures
            final(self)@ == old(self)@.advance(),
            final(self)@.exclusive(),
            final(self)@.lit() == 1,
        no_unwind
    {
        match self.state {
            LEDState::Blue => {
                self.red.off();
                self.blue.off();
                self.green.on();
                self.orange.off();
                self.state = LEDState::Green;
            },
            LEDState::Green => {
                self.red.off();
                self.blue.off();
                self.green.off();
                self.orange.on();
                self.state = LEDState::Orange;
            },
            LEDState::Orange => {
                self.red.on();
                self.blue.off();
                self.green.off();
                self.orange.off();
                self.state = LEDState::Red;
            },
            LEDState::Red => {
                self.red.off();
                self.blue.on();
                self.green.off();
                self.orange.off();
                self.state = LEDState::Blue;
            },
        }
    }

    /// The active role.
    pub fn state(&self) -> (active: LEDState)
        ensures
            active == self@.active,
        no_unwind
    {
        self.state
    }

    /// Ends the sequencer: puts out whichever lights are on, one write
    /// each, and hands back the four lines as red, green, blue, orange.
    pub fn release(self) -> (lines: (Line<RED>, Line<GREEN>, Line<BLUE>, Line<ORANGE>))
        ensures
            lines.0.writes() == self@.red.set(LEDLevel::Off).writes,
            lines.1.writes() == self@.green.set(LEDLevel::Off).writes,
            lines.2.writes() == self@.blue.set(LEDLevel::Off).writes,
            lines.3.writes() == self@.orange.set(LEDLevel::Off).writes,
        no_unwind
    {
        let LEDController { red, green, blue, orange, state: _ } = self;
        (red.release(), green.release(), blue.release(), orange.release())
    }
}

/// A reset or a step keeps every light's commanded level equal to the last
/// level written to its line.
pub proof fn lemma_wf_preserved(s: ControllerView)
    requires
        s.wf(),
    ensures
        s.reset().wf(),
        s.advance().wf(),
{
}

/// After a reset all four lights are off and the start role is active.
pub proof fn lemma_reset_dark(s: ControllerView)
    ensures
        s.reset().dark(),
        s.reset().lit() == 0,
        s.reset().active == LEDState::start(),
{
}

/// One step from any state leaves exactly one light on, that of the new
/// active role, which is the successor of the old one.
pub proof fn lemma_advance_exclusive(s: ControllerView)
    ensures
        s.advance().active == s.active.next(),
        s.advance().exclusive(),
        s.advance().lit() == 1,
{
}

/// However many steps are taken, as long as it is at least one, exactly
/// one of the four lights is on afterwards: the one of the active role.
/// This holds from a reset and from any other state.
pub proof fn lemma_exclusive_after_steps(s: ControllerView, n: nat)
    requires
        n >= 1,
    ensures
        s.advance_by(n).exclusive(),
        s.advance_by(n).lit() == 1,
{
    lemma_advance_exclusive(s.advance_by((n - 1) as nat));
}

/// Four steps bring the active role back to where it was.
pub proof fn lemma_cycle_active(s: ControllerView)
    ensures
        s.advance_by(4).active == s.active,
        s.reset().advance_by(4).active == LEDState::start(),
{
    reveal_with_fuel(ControllerView::advance_by, 5);
}

/// Four steps from a state in which only the active role's light is on
/// lead to the same role with the same lights at the same levels.
pub proof fn lemma_cycle_closure(s: ControllerView)
    requires
        s.exclusive(),
    ensures
        s.advance_by(4).same_pattern(s),
{
    lemma_cycle_active(s);
    lemma_exclusive_after_steps(s, 4);
    let t = s.advance_by(4);
    assert forall|role: LEDState| #[trigger] t.led(role).level == s.led(role).level by {
        assert(t.led(role).level == t.active.level_for(role));
        assert(s.led(role).level == s.active.level_for(role));
    }
}

/// Once at least one step has been taken, four more steps reproduce the
/// pattern: the same role active and the same single light on.
pub proof fn lemma_cycle_closure_after_steps(s: ControllerView, n: nat)
    requires
        n >= 1,
    ensures
        s.advance_by(n + 4).same_pattern(s.advance_by(n)),
{
    lemma_exclusive_after_steps(s, n);
    lemma_advance_by_sum(s, n, 4);
    lemma_cycle_closure(s.advance_by(n));
}

/// Taking `m` steps and then `n` more is taking `m + n` steps.
pub proof fn lemma_advance_by_sum(s: ControllerView, m: nat, n: nat)
    ensures
        s.advance_by(m + n) == s.advance_by(m).advance_by(n),
    decreases n,
{
    if n > 0 {
        lemma_advance_by_sum(s, m, (n - 1) as nat);
        assert((m + n - 1) as nat == m + (n - 1) as nat);
    }
}

/// A step writes only where a level changes: once, to light the first
/// LED after a reset, and twice in the running cycle, to put out the old
/// light and to light the new one.
pub proof fn lemma_advance_writes(s: ControllerView)
    ensures
        s.dark() ==> s.advance().written() == s.written() + 1,
        s.exclusive() ==> s.advance().written() == s.written() + 2,
{
    assert(s.dark() ==> s.led(LEDState::Red).level == LEDLevel::Off && s.led(LEDState::Green).level
        == LEDLevel::Off && s.led(LEDState::Blue).level == LEDLevel::Off && s.led(
        LEDState::Orange,
    ).level == LEDLevel::Off);
    assert(s.exclusive() ==> s.led(LEDState::Red).level == s.active.level_for(LEDState::Red)
        && s.led(LEDState::Green).level == s.active.level_for(LEDState::Green) && s.led(
        LEDState::Blue,
    ).level == s.active.level_for(LEDState::Blue) && s.led(LEDState::Orange).level
        == s.active.level_for(LEDState::Orange));
}

} // verus!
