//! Gestures on the touch sensor.
//!
//! A touch wakes a display that is off. While it is on, two short taps with a gap of the right
//! length switch the panel, and holding the sensor switches the display off.

use crate::fingerprint::TouchEvent;
use crate::time::{span_between, Duration, Instant};
use vstd::math::max;
use vstd::prelude::*;

verus! {

/// What a gesture asks for.
#[derive(Clone, Copy, Debug, PartialEq, Eq, Structural)]
pub enum GestureAction {
    Wake,
    NextPanel,
    Sleep,
}

/// Tells gestures apart by the times of presses and releases.
pub struct GestureController {
    long_press: Duration,
    double_tap_min: Duration,
    double_tap_max: Duration,
    pressed_at: Option<Instant>,
    last_short_release: Option<Instant>,
    second_tap: bool,
    ignore_until_release: bool,
    long_press_fired: bool,
}

// ---------------------------------------------------------------------------------------------
// Model
// ---------------------------------------------------------------------------------------------
/// Where a finger is in the course of a gesture.
pub enum Finger {
    /// Off the sensor. A tap that was short and is not part of a double tap yet has left the time
    /// of its release.
    Up { tapped: Option<Instant> },
    /// On the sensor since a time, for a `second` tap or for another touch.
    Down { since: Instant, second: bool },
    /// On the sensor, with the touch that woke the display.
    Waking,
    /// On the sensor, with a hold that has switched the display off.
    Spent,
}

/// A controller: its settings and where the finger is.
pub struct Gestures {
    pub long_press: Duration,
    pub double_tap_min: Duration,
    pub double_tap_max: Duration,
    pub finger: Finger,
}

impl Gestures {
    /// The same settings with the finger elsewhere.
    pub open spec fn with_finger(self, finger: Finger) -> Gestures {
        Gestures { finger, ..self }
    }

    /// Whether a gap between two taps makes them a double tap.
    pub open spec fn joins(self, released: Instant, pressed: Instant) -> bool {
        self.double_tap_min.nanos <= span_between(released, pressed).nanos
            <= self.double_tap_max.nanos
    }

    /// Whether a touch is long enough to be a hold.
    pub open spec fn is_hold(self, pressed: Instant, now: Instant) -> bool {
        span_between(pressed, now).nanos >= self.long_press.nanos
    }

    /// What follows a press, and the action that it asks for.
    pub open spec fn after_press(self, screen_on: bool, now: Instant) -> (
        Gestures,
        Option<GestureAction>,
    ) {
        match self.finger {
            Finger::Up { tapped } => if screen_on {
                let second = match tapped {
                    Some(released) => self.joins(released, now),
                    None => false,
                };
                (self.with_finger(Finger::Down { since: now, second }), None)
            } else {
                (self.with_finger(Finger::Waking), Some(GestureAction::Wake))
            },
            _ => (self, None),
        }
    }

    /// What follows a release, and the action that it asks for.
    pub open spec fn after_release(self, screen_on: bool, now: Instant) -> (
        Gestures,
        Option<GestureAction>,
    ) {
        match self.finger {
            Finger::Up { .. } => (self, None),
            Finger::Down { since, second } => if !self.is_hold(since, now) && !second {
                (self.with_finger(Finger::Up { tapped: Some(now) }), None)
            } else {
                let action = if self.is_hold(since, now) {
                    GestureAction::Sleep
                } else {
                    GestureAction::NextPanel
                };
                (
                    self.with_finger(Finger::Up { tapped: None }),
                    if screen_on {
                        Some(action)
                    } else {
                        None
                    },
                )
            },
            _ => (self.with_finger(Finger::Up { tapped: None }), None),
        }
    }

    /// What follows a press or a release, and the action that it asks for.
    pub open spec fn after_event(self, event: TouchEvent, screen_on: bool, now: Instant) -> (
        Gestures,
        Option<GestureAction>,
    ) {
        match event {
            TouchEvent::Pressed => self.after_press(screen_on, now),
            TouchEvent::Released => self.after_release(screen_on, now),
        }
    }

    /// What follows when time has passed, and the action that it asks for.
    pub open spec fn after_tick(self, screen_on: bool, now: Instant) -> (
        Gestures,
        Option<GestureAction>,
    ) {
        match self.finger {
            Finger::Down { since, .. } => if screen_on && self.is_hold(since, now) {
                (self.with_finger(Finger::Spent), Some(GestureAction::Sleep))
            } else {
                (self, None)
            },
            _ => (self, None),
        }
    }
}

/// A controller with the finger off the sensor and no tap before.
pub open spec fn first_gestures(
    long_press: Duration,
    double_tap_min: Duration,
    double_tap_max: Duration,
) -> Gestures {
    Gestures { long_press, double_tap_min, double_tap_max, finger: Finger::Up { tapped: None } }
}

impl View for GestureController {
    type V = Gestures;

    closed spec fn view(&self) -> Gestures {
        Gestures {
            long_press: self.long_press,
            double_tap_min: self.double_tap_min,
            double_tap_max: self.double_tap_max,
            finger: match self.pressed_at {
                None => Finger::Up { tapped: self.last_short_release },
                Some(since) => if self.ignore_until_release {
                    Finger::Waking
                } else if self.long_press_fired {
                    Finger::Spent
                } else {
                    Finger::Down { since, second: self.second_tap }
                },
            },
        }
    }
}

// ---------------------------------------------------------------------------------------------
// Controller
// ---------------------------------------------------------------------------------------------
impl GestureController {
    #[verifier::type_invariant]
    spec fn consistent(self) -> bool {
        &&& self.pressed_at is None ==> !self.second_tap && !self.ignore_until_release
            && !self.long_press_fired
        &&& self.pressed_at is Some ==> self.last_short_release is None
        &&& self.ignore_until_release ==> !self.long_press_fired && !self.second_tap
        &&& self.long_press_fired ==> !self.second_tap
    }

    /// A controller with the finger off the sensor.
    pub fn new(long_press: Duration, double_tap_min: Duration, double_tap_max: Duration) -> (
        controller: GestureController)
        ensures
            controller@ == (Gestures {
                long_press,
                double_tap_min,
                double_tap_max,
                finger: Finger::Up { tapped: None },
            }),
            controller@ == first_gestures(long_press, double_tap_min, double_tap_max),
    {
        GestureController {
            long_press,
            double_tap_min,
            double_tap_max,
            pressed_at: None,
            last_short_release: None,
            second_tap: false,
            ignore_until_release: false,
            long_press_fired: false,
        }
    }

    /// Takes in a press or a release and gives the action that it asks for.
    pub fn handle(&mut self, event: TouchEvent, screen_on: bool, now: Instant) -> (action: Option<
        GestureAction,
    >)
        ensures
            (final(self)@, action) == old(self)@.after_event(event, screen_on, now),
    {
        proof {
            use_type_invariant(&*self);
        }
        let long_press: Duration = self.long_press;
        let double_tap_min: Duration = self.double_tap_min;
        let double_tap_max: Duration = self.double_tap_max;
        let mut next = GestureController::new(long_press, double_tap_min, double_tap_max);
        proof {
            use_type_invariant(&next);
        }
        let action = match event {
            TouchEvent::Pressed => {
                if self.pressed_at.is_some() {
                    return None;
                }
                if !screen_on {
                    next = GestureController {
                        pressed_at: Some(now),
                        ignore_until_release: true,
                        ..next
                    };
                    Some(GestureAction::Wake)
                } else {
                    let second_tap = match self.last_short_release {
                        Some(last) => {
                            let gap: Duration = now.duration_since(last);
                            gap.nanos >= double_tap_min.nanos && gap.nanos <= double_tap_max.nanos
                        },
                        None => false,
                    };
                    next = GestureController { pressed_at: Some(now), second_tap, ..next };
                    None
                }
            },
            TouchEvent::Released => {
                let pressed_at: Instant = match self.pressed_at {
                    Some(pressed_at) => pressed_at,
                    None => return None,
                };
                if self.ignore_until_release || self.long_press_fired {
                    None
                } else if now.duration_since(pressed_at).nanos >= long_press.nanos {
                    if screen_on {
                        Some(GestureAction::Sleep)
                    } else {
                        None
                    }
                } else if self.second_tap {
                    if screen_on {
                        Some(GestureAction::NextPanel)
                    } else {
                        None
                    }
                } else {
                    next = GestureController { last_short_release: Some(now), ..next };
                    None
                }
            },
        };
        *self = next;
        action
    }

    /// Takes note that time has passed and gives the action that this asks for.
    pub fn tick(&mut self, screen_on: bool, now: Instant) -> (action: Option<GestureAction>)
        ensures
            (final(self)@, action) == old(self)@.after_tick(screen_on, now),
    {
        proof {
            use_type_invariant(&*self);
        }
        if !screen_on || self.ignore_until_release || self.long_press_fired {
            return None;
        }
        let pressed_at: Instant = match self.pressed_at {
            Some(pressed_at) => pressed_at,
            None => return None,
        };
        if now.duration_since(pressed_at).nanos >= self.long_press.nanos {
            self.second_tap = false;
            self.long_press_fired = true;
            return Some(GestureAction::Sleep);
        }
        None
    }
}

// ---------------------------------------------------------------------------------------------
// Laws
// ---------------------------------------------------------------------------------------------
/// Something that a controller is told, with whether the display is on.
pub enum Input {
    Event { event: TouchEvent, screen_on: bool, at: Instant },
    Tick { screen_on: bool, at: Instant },
}

impl Input {
    /// Whether this is a release.
    pub open spec fn is_release(self) -> bool {
        self matches Input::Event { event, .. } && event == TouchEvent::Released
    }

    /// Whether the display is on.
    pub open spec fn screen_on(self) -> bool {
        match self {
            Input::Event { screen_on, .. } => screen_on,
            Input::Tick { screen_on, .. } => screen_on,
        }
    }
}

impl Gestures {
    /// What follows an input, and the action that it asks for.
    pub open spec fn after(self, input: Input) -> (Gestures, Option<GestureAction>) {
        match input {
            Input::Event { event, screen_on, at } => self.after_event(event, screen_on, at),
            Input::Tick { screen_on, at } => self.after_tick(screen_on, at),
        }
    }

    /// What follows several inputs.
    pub open spec fn after_all(self, inputs: Seq<Input>) -> Gestures
        decreases inputs.len(),
    {
        if inputs.len() == 0 {
            self
        } else {
            self.after_all(inputs.drop_last()).after(inputs.last()).0
        }
    }

    /// The action that the last of several inputs asks for.
    pub open spec fn last_action(self, inputs: Seq<Input>) -> Option<GestureAction>
        recommends
            inputs.len() > 0,
    {
        self.after_all(inputs.drop_last()).after(inputs.last()).1
    }
}

/// The display is woken only while it is off, and switched off or to the next panel only while it
/// is on.
pub proof fn law_action_fits_the_display(gestures: Gestures, input: Input)
    ensures
        gestures.after(input).1 == Some(GestureAction::Wake) ==> !input.screen_on(),
        gestures.after(input).1 == Some(GestureAction::Sleep) ==> input.screen_on(),
        gestures.after(input).1 == Some(GestureAction::NextPanel) ==> input.screen_on(),
{
}

/// Any touch wakes a display that is off.
pub proof fn law_touch_wakes(gestures: Gestures, at: Instant)
    requires
        gestures.finger is Up,
    ensures
        gestures.after_press(false, at) == (
            gestures.with_finger(Finger::Waking),
            Some(GestureAction::Wake),
        ),
{
}

/// After a touch that woke the display nothing is asked for up to and including the release that
/// follows, however long the touch lasts, and the release counts for no double tap.
pub proof fn law_release_after_waking_is_ignored(gestures: Gestures, inputs: Seq<Input>)
    requires
        gestures.finger is Waking,
        inputs.len() > 0,
        forall|i: int| 0 <= i < inputs.len() - 1 ==> !(#[trigger] inputs[i]).is_release(),
    ensures
        gestures.last_action(inputs) is None,
        inputs.last().is_release() ==> gestures.after_all(inputs) == gestures.with_finger(
            Finger::Up { tapped: None },
        ),
        !inputs.last().is_release() ==> gestures.after_all(inputs) == gestures,
    decreases inputs.len(),
{
    let before = inputs.drop_last();
    if before.len() > 0 {
        assert forall|i: int| 0 <= i < before.len() - 1 implies !(
        #[trigger] before[i]).is_release() by {
            assert(before[i] == inputs[i]);
        }
        assert(before.last() == inputs[inputs.len() - 2]);
        law_release_after_waking_is_ignored(gestures, before);
    }
}

/// Holding the sensor switches the display off as soon as the touch is long enough, not before, and
/// not again while the touch lasts.
pub proof fn law_hold_switches_off(
    gestures: Gestures,
    pressed: Instant,
    early: Instant,
    late: Instant,
    later: Instant,
    screen_on: bool,
)
    requires
        gestures.finger is Up,
        !gestures.is_hold(pressed, early),
        gestures.is_hold(pressed, late),
    ensures
        ({
            let down = gestures.after_press(true, pressed).0;
            let held = down.after_tick(true, late).0;
            &&& down.after_tick(true, early) == (down, None::<GestureAction>)
            &&& down.after_tick(true, late).1 == Some(GestureAction::Sleep)
            &&& held.after_tick(screen_on, later) == (held, None::<GestureAction>)
            &&& held.after_release(screen_on, later) == (
                gestures.with_finger(Finger::Up { tapped: None }),
                None::<GestureAction>,
            )
        }),
{
}

/// After a hold has switched the display off, nothing is asked for up to and including the release.
pub proof fn law_hold_acts_once(gestures: Gestures, inputs: Seq<Input>)
    requires
        gestures.finger is Spent,
        inputs.len() > 0,
        forall|i: int| 0 <= i < inputs.len() - 1 ==> !(#[trigger] inputs[i]).is_release(),
    ensures
        gestures.last_action(inputs) is None,
        inputs.last().is_release() ==> gestures.after_all(inputs) == gestures.with_finger(
            Finger::Up { tapped: None },
        ),
        !inputs.last().is_release() ==> gestures.after_all(inputs) == gestures,
    decreases inputs.len(),
{
    let before = inputs.drop_last();
    if before.len() > 0 {
        assert forall|i: int| 0 <= i < before.len() - 1 implies !(
        #[trigger] before[i]).is_release() by {
            assert(before[i] == inputs[i]);
        }
        assert(before.last() == inputs[inputs.len() - 2]);
        law_hold_acts_once(gestures, before);
    }
}

/// The inputs of two taps on a display that is on.
pub open spec fn two_taps(p1: Instant, r1: Instant, p2: Instant, r2: Instant) -> Seq<Input> {
    seq![
        Input::Event { event: TouchEvent::Pressed, screen_on: true, at: p1 },
        Input::Event { event: TouchEvent::Released, screen_on: true, at: r1 },
        Input::Event { event: TouchEvent::Pressed, screen_on: true, at: p2 },
        Input::Event { event: TouchEvent::Released, screen_on: true, at: r2 },
    ]
}

/// Two taps switch the panel exactly where both are short and the gap from the release of the first
/// to the press of the second is within the limits. How long the second tap lasts takes nothing off
/// that gap. A tap after them starts anew.
pub proof fn law_double_tap(
    gestures: Gestures,
    p1: Instant,
    r1: Instant,
    p2: Instant,
    r2: Instant,
)
    requires
        gestures.finger == (Finger::Up { tapped: None }),
    ensures
        gestures.last_action(two_taps(p1, r1, p2, r2)) == Some(GestureAction::NextPanel)
            <==> !gestures.is_hold(p1, r1) && !gestures.is_hold(p2, r2) && gestures.joins(r1, p2),
        gestures.last_action(two_taps(p1, r1, p2, r2)) == Some(GestureAction::NextPanel)
            ==> gestures.after_all(two_taps(p1, r1, p2, r2)) == gestures,
        gestures.last_action(two_taps(p1, r1, p2, r2)) == Some(GestureAction::Sleep)
            <==> gestures.is_hold(p2, r2),
{
    reveal_with_fuel(Gestures::after_all, 5);
    let taps = two_taps(p1, r1, p2, r2);
    let three = taps.drop_last();
    let two = three.drop_last();
    let one = two.drop_last();
    assert(one.drop_last() =~= Seq::<Input>::empty());
    assert(gestures.after_all(one.drop_last()) == gestures);
    assert(gestures.after_all(one) == gestures.after(taps[0]).0);
    assert(gestures.after_all(two) == gestures.after_all(one).after(taps[1]).0);
    assert(gestures.after_all(three) == gestures.after_all(two).after(taps[2]).0);
}

/// A press while the finger is on the sensor and a release while it is off change nothing.
pub proof fn law_repeated_events_are_ignored(gestures: Gestures, screen_on: bool, at: Instant)
    ensures
        gestures.finger !is Up ==> gestures.after_press(screen_on, at) == (
            gestures,
            None::<GestureAction>,
        ),
        gestures.finger is Up ==> gestures.after_release(screen_on, at) == (
            gestures,
            None::<GestureAction>,
        ),
{
}

/// The settings stay as they are.
pub proof fn law_settings_stay(gestures: Gestures, inputs: Seq<Input>)
    ensures
        gestures.after_all(inputs) == gestures.with_finger(gestures.after_all(inputs).finger),
    decreases inputs.len(),
{
    if inputs.len() > 0 {
        law_settings_stay(gestures, inputs.drop_last());
    }
}

/// Two taps on a display that is on switch the panel exactly where each lasts less than the time
/// for a hold and the nanoseconds from the first release to the second press are at least the
/// configured minimum and at most the configured maximum.
pub proof fn law_double_tap_goes_by_the_settings(
    gestures: Gestures,
    p1: Instant,
    r1: Instant,
    p2: Instant,
    r2: Instant,
)
    requires
        gestures.finger == (Finger::Up { tapped: None }),
    ensures
        gestures.last_action(two_taps(p1, r1, p2, r2)) == Some(GestureAction::NextPanel) <==> {
            &&& max(0, r1.nanos - p1.nanos) < gestures.long_press.nanos
            &&& max(0, r2.nanos - p2.nanos) < gestures.long_press.nanos
            &&& gestures.double_tap_min.nanos <= max(0, p2.nanos - r1.nanos)
            &&& max(0, p2.nanos - r1.nanos) <= gestures.double_tap_max.nanos
        },
        gestures.last_action(two_taps(p1, r1, p2, r2)) == Some(GestureAction::Sleep) <==> max(
            0,
            r2.nanos - p2.nanos,
        ) >= gestures.long_press.nanos,
{
    law_double_tap(gestures, p1, r1, p2, r2);
}

/// A press of a finger that was off the sensor wakes a display that is off. On a display that is on
/// it asks for nothing, and makes the touch a second tap exactly where a short tap was released
/// before, at least the minimum and at most the maximum gap ago.
pub proof fn law_press_after_a_tap(
    gestures: Gestures,
    tapped: Option<Instant>,
    screen_on: bool,
    now: Instant,
)
    requires
        gestures.finger == (Finger::Up { tapped }),
    ensures
        ({
            let (after, action) = gestures.after_event(TouchEvent::Pressed, screen_on, now);
            &&& screen_on ==> action is None
            &&& screen_on ==> (after.finger matches Finger::Down { since, second } && since == now
                && (second <==> (tapped matches Some(released) && gestures.double_tap_min.nanos
                <= max(0, now.nanos - released.nanos) <= gestures.double_tap_max.nanos)))
            &&& !screen_on ==> action == Some(GestureAction::Wake) && after.finger is Waking
            &&& after.long_press == gestures.long_press
            &&& after.double_tap_min == gestures.double_tap_min
            &&& after.double_tap_max == gestures.double_tap_max
        }),
{
}

/// A release ends a touch. One that has lasted at least the time for a hold asks to switch the
/// display off, else a second tap asks for the next panel, both only while the display is on; a
/// short touch that was no second tap leaves the time of its release, and no other touch leaves
/// any.
pub proof fn law_release_of_a_touch(
    gestures: Gestures,
    since: Instant,
    second: bool,
    screen_on: bool,
    now: Instant,
)
    requires
        gestures.finger == (Finger::Down { since, second }),
    ensures
        ({
            let (after, action) = gestures.after_event(TouchEvent::Released, screen_on, now);
            let long = max(0, now.nanos - since.nanos) >= gestures.long_press.nanos;
            &&& action == Some(GestureAction::Sleep) <==> screen_on && long
            &&& action == Some(GestureAction::NextPanel) <==> screen_on && !long && second
            &&& action != Some(GestureAction::Wake)
            &&& after.finger matches Finger::Up { tapped } && (tapped == Some(now) <==> !long
                && !second) && (tapped is None <==> long || second)
            &&& after.long_press == gestures.long_press
            &&& after.double_tap_min == gestures.double_tap_min
            &&& after.double_tap_max == gestures.double_tap_max
        }),
{
}

/// While a finger stays on the sensor, the display is switched off at exactly those times that lie
/// at least the time for a hold after the press, and only while it is on.
pub proof fn law_tick_of_a_touch(
    gestures: Gestures,
    since: Instant,
    second: bool,
    screen_on: bool,
    now: Instant,
)
    requires
        gestures.finger == (Finger::Down { since, second }),
    ensures
        ({
            let (after, action) = gestures.after_tick(screen_on, now);
            let long = max(0, now.nanos - since.nanos) >= gestures.long_press.nanos;
            &&& action == Some(GestureAction::Sleep) <==> screen_on && long
            &&& action is None <==> !(screen_on && long)
            &&& after.finger is Spent <==> screen_on && long
            &&& !(screen_on && long) ==> after == gestures
        }),
{
}

/// Time alone asks for nothing unless a touch is going on that can still become a hold.
pub proof fn law_tick_without_a_touch(gestures: Gestures, screen_on: bool, now: Instant)
    requires
        gestures.finger !is Down,
    ensures
        gestures.after_tick(screen_on, now) == (gestures, None::<GestureAction>),
{
}

/// A new controller goes by the settings that it was given. Its first touch is no second tap, and
/// asks for nothing while it is shorter than a hold.
pub proof fn law_first_touch_is_single(
    long_press: Duration,
    double_tap_min: Duration,
    double_tap_max: Duration,
    pressed: Instant,
    released: Instant,
)
    ensures
        ({
            let start = first_gestures(long_press, double_tap_min, double_tap_max);
            let down = start.after_event(TouchEvent::Pressed, true, pressed);
            let up = down.0.after_event(TouchEvent::Released, true, released);
            &&& start.long_press == long_press
            &&& start.double_tap_min == double_tap_min && start.double_tap_max == double_tap_max
            &&& down.1 is None
            &&& up.1 is None <==> max(0, released.nanos - pressed.nanos) < long_press.nanos
            &&& up.1 != Some(GestureAction::NextPanel)
        }),
{
}

} // verus!
