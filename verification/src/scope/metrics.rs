//! Figures about presses and releases.

use crate::caption::{lone_figure, plain, Caption, Figure, PieceView};
use crate::fingerprint::TouchEvent;
use crate::gesture::{Finger, GestureAction, Gestures};
use crate::text::{decimal, decimal_text, join2};
use crate::time::{span_between, Duration, Instant};
use std::collections::VecDeque;
use vstd::math::max;
use vstd::prelude::*;

verus! {

/// What is known of the touches so far.
pub struct Metrics {
    /// Whether the finger is on the sensor.
    pub state: bool,
    pub pressed_at: Option<Instant>,
    pub last_press: Option<Instant>,
    pub last_release: Option<Instant>,
    /// When a tap was released that may be the first of a double tap.
    pub last_short_release: Option<Instant>,
    /// Whether this touch may be the second of a double tap.
    pub second_tap: bool,
    /// How long the last touch lasted.
    pub hold: Option<Duration>,
    /// How long the finger was off before the last touch.
    pub up_gap: Option<Duration>,
    pub press_period: Option<Duration>,
    pub release_period: Option<Duration>,
    pub verdict: &'static str,
    /// The last events, the latest first.
    pub events: VecDeque<Caption>,
    /// When the finger came and went.
    pub transitions: VecDeque<(Instant, bool)>,
}

/// [`Metrics`] by the characters of their texts.
pub struct MetricsView {
    pub state: bool,
    pub pressed_at: Option<Instant>,
    pub last_press: Option<Instant>,
    pub last_release: Option<Instant>,
    pub last_short_release: Option<Instant>,
    pub second_tap: bool,
    pub hold: Option<Duration>,
    pub up_gap: Option<Duration>,
    pub press_period: Option<Duration>,
    pub release_period: Option<Duration>,
    pub verdict: Seq<char>,
    pub events: Seq<Seq<PieceView>>,
    pub transitions: Seq<(Instant, bool)>,
}

impl View for Metrics {
    type V = MetricsView;

    open spec fn view(&self) -> MetricsView {
        MetricsView {
            state: self.state,
            pressed_at: self.pressed_at,
            last_press: self.last_press,
            last_release: self.last_release,
            last_short_release: self.last_short_release,
            second_tap: self.second_tap,
            hold: self.hold,
            up_gap: self.up_gap,
            press_period: self.press_period,
            release_period: self.release_period,
            verdict: self.verdict@,
            events: self.events@.map_values(|event: Caption| event@),
            transitions: self.transitions@,
        }
    }
}

/// What makes two taps a double tap and a touch a long one.
pub struct TapLimits {
    pub double_tap_min: Duration,
    pub double_tap_max: Duration,
    pub long_press: Duration,
}

// ---------------------------------------------------------------------------------------------
// Model
// ---------------------------------------------------------------------------------------------
/// The span since an earlier time, if there was one.
pub open spec fn span_since(earlier: Option<Instant>, now: Instant) -> Option<Duration> {
    match earlier {
        Some(earlier) => Some(span_between(earlier, now)),
        None => None,
    }
}

/// Whether a span is within limits.
pub open spec fn within(span: Option<Duration>, limits: TapLimits) -> bool {
    span matches Some(span) && limits.double_tap_min.nanos <= span.nanos
        <= limits.double_tap_max.nanos
}

/// The line about an event: the seconds since the start and what happened.
pub open spec fn event_line(origin: Instant, now: Instant, name: Seq<char>) -> Seq<PieceView> {
    lone_figure(Figure::Seconds { span: span_between(origin, now) }, 3, 8) + plain("s  "@) + plain(
        name,
    )
}

/// The lines with a new one at their front, at most three of them.
pub open spec fn with_event(events: Seq<Seq<PieceView>>, line: Seq<PieceView>) -> Seq<
    Seq<PieceView>,
> {
    let all = seq![line] + events;
    if all.len() > 3 {
        all.take(3)
    } else {
        all
    }
}

impl MetricsView {
    /// What follows a press.
    pub open spec fn after_press(self, now: Instant, origin: Instant, limits: TapLimits) -> (
        MetricsView) {
        if self.state {
            self
        } else {
            let up_gap = span_since(self.last_release, now);
            let second_tap = self.last_short_release is Some && within(up_gap, limits);
            MetricsView {
                state: true,
                pressed_at: Some(now),
                last_press: Some(now),
                last_short_release: None,
                second_tap,
                up_gap,
                press_period: span_since(self.last_press, now),
                verdict: if second_tap {
                    "SECOND TAP / RELEASE TO CONFIRM"@
                } else {
                    "WAITING FOR RELEASE"@
                },
                events: with_event(self.events, event_line(origin, now, "PRESSED"@)),
                transitions: self.transitions.push((now, true)),
                ..self
            }
        }
    }

    /// What follows a release. The first one only tells that the sensor is ready.
    pub open spec fn after_release(self, now: Instant, origin: Instant, limits: TapLimits) -> (
        MetricsView) {
        if !self.state {
            MetricsView {
                state: false,
                events: with_event(self.events, event_line(origin, now, "READY / RELEASED"@)),
                transitions: self.transitions.push((now, false)),
                ..self
            }
        } else {
            let hold = span_since(self.pressed_at, now);
            let short = hold matches Some(span) && span.nanos < limits.long_press.nanos;
            MetricsView {
                state: false,
                pressed_at: None,
                last_release: Some(now),
                last_short_release: if short && !self.second_tap {
                    Some(now)
                } else {
                    None
                },
                second_tap: false,
                hold,
                release_period: span_since(self.last_release, now),
                verdict: if !short {
                    "LONG PRESS"@
                } else if self.second_tap {
                    "DOUBLE TAP: HIT"@
                } else {
                    "SINGLE TAP / WAITING"@
                },
                events: with_event(self.events, event_line(origin, now, "RELEASED"@)),
                transitions: self.transitions.push((now, false)),
                ..self
            }
        }
    }

    /// What follows a press or a release.
    pub open spec fn after(
        self,
        event: TouchEvent,
        now: Instant,
        origin: Instant,
        limits: TapLimits,
    ) -> MetricsView {
        match event {
            TouchEvent::Pressed => self.after_press(now, origin, limits),
            TouchEvent::Released => self.after_release(now, origin, limits),
        }
    }
}

/// Whether the finger was on the sensor at a time: what the last change up to then has left.
pub open spec fn state_at(transitions: Seq<(Instant, bool)>, at: Instant) -> bool
    decreases transitions.len(),
{
    if transitions.len() == 0 {
        false
    } else if transitions.last().0.nanos <= at.nanos {
        transitions.last().1
    } else {
        state_at(transitions.drop_last(), at)
    }
}

// ---------------------------------------------------------------------------------------------
// Metrics
// ---------------------------------------------------------------------------------------------
/// The metrics before any event.
pub open spec fn no_metrics() -> MetricsView {
    MetricsView {
        state: false,
        pressed_at: None,
        last_press: None,
        last_release: None,
        last_short_release: None,
        second_tap: false,
        hold: None,
        up_gap: None,
        press_period: None,
        release_period: None,
        verdict: ""@,
        events: Seq::empty(),
        transitions: Seq::empty(),
    }
}

impl Default for Metrics {
    fn default() -> (metrics: Metrics)
        ensures
            metrics@ == no_metrics(),
    {
        let metrics = Metrics {
            state: false,
            pressed_at: None,
            last_press: None,
            last_release: None,
            last_short_release: None,
            second_tap: false,
            hold: None,
            up_gap: None,
            press_period: None,
            release_period: None,
            verdict: "",
            events: VecDeque::new(),
            transitions: VecDeque::new(),
        };
        assert(metrics@.events =~= Seq::<Seq<PieceView>>::empty());
        metrics
    }
}

fn since(earlier: Option<Instant>, now: Instant) -> (span: Option<Duration>)
    ensures
        span == span_since(earlier, now),
{
    match earlier {
        Some(earlier) => Some(now.duration_since(earlier)),
        None => None,
    }
}

impl Metrics {
    /// Takes in a press or a release at a time, and tells whether there is a new line about it.
    pub fn handle(
        &mut self,
        event: TouchEvent,
        now: Instant,
        origin: Instant,
        double_tap: (Duration, Duration),
        long_press: Duration,
    ) -> (noted: bool)
        ensures
            final(self)@ == old(self)@.after(
                event,
                now,
                origin,
                TapLimits {
                    double_tap_min: double_tap.0,
                    double_tap_max: double_tap.1,
                    long_press,
                },
            ),
            noted == !(event == TouchEvent::Pressed && old(self)@.state),
    {
        match event {
            TouchEvent::Pressed => {
                if self.state {
                    return false;
                }
                self.state = true;
                self.transitions.push_back((now, true));
                self.pressed_at = Some(now);
                self.up_gap = since(self.last_release, now);
                self.press_period = since(self.last_press, now);
                self.last_press = Some(now);
                let close = match self.up_gap {
                    Some(gap) => gap.nanos >= double_tap.0.nanos && gap.nanos
                        <= double_tap.1.nanos,
                    None => false,
                };
                self.second_tap = self.last_short_release.is_some() && close;
                self.last_short_release = None;
                self.verdict =
                if self.second_tap {
                    "SECOND TAP / RELEASE TO CONFIRM"
                } else {
                    "WAITING FOR RELEASE"
                };
                self.push_event(origin, now, "PRESSED");
            },
            TouchEvent::Released => {
                if !self.state {
                    self.transitions.push_back((now, false));
                    self.push_event(origin, now, "READY / RELEASED");
                    return true;
                }
                self.state = false;
                self.transitions.push_back((now, false));
                self.hold = since(self.pressed_at, now);
                self.pressed_at = None;
                self.release_period = since(self.last_release, now);
                self.last_release = Some(now);

                let short = match self.hold {
                    Some(hold) => hold.nanos < long_press.nanos,
                    None => false,
                };
                let double = short && self.second_tap;
                self.second_tap = false;
                if double {
                    self.last_short_release = None;
                    self.verdict = "DOUBLE TAP: HIT";
                } else if short {
                    self.last_short_release = Some(now);
                    self.verdict = "SINGLE TAP / WAITING";
                } else {
                    self.last_short_release = None;
                    self.verdict = "LONG PRESS";
                }
                self.push_event(origin, now, "RELEASED");
            },
        }
        true
    }

    fn push_event(&mut self, origin: Instant, now: Instant, name: &str)
        ensures
            final(self)@ == (MetricsView {
                events: with_event(old(self)@.events, event_line(origin, now, name@)),
                ..old(self)@
            }),
    {
        let span: Duration = now.duration_since(origin);
        let line = Caption::empty().with_figure(Figure::Seconds { span }, 3, 8).with_text(
            "s  ",
        ).with_text(name);
        assert(line@ =~= event_line(origin, now, name@));
        let ghost before = self@.events;
        let ghost shown = line@;
        self.events.push_front(line);
        self.events.truncate(3);
        assert(self@.events =~= with_event(before, shown));
    }

    /// Whether the finger was on the sensor at a time.
    pub fn state_at(&self, at: Instant) -> (state: bool)
        ensures
            state == state_at(self@.transitions, at),
    {
        let mut i: usize = self.transitions.len();
        assert(self.transitions@.take(i as int) =~= self.transitions@);
        while i > 0
            invariant
                i <= self.transitions@.len(),
                state_at(self.transitions@, at) == state_at(self.transitions@.take(i as int), at),
            decreases i,
        {
            let ghost front = self.transitions@.take(i as int);
            assert(front.last() == self.transitions@[i - 1]);
            assert(front.drop_last() =~= self.transitions@.take(i - 1));
            let (changed, state): (Instant, bool) = self.transitions[i - 1];
            if changed.nanos <= at.nanos {
                return state;
            }
            i -= 1;
        }
        false
    }
}

/// A span in milliseconds, or dashes for none.
pub open spec fn duration_line(value: Option<Duration>) -> Seq<char> {
    match value {
        Some(span) => decimal_text(span.nanos as nat / 1_000_000) + "ms"@,
        None => "---"@,
    }
}

/// Writes a span in milliseconds.
pub fn duration_text(value: Option<Duration>) -> (text: String)
    ensures
        text@ == duration_line(value),
{
    match value {
        Some(span) => join2(decimal(span.as_millis()).as_str(), "ms"),
        None => "---".to_owned(),
    }
}

// ---------------------------------------------------------------------------------------------
// Laws
// ---------------------------------------------------------------------------------------------
/// Whether metrics and a gesture controller go by the same limits and know the same of the finger.
pub open spec fn agree(metrics: MetricsView, gestures: Gestures, limits: TapLimits) -> bool {
    &&& gestures.long_press == limits.long_press
    &&& gestures.double_tap_min == limits.double_tap_min
    &&& gestures.double_tap_max == limits.double_tap_max
    &&& match gestures.finger {
        Finger::Up { tapped } => !metrics.state && metrics.last_short_release == tapped && (
        tapped is Some ==> metrics.last_release == tapped),
        Finger::Down { since, second } => metrics.state && metrics.pressed_at == Some(since)
            && metrics.second_tap == second && metrics.last_short_release is None,
        _ => false,
    }
}

/// Fresh metrics agree with a fresh controller.
pub proof fn law_agree_at_first(limits: TapLimits)
    ensures
        agree(
            no_metrics(),
            Gestures {
                long_press: limits.long_press,
                double_tap_min: limits.double_tap_min,
                double_tap_max: limits.double_tap_max,
                finger: Finger::Up { tapped: None },
            },
            limits,
        ),
{
}

/// The scope goes by the rules of the gestures on a display that is on: it reports a double tap
/// exactly where the panel is switched, and a long press exactly where the display is switched off.
pub proof fn law_scope_agrees_with_gestures(
    metrics: MetricsView,
    gestures: Gestures,
    event: TouchEvent,
    now: Instant,
    origin: Instant,
    limits: TapLimits,
)
    requires
        agree(metrics, gestures, limits),
    ensures
        ({
            let (followed, action) = gestures.after_event(event, true, now);
            let after = metrics.after(event, now, origin, limits);
            let ended = event == TouchEvent::Released && metrics.state;
            &&& agree(after, followed, limits)
            &&& action == Some(GestureAction::NextPanel) <==> ended && after.verdict
                == "DOUBLE TAP: HIT"@
            &&& action == Some(GestureAction::Sleep) <==> ended && after.verdict == "LONG PRESS"@
        }),
{
    reveal_strlit("DOUBLE TAP: HIT");
    reveal_strlit("LONG PRESS");
    reveal_strlit("SINGLE TAP / WAITING");
    assert("DOUBLE TAP: HIT"@.len() == 15);
    assert("LONG PRESS"@.len() == 10);
    assert("SINGLE TAP / WAITING"@.len() == 20);
}

/// No more than three lines are kept.
pub proof fn law_three_lines_at_most(
    metrics: MetricsView,
    event: TouchEvent,
    now: Instant,
    origin: Instant,
    limits: TapLimits,
)
    requires
        metrics.events.len() <= 3,
    ensures
        metrics.after(event, now, origin, limits).events.len() <= 3,
{
}

/// What was on the sensor at a time does not depend on what changes later.
pub proof fn law_later_changes_do_not_matter(
    transitions: Seq<(Instant, bool)>,
    at: Instant,
    later: Instant,
    state: bool,
)
    requires
        at.nanos < later.nanos,
    ensures
        state_at(transitions.push((later, state)), at) == state_at(transitions, at),
{
    assert(transitions.push((later, state)).drop_last() =~= transitions);
}

/// The figures are the spans that their names say. Over two touches, pressed at `p1` and `p2` and
/// released at `r1` and `r2`, short or long: the hold runs from a press to its release, the up-gap
/// from a release to the next press, and the periods from press to press and from release to
/// release.
pub proof fn law_figures_are_the_spans(
    metrics: MetricsView,
    p1: Instant,
    r1: Instant,
    p2: Instant,
    r2: Instant,
    origin: Instant,
    limits: TapLimits,
)
    requires
        !metrics.state,
    ensures
        ({
            let down = metrics.after(TouchEvent::Pressed, p1, origin, limits);
            let up = down.after(TouchEvent::Released, r1, origin, limits);
            let again = up.after(TouchEvent::Pressed, p2, origin, limits);
            let last = again.after(TouchEvent::Released, r2, origin, limits);
            &&& up.hold matches Some(hold) && hold.nanos == max(0, r1.nanos - p1.nanos)
            &&& last.hold matches Some(hold) && hold.nanos == max(0, r2.nanos - p2.nanos)
            &&& again.up_gap matches Some(gap) && gap.nanos == max(0, p2.nanos - r1.nanos)
            &&& again.press_period matches Some(period) && period.nanos == max(
                0,
                p2.nanos - p1.nanos,
            )
            &&& last.release_period matches Some(period) && period.nanos == max(
                0,
                r2.nanos - r1.nanos,
            )
            &&& down.hold == metrics.hold && again.hold == up.hold
            &&& up.up_gap == down.up_gap && last.up_gap == again.up_gap
            &&& up.press_period == down.press_period && last.press_period == again.press_period
            &&& down.release_period == metrics.release_period && again.release_period
                == up.release_period
            &&& down.state && !up.state && again.state && !last.state
        }),
{
}

/// Before there was a release there is no up-gap and no release period, and before there was a
/// press no press period.
pub proof fn law_first_touch_has_no_gap(
    metrics: MetricsView,
    now: Instant,
    origin: Instant,
    limits: TapLimits,
)
    requires
        !metrics.state,
    ensures
        ({
            let down = metrics.after(TouchEvent::Pressed, now, origin, limits);
            &&& down.up_gap is None <==> metrics.last_release is None
            &&& down.press_period is None <==> metrics.last_press is None
            &&& forall|later: Instant|
                #![trigger down.after(TouchEvent::Released, later, origin, limits)]
                down.after(TouchEvent::Released, later, origin, limits).release_period is None
                    <==> metrics.last_release is None
        }),
{
}

/// The verdict goes by the limits in nanoseconds: a touch of at least the limit is a long press; a
/// shorter one is a double tap where a tap was released before it within the limits for the gap,
/// and else a single tap. While the finger is on the sensor the verdict tells which of the two a
/// short touch would be.
pub proof fn law_verdict_goes_by_the_limits(
    metrics: MetricsView,
    p1: Instant,
    r1: Instant,
    p2: Instant,
    r2: Instant,
    origin: Instant,
    limits: TapLimits,
)
    requires
        !metrics.state,
        metrics.last_short_release is None,
    ensures
        ({
            let down = metrics.after(TouchEvent::Pressed, p1, origin, limits);
            let up = down.after(TouchEvent::Released, r1, origin, limits);
            let again = up.after(TouchEvent::Pressed, p2, origin, limits);
            let last = again.after(TouchEvent::Released, r2, origin, limits);
            let first_is_long = max(0, r1.nanos - p1.nanos) >= limits.long_press.nanos;
            let last_is_long = max(0, r2.nanos - p2.nanos) >= limits.long_press.nanos;
            let joined = !first_is_long && limits.double_tap_min.nanos <= max(
                0,
                p2.nanos - r1.nanos,
            ) <= limits.double_tap_max.nanos;
            &&& down.verdict == "WAITING FOR RELEASE"@
            &&& first_is_long ==> up.verdict == "LONG PRESS"@
            &&& !first_is_long ==> up.verdict == "SINGLE TAP / WAITING"@
            &&& joined ==> again.verdict == "SECOND TAP / RELEASE TO CONFIRM"@
            &&& !joined ==> again.verdict == "WAITING FOR RELEASE"@
            &&& last_is_long ==> last.verdict == "LONG PRESS"@
            &&& !last_is_long && joined ==> last.verdict == "DOUBLE TAP: HIT"@
            &&& !last_is_long && !joined ==> last.verdict == "SINGLE TAP / WAITING"@
            &&& up.last_short_release is None <==> first_is_long
            &&& last.last_short_release is None <==> last_is_long || joined
        }),
{
}

/// Every event but a repeated press is written down: a line at the front with the seconds since the
/// start and what happened, before at most two of the older lines, and a change at the end of the
/// changes. A repeated press leaves everything as it is, and a stray release nothing but these two.
pub proof fn law_events_are_written_down(
    metrics: MetricsView,
    event: TouchEvent,
    now: Instant,
    origin: Instant,
    limits: TapLimits,
)
    ensures
        ({
            let after = metrics.after(event, now, origin, limits);
            let name = if event == TouchEvent::Pressed {
                "PRESSED"@
            } else if metrics.state {
                "RELEASED"@
            } else {
                "READY / RELEASED"@
            };
            let pressed = event == TouchEvent::Pressed;
            &&& pressed && metrics.state ==> after == metrics
            &&& !(pressed && metrics.state) ==> {
                &&& after.transitions == metrics.transitions.push((now, pressed))
                &&& after.state == pressed
                &&& after.events.len() == if metrics.events.len() < 2 {
                    metrics.events.len() + 1
                } else {
                    3
                }
                &&& after.events[0].len() == 3
                &&& after.events[0][0] matches PieceView::Figure { figure, decimals, width }
                    && decimals == 3 && width == 8 && (figure matches Figure::Seconds { span }
                    && span.nanos == max(0, now.nanos - origin.nanos))
                &&& after.events[0][1] == PieceView::Text("s  "@)
                &&& after.events[0][2] == PieceView::Text(name)
                &&& forall|i: int|
                    0 < i < after.events.len() ==> #[trigger] after.events[i] == metrics.events[i
                        - 1]
            }
            &&& !pressed && !metrics.state ==> {
                &&& after.verdict == metrics.verdict && after.hold == metrics.hold
                &&& after.up_gap == metrics.up_gap && after.press_period == metrics.press_period
                &&& after.release_period == metrics.release_period
                &&& after.last_release == metrics.last_release
                &&& after.last_short_release == metrics.last_short_release
                &&& after.pressed_at == metrics.pressed_at && after.last_press == metrics.last_press
                &&& after.second_tap == metrics.second_tap
            }
        }),
{
}

/// The state at a time is what the last change up to that time has left; before the first change
/// the finger was off.
pub proof fn law_state_is_that_of_the_last_change(
    transitions: Seq<(Instant, bool)>,
    at: Instant,
    last: int,
)
    requires
        -1 <= last < transitions.len(),
        last >= 0 ==> transitions[last].0.nanos <= at.nanos,
        forall|i: int|
            last < i < transitions.len() ==> (#[trigger] transitions[i]).0.nanos > at.nanos,
    ensures
        state_at(transitions, at) == (last >= 0 && transitions[last].1),
    decreases transitions.len(),
{
    if transitions.len() > 0 && last < transitions.len() - 1 {
        assert(transitions[transitions.len() - 1].0.nanos > at.nanos);
        law_state_is_that_of_the_last_change(transitions.drop_last(), at, last);
    }
}

/// A span is written in whole milliseconds, rounded down, and the lack of one as three dashes.
pub proof fn law_duration_is_in_milliseconds(value: Option<Duration>, millis: nat)
    requires
        value matches Some(span) ==> millis * 1_000_000 <= span.nanos < (millis + 1) * 1_000_000,
    ensures
        value is Some ==> duration_line(value) == decimal_text(millis) + "ms"@,
        value is None ==> duration_line(value) == "---"@,
{
}

/// Nothing is known before the first event.
pub proof fn law_nothing_is_known_at_first()
    ensures
        ({
            let m = no_metrics();
            &&& !m.state && !m.second_tap
            &&& m.pressed_at is None && m.last_press is None
            &&& m.last_release is None && m.last_short_release is None
            &&& m.hold is None && m.up_gap is None
            &&& m.press_period is None && m.release_period is None
            &&& m.verdict.len() == 0 && m.events.len() == 0 && m.transitions.len() == 0
        }),
{
    reveal_strlit("");
    assert(""@.len() == 0);
}

/// A touch leaves the times of its press and of its release, and forgets a tap before it; a release
/// leaves the time of a tap only where the touch was short and was no second tap.
pub proof fn law_touch_leaves_its_times(
    metrics: MetricsView,
    pressed: Instant,
    released: Instant,
    origin: Instant,
    limits: TapLimits,
)
    requires
        !metrics.state,
    ensures
        ({
            let down = metrics.after(TouchEvent::Pressed, pressed, origin, limits);
            let up = down.after(TouchEvent::Released, released, origin, limits);
            let short = max(0, released.nanos - pressed.nanos) < limits.long_press.nanos;
            &&& down.state && down.pressed_at == Some(pressed) && down.last_press == Some(pressed)
            &&& down.last_release == metrics.last_release && down.last_short_release is None
            &&& down.second_tap <==> metrics.last_short_release is Some && (
            metrics.last_release matches Some(last) && limits.double_tap_min.nanos <= max(
                0,
                pressed.nanos - last.nanos,
            ) <= limits.double_tap_max.nanos)
            &&& !up.state && up.pressed_at is None && up.last_press == Some(pressed)
            &&& up.last_release == Some(released) && !up.second_tap
            &&& up.last_short_release == if short && !down.second_tap {
                Some(released)
            } else {
                None
            }
        }),
{
}

/// Metrics are known by their fields, the lines by their captions.
pub proof fn law_metrics_are_known_by_their_fields(metrics: Metrics, index: int)
    ensures
        metrics@.state == metrics.state && metrics@.second_tap == metrics.second_tap,
        metrics@.pressed_at == metrics.pressed_at,
        metrics@.last_press == metrics.last_press && metrics@.last_release == metrics.last_release,
        metrics@.last_short_release == metrics.last_short_release,
        metrics@.hold == metrics.hold && metrics@.up_gap == metrics.up_gap,
        metrics@.press_period == metrics.press_period && metrics@.release_period
            == metrics.release_period,
        metrics@.verdict == metrics.verdict@ && metrics@.transitions == metrics.transitions@,
        metrics@.events.len() == metrics.events@.len(),
        0 <= index < metrics.events@.len() ==> metrics@.events[index] == metrics.events@[index]@,
{
}

} // verus!
