//! The loop that keeps the scope up to date.
//!
//! The loop asks for one step at a time. Whoever owns the display carries it out and tells the loop
//! what came of it.

use crate::fingerprint::{TimedTouchEvent, TouchEvent};
use crate::scope::drawing::{draw_metrics, drawing_views, metrics_views, Drawing};
use crate::scope::frame::{
    byte_column, byte_row, picture_byte, picture_bytes, synced, FRAME_BYTES,
};
use crate::scope::layout::{Color, DISPLAY_HEIGHT, DISPLAY_WIDTH};
use crate::scope::metrics::{no_metrics, state_at, Metrics, MetricsView, TapLimits};
use crate::scope::sweep::{level, Stroke, Sweep, SweepView};
use crate::time::{Duration, Instant};
use vstd::prelude::*;

verus! {

// ---------------------------------------------------------------------------------------------
// Settings
// ---------------------------------------------------------------------------------------------
/// What is wrong with the settings of the scope.
#[derive(Clone, Copy, Debug, PartialEq, Eq, Structural)]
pub enum SettingsError {
    SamplePeriod,
    DisplayPeriod,
    SweepTime,
    DoubleTap,
}

/// The message for a fault in the settings.
pub open spec fn settings_fault_text(error: SettingsError) -> Seq<char> {
    match error {
        SettingsError::SamplePeriod => "--sample-ms must be greater than zero"@,
        SettingsError::DisplayPeriod => "--display-ms must be greater than zero"@,
        SettingsError::SweepTime => "--sweep-seconds must be positive"@,
        SettingsError::DoubleTap => "--double-tap-min-ms must not exceed --double-tap-ms"@,
    }
}

impl SettingsError {
    /// The message for the error.
    pub fn message(&self) -> (text: String)
        ensures
            text@ == settings_fault_text(*self),
    {
        match self {
            SettingsError::SamplePeriod => "--sample-ms must be greater than zero".to_owned(),
            SettingsError::DisplayPeriod => "--display-ms must be greater than zero".to_owned(),
            SettingsError::SweepTime => "--sweep-seconds must be positive".to_owned(),
            SettingsError::DoubleTap =>
                "--double-tap-min-ms must not exceed --double-tap-ms".to_owned(),
        }
    }
}

/// Whether the settings of the scope are in order, or the first that is not.
pub open spec fn settings_outcome(
    sample_ms: u64,
    display_ms: u64,
    sweep_is_positive: bool,
    double_tap_min_ms: u64,
    double_tap_ms: u64,
) -> Result<(), SettingsError> {
    if sample_ms == 0 {
        Err(SettingsError::SamplePeriod)
    } else if display_ms == 0 {
        Err(SettingsError::DisplayPeriod)
    } else if !sweep_is_positive {
        Err(SettingsError::SweepTime)
    } else if double_tap_min_ms > double_tap_ms {
        Err(SettingsError::DoubleTap)
    } else {
        Ok(())
    }
}

/// Checks the settings of the scope, one after the other.
pub fn check_settings(
    sample_ms: u64,
    display_ms: u64,
    sweep_is_positive: bool,
    double_tap_min_ms: u64,
    double_tap_ms: u64,
) -> (outcome: Result<(), SettingsError>)
    ensures
        outcome == (if sample_ms == 0 {
            Err::<(), SettingsError>(SettingsError::SamplePeriod)
        } else if display_ms == 0 {
            Err(SettingsError::DisplayPeriod)
        } else if !sweep_is_positive {
            Err(SettingsError::SweepTime)
        } else if double_tap_min_ms > double_tap_ms {
            Err(SettingsError::DoubleTap)
        } else {
            Ok(())
        }),
        outcome == settings_outcome(
            sample_ms,
            display_ms,
            sweep_is_positive,
            double_tap_min_ms,
            double_tap_ms,
        ),
{
    if sample_ms == 0 {
        Err(SettingsError::SamplePeriod)
    } else if display_ms == 0 {
        Err(SettingsError::DisplayPeriod)
    } else if !sweep_is_positive {
        Err(SettingsError::SweepTime)
    } else if double_tap_min_ms > double_tap_ms {
        Err(SettingsError::DoubleTap)
    } else {
        Ok(())
    }
}

// ---------------------------------------------------------------------------------------------
// Steps
// ---------------------------------------------------------------------------------------------
/// What the loop asks for.
#[derive(Clone, Copy, Debug, PartialEq, Eq, Structural)]
pub enum ScopeAction {
    /// Take the next touch event, if one has come.
    TakeTouch,
    /// Tell the time.
    ReadClock,
    Pause(Duration),
    /// Draw a sample.
    Plot(Stroke),
    /// Draw the figures anew.
    Inform,
    /// Send the picture to the display.
    Send,
}

/// What came of an action.
#[derive(Clone, Copy, Debug, PartialEq, Eq, Structural)]
pub enum ScopeEvent {
    Done,
    Touch(TimedTouchEvent),
    NoTouch,
    Time(Instant),
}

/// Where the loop is.
#[derive(Clone, Copy, Debug, PartialEq, Eq, Structural)]
pub enum ScopePhase {
    /// Taking touch events.
    Draining,
    /// Looking whether the display is due.
    Timing,
    Pausing(Duration),
    /// Drawing the samples that are due at a time.
    Plotting(Instant),
    Informing,
    Sending,
    /// Looking whether the display has fallen behind.
    Closing,
    /// It has: starting anew from the present.
    CatchingUp,
}

/// The latest time that the loop can take: more than any clock will show.
pub const TIME_LIMIT: u128 = 0x8000_0000_0000_0000_0000_0000_0000_0000;

/// The longest pause in nanoseconds, so that touch events do not wait.
pub const LONGEST_PAUSE: u128 = 5_000_000;

/// The loop that keeps the scope up to date.
pub struct ScopeLoop {
    metrics: Metrics,
    sweep: Sweep,
    origin: Instant,
    double_tap: (Duration, Duration),
    long_press: Duration,
    sample_period: Duration,
    display_period: Duration,
    next_sample: Instant,
    next_display: Instant,
    info_dirty: bool,
    phase: ScopePhase,
}

/// A [`ScopeLoop`].
pub struct ScopeView {
    pub metrics: MetricsView,
    pub sweep: SweepView,
    /// The time from which events are counted.
    pub origin: Instant,
    pub limits: TapLimits,
    pub sample_period: Duration,
    pub display_period: Duration,
    /// When the next sample is due.
    pub next_sample: Instant,
    /// When the display is due.
    pub next_display: Instant,
    /// Whether the figures have changed.
    pub info_dirty: bool,
    pub phase: ScopePhase,
}

impl View for ScopeLoop {
    type V = ScopeView;

    closed spec fn view(&self) -> ScopeView {
        ScopeView {
            metrics: self.metrics@,
            sweep: self.sweep@,
            origin: self.origin,
            limits: TapLimits {
                double_tap_min: self.double_tap.0,
                double_tap_max: self.double_tap.1,
                long_press: self.long_press,
            },
            sample_period: self.sample_period,
            display_period: self.display_period,
            next_sample: self.next_sample,
            next_display: self.next_display,
            info_dirty: self.info_dirty,
            phase: self.phase,
        }
    }
}

// ---------------------------------------------------------------------------------------------
// Model
// ---------------------------------------------------------------------------------------------
/// The time that lies a span after another.
pub open spec fn later(time: Instant, span: Duration) -> Instant {
    Instant { nanos: (time.nanos + span.nanos) as u128 }
}

/// How long to pause at a time when the display is due later.
pub open spec fn pause_until(now: Instant, due: Instant) -> Duration {
    Duration {
        nanos: if due.nanos - now.nanos < LONGEST_PAUSE {
            (due.nanos - now.nanos) as u128
        } else {
            LONGEST_PAUSE
        },
    }
}

impl ScopeView {
    /// What the finger did when the next sample was due.
    pub open spec fn sample(self) -> bool {
        state_at(self.metrics.transitions, self.next_sample)
    }

    /// What the loop asks for.
    pub open spec fn action(self) -> ScopeAction {
        match self.phase {
            ScopePhase::Draining => ScopeAction::TakeTouch,
            ScopePhase::Timing => ScopeAction::ReadClock,
            ScopePhase::Pausing(span) => ScopeAction::Pause(span),
            ScopePhase::Plotting(_) => ScopeAction::Plot(self.sweep.stroke(self.sample())),
            ScopePhase::Informing => ScopeAction::Inform,
            ScopePhase::Sending => ScopeAction::Send,
            ScopePhase::Closing => ScopeAction::ReadClock,
            ScopePhase::CatchingUp => ScopeAction::ReadClock,
        }
    }

    /// The loop elsewhere.
    pub open spec fn at(self, phase: ScopePhase) -> ScopeView {
        ScopeView { phase, ..self }
    }

    /// What is to be done for the display at a time: first the samples that are due, then the
    /// figures if they have changed, and then the picture is sent if there is anything new in it.
    pub open spec fn refreshing(self, now: Instant, plotted: bool) -> ScopeView {
        self.at(
            if self.next_sample.nanos <= now.nanos {
                ScopePhase::Plotting(now)
            } else if self.info_dirty {
                ScopePhase::Informing
            } else if plotted {
                ScopePhase::Sending
            } else {
                ScopePhase::Closing
            },
        )
    }

    /// What follows several events.
    pub open spec fn after_all(self, events: Seq<ScopeEvent>) -> ScopeView
        decreases events.len(),
    {
        if events.len() == 0 {
            self
        } else {
            self.after_all(events.drop_last()).after(events.last())
        }
    }

    /// Whether an event gives a new line: any touch event but a press while the finger is on the
    /// sensor.
    pub open spec fn notes(self, event: ScopeEvent) -> bool {
        match (self.phase, event) {
            (ScopePhase::Draining, ScopeEvent::Touch(touch)) => !(touch.event == TouchEvent::Pressed
                && self.metrics.state),
            _ => false,
        }
    }

    /// What follows an event. One that is no answer to the action changes nothing.
    pub open spec fn after(self, event: ScopeEvent) -> ScopeView {
        match (self.phase, event) {
            (ScopePhase::Draining, ScopeEvent::Touch(touch)) => ScopeView {
                metrics: self.metrics.after(touch.event, touch.at, self.origin, self.limits),
                info_dirty: true,
                ..self
            },
            (ScopePhase::Draining, ScopeEvent::NoTouch) => self.at(ScopePhase::Timing),
            (ScopePhase::Timing, ScopeEvent::Time(now)) => if now.nanos < self.next_display.nanos {
                self.at(ScopePhase::Pausing(pause_until(now, self.next_display)))
            } else {
                self.refreshing(now, false)
            },
            (ScopePhase::Pausing(_), ScopeEvent::Done) => self.at(ScopePhase::Draining),
            (ScopePhase::Plotting(now), ScopeEvent::Done) => (ScopeView {
                sweep: self.sweep.after(self.sample()),
                next_sample: later(self.next_sample, self.sample_period),
                ..self
            }).refreshing(now, true),
            (ScopePhase::Informing, ScopeEvent::Done) => ScopeView {
                info_dirty: false,
                phase: ScopePhase::Sending,
                ..self
            },
            (ScopePhase::Sending, ScopeEvent::Done) => self.at(ScopePhase::Closing),
            (ScopePhase::Closing, ScopeEvent::Time(now)) => {
                let due = later(self.next_display, self.display_period);
                ScopeView {
                    next_display: due,
                    phase: if due.nanos < now.nanos {
                        ScopePhase::CatchingUp
                    } else {
                        ScopePhase::Draining
                    },
                    ..self
                }
            },
            (ScopePhase::CatchingUp, ScopeEvent::Time(now)) => ScopeView {
                next_display: now,
                phase: ScopePhase::Draining,
                ..self
            },
            _ => self,
        }
    }
}

/// A loop before its first event.
pub open spec fn first_scope(
    sweep: SweepView,
    origin: Instant,
    limits: TapLimits,
    sample_ms: u64,
    display_ms: u64,
    next_sample: Instant,
    next_display: Instant,
) -> ScopeView {
    ScopeView {
        metrics: no_metrics(),
        sweep,
        origin,
        limits,
        sample_period: Duration { nanos: (sample_ms * 1_000_000) as u128 },
        display_period: Duration { nanos: (display_ms * 1_000_000) as u128 },
        next_sample,
        next_display,
        info_dirty: false,
        phase: ScopePhase::Draining,
    }
}

// ---------------------------------------------------------------------------------------------
// Loop
// ---------------------------------------------------------------------------------------------
impl ScopeLoop {
    #[verifier::type_invariant]
    spec fn in_bounds(self) -> bool {
        &&& self.metrics@.events.len() <= 3
        &&& self.sample_period.nanos <= TIME_LIMIT / 2
        &&& self.display_period.nanos <= TIME_LIMIT / 2
        &&& self.phase matches ScopePhase::Plotting(now) ==> self.next_sample.nanos <= now.nanos
            <= TIME_LIMIT
        &&& self.phase is Plotting || self.phase is Informing || self.phase is Sending
            || self.phase is Closing ==> self.next_display.nanos <= TIME_LIMIT
    }

    /// A loop that starts at a time, with samples and the display due at the given times.
    pub fn new(
        sweep: Sweep,
        origin: Instant,
        double_tap: (Duration, Duration),
        long_press: Duration,
        sample_ms: u64,
        display_ms: u64,
        next_sample: Instant,
        next_display: Instant,
    ) -> (scope: ScopeLoop)
        ensures
            scope@ == (ScopeView {
                metrics: no_metrics(),
                sweep: sweep@,
                origin,
                limits: TapLimits {
                    double_tap_min: double_tap.0,
                    double_tap_max: double_tap.1,
                    long_press,
                },
                sample_period: Duration { nanos: (sample_ms * 1_000_000) as u128 },
                display_period: Duration { nanos: (display_ms * 1_000_000) as u128 },
                next_sample,
                next_display,
                info_dirty: false,
                phase: ScopePhase::Draining,
            }),
            scope@ == first_scope(
                sweep@,
                origin,
                TapLimits {
                    double_tap_min: double_tap.0,
                    double_tap_max: double_tap.1,
                    long_press,
                },
                sample_ms,
                display_ms,
                next_sample,
                next_display,
            ),
    {
        ScopeLoop {
            metrics: Metrics::default(),
            sweep,
            origin,
            double_tap,
            long_press,
            sample_period: Duration::from_millis(sample_ms),
            display_period: Duration::from_millis(display_ms),
            next_sample,
            next_display,
            info_dirty: false,
            phase: ScopePhase::Draining,
        }
    }

    /// What is known of the touches.
    pub fn metrics(&self) -> (metrics: &Metrics)
        ensures
            metrics@ == self@.metrics,
    {
        &self.metrics
    }

    /// The figures about the touches.
    pub fn info(&self) -> (drawings: Vec<Drawing>)
        ensures
            drawing_views(drawings@) == metrics_views(self@.metrics),
    {
        proof {
            use_type_invariant(self);
        }
        draw_metrics(&self.metrics)
    }

    /// What the loop asks for.
    pub fn action(&self) -> (action: ScopeAction)
        ensures
            action == self@.action(),
    {
        match self.phase {
            ScopePhase::Draining => ScopeAction::TakeTouch,
            ScopePhase::Timing => ScopeAction::ReadClock,
            ScopePhase::Pausing(span) => ScopeAction::Pause(span),
            ScopePhase::Plotting(_) => ScopeAction::Plot(
                self.sweep.stroke(self.metrics.state_at(self.next_sample)),
            ),
            ScopePhase::Informing => ScopeAction::Inform,
            ScopePhase::Sending => ScopeAction::Send,
            ScopePhase::Closing => ScopeAction::ReadClock,
            ScopePhase::CatchingUp => ScopeAction::ReadClock,
        }
    }

    fn refreshing_phase(&self, next_sample: Instant, now: Instant, plotted: bool) -> (phase:
        ScopePhase)
        ensures
            (ScopeView { next_sample, ..self@ }).refreshing(now, plotted) == (ScopeView {
                next_sample,
                phase,
                ..self@
            }),
    {
        if next_sample.nanos <= now.nanos {
            ScopePhase::Plotting(now)
        } else if self.info_dirty {
            ScopePhase::Informing
        } else if plotted {
            ScopePhase::Sending
        } else {
            ScopePhase::Closing
        }
    }

    /// The loop after an event, and whether there is a new line about a touch.
    pub fn advance(self, event: ScopeEvent) -> (next: (ScopeLoop, bool))
        requires
            event matches ScopeEvent::Time(now) ==> now.nanos <= TIME_LIMIT,
        ensures
            next.0@ == self@.after(event),
            next.1 == self@.notes(event),
    {
        proof {
            use_type_invariant(&self);
        }
        match (self.phase, event) {
            (ScopePhase::Draining, ScopeEvent::Touch(touch)) => {
                let mut metrics: Metrics = self.metrics;
                let noted = metrics.handle(
                    touch.event,
                    touch.at,
                    self.origin,
                    self.double_tap,
                    self.long_press,
                );
                (ScopeLoop { metrics, info_dirty: true, ..self }, noted)
            },
            (ScopePhase::Draining, ScopeEvent::NoTouch) => (
                ScopeLoop { phase: ScopePhase::Timing, ..self },
                false,
            ),
            (ScopePhase::Timing, ScopeEvent::Time(now)) => {
                if now.nanos < self.next_display.nanos {
                    let left: u128 = self.next_display.nanos - now.nanos;
                    let nanos: u128 = if left < LONGEST_PAUSE {
                        left
                    } else {
                        LONGEST_PAUSE
                    };
                    let phase = ScopePhase::Pausing(Duration { nanos });
                    (ScopeLoop { phase, ..self }, false)
                } else {
                    let phase = self.refreshing_phase(self.next_sample, now, false);
                    (ScopeLoop { phase, ..self }, false)
                }
            },
            (ScopePhase::Pausing(_), ScopeEvent::Done) => (
                ScopeLoop { phase: ScopePhase::Draining, ..self },
                false,
            ),
            (ScopePhase::Plotting(now), ScopeEvent::Done) => {
                let state = self.metrics.state_at(self.next_sample);
                let next_sample: Instant = self.next_sample.after(self.sample_period);
                let phase = self.refreshing_phase(next_sample, now, true);
                let mut sweep: Sweep = self.sweep;
                sweep.advance(state);
                (ScopeLoop { sweep, next_sample, phase, ..self }, false)
            },
            (ScopePhase::Informing, ScopeEvent::Done) => (
                ScopeLoop { info_dirty: false, phase: ScopePhase::Sending, ..self },
                false,
            ),
            (ScopePhase::Sending, ScopeEvent::Done) => (
                ScopeLoop { phase: ScopePhase::Closing, ..self },
                false,
            ),
            (ScopePhase::Closing, ScopeEvent::Time(now)) => {
                let next_display: Instant = self.next_display.after(self.display_period);
                let phase = if next_display.nanos < now.nanos {
                    ScopePhase::CatchingUp
                } else {
                    ScopePhase::Draining
                };
                (ScopeLoop { next_display, phase, ..self }, false)
            },
            (ScopePhase::CatchingUp, ScopeEvent::Time(now)) => (
                ScopeLoop { next_display: now, phase: ScopePhase::Draining, ..self },
                false,
            ),
            _ => (self, false),
        }
    }
}

// ---------------------------------------------------------------------------------------------
// Laws
// ---------------------------------------------------------------------------------------------
/// Where the bytes were those of the picture before a sample was drawn, and drawing has changed
/// only the line of the trace and what was cleared, they are those of the picture again as soon as
/// the two parts that a stroke names have been worked out.
pub proof fn law_stroke_keeps_bytes_in_sync(
    sweep: SweepView,
    state: bool,
    old_pixels: Map<(u32, u32), Color>,
    new_pixels: Map<(u32, u32), Color>,
)
    requires
        sweep.is_in_plot(),
        ({
            let stroke = sweep.stroke(state);
            forall|x: u32, y: u32|
                x < DISPLAY_WIDTH && y < DISPLAY_HEIGHT && !(y == stroke.trace.y1
                    && stroke.trace.x1 <= x <= stroke.trace.x2) && !stroke.cleared.covers(
                    x as int,
                    y as int,
                ) ==> #[trigger] new_pixels[(x, y)] == old_pixels[(x, y)]
        }),
    ensures
        ({
            let stroke = sweep.stroke(state);
            synced(
                synced(picture_bytes(old_pixels), new_pixels, stroke.retraced),
                new_pixels,
                stroke.cleared,
            ) == picture_bytes(new_pixels)
        }),
{
    let stroke = sweep.stroke(state);
    let bytes = synced(
        synced(picture_bytes(old_pixels), new_pixels, stroke.retraced),
        new_pixels,
        stroke.cleared,
    );
    assert forall|i: int| 0 <= i < FRAME_BYTES implies #[trigger] bytes[i] == picture_byte(
        new_pixels,
        i,
    ) by {
        let x = byte_column(i);
        let y = byte_row(i);
        assert(x < DISPLAY_WIDTH && y < DISPLAY_HEIGHT);
        if !stroke.cleared.covers(x as int, y as int) && !stroke.retraced.covers(
            x as int,
            y as int,
        ) {
            assert(new_pixels[(x, y)] == old_pixels[(x, y)]);
        }
    }
    assert(bytes =~= picture_bytes(new_pixels));
}

/// A sample is drawn at the high level exactly where the finger was on the sensor when it was due,
/// and at the low level otherwise.
pub proof fn law_trace_shows_the_finger(scope: ScopeView)
    requires
        scope.phase is Plotting,
    ensures
        scope.action() matches ScopeAction::Plot(stroke) && stroke.cursor.y1
            == level(state_at(scope.metrics.transitions, scope.next_sample)),
{
}

/// Touch events do not wait for long: no pause is longer than five milliseconds, and none goes past
/// the time at which the display is due.
pub proof fn law_pauses_are_short(scope: ScopeView, now: Instant)
    requires
        scope.phase is Timing,
        now.nanos < scope.next_display.nanos,
    ensures
        scope.after(ScopeEvent::Time(now)).action() matches ScopeAction::Pause(span) && span.nanos
            <= LONGEST_PAUSE && now.nanos + span.nanos <= scope.next_display.nanos,
{
}

/// What is measured depends on the touch events and their own times alone: when the loop gets to
/// see them, and how long drawing and sending take, makes no difference.
pub proof fn law_delays_do_not_matter(scope: ScopeView, events: Seq<ScopeEvent>)
    requires
        forall|i: int| 0 <= i < events.len() ==> (#[trigger] events[i]) !is Touch,
    ensures
        scope.after_all(events).metrics == scope.metrics,
    decreases events.len(),
{
    if events.len() > 0 {
        let before = events.drop_last();
        assert forall|i: int| 0 <= i < before.len() implies (#[trigger] before[i]) !is Touch by {
            assert(before[i] == events[i]);
        }
        law_delays_do_not_matter(scope, before);
        assert(events[events.len() - 1] !is Touch);
    }
}

/// Settings are refused for the first of these: samples without a time between them, the same for
/// the display, a sweep that takes no time, limits of a double tap that leave no gap. All others
/// are in order.
pub proof fn law_settings_are_checked(
    sample_ms: u64,
    display_ms: u64,
    sweep_is_positive: bool,
    double_tap_min_ms: u64,
    double_tap_ms: u64,
)
    ensures
        ({
            let outcome = settings_outcome(
                sample_ms,
                display_ms,
                sweep_is_positive,
                double_tap_min_ms,
                double_tap_ms,
            );
            let first = sample_ms > 0;
            let second = first && display_ms > 0;
            let third = second && sweep_is_positive;
            &&& outcome == Err::<(), SettingsError>(SettingsError::SamplePeriod) <==> !first
            &&& outcome == Err::<(), SettingsError>(SettingsError::DisplayPeriod) <==> first
                && !second
            &&& outcome == Err::<(), SettingsError>(SettingsError::SweepTime) <==> second && !third
            &&& outcome == Err::<(), SettingsError>(SettingsError::DoubleTap) <==> third
                && double_tap_ms < double_tap_min_ms
            &&& outcome is Ok <==> third && double_tap_min_ms <= double_tap_ms
        }),
        settings_fault_text(SettingsError::SamplePeriod)
            == "--sample-ms must be greater than zero"@,
        settings_fault_text(SettingsError::DisplayPeriod)
            == "--display-ms must be greater than zero"@,
        settings_fault_text(SettingsError::SweepTime) == "--sweep-seconds must be positive"@,
        settings_fault_text(SettingsError::DoubleTap)
            == "--double-tap-min-ms must not exceed --double-tap-ms"@,
{
}

/// When the clock was read the loop pauses until the display is due, but no longer than five
/// milliseconds. Once it is due, the samples that are due are drawn, then the figures where they
/// have changed.
pub proof fn law_display_is_brought_up_to_date(scope: ScopeView, now: Instant)
    requires
        scope.phase is Timing,
    ensures
        ({
            let after = scope.after(ScopeEvent::Time(now));
            let left = scope.next_display.nanos - now.nanos;
            let due = left <= 0;
            let sample_due = scope.next_sample.nanos <= now.nanos;
            &&& after.action() is Pause <==> !due
            &&& !due ==> after.action()->Pause_0.nanos == if left < 5_000_000 {
                left
            } else {
                5_000_000
            }
            &&& after.action() is Plot <==> due && sample_due
            &&& after.action() is Inform <==> due && !sample_due && scope.info_dirty
            &&& after.phase is Closing <==> due && !sample_due && !scope.info_dirty
            &&& after.action() is Plot ==> after.phase == ScopePhase::Plotting(now)
        }),
{
}

/// A sample that was drawn is followed by the next one a sample period later, as long as that was
/// due when the clock was read; then the figures are drawn where they have changed, and the picture
/// is sent.
pub proof fn law_due_samples_are_drawn(scope: ScopeView, now: Instant)
    requires
        scope.phase == ScopePhase::Plotting(now),
        scope.next_sample.nanos + scope.sample_period.nanos <= u128::MAX,
    ensures
        ({
            let after = scope.after(ScopeEvent::Done);
            let state = state_at(scope.metrics.transitions, scope.next_sample);
            let more = scope.next_sample.nanos + scope.sample_period.nanos <= now.nanos;
            &&& scope.action() == ScopeAction::Plot(scope.sweep.stroke(state))
            &&& after.sweep == scope.sweep.after(state)
            &&& after.next_sample.nanos == scope.next_sample.nanos + scope.sample_period.nanos
            &&& more ==> after.phase == scope.phase
            &&& !more && scope.info_dirty ==> after.phase is Informing
            &&& !more && !scope.info_dirty ==> after.phase is Sending
        }),
{
}

/// Figures that were drawn are no longer new, and are sent. Behind what was sent, or where there
/// was nothing to send, the display is due one display period later; where that has passed already,
/// from the present on.
pub proof fn law_display_keeps_its_period(scope: ScopeView, now: Instant)
    requires
        scope.next_display.nanos + scope.display_period.nanos <= u128::MAX,
    ensures
        scope.phase is Informing ==> scope.action() is Inform && scope.after(
            ScopeEvent::Done,
        ).action() is Send && !scope.after(ScopeEvent::Done).info_dirty,
        scope.phase is Sending ==> scope.action() is Send && scope.after(
            ScopeEvent::Done,
        ).phase is Closing,
        scope.phase is Closing ==> {
            let after = scope.after(ScopeEvent::Time(now));
            let due = scope.next_display.nanos + scope.display_period.nanos;
            &&& scope.action() is ReadClock
            &&& after.next_display.nanos == due
            &&& after.phase is CatchingUp <==> due < now.nanos
            &&& after.phase is Draining <==> due >= now.nanos
        },
        scope.phase is CatchingUp ==> {
            let after = scope.after(ScopeEvent::Time(now));
            &&& scope.action() is ReadClock
            &&& after.next_display == now
            &&& after.phase is Draining
        },
{
}

/// All touch events that have come are taken before the clock is read, and again behind each pause.
/// One that counts makes the figures new; it gives a line unless it is a press while the finger is
/// on the sensor.
pub proof fn law_touch_events_come_first(scope: ScopeView, touch: TimedTouchEvent)
    ensures
        scope.phase is Draining ==> {
            let after = scope.after(ScopeEvent::Touch(touch));
            &&& scope.action() is TakeTouch
            &&& after.phase is Draining
            &&& after.info_dirty
            &&& after.metrics == scope.metrics.after(
                touch.event,
                touch.at,
                scope.origin,
                scope.limits,
            )
            &&& scope.notes(ScopeEvent::Touch(touch)) <==> touch.event == TouchEvent::Released
                || !scope.metrics.state
            &&& scope.after(ScopeEvent::NoTouch).action() is ReadClock
            &&& scope.after(ScopeEvent::NoTouch).phase is Timing
        },
        scope.phase is Timing ==> scope.action() is ReadClock,
        scope.phase matches ScopePhase::Pausing(span) ==> scope.action() == ScopeAction::Pause(span)
            && scope.after(ScopeEvent::Done).phase is Draining,
{
}

/// Each part of the loop changes in its own steps alone, the settings never. What does not answer
/// the action changes nothing.
pub proof fn law_scope_steps_change_their_own_part(scope: ScopeView, event: ScopeEvent)
    ensures
        ({
            let after = scope.after(event);
            let touched = scope.phase is Draining && event is Touch;
            let plotted = scope.phase is Plotting && event is Done;
            let informed = scope.phase is Informing && event is Done;
            let closed = (scope.phase is Closing || scope.phase is CatchingUp) && event is Time;
            &&& after.origin == scope.origin
            &&& after.limits == scope.limits
            &&& after.sample_period == scope.sample_period
            &&& after.display_period == scope.display_period
            &&& !touched ==> after.metrics == scope.metrics && !scope.notes(event)
            &&& !plotted ==> after.sweep == scope.sweep && after.next_sample == scope.next_sample
            &&& !touched && !informed ==> after.info_dirty == scope.info_dirty
            &&& !closed ==> after.next_display == scope.next_display
        }),
        (event is Touch || event is NoTouch) && scope.phase !is Draining ==> scope.after(event)
            == scope,
        event is Time && !(scope.phase is Timing || scope.phase is Closing
            || scope.phase is CatchingUp) ==> scope.after(event) == scope,
        event is Done && (scope.phase is Draining || scope.phase is Timing || scope.phase is Closing
            || scope.phase is CatchingUp) ==> scope.after(event) == scope,
{
}

/// A loop starts with touch events, with nothing measured and nothing new, and with the settings
/// that it was given; its periods are in milliseconds.
pub proof fn law_scope_starts_with_touch_events(
    sweep: SweepView,
    origin: Instant,
    limits: TapLimits,
    sample_ms: u64,
    display_ms: u64,
    next_sample: Instant,
    next_display: Instant,
)
    ensures
        ({
            let start = first_scope(
                sweep,
                origin,
                limits,
                sample_ms,
                display_ms,
                next_sample,
                next_display,
            );
            &&& start.action() is TakeTouch
            &&& start.sweep == sweep && start.origin == origin && start.limits == limits
            &&& start.sample_period.nanos == sample_ms as int * 1000 * 1000
            &&& start.display_period.nanos == display_ms as int * 1000 * 1000
            &&& start.next_sample == next_sample && start.next_display == next_display
            &&& !start.info_dirty && !start.metrics.state
            &&& start.metrics.events.len() == 0 && start.metrics.transitions.len() == 0
        }),
{
}

} // verus!
