//! The loop that shows the panels in turn and reacts to gestures.
//!
//! The loop asks for one step at a time. Whoever owns the display carries it out and tells the loop
//! what came of it.

use crate::fingerprint::{TimedTouchEvent, TouchEvent};
use crate::gesture::{Finger, GestureAction, GestureController, Gestures};
use crate::text::{join2, two_digit_text, two_digits};
use crate::time::{span_between, Duration, Instant};
use vstd::math::max;
use vstd::prelude::*;

verus! {

// ---------------------------------------------------------------------------------------------
// Settings
// ---------------------------------------------------------------------------------------------
/// The interval between panels as it is configured.
#[derive(Clone, Copy, Debug, PartialEq, Eq, Structural)]
pub enum RotationSetting {
    /// There is none, or it is no number.
    Missing,
    /// Zero or less.
    NotPositive,
    Millis(u64),
}

/// How long a panel is shown before the next one, in nanoseconds, if panels are to change by
/// themselves.
pub open spec fn rotation_nanos(setting: RotationSetting) -> Option<int> {
    match setting {
        RotationSetting::Missing => Some(5_000_000_000),
        RotationSetting::NotPositive => None,
        RotationSetting::Millis(millis) => Some(millis * 1_000_000),
    }
}

/// How long a panel is shown before the next one, if panels are to change by themselves. Without a
/// setting they change every five seconds.
pub fn rotation_time(setting: RotationSetting) -> (time: Option<Duration>)
    ensures
        match setting {
            RotationSetting::Missing => time matches Some(span) && span.nanos == 5_000_000_000,
            RotationSetting::NotPositive => time is None,
            RotationSetting::Millis(millis) => time matches Some(span) && span.nanos == millis
                * 1_000_000,
        },
        match time {
            Some(span) => rotation_nanos(setting) == Some(span.nanos as int),
            None => rotation_nanos(setting) is None,
        },
{
    match setting {
        RotationSetting::Missing => Some(Duration::from_secs(5)),
        RotationSetting::NotPositive => None,
        RotationSetting::Millis(millis) => Some(Duration::from_millis(millis)),
    }
}

/// Whether a number in the list of active panels is that of a panel.
pub open spec fn names_panel(number: u32, panel_count: usize) -> bool {
    0 < number <= panel_count as u32
}

/// Whether more than one panel is active.
pub open spec fn several_panels(active_panels: Seq<u32>, panel_count: usize) -> bool {
    active_panels.filter(|number: u32| names_panel(number, panel_count)).len() > 1
}

/// Whether there is a panel to switch to: whether more than one is active.
pub fn panel_switch_enabled(active_panels: &[u32], panel_count: usize) -> (enabled: bool)
    ensures
        enabled == (active_panels@.filter(|number: u32| names_panel(number, panel_count)).len()
            > 1),
        enabled == several_panels(active_panels@, panel_count),
{
    let ghost condition = |number: u32| names_panel(number, panel_count);
    let mut count: usize = 0;
    let mut i: usize = 0;
    proof {
        reveal(Seq::filter);
        assert(active_panels@.take(0) =~= Seq::<u32>::empty());
    }
    while i < active_panels.len()
        invariant
            i <= active_panels@.len(),
            count <= i,
            condition == (|number: u32| names_panel(number, panel_count)),
            count == active_panels@.take(i as int).filter(condition).len(),
        decreases active_panels@.len() - i,
    {
        proof {
            reveal(Seq::filter);
            let next = active_panels@.take(i as int + 1);
            assert(next.drop_last() =~= active_panels@.take(i as int));
            assert(next.last() == active_panels@[i as int]);
        }
        let number: u32 = active_panels[i];
        if number > 0 && number <= #[verifier::truncate] (panel_count as u32) {
            count += 1;
        }
        i += 1;
    }
    assert(active_panels@.take(i as int) =~= active_panels@);
    count > 1
}

/// What is added to the name of the file for the image of a refresh.
pub open spec fn suffix_text(refresh_count: nat) -> Seq<char> {
    "-"@ + two_digit_text(refresh_count)
}

/// What is added to the name of the file for a rendered image.
pub fn image_suffix(refresh_count: u64) -> (suffix: String)
    ensures
        suffix@ == "-"@ + two_digit_text(refresh_count as nat),
        suffix@ == suffix_text(refresh_count as nat),
{
    join2("-", two_digits(refresh_count).as_str())
}

// ---------------------------------------------------------------------------------------------
// Steps
// ---------------------------------------------------------------------------------------------
/// What the loop asks for.
#[derive(Clone, Copy, Debug, PartialEq, Eq, Structural)]
pub enum PanelAction {
    /// Go to the next active panel.
    ChoosePanel,
    /// Tell the time.
    ReadClock,
    /// Take the next touch event, if one has come.
    TakeTouch,
    SwitchOn,
    SwitchOff,
    /// Render the panel and show it. The panel has been rendered `count - 1` times before.
    Render { count: u64 },
    /// Wait a moment.
    Pause,
    /// There is no panel to show.
    Stop,
}

/// What came of an action.
#[derive(Clone, Copy, Debug, PartialEq, Eq, Structural)]
pub enum PanelEvent {
    Done,
    /// A panel was chosen; its time starts at `shown`, and the first refresh is due at `refresh`.
    Chosen { shown: Instant, refresh: Instant },
    NoPanel,
    Time(Instant),
    Touch(TimedTouchEvent),
    NoTouch,
    /// The display was switched on; the time of the panel starts anew at `shown`, and a refresh is
    /// due at `refresh`.
    Woken { shown: Instant, refresh: Instant },
    /// The panel is on the display since this time.
    Rendered(Instant),
}

/// Where the loop is.
#[derive(Clone, Copy, Debug, PartialEq, Eq, Structural)]
pub enum PanelPhase {
    Choosing,
    /// Looking whether the sensor has been held long enough.
    Watching,
    /// Taking touch events; one of them may have asked for the next panel.
    Draining { next_panel: bool },
    Waking,
    Sleeping,
    /// Looking whether a refresh is due.
    Checking,
    Rendering,
    /// Looking whether the time of the panel is over.
    Rotating,
    Pausing,
    Over,
}

/// The loop that shows the panels.
pub struct PanelLoop {
    gestures: GestureController,
    refresh: Duration,
    rotation: Option<Duration>,
    switch_enabled: bool,
    screen_on: bool,
    shown: Instant,
    refreshed: Instant,
    refresh_after: Duration,
    refresh_count: u64,
    phase: PanelPhase,
}

/// A [`PanelLoop`].
pub struct PanelView {
    pub gestures: Gestures,
    /// How long after a refresh the next one is due.
    pub refresh: Duration,
    /// How long a panel is shown, if panels change by themselves.
    pub rotation: Option<Duration>,
    /// Whether a double tap switches the panel.
    pub switch_enabled: bool,
    pub screen_on: bool,
    /// Since when the panel is shown.
    pub shown: Instant,
    /// A refresh is due `refresh_after` this time.
    pub refreshed: Instant,
    pub refresh_after: Duration,
    /// The number of the next refresh of the panel.
    pub refresh_count: u64,
    pub phase: PanelPhase,
}

impl View for PanelLoop {
    type V = PanelView;

    closed spec fn view(&self) -> PanelView {
        PanelView {
            gestures: self.gestures@,
            refresh: self.refresh,
            rotation: self.rotation,
            switch_enabled: self.switch_enabled,
            screen_on: self.screen_on,
            shown: self.shown,
            refreshed: self.refreshed,
            refresh_after: self.refresh_after,
            refresh_count: self.refresh_count,
            phase: self.phase,
        }
    }
}

// ---------------------------------------------------------------------------------------------
// Model
// ---------------------------------------------------------------------------------------------
impl PanelView {
    /// What the loop asks for.
    pub open spec fn action(self) -> PanelAction {
        match self.phase {
            PanelPhase::Choosing => PanelAction::ChoosePanel,
            PanelPhase::Watching => PanelAction::ReadClock,
            PanelPhase::Draining { .. } => PanelAction::TakeTouch,
            PanelPhase::Waking => PanelAction::SwitchOn,
            PanelPhase::Sleeping => PanelAction::SwitchOff,
            PanelPhase::Checking => PanelAction::ReadClock,
            PanelPhase::Rendering => PanelAction::Render { count: self.refresh_count },
            PanelPhase::Rotating => PanelAction::ReadClock,
            PanelPhase::Pausing => PanelAction::Pause,
            PanelPhase::Over => PanelAction::Stop,
        }
    }

    /// The loop elsewhere.
    pub open spec fn at(self, phase: PanelPhase) -> PanelView {
        PanelView { phase, ..self }
    }

    /// Whether a refresh is due at a time.
    pub open spec fn is_refresh_due(self, now: Instant) -> bool {
        self.refreshed.nanos + self.refresh_after.nanos <= now.nanos
    }

    /// Whether the time of the panel is over.
    pub open spec fn is_rotation_due(self, now: Instant) -> bool {
        self.rotation matches Some(time) && time.nanos <= span_between(self.shown, now).nanos
    }

    /// What follows when a panel was chosen.
    pub open spec fn after_choice(self, shown: Instant, refresh: Instant) -> PanelView {
        PanelView {
            shown,
            refreshed: refresh,
            refresh_after: Duration { nanos: 0 },
            refresh_count: 1,
            phase: PanelPhase::Watching,
            ..self
        }
    }

    /// What follows when time has passed for the gestures.
    pub open spec fn after_watch(self, now: Instant) -> PanelView {
        let (gestures, action) = self.gestures.after_tick(self.screen_on, now);
        PanelView {
            gestures,
            phase: match action {
                Some(GestureAction::Sleep) => PanelPhase::Sleeping,
                _ => PanelPhase::Draining { next_panel: false },
            },
            ..self
        }
    }

    /// What follows a touch event, where an earlier one may have asked for the next panel.
    pub open spec fn after_touch(self, next_panel: bool, touch: TimedTouchEvent) -> PanelView {
        let (gestures, action) = self.gestures.after_event(touch.event, self.screen_on, touch.at);
        PanelView {
            gestures,
            phase: match action {
                None => PanelPhase::Draining { next_panel },
                Some(GestureAction::NextPanel) => PanelPhase::Draining {
                    next_panel: next_panel || self.switch_enabled,
                },
                Some(GestureAction::Wake) => PanelPhase::Waking,
                Some(GestureAction::Sleep) => PanelPhase::Sleeping,
            },
            ..self
        }
    }

    /// The gesture that an event completes, whether or not the loop acts on it.
    pub open spec fn gesture(self, event: PanelEvent) -> Option<GestureAction> {
        match (self.phase, event) {
            (PanelPhase::Watching, PanelEvent::Time(now)) => self.gestures.after_tick(
                self.screen_on,
                now,
            ).1,
            (PanelPhase::Draining { .. }, PanelEvent::Touch(touch)) => self.gestures.after_event(
                touch.event,
                self.screen_on,
                touch.at,
            ).1,
            _ => None,
        }
    }

    /// What follows an event. One that is no answer to the action changes nothing.
    pub open spec fn after(self, event: PanelEvent) -> PanelView {
        match (self.phase, event) {
            (PanelPhase::Choosing, PanelEvent::Chosen { shown, refresh }) => self.after_choice(
                shown,
                refresh,
            ),
            (PanelPhase::Choosing, PanelEvent::NoPanel) => self.at(PanelPhase::Over),
            (PanelPhase::Watching, PanelEvent::Time(now)) => self.after_watch(now),
            (PanelPhase::Draining { next_panel }, PanelEvent::Touch(touch)) => self.after_touch(
                next_panel,
                touch,
            ),
            (PanelPhase::Draining { next_panel }, PanelEvent::NoTouch) => if next_panel {
                self.at(PanelPhase::Choosing)
            } else {
                self.at(PanelPhase::Checking)
            },
            (PanelPhase::Waking, PanelEvent::Woken { shown, refresh }) => PanelView {
                screen_on: true,
                shown,
                refreshed: refresh,
                refresh_after: Duration { nanos: 0 },
                phase: PanelPhase::Draining { next_panel: false },
                ..self
            },
            (PanelPhase::Sleeping, PanelEvent::Done) => PanelView {
                screen_on: false,
                phase: PanelPhase::Draining { next_panel: false },
                ..self
            },
            (PanelPhase::Checking, PanelEvent::Time(now)) => if self.screen_on
                && self.is_refresh_due(now) {
                self.at(PanelPhase::Rendering)
            } else {
                self.at(PanelPhase::Rotating)
            },
            (PanelPhase::Rendering, PanelEvent::Rendered(now)) => PanelView {
                refreshed: now,
                refresh_after: self.refresh,
                refresh_count: self.refresh_count.wrapping_add(1),
                phase: PanelPhase::Rotating,
                ..self
            },
            (PanelPhase::Rotating, PanelEvent::Time(now)) => if self.screen_on
                && self.is_rotation_due(now) {
                self.at(PanelPhase::Choosing)
            } else {
                self.at(PanelPhase::Pausing)
            },
            (PanelPhase::Pausing, PanelEvent::Done) => self.at(PanelPhase::Watching),
            _ => self,
        }
    }
}

/// A loop on a display that is on, before its first panel.
pub open spec fn first_panels(
    gestures: Gestures,
    refresh: Duration,
    rotation: Option<Duration>,
    switch_enabled: bool,
) -> PanelView {
    PanelView {
        gestures,
        refresh,
        rotation,
        switch_enabled,
        screen_on: true,
        shown: Instant { nanos: 0 },
        refreshed: Instant { nanos: 0 },
        refresh_after: Duration { nanos: 0 },
        refresh_count: 1,
        phase: PanelPhase::Choosing,
    }
}

// ---------------------------------------------------------------------------------------------
// Loop
// ---------------------------------------------------------------------------------------------
impl PanelLoop {
    /// A loop on a display that is on.
    pub fn new(
        gestures: GestureController,
        refresh: Duration,
        rotation: Option<Duration>,
        switch_enabled: bool,
    ) -> (panels: PanelLoop)
        ensures
            panels@ == (PanelView {
                gestures: gestures@,
                refresh,
                rotation,
                switch_enabled,
                screen_on: true,
                shown: Instant { nanos: 0 },
                refreshed: Instant { nanos: 0 },
                refresh_after: Duration { nanos: 0 },
                refresh_count: 1,
                phase: PanelPhase::Choosing,
            }),
            panels@ == first_panels(gestures@, refresh, rotation, switch_enabled),
    {
        PanelLoop {
            gestures,
            refresh,
            rotation,
            switch_enabled,
            screen_on: true,
            shown: Instant { nanos: 0 },
            refreshed: Instant { nanos: 0 },
            refresh_after: Duration { nanos: 0 },
            refresh_count: 1,
            phase: PanelPhase::Choosing,
        }
    }

    /// What the loop asks for.
    pub fn action(&self) -> (action: PanelAction)
        ensures
            action == self@.action(),
    {
        match self.phase {
            PanelPhase::Choosing => PanelAction::ChoosePanel,
            PanelPhase::Watching => PanelAction::ReadClock,
            PanelPhase::Draining { .. } => PanelAction::TakeTouch,
            PanelPhase::Waking => PanelAction::SwitchOn,
            PanelPhase::Sleeping => PanelAction::SwitchOff,
            PanelPhase::Checking => PanelAction::ReadClock,
            PanelPhase::Rendering => PanelAction::Render { count: self.refresh_count },
            PanelPhase::Rotating => PanelAction::ReadClock,
            PanelPhase::Pausing => PanelAction::Pause,
            PanelPhase::Over => PanelAction::Stop,
        }
    }

    fn refresh_due(&self, now: Instant) -> (due: bool)
        ensures
            due == self@.is_refresh_due(now),
    {
        now.nanos >= self.refreshed.nanos && now.nanos - self.refreshed.nanos
            >= self.refresh_after.nanos
    }

    fn rotation_due(&self, now: Instant) -> (due: bool)
        ensures
            due == self@.is_rotation_due(now),
    {
        match self.rotation {
            Some(time) => now.duration_since(self.shown).nanos >= time.nanos,
            None => false,
        }
    }

    fn apply_gesture(&mut self, next_panel: bool, action: Option<GestureAction>)
        ensures
            final(self)@ == old(self)@.at(
                match action {
                    None => PanelPhase::Draining { next_panel },
                    Some(GestureAction::NextPanel) => PanelPhase::Draining {
                        next_panel: next_panel || old(self)@.switch_enabled,
                    },
                    Some(GestureAction::Wake) => PanelPhase::Waking,
                    Some(GestureAction::Sleep) => PanelPhase::Sleeping,
                },
            ),
    {
        self.phase = match action {
            None => PanelPhase::Draining { next_panel },
            Some(GestureAction::NextPanel) => PanelPhase::Draining {
                next_panel: next_panel || self.switch_enabled,
            },
            Some(GestureAction::Wake) => PanelPhase::Waking,
            Some(GestureAction::Sleep) => PanelPhase::Sleeping,
        };
    }

    /// Takes in what came of the action, and gives the gesture that it completes.
    pub fn advance(&mut self, event: PanelEvent) -> (gesture: Option<GestureAction>)
        ensures
            final(self)@ == old(self)@.after(event),
            gesture == old(self)@.gesture(event),
    {
        let mut gesture: Option<GestureAction> = None;
        match (self.phase, event) {
            (PanelPhase::Choosing, PanelEvent::Chosen { shown, refresh }) => {
                self.shown = shown;
                self.refreshed = refresh;
                self.refresh_after = Duration { nanos: 0 };
                self.refresh_count = 1;
                self.phase = PanelPhase::Watching;
            },
            (PanelPhase::Choosing, PanelEvent::NoPanel) => {
                self.phase = PanelPhase::Over;
            },
            (PanelPhase::Watching, PanelEvent::Time(now)) => {
                gesture = self.gestures.tick(self.screen_on, now);
                self.apply_gesture(false, gesture);
            },
            (PanelPhase::Draining { next_panel }, PanelEvent::Touch(touch)) => {
                gesture = self.gestures.handle(touch.event, self.screen_on, touch.at);
                self.apply_gesture(next_panel, gesture);
            },
            (PanelPhase::Draining { next_panel }, PanelEvent::NoTouch) => {
                self.phase = if next_panel {
                    PanelPhase::Choosing
                } else {
                    PanelPhase::Checking
                };
            },
            (PanelPhase::Waking, PanelEvent::Woken { shown, refresh }) => {
                self.screen_on = true;
                self.shown = shown;
                self.refreshed = refresh;
                self.refresh_after = Duration { nanos: 0 };
                self.phase = PanelPhase::Draining { next_panel: false };
            },
            (PanelPhase::Sleeping, PanelEvent::Done) => {
                self.screen_on = false;
                self.phase = PanelPhase::Draining { next_panel: false };
            },
            (PanelPhase::Checking, PanelEvent::Time(now)) => {
                self.phase = if self.screen_on && self.refresh_due(now) {
                    PanelPhase::Rendering
                } else {
                    PanelPhase::Rotating
                };
            },
            (PanelPhase::Rendering, PanelEvent::Rendered(now)) => {
                self.refreshed = now;
                self.refresh_after = self.refresh;
                self.refresh_count = self.refresh_count.wrapping_add(1);
                self.phase = PanelPhase::Rotating;
            },
            (PanelPhase::Rotating, PanelEvent::Time(now)) => {
                self.phase = if self.screen_on && self.rotation_due(now) {
                    PanelPhase::Choosing
                } else {
                    PanelPhase::Pausing
                };
            },
            (PanelPhase::Pausing, PanelEvent::Done) => {
                self.phase = PanelPhase::Watching;
            },
            _ => {},
        }
        gesture
    }
}

// ---------------------------------------------------------------------------------------------
// Laws
// ---------------------------------------------------------------------------------------------
impl PanelView {
    /// What follows several events.
    pub open spec fn after_all(self, events: Seq<PanelEvent>) -> PanelView
        decreases events.len(),
    {
        if events.len() == 0 {
            self
        } else {
            self.after_all(events.drop_last()).after(events.last())
        }
    }

    /// Whether the loop asks for nothing that does not fit the display: a panel is rendered and the
    /// display switched off only while it is on, and it is switched on only while it is off. The
    /// next panel has been asked for only where there is one.
    pub open spec fn is_consistent(self) -> bool {
        &&& self.phase is Rendering ==> self.screen_on
        &&& self.phase is Sleeping ==> self.screen_on
        &&& self.phase is Waking ==> !self.screen_on
        &&& self.phase matches PanelPhase::Draining { next_panel } ==> next_panel
            ==> self.switch_enabled
    }
}

/// The loop fits the display from the start and after any events.
pub proof fn law_loop_fits_the_display(start: PanelView, events: Seq<PanelEvent>)
    requires
        start.phase is Choosing,
    ensures
        start.after_all(events).is_consistent(),
    decreases events.len(),
{
    if events.len() > 0 {
        law_loop_fits_the_display(start, events.drop_last());
    }
}

/// With one active panel and no timed rotation, a panel that is shown stays: double taps do not get
/// the loop to choose another.
pub proof fn law_single_panel_stays(panels: PanelView, events: Seq<PanelEvent>)
    requires
        panels.is_consistent(),
        panels.phase !is Choosing,
        !panels.switch_enabled,
        panels.rotation is None,
    ensures
        panels.after_all(events).phase !is Choosing,
        panels.after_all(events).is_consistent(),
        !panels.after_all(events).switch_enabled,
        panels.after_all(events).rotation is None,
    decreases events.len(),
{
    if events.len() > 0 {
        law_single_panel_stays(panels, events.drop_last());
    }
}

/// While the display is off, no panel is rendered and none is chosen, until a touch has woken it.
pub proof fn law_dark_display_is_left_alone(panels: PanelView, events: Seq<PanelEvent>)
    requires
        panels.phase == (PanelPhase::Draining { next_panel: false }),
        !panels.screen_on,
        forall|i: int| 0 <= i < events.len() ==> (#[trigger] events[i]) !is Woken,
    ensures
        !panels.after_all(events).screen_on,
        panels.after_all(events).phase !is Rendering,
        panels.after_all(events).phase !is Choosing,
        panels.after_all(events).phase !is Sleeping,
        panels.after_all(events).phase matches PanelPhase::Draining { next_panel } ==> !next_panel,
    decreases events.len(),
{
    if events.len() > 0 {
        let before = events.drop_last();
        assert forall|i: int| 0 <= i < before.len() implies (#[trigger] before[i]) !is Woken by {
            assert(before[i] == events[i]);
        }
        law_dark_display_is_left_alone(panels, before);
        assert(events[events.len() - 1] !is Woken);
    }
}

/// Any touch of the sensor gets a display that is off switched on, and the panel is then due for a
/// refresh.
pub proof fn law_touch_wakes_the_display(
    panels: PanelView,
    touch: TimedTouchEvent,
    shown: Instant,
    refresh: Instant,
    now: Instant,
)
    requires
        panels.phase is Draining,
        !panels.screen_on,
        panels.gestures.finger is Up,
        touch.event == TouchEvent::Pressed,
        refresh.nanos <= now.nanos,
    ensures
        ({
            let touched = panels.after(PanelEvent::Touch(touch));
            let woken = touched.after(PanelEvent::Woken { shown, refresh });
            &&& touched.action() == PanelAction::SwitchOn
            &&& woken.screen_on
            &&& woken.is_refresh_due(now)
        }),
{
}

/// Holding the sensor for long enough gets a display that is on switched off.
pub proof fn law_hold_darkens_the_display(panels: PanelView, since: Instant, now: Instant)
    requires
        panels.phase is Watching,
        panels.screen_on,
        panels.gestures.finger matches Finger::Down { since: pressed, .. } && pressed == since,
        panels.gestures.is_hold(since, now),
    ensures
        panels.after(PanelEvent::Time(now)).action() == PanelAction::SwitchOff,
        !panels.after(PanelEvent::Time(now)).after(PanelEvent::Done).screen_on,
{
}

/// A panel that was rendered is not rendered again before the refresh interval has passed, unless
/// it is chosen anew or the display is woken.
pub proof fn law_refresh_keeps_the_interval(
    panels: PanelView,
    rendered: Instant,
    events: Seq<PanelEvent>,
)
    requires
        panels.phase is Rotating,
        panels.refreshed == rendered,
        panels.refresh_after == panels.refresh,
        forall|i: int|
            0 <= i < events.len() ==> match #[trigger] events[i] {
                PanelEvent::Chosen { .. } => false,
                PanelEvent::Woken { .. } => false,
                PanelEvent::Time(now) => now.nanos < rendered.nanos + panels.refresh.nanos,
                _ => true,
            },
    ensures
        panels.after_all(events).phase !is Rendering,
        panels.after_all(events).refreshed == rendered,
        panels.after_all(events).refresh_after == panels.refresh,
    decreases events.len(),
{
    if events.len() > 0 {
        let before = events.drop_last();
        assert forall|i: int| 0 <= i < before.len() implies match #[trigger] before[i] {
            PanelEvent::Chosen { .. } => false,
            PanelEvent::Woken { .. } => false,
            PanelEvent::Time(now) => now.nanos < rendered.nanos + panels.refresh.nanos,
            _ => true,
        } by {
            assert(before[i] == events[i]);
        }
        law_refresh_keeps_the_interval(panels, rendered, before);
        assert(events.last() == events[events.len() - 1]);
    }
}

/// A panel that was chosen is followed by another one only when its time is over, unless a touch
/// comes in between.
pub proof fn law_rotation_keeps_the_time(
    panels: PanelView,
    shown: Instant,
    refresh: Instant,
    events: Seq<PanelEvent>,
)
    requires
        panels.phase is Choosing,
        forall|i: int|
            0 <= i < events.len() ==> match #[trigger] events[i] {
                PanelEvent::Touch(_) => false,
                PanelEvent::Time(now) => panels.rotation matches Some(time) ==> span_between(
                    shown,
                    now,
                ).nanos < time.nanos,
                _ => true,
            },
    ensures
        ({
            let later = panels.after(PanelEvent::Chosen { shown, refresh }).after_all(events);
            &&& later.phase !is Choosing
            &&& later.phase !is Waking
            &&& later.phase matches PanelPhase::Draining { next_panel } ==> !next_panel
            &&& later.shown == shown
            &&& later.rotation == panels.rotation
        }),
    decreases events.len(),
{
    if events.len() > 0 {
        let before = events.drop_last();
        assert forall|i: int| 0 <= i < before.len() implies match #[trigger] before[i] {
            PanelEvent::Touch(_) => false,
            PanelEvent::Time(now) => panels.rotation matches Some(time) ==> span_between(
                shown,
                now,
            ).nanos < time.nanos,
            _ => true,
        } by {
            assert(before[i] == events[i]);
        }
        law_rotation_keeps_the_time(panels, shown, refresh, before);
        assert(events.last() == events[events.len() - 1]);
    }
}

/// While the time of a panel is looked at, the loop goes to the next panel exactly where the
/// display is on and at least the rotation time has passed since the panel was shown, however often
/// it has been refreshed; else it waits a moment.
pub proof fn law_rotation_comes_when_due(panels: PanelView, now: Instant)
    requires
        panels.phase is Rotating,
    ensures
        ({
            let after = panels.after(PanelEvent::Time(now));
            let due = panels.screen_on && (panels.rotation matches Some(time) && max(
                0,
                now.nanos - panels.shown.nanos,
            ) >= time.nanos);
            &&& after.action() == PanelAction::ChoosePanel <==> due
            &&& after.action() == PanelAction::Pause <==> !due
        }),
{
}

/// The time of a panel counts from when it was chosen, or from when the display was last woken: at
/// any later look the loop goes to the next panel exactly where that is at least the rotation time
/// ago, on a display that is on, whatever came in between.
pub proof fn law_rotation_counts_from_the_choice(
    panels: PanelView,
    shown: Instant,
    refresh: Instant,
    events: Seq<PanelEvent>,
    now: Instant,
)
    requires
        panels.phase is Choosing,
        forall|i: int|
            0 <= i < events.len() ==> (#[trigger] events[i]) !is Chosen && events[i] !is Woken,
        panels.after(PanelEvent::Chosen { shown, refresh }).after_all(events).phase is Rotating,
    ensures
        ({
            let later = panels.after(PanelEvent::Chosen { shown, refresh }).after_all(events);
            later.after(PanelEvent::Time(now)).action() == PanelAction::ChoosePanel
                <==> later.screen_on && (panels.rotation matches Some(time) && max(
                0,
                now.nanos - shown.nanos,
            ) >= time.nanos)
        }),
{
    let chosen = panels.after(PanelEvent::Chosen { shown, refresh });
    lemma_shown_stays(chosen, events);
    law_rotation_comes_when_due(chosen.after_all(events), now);
}

proof fn lemma_shown_stays(panels: PanelView, events: Seq<PanelEvent>)
    requires
        forall|i: int|
            0 <= i < events.len() ==> (#[trigger] events[i]) !is Chosen && events[i] !is Woken,
    ensures
        panels.after_all(events).shown == panels.shown,
        panels.after_all(events).rotation == panels.rotation,
        panels.after_all(events).refresh == panels.refresh,
        panels.after_all(events).switch_enabled == panels.switch_enabled,
    decreases events.len(),
{
    if events.len() > 0 {
        let before = events.drop_last();
        assert forall|i: int| 0 <= i < before.len() implies (#[trigger] before[i]) !is Chosen
            && before[i] !is Woken by {
            assert(before[i] == events[i]);
        }
        lemma_shown_stays(panels, before);
        assert(events.last() == events[events.len() - 1]);
    }
}

/// While a refresh is looked at, the panel is rendered exactly where the display is on and the time
/// of the refresh has come.
pub proof fn law_refresh_comes_when_due(panels: PanelView, now: Instant)
    requires
        panels.phase is Checking,
    ensures
        ({
            let after = panels.after(PanelEvent::Time(now));
            let due = panels.screen_on && now.nanos >= panels.refreshed.nanos
                + panels.refresh_after.nanos;
            &&& after.action() == (PanelAction::Render { count: panels.refresh_count }) <==> due
            &&& after.phase is Rotating <==> !due
        }),
{
}

/// A refresh is due as soon as a panel was chosen or the display was woken, and then each time the
/// interval has passed since the last one; the refreshes of a panel are counted from one.
pub proof fn law_refresh_is_scheduled(
    panels: PanelView,
    shown: Instant,
    refresh: Instant,
    rendered: Instant,
)
    ensures
        panels.phase is Choosing ==> ({
            let after = panels.after(PanelEvent::Chosen { shown, refresh });
            &&& after.refreshed == refresh && after.refresh_after.nanos == 0
            &&& after.refresh_count == 1 && after.shown == shown
            &&& after.screen_on == panels.screen_on && after.gestures == panels.gestures
            &&& after.phase is Watching
        }),
        panels.phase is Waking ==> ({
            let after = panels.after(PanelEvent::Woken { shown, refresh });
            &&& after.refreshed == refresh && after.refresh_after.nanos == 0
            &&& after.refresh_count == panels.refresh_count && after.shown == shown
            &&& after.screen_on && after.gestures == panels.gestures
            &&& after.phase == (PanelPhase::Draining { next_panel: false })
        }),
        panels.phase is Rendering ==> ({
            let after = panels.after(PanelEvent::Rendered(rendered));
            &&& after.refreshed == rendered && after.refresh_after == panels.refresh
            &&& panels.refresh_count < u64::MAX ==> after.refresh_count == panels.refresh_count + 1
            &&& after.shown == panels.shown && after.screen_on == panels.screen_on
            &&& after.phase is Rotating
        }),
{
}

/// A touch event that completes a double tap asks for the next panel exactly where there is one;
/// until all touch events are taken, waking or darkening the display takes that back, and nothing
/// else does.
pub proof fn law_touch_events_are_followed(
    panels: PanelView,
    next_panel: bool,
    touch: TimedTouchEvent,
)
    requires
        panels.phase == (PanelPhase::Draining { next_panel }),
    ensures
        ({
            let after = panels.after(PanelEvent::Touch(touch));
            let told = panels.gestures.after_event(touch.event, panels.screen_on, touch.at);
            &&& after.gestures == told.0
            &&& told.1 is None ==> after.phase == panels.phase
            &&& told.1 == Some(GestureAction::Wake) ==> after.action() == PanelAction::SwitchOn
            &&& told.1 == Some(GestureAction::Sleep) ==> after.action() == PanelAction::SwitchOff
            &&& told.1 == Some(GestureAction::NextPanel) && panels.switch_enabled ==> after.after(
                PanelEvent::NoTouch,
            ).action() == PanelAction::ChoosePanel
            &&& told.1 == Some(GestureAction::NextPanel) && !panels.switch_enabled ==> after.phase
                == panels.phase
            &&& panels.gesture(PanelEvent::Touch(touch)) == told.1
            &&& after.screen_on == panels.screen_on && after.shown == panels.shown
            &&& after.refreshed == panels.refreshed && after.refresh_count == panels.refresh_count
        }),
        panels.after(PanelEvent::NoTouch).action() == PanelAction::ChoosePanel <==> next_panel,
        panels.after(PanelEvent::NoTouch).phase is Checking <==> !next_panel,
{
}

/// Each round the loop first tells the gestures the time, which can only darken the display, and
/// the display is dark from when it was switched off until it is switched on.
pub proof fn law_display_follows_its_switch(panels: PanelView, event: PanelEvent, now: Instant)
    ensures
        panels.phase is Watching ==> ({
            let after = panels.after(PanelEvent::Time(now));
            let told = panels.gestures.after_tick(panels.screen_on, now);
            &&& after.gestures == told.0
            &&& after.action() == PanelAction::SwitchOff <==> told.1 == Some(GestureAction::Sleep)
            &&& after.action() == PanelAction::TakeTouch <==> told.1 is None
            &&& panels.gesture(PanelEvent::Time(now)) == told.1
        }),
        panels.after(event).screen_on != panels.screen_on ==> {
            ||| panels.action() == PanelAction::SwitchOn && event is Woken
            ||| panels.action() == PanelAction::SwitchOff && event is Done
        },
        panels.phase is Sleeping ==> !panels.after(PanelEvent::Done).screen_on,
{
}

/// Each part of the loop changes in its own steps alone: the settings never, the gestures with the
/// time and with touch events, the start of the time of a panel when one is chosen or the display
/// woken, the refresh then and when the panel was rendered.
pub proof fn law_steps_change_their_own_part(panels: PanelView, event: PanelEvent)
    ensures
        ({
            let after = panels.after(event);
            let chosen = panels.phase is Choosing && event is Chosen;
            let woken = panels.phase is Waking && event is Woken;
            let rendered = panels.phase is Rendering && event is Rendered;
            let told = (panels.phase is Watching && event is Time) || (panels.phase is Draining
                && event is Touch);
            &&& after.refresh == panels.refresh
            &&& after.rotation == panels.rotation
            &&& after.switch_enabled == panels.switch_enabled
            &&& !told ==> after.gestures == panels.gestures && panels.gesture(event) is None
            &&& !chosen && !woken ==> after.shown == panels.shown
            &&& !chosen && !woken && !rendered ==> after.refreshed == panels.refreshed
                && after.refresh_after == panels.refresh_after
            &&& !chosen && !rendered ==> after.refresh_count == panels.refresh_count
            &&& after.gestures.long_press == panels.gestures.long_press
            &&& after.gestures.double_tap_min == panels.gestures.double_tap_min
            &&& after.gestures.double_tap_max == panels.gestures.double_tap_max
        }),
{
}

/// A round starts with a look at the clock, takes the touch events, looks whether a refresh and
/// then whether a rotation is due, and ends with a pause. What does not answer the action changes
/// nothing.
pub proof fn law_round_goes_in_this_order(panels: PanelView, event: PanelEvent, now: Instant)
    ensures
        panels.phase is Choosing ==> panels.action() == PanelAction::ChoosePanel,
        panels.phase is Watching || panels.phase is Checking || panels.phase is Rotating
            ==> panels.action() == PanelAction::ReadClock,
        panels.phase is Draining ==> panels.action() == PanelAction::TakeTouch,
        panels.phase is Waking ==> panels.action() == PanelAction::SwitchOn,
        panels.phase is Sleeping ==> panels.action() == PanelAction::SwitchOff,
        panels.phase is Rendering ==> panels.action() == (PanelAction::Render {
            count: panels.refresh_count,
        }),
        panels.phase is Pausing ==> panels.action() == PanelAction::Pause,
        panels.phase is Over ==> panels.action() == PanelAction::Stop && panels.after(event)
            == panels,
        panels.phase is Pausing ==> panels.after(PanelEvent::Done).phase is Watching,
        panels.phase is Choosing ==> panels.after(PanelEvent::NoPanel).phase is Over,
        panels.phase is Sleeping ==> panels.after(PanelEvent::Done).phase == (
        PanelPhase::Draining { next_panel: false }),
        panels.phase is Watching && panels.after(PanelEvent::Time(now)).phase !is Sleeping
            ==> panels.after(PanelEvent::Time(now)).phase == (PanelPhase::Draining {
            next_panel: false,
        }),
        event is Done && !(panels.phase is Sleeping || panels.phase is Pausing) ==> panels.after(
            event,
        ) == panels,
        (event is Chosen || event is NoPanel) && panels.phase !is Choosing ==> panels.after(event)
            == panels,
        event is Time && !(panels.phase is Watching || panels.phase is Checking
            || panels.phase is Rotating) ==> panels.after(event) == panels,
        (event is Touch || event is NoTouch) && panels.phase !is Draining ==> panels.after(event)
            == panels,
        event is Woken && panels.phase !is Waking ==> panels.after(event) == panels,
        event is Rendered && panels.phase !is Rendering ==> panels.after(event) == panels,
{
}

/// Panels change by themselves after the time that is set, in milliseconds, after five seconds
/// where none is set, and not at all where it is not positive.
pub proof fn law_rotation_goes_by_the_setting(millis: u64)
    ensures
        rotation_nanos(RotationSetting::Millis(millis)) == Some(millis as int * 1000 * 1000),
        rotation_nanos(RotationSetting::Missing) == rotation_nanos(RotationSetting::Millis(5000)),
        rotation_nanos(RotationSetting::NotPositive) is None,
{
}

proof fn lemma_several(numbers: Seq<u32>, condition: spec_fn(u32) -> bool)
    ensures
        numbers.filter(condition).len() > 0 <==> exists|i: int|
            0 <= i < numbers.len() && condition(#[trigger] numbers[i]),
        numbers.filter(condition).len() > 1 <==> exists|i: int, j: int|
            0 <= i < j < numbers.len() && condition(#[trigger] numbers[i]) && condition(
                #[trigger] numbers[j],
            ),
    decreases numbers.len(),
{
    reveal(Seq::filter);
    if numbers.len() > 0 {
        let rest = numbers.drop_last();
        let last = numbers.len() - 1;
        lemma_several(rest, condition);
        assert(forall|i: int| 0 <= i < last ==> #[trigger] rest[i] == numbers[i]);
        if rest.filter(condition).len() > 0 {
            let i = choose|i: int| 0 <= i < rest.len() && condition(#[trigger] rest[i]);
            assert(condition(numbers[i]));
            if condition(numbers[last]) {
                assert(0 <= i < last && condition(numbers[i]) && condition(numbers[last]));
            }
        }
        if rest.filter(condition).len() > 1 {
            let (i, j) = choose|i: int, j: int|
                0 <= i < j < rest.len() && condition(#[trigger] rest[i]) && condition(
                    #[trigger] rest[j],
                );
            assert(condition(numbers[i]) && condition(numbers[j]));
        }
        if exists|i: int, j: int|
            0 <= i < j < numbers.len() && condition(#[trigger] numbers[i]) && condition(
                #[trigger] numbers[j],
            ) {
            let (i, j) = choose|i: int, j: int|
                0 <= i < j < numbers.len() && condition(#[trigger] numbers[i]) && condition(
                    #[trigger] numbers[j],
                );
            assert(condition(rest[i]));
            if j < last {
                assert(condition(rest[j]));
            }
        }
        if exists|i: int| 0 <= i < numbers.len() && condition(#[trigger] numbers[i]) {
            let i = choose|i: int| 0 <= i < numbers.len() && condition(#[trigger] numbers[i]);
            if i < last {
                assert(condition(rest[i]));
            }
        }
    }
}

/// There is a panel to switch to exactly where two places in the list of active panels name one,
/// from the first to the last.
pub proof fn law_switching_needs_two_panels(active_panels: Seq<u32>, panel_count: usize)
    requires
        panel_count <= u32::MAX,
    ensures
        several_panels(active_panels, panel_count) <==> exists|i: int, j: int|
            0 <= i < j < active_panels.len() && 1 <= #[trigger] active_panels[i] <= panel_count && 1
                <= #[trigger] active_panels[j] <= panel_count,
{
    let condition = |number: u32| names_panel(number, panel_count);
    lemma_several(active_panels, condition);
    assert(forall|i: int|
        0 <= i < active_panels.len() ==> condition(active_panels[i]) == (1
            <= #[trigger] active_panels[i] <= panel_count));
    if several_panels(active_panels, panel_count) {
        let (i, j) = choose|i: int, j: int|
            0 <= i < j < active_panels.len() && condition(#[trigger] active_panels[i]) && condition(
                #[trigger] active_panels[j],
            );
        assert(1 <= active_panels[i] <= panel_count && 1 <= active_panels[j] <= panel_count);
    }
    if exists|i: int, j: int|
        0 <= i < j < active_panels.len() && 1 <= #[trigger] active_panels[i] <= panel_count && 1
            <= #[trigger] active_panels[j] <= panel_count {
        let (i, j) = choose|i: int, j: int|
            0 <= i < j < active_panels.len() && 1 <= #[trigger] active_panels[i] <= panel_count && 1
                <= #[trigger] active_panels[j] <= panel_count;
        assert(condition(active_panels[i]) && condition(active_panels[j]));
    }
}

/// The image of a refresh has its number in the name of its file, behind a hyphen, with at least
/// two digits.
pub proof fn law_images_are_numbered(refresh_count: nat)
    ensures
        suffix_text(refresh_count) == seq!['-'] + two_digit_text(refresh_count),
{
    reveal_strlit("-");
    assert("-"@ =~= seq!['-']);
}

/// A loop starts with the choice of a panel on a display that is on, with the settings that it was
/// given. The panel is rendered as number one once it is there, at any time at which its refresh is
/// due.
pub proof fn law_loop_starts_with_a_panel(
    gestures: Gestures,
    refresh: Duration,
    rotation: Option<Duration>,
    switch_enabled: bool,
    shown: Instant,
    due: Instant,
)
    ensures
        ({
            let start = first_panels(gestures, refresh, rotation, switch_enabled);
            let chosen = start.after(PanelEvent::Chosen { shown, refresh: due });
            &&& start.action() == PanelAction::ChoosePanel
            &&& start.screen_on && start.gestures == gestures
            &&& start.refresh == refresh && start.rotation == rotation
            &&& start.switch_enabled == switch_enabled
            &&& chosen.action() == PanelAction::ReadClock
            &&& chosen.at(PanelPhase::Checking).after(PanelEvent::Time(due)).action() == (
            PanelAction::Render { count: 1 })
        }),
{
}

} // verus!
