use gem12_display::fingerprint::{TimedTouchEvent, TouchEvent};
use gem12_display::gesture::{GestureAction, GestureController};
use gem12_display::panel_loop::{
    image_suffix, panel_switch_enabled, rotation_time, PanelAction, PanelEvent, PanelLoop,
    RotationSetting,
};
use gem12_display::time::{Duration, Instant};

fn at(millis: u64) -> Instant {
    Instant::from_nanos(Duration::from_millis(millis).nanos)
}

fn touch(event: TouchEvent, millis: u64) -> PanelEvent {
    PanelEvent::Touch(TimedTouchEvent {
        event,
        at: at(millis),
    })
}

fn panels(rotation: Option<Duration>, switch_enabled: bool) -> PanelLoop {
    let gestures = GestureController::new(
        Duration::from_secs(2),
        Duration::from_millis(150),
        Duration::from_secs(1),
    );
    PanelLoop::new(gestures, Duration::from_secs(1), rotation, switch_enabled)
}

fn step(panels: &mut PanelLoop, action: PanelAction, event: PanelEvent) {
    assert_eq!(panels.action(), action);
    panels.advance(event);
}

fn show(panels: &mut PanelLoop, millis: u64) {
    step(
        panels,
        PanelAction::ChoosePanel,
        PanelEvent::Chosen {
            shown: at(millis),
            refresh: at(millis),
        },
    );
}

/// One round without touch events; tells whether the panel was rendered.
fn round(panels: &mut PanelLoop, millis: u64) -> Option<u64> {
    step(panels, PanelAction::ReadClock, PanelEvent::Time(at(millis)));
    step(panels, PanelAction::TakeTouch, PanelEvent::NoTouch);
    step(panels, PanelAction::ReadClock, PanelEvent::Time(at(millis)));
    let mut rendered = None;
    if let PanelAction::Render { count } = panels.action() {
        rendered = Some(count);
        panels.advance(PanelEvent::Rendered(at(millis)));
    }
    step(panels, PanelAction::ReadClock, PanelEvent::Time(at(millis)));
    rendered
}

#[test]
fn refreshes_at_the_configured_interval() {
    let mut panels = panels(None, true);
    show(&mut panels, 0);
    let mut rendered = Vec::new();
    for millis in [0, 20, 999, 1000, 1020, 2000, 2500] {
        if let Some(count) = round(&mut panels, millis) {
            rendered.push((millis, count));
        }
        step(&mut panels, PanelAction::Pause, PanelEvent::Done);
    }
    assert_eq!(rendered, vec![(0, 1), (1000, 2), (2000, 3)]);
}

#[test]
fn rotates_when_the_time_is_over() {
    let mut panels = panels(Some(Duration::from_secs(5)), true);
    show(&mut panels, 100);
    assert_eq!(round(&mut panels, 5099), Some(1));
    step(&mut panels, PanelAction::Pause, PanelEvent::Done);
    round(&mut panels, 5100);
    assert_eq!(panels.action(), PanelAction::ChoosePanel);
    show(&mut panels, 5101);
    assert_eq!(round(&mut panels, 5101), Some(1));
}

#[test]
fn double_tap_switches_only_where_there_is_another_panel() {
    for (enabled, next) in [
        (true, PanelAction::ChoosePanel),
        (false, PanelAction::ReadClock),
    ] {
        let mut panels = panels(None, enabled);
        show(&mut panels, 0);
        step(
            &mut panels,
            PanelAction::ReadClock,
            PanelEvent::Time(at(330)),
        );
        for (event, millis) in [
            (TouchEvent::Released, 0),
            (TouchEvent::Pressed, 10),
            (TouchEvent::Released, 80),
            (TouchEvent::Pressed, 250),
            (TouchEvent::Released, 330),
        ] {
            step(&mut panels, PanelAction::TakeTouch, touch(event, millis));
        }
        step(&mut panels, PanelAction::TakeTouch, PanelEvent::NoTouch);
        assert_eq!(panels.action(), next);
    }
}

#[test]
fn hold_darkens_and_touch_wakes() {
    let mut panels = panels(Some(Duration::from_secs(5)), true);
    show(&mut panels, 0);
    step(&mut panels, PanelAction::ReadClock, PanelEvent::Time(at(0)));
    step(
        &mut panels,
        PanelAction::TakeTouch,
        touch(TouchEvent::Pressed, 0),
    );
    step(&mut panels, PanelAction::TakeTouch, PanelEvent::NoTouch);
    step(&mut panels, PanelAction::ReadClock, PanelEvent::Time(at(0)));
    step(
        &mut panels,
        PanelAction::Render { count: 1 },
        PanelEvent::Rendered(at(5)),
    );
    step(&mut panels, PanelAction::ReadClock, PanelEvent::Time(at(5)));
    step(&mut panels, PanelAction::Pause, PanelEvent::Done);
    step(
        &mut panels,
        PanelAction::ReadClock,
        PanelEvent::Time(at(2000)),
    );
    step(&mut panels, PanelAction::SwitchOff, PanelEvent::Done);
    step(
        &mut panels,
        PanelAction::TakeTouch,
        touch(TouchEvent::Released, 2500),
    );
    step(&mut panels, PanelAction::TakeTouch, PanelEvent::NoTouch);
    step(
        &mut panels,
        PanelAction::ReadClock,
        PanelEvent::Time(at(9000)),
    );
    // Neither refresh nor rotation while the display is off.
    step(
        &mut panels,
        PanelAction::ReadClock,
        PanelEvent::Time(at(9000)),
    );
    step(&mut panels, PanelAction::Pause, PanelEvent::Done);
    step(
        &mut panels,
        PanelAction::ReadClock,
        PanelEvent::Time(at(9100)),
    );
    step(
        &mut panels,
        PanelAction::TakeTouch,
        touch(TouchEvent::Pressed, 9090),
    );
    step(
        &mut panels,
        PanelAction::SwitchOn,
        PanelEvent::Woken {
            shown: at(9110),
            refresh: at(9109),
        },
    );
    step(&mut panels, PanelAction::TakeTouch, PanelEvent::NoTouch);
    step(
        &mut panels,
        PanelAction::ReadClock,
        PanelEvent::Time(at(9110)),
    );
    step(
        &mut panels,
        PanelAction::Render { count: 2 },
        PanelEvent::Rendered(at(9120)),
    );
    step(
        &mut panels,
        PanelAction::ReadClock,
        PanelEvent::Time(at(14_109)),
    );
    assert_eq!(panels.action(), PanelAction::Pause);
}

#[test]
fn later_gesture_overrides_the_next_panel() {
    let mut panels = panels(None, true);
    show(&mut panels, 0);
    step(
        &mut panels,
        PanelAction::ReadClock,
        PanelEvent::Time(at(0)),
    );
    for (event, millis) in [
        (TouchEvent::Pressed, 10),
        (TouchEvent::Released, 80),
        (TouchEvent::Pressed, 250),
        (TouchEvent::Released, 330),
        (TouchEvent::Pressed, 400),
        (TouchEvent::Released, 2400),
    ] {
        step(&mut panels, PanelAction::TakeTouch, touch(event, millis));
    }
    step(&mut panels, PanelAction::SwitchOff, PanelEvent::Done);
    step(&mut panels, PanelAction::TakeTouch, PanelEvent::NoTouch);
    assert_eq!(panels.action(), PanelAction::ReadClock);
}

#[test]
fn stops_without_an_active_panel() {
    let mut panels = panels(None, false);
    step(&mut panels, PanelAction::ChoosePanel, PanelEvent::NoPanel);
    assert_eq!(panels.action(), PanelAction::Stop);
    panels.advance(PanelEvent::Done);
    assert_eq!(panels.action(), PanelAction::Stop);
}

#[test]
fn counts_active_panels() {
    assert!(panel_switch_enabled(&[1, 2], 2));
    assert!(panel_switch_enabled(&[1, 1], 1));
    assert!(!panel_switch_enabled(&[1, 3], 2));
    assert!(!panel_switch_enabled(&[0, 1], 2));
    assert!(!panel_switch_enabled(&[], 2));
    assert!(!panel_switch_enabled(&[1, 2, 3], 0));
}

#[test]
fn reads_the_rotation_setting() {
    assert_eq!(
        rotation_time(RotationSetting::Missing),
        Some(Duration::from_secs(5))
    );
    assert_eq!(rotation_time(RotationSetting::NotPositive), None);
    assert_eq!(
        rotation_time(RotationSetting::Millis(1500)),
        Some(Duration::from_millis(1500))
    );
}

#[test]
fn numbers_rendered_images() {
    assert_eq!(image_suffix(1), "-01");
    assert_eq!(image_suffix(42), "-42");
    assert_eq!(image_suffix(100), "-100");
}

#[test]
fn tells_which_gesture_an_event_completes() {
    let mut panels = panels(None, false);
    show(&mut panels, 0);
    assert_eq!(panels.advance(PanelEvent::Time(at(0))), None);
    assert_eq!(panels.advance(touch(TouchEvent::Pressed, 10)), None);
    assert_eq!(panels.advance(touch(TouchEvent::Released, 80)), None);
    assert_eq!(panels.advance(touch(TouchEvent::Pressed, 250)), None);
    assert_eq!(
        panels.advance(touch(TouchEvent::Released, 330)),
        Some(GestureAction::NextPanel)
    );
    assert_eq!(
        panels.advance(touch(TouchEvent::Pressed, 4000)),
        None
    );
    assert_eq!(
        panels.advance(touch(TouchEvent::Released, 6000)),
        Some(GestureAction::Sleep)
    );
}
