use gem12_display::fingerprint::TouchEvent;
use gem12_display::gesture::{GestureAction, GestureController};
use gem12_display::time::{Duration, Instant};

fn start() -> Instant {
    Instant::from_nanos(7_000_000_000_000)
}

fn controller() -> GestureController {
    GestureController::new(
        Duration::from_secs(2),
        Duration::from_millis(150),
        Duration::from_secs(1),
    )
}

#[test]
fn touch_wakes_sleeping_screen_and_ignores_release() {
    let start = start();
    let mut controller = controller();
    assert_eq!(
        controller.handle(TouchEvent::Pressed, false, start),
        Some(GestureAction::Wake)
    );
    assert_eq!(
        controller.handle(TouchEvent::Released, true, start.after(Duration::from_secs(3))),
        None
    );
}

#[test]
fn two_short_taps_switch_panel() {
    let start = start();
    let mut controller = controller();
    assert_eq!(controller.handle(TouchEvent::Pressed, true, start), None);
    assert_eq!(
        controller.handle(
            TouchEvent::Released,
            true,
            start.after(Duration::from_millis(80))
        ),
        None
    );
    assert_eq!(
        controller.handle(
            TouchEvent::Pressed,
            true,
            start.after(Duration::from_millis(250))
        ),
        None
    );
    assert_eq!(
        controller.handle(
            TouchEvent::Released,
            true,
            start.after(Duration::from_millis(330))
        ),
        Some(GestureAction::NextPanel)
    );
}

#[test]
fn second_press_duration_does_not_consume_double_tap_window() {
    let start = start();
    let mut controller = controller();
    controller.handle(TouchEvent::Pressed, true, start);
    controller.handle(
        TouchEvent::Released,
        true,
        start.after(Duration::from_millis(100)),
    );
    controller.handle(
        TouchEvent::Pressed,
        true,
        start.after(Duration::from_millis(300)),
    );
    assert_eq!(
        controller.handle(
            TouchEvent::Released,
            true,
            start.after(Duration::from_millis(1200))
        ),
        Some(GestureAction::NextPanel)
    );
}

#[test]
fn taps_below_minimum_gap_do_not_switch_panel() {
    let start = start();
    let mut controller = controller();
    controller.handle(TouchEvent::Pressed, true, start);
    controller.handle(
        TouchEvent::Released,
        true,
        start.after(Duration::from_millis(100)),
    );
    controller.handle(
        TouchEvent::Pressed,
        true,
        start.after(Duration::from_millis(200)),
    );
    assert_eq!(
        controller.handle(
            TouchEvent::Released,
            true,
            start.after(Duration::from_millis(250))
        ),
        None
    );
}

#[test]
fn slow_taps_do_not_switch_panel() {
    let start = start();
    let mut controller = controller();
    controller.handle(TouchEvent::Pressed, true, start);
    controller.handle(
        TouchEvent::Released,
        true,
        start.after(Duration::from_millis(80)),
    );
    controller.handle(
        TouchEvent::Pressed,
        true,
        start.after(Duration::from_millis(1500)),
    );
    assert_eq!(
        controller.handle(
            TouchEvent::Released,
            true,
            start.after(Duration::from_millis(1600))
        ),
        None
    );
}

#[test]
fn long_press_sleeps_at_deadline() {
    let start = start();
    let mut controller = controller();
    controller.handle(TouchEvent::Pressed, true, start);
    assert_eq!(
        controller.tick(true, start.after(Duration::from_millis(1999))),
        None
    );
    assert_eq!(
        controller.tick(true, start.after(Duration::from_secs(2))),
        Some(GestureAction::Sleep)
    );
    assert_eq!(controller.tick(false, start.after(Duration::from_secs(3))), None);
    assert_eq!(
        controller.handle(TouchEvent::Released, false, start.after(Duration::from_secs(3))),
        None
    );
}

#[test]
fn gap_limits_are_inclusive() {
    for (gap, action) in [
        (149, None),
        (150, Some(GestureAction::NextPanel)),
        (1000, Some(GestureAction::NextPanel)),
        (1001, None),
    ] {
        let start = start();
        let mut controller = controller();
        controller.handle(TouchEvent::Pressed, true, start);
        let released = start.after(Duration::from_millis(50));
        controller.handle(TouchEvent::Released, true, released);
        let pressed = released.after(Duration::from_millis(gap));
        controller.handle(TouchEvent::Pressed, true, pressed);
        let last = pressed.after(Duration::from_millis(50));
        assert_eq!(controller.handle(TouchEvent::Released, true, last), action);
    }
}

#[test]
fn release_after_long_touch_sleeps_without_tick() {
    let start = start();
    let mut controller = controller();
    controller.handle(TouchEvent::Pressed, true, start);
    assert_eq!(
        controller.handle(TouchEvent::Released, true, start.after(Duration::from_secs(2))),
        Some(GestureAction::Sleep)
    );
}

#[test]
fn long_release_on_dark_screen_asks_for_nothing() {
    let start = start();
    let mut controller = controller();
    controller.handle(TouchEvent::Pressed, true, start);
    assert_eq!(
        controller.handle(TouchEvent::Released, false, start.after(Duration::from_secs(2))),
        None
    );
}

#[test]
fn repeated_press_and_stray_release_are_ignored() {
    let start = start();
    let mut controller = controller();
    assert_eq!(controller.handle(TouchEvent::Released, true, start), None);
    assert_eq!(
        controller.handle(TouchEvent::Pressed, false, start),
        Some(GestureAction::Wake)
    );
    assert_eq!(
        controller.handle(TouchEvent::Pressed, false, start.after(Duration::from_millis(10))),
        None
    );
}

#[test]
fn waking_touch_never_sleeps_again_while_held() {
    let start = start();
    let mut controller = controller();
    controller.handle(TouchEvent::Pressed, false, start);
    for seconds in 1..20 {
        assert_eq!(controller.tick(true, start.after(Duration::from_secs(seconds))), None);
    }
    assert_eq!(
        controller.handle(TouchEvent::Released, true, start.after(Duration::from_secs(20))),
        None
    );
    // The release of the waking touch does not begin a double tap.
    let pressed = start.after(Duration::from_millis(20_300));
    controller.handle(TouchEvent::Pressed, true, pressed);
    assert_eq!(
        controller.handle(TouchEvent::Released, true, pressed.after(Duration::from_millis(50))),
        None
    );
}

#[test]
fn hold_fires_once_and_third_tap_starts_anew() {
    let start = start();
    let mut controller = controller();
    controller.handle(TouchEvent::Pressed, true, start);
    assert_eq!(
        controller.tick(true, start.after(Duration::from_secs(5))),
        Some(GestureAction::Sleep)
    );
    assert_eq!(controller.tick(true, start.after(Duration::from_secs(6))), None);
    assert_eq!(
        controller.handle(TouchEvent::Released, true, start.after(Duration::from_secs(7))),
        None
    );

    let mut at = start.after(Duration::from_secs(10));
    let mut actions = Vec::new();
    for _ in 0..4 {
        controller.handle(TouchEvent::Pressed, true, at);
        at = at.after(Duration::from_millis(100));
        actions.push(controller.handle(TouchEvent::Released, true, at));
        at = at.after(Duration::from_millis(300));
    }
    assert_eq!(
        actions,
        vec![
            None,
            Some(GestureAction::NextPanel),
            None,
            Some(GestureAction::NextPanel)
        ]
    );
}
