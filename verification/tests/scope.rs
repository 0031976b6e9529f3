use gem12_display::caption::{Caption, Figure, Piece};
use gem12_display::fingerprint::{TimedTouchEvent, TouchEvent};
use gem12_display::gesture::{GestureAction, GestureController};
use gem12_display::scope::drawing::{draw_base, draw_metrics, info_area, Drawing};
use gem12_display::scope::frame::{to_pixel_word, ScopeFrame, FRAME_BYTES};
use gem12_display::scope::layout::{
    Color, Ink, Line, Rect, DISPLAY_HEIGHT, DISPLAY_WIDTH, HIGH_Y, LOW_Y, PLOT_LEFT, PLOT_RIGHT,
    PLOT_TOP,
};
use gem12_display::scope::metrics::{duration_text, Metrics};
use gem12_display::scope::picture::{restore_rect, Picture};
use gem12_display::scope::scope_loop::{
    check_settings, ScopeAction, ScopeEvent, ScopeLoop, SettingsError,
};
use gem12_display::scope::sweep::{slots, Sweep};
use gem12_display::time::{Duration, Instant};

fn origin() -> Instant {
    Instant::from_nanos(3_000_000_000)
}

fn after(millis: u64) -> Instant {
    origin().after(Duration::from_millis(millis))
}

fn render(caption: &Caption) -> String {
    let mut text = String::new();
    for piece in &caption.pieces {
        match piece {
            Piece::Text(part) => text.push_str(part),
            Piece::Figure {
                figure: Figure::Seconds { span } | Figure::CoarseSeconds { span },
                decimals,
                width,
            } => text.push_str(&format!(
                "{:>width$.decimals$}",
                span.nanos as f64 / 1e9
            )),
            other => panic!("{other:?}"),
        }
    }
    text
}

fn double_tap() -> (Duration, Duration) {
    (Duration::from_millis(150), Duration::from_secs(1))
}

#[test]
fn reports_double_tap_using_up_gap() {
    let origin = origin();
    let mut metrics = Metrics::default();
    let double_tap = (Duration::from_millis(150), Duration::from_secs(1));
    let long_press = Duration::from_secs(2);

    metrics.handle(TouchEvent::Pressed, origin, origin, double_tap, long_press);
    metrics.handle(
        TouchEvent::Released,
        origin.after(Duration::from_millis(100)),
        origin,
        double_tap,
        long_press,
    );
    metrics.handle(
        TouchEvent::Pressed,
        origin.after(Duration::from_millis(400)),
        origin,
        double_tap,
        long_press,
    );
    metrics.handle(
        TouchEvent::Released,
        origin.after(Duration::from_millis(1400)),
        origin,
        double_tap,
        long_press,
    );

    assert_eq!(metrics.verdict, "DOUBLE TAP: HIT");
    assert_eq!(metrics.hold, Some(Duration::from_millis(1000)));
    assert_eq!(metrics.up_gap, Some(Duration::from_millis(300)));
    assert_eq!(metrics.release_period, Some(Duration::from_millis(1300)));
}

#[test]
fn reports_long_press_and_resets_double_tap_candidate() {
    let origin = origin();
    let mut metrics = Metrics::default();
    metrics.handle(
        TouchEvent::Pressed,
        origin,
        origin,
        (Duration::from_millis(150), Duration::from_secs(1)),
        Duration::from_secs(2),
    );
    metrics.handle(
        TouchEvent::Released,
        origin.after(Duration::from_secs(2)),
        origin,
        (Duration::from_millis(150), Duration::from_secs(1)),
        Duration::from_secs(2),
    );

    assert_eq!(metrics.verdict, "LONG PRESS");
    assert!(metrics.last_short_release.is_none());
}

#[test]
fn keeps_three_lines_and_all_changes() {
    let mut metrics = Metrics::default();
    let mut noted = Vec::new();
    for (event, millis) in [
        (TouchEvent::Released, 0),
        (TouchEvent::Pressed, 1500),
        (TouchEvent::Pressed, 1600),
        (TouchEvent::Released, 1700),
        (TouchEvent::Pressed, 12_345),
    ] {
        noted.push(metrics.handle(
            event,
            after(millis),
            origin(),
            double_tap(),
            Duration::from_secs(2),
        ));
    }
    assert_eq!(noted, vec![true, true, false, true, true]);
    let lines: Vec<String> = metrics.events.iter().map(render).collect();
    assert_eq!(
        lines,
        vec!["  12.345s  PRESSED", "   1.700s  RELEASED", "   1.500s  PRESSED"]
    );
    assert_eq!(metrics.transitions.len(), 4);
    assert_eq!(metrics.verdict, "WAITING FOR RELEASE");
    assert_eq!(metrics.press_period, Some(Duration::from_millis(10_845)));
}

#[test]
fn looks_up_the_state_at_a_time() {
    let mut metrics = Metrics::default();
    for (event, millis) in [
        (TouchEvent::Released, 10),
        (TouchEvent::Pressed, 20),
        (TouchEvent::Released, 30),
    ] {
        metrics.handle(
            event,
            after(millis),
            origin(),
            double_tap(),
            Duration::from_secs(2),
        );
    }
    for (millis, state) in [(0, false), (10, false), (19, false), (20, true), (29, true), (30, false), (99, false)] {
        assert_eq!(metrics.state_at(after(millis)), state, "{millis}");
    }
}

#[test]
fn scope_agrees_with_gestures() {
    // A linear congruential generator makes up the times.
    let mut seed: u64 = 1;
    let mut millis: u64 = 0;
    let mut metrics = Metrics::default();
    let mut gestures = GestureController::new(
        Duration::from_secs(2),
        Duration::from_millis(150),
        Duration::from_secs(1),
    );
    let mut hits = 0;
    let mut long = 0;
    for round in 0..2000 {
        seed = seed.wrapping_mul(6364136223846793005).wrapping_add(1442695040888963407);
        millis += (seed >> 33) % 2500;
        let event = if (seed >> 60) == 0 || round % 2 == 0 {
            TouchEvent::Pressed
        } else {
            TouchEvent::Released
        };
        let was_down = metrics.state;
        let action = gestures.handle(event, true, after(millis));
        metrics.handle(event, after(millis), origin(), double_tap(), Duration::from_secs(2));
        let ended = event == TouchEvent::Released && was_down;
        let hit = ended && metrics.verdict == "DOUBLE TAP: HIT";
        let held = ended && metrics.verdict == "LONG PRESS";
        assert_eq!(action == Some(GestureAction::NextPanel), hit);
        assert_eq!(action == Some(GestureAction::Sleep), held);
        hits += u32::from(hit);
        long += u32::from(held);
    }
    assert!(hits > 0 && long > 0);
}

#[test]
fn writes_durations() {
    assert_eq!(duration_text(None), "---");
    assert_eq!(duration_text(Some(Duration::from_millis(0))), "0ms");
    assert_eq!(duration_text(Some(Duration::from_nanos(1_999_999))), "1ms");
    assert_eq!(duration_text(Some(Duration::from_secs(3))), "3000ms");
}

#[test]
fn packs_pixels() {
    for (red, green, blue, word) in [
        (0, 0, 0, 0u16),
        (255, 255, 255, 0xffff),
        (255, 0, 0, 0xf800),
        (0, 255, 0, 0x07e0),
        (0, 0, 255, 0x001f),
        (7, 3, 7, 0),
        (8, 4, 8, 0x0821),
        (52, 255, 142, 0x37f1),
    ] {
        assert_eq!(to_pixel_word(Color { red, green, blue }), word);
    }
}

fn offset(x: u32, y: u32) -> usize {
    ((y * DISPLAY_WIDTH + x) * 2) as usize
}

#[test]
fn frame_starts_with_the_bytes_of_its_picture() {
    let frame = ScopeFrame::new(Picture::for_display(Ink::Trace.color()));
    let bytes = frame.to_rgb565_le();
    assert_eq!(bytes.len(), FRAME_BYTES);
    assert!(bytes.chunks(2).all(|pixel| pixel == [0xf1, 0x37]));
}

#[test]
fn syncs_only_what_it_is_told() {
    let mut frame = ScopeFrame::new(Picture::for_display(Color {
        red: 0,
        green: 0,
        blue: 0,
    }));
    let white = Color {
        red: 255,
        green: 255,
        blue: 255,
    };
    for (x, y) in [(10, 20), (11, 20), (10, 21), (DISPLAY_WIDTH - 1, DISPLAY_HEIGHT - 1)] {
        frame.image.put_pixel(x, y, white);
        assert_eq!(frame.image.get_pixel(x, y), white);
    }
    assert!(frame.to_rgb565_le().iter().all(|byte| *byte == 0));
    frame.sync_rect(Rect {
        left: 10,
        top: 20,
        width: 1,
        height: 2,
    });
    let bytes = frame.to_rgb565_le();
    let set: Vec<usize> = (0..bytes.len()).filter(|index| bytes[*index] != 0).collect();
    assert_eq!(
        set,
        vec![
            offset(10, 20),
            offset(10, 20) + 1,
            offset(10, 21),
            offset(10, 21) + 1
        ]
    );
    frame.sync_rect(Rect {
        left: DISPLAY_WIDTH - 2,
        top: DISPLAY_HEIGHT - 3,
        width: 100,
        height: 100,
    });
    let bytes = frame.to_rgb565_le();
    assert_eq!(bytes[FRAME_BYTES - 1], 0xff);
    frame.sync_rect(Rect {
        left: DISPLAY_WIDTH + 5,
        top: 0,
        width: 100,
        height: 100,
    });
    assert_eq!(frame.to_rgb565_le(), bytes);
}

#[test]
fn restores_a_part_of_the_picture() {
    let base = Picture::for_display(Ink::Background.color());
    let mut frame = base.copy();
    for x in 0..DISPLAY_WIDTH {
        frame.put_pixel(x, 100, Ink::Trace.color());
    }
    restore_rect(
        &base,
        &mut frame,
        Rect {
            left: 950,
            top: 90,
            width: 50,
            height: 20,
        },
    );
    assert_eq!(frame.get_pixel(949, 100), Ink::Trace.color());
    assert_eq!(frame.get_pixel(950, 100), Ink::Background.color());
    assert_eq!(frame.get_pixel(959, 100), Ink::Background.color());
    assert_eq!(base.get_pixel(0, 100), Ink::Background.color());
}

#[test]
fn pen_goes_round() {
    for step in [1, 3, 100, 439, 440, 878] {
        let count = slots(step);
        assert_eq!(count, (PLOT_RIGHT - PLOT_LEFT) / step);
        let mut sweep = Sweep::new(step);
        for round in 0..3 * count {
            let stroke = sweep.stroke(round % 2 == 0);
            assert_eq!(stroke.cleared.left, PLOT_LEFT + (round % count) * step);
            assert_eq!(stroke.cleared.top, PLOT_TOP);
            assert!(stroke.cursor.x2 < PLOT_RIGHT);
            sweep.advance(round % 2 == 0);
        }
    }
}

#[test]
fn pen_draws_presses_high_and_releases_low() {
    let mut sweep = Sweep::new(3);
    sweep.advance(false);
    let stroke = sweep.stroke(true);
    assert_eq!(
        stroke.trace,
        Line {
            x1: 58,
            y1: LOW_Y,
            x2: 60,
            y2: LOW_Y,
            ink: Ink::Trace
        }
    );
    assert_eq!(
        stroke.cursor,
        Line {
            x1: 61,
            y1: HIGH_Y,
            x2: 63,
            y2: HIGH_Y,
            ink: Ink::Cursor
        }
    );
    assert_eq!(
        stroke.cleared,
        Rect {
            left: 61,
            top: 72,
            width: 3,
            height: 167
        }
    );
    assert_eq!(
        stroke.retraced,
        Rect {
            left: 58,
            top: LOW_Y,
            width: 3,
            height: 1
        }
    );
}

#[test]
fn draws_the_plot() {
    let drawings = draw_base(
        Duration::from_millis(11_720),
        Duration::from_millis(40),
        double_tap(),
        Duration::from_secs(2),
    );
    assert_eq!(drawings.len(), 18);
    match &drawings[1] {
        Drawing::Text {
            ink,
            x,
            y,
            size,
            caption,
        } => {
            assert_eq!((*ink, *x, *y, *size), (Ink::Muted, 490, 24, 15));
            assert_eq!(
                render(caption),
                "sweep 11.7s  sample 40ms  double 150..1000ms  long >= 2000ms"
            );
        }
        other => panic!("{other:?}"),
    }
    let columns: Vec<u32> = drawings[2..13]
        .iter()
        .map(|drawing| match drawing {
            Drawing::Line(line) => line.x1,
            other => panic!("{other:?}"),
        })
        .collect();
    assert_eq!(
        columns,
        vec![58, 145, 233, 321, 409, 497, 584, 672, 760, 848, 936]
    );
    let rows: Vec<u32> = drawings[13..16]
        .iter()
        .map(|drawing| match drawing {
            Drawing::Line(line) => line.y1,
            other => panic!("{other:?}"),
        })
        .collect();
    assert_eq!(rows, vec![104, 157, 210]);
}

fn texts(metrics: &Metrics) -> Vec<(Ink, u32, u32, u32, String)> {
    draw_metrics(metrics)
        .iter()
        .map(|drawing| match drawing {
            Drawing::Text {
                ink,
                x,
                y,
                size,
                caption,
            } => (*ink, *x, *y, *size, render(caption)),
            other => panic!("{other:?}"),
        })
        .collect()
}

#[test]
fn draws_the_figures() {
    let mut metrics = Metrics::default();
    assert_eq!(
        texts(&metrics),
        vec![
            (Ink::Text, 24, 258, 23, "UP / RELEASED".to_string()),
            (
                Ink::Text,
                260,
                261,
                17,
                "hold ---   up-gap ---   press-period ---   release-period ---".to_string()
            ),
            (Ink::Cursor, 24, 294, 20, String::new()),
        ]
    );
    let long_press = Duration::from_secs(2);
    metrics.handle(TouchEvent::Pressed, after(0), origin(), double_tap(), long_press);
    metrics.handle(TouchEvent::Released, after(100), origin(), double_tap(), long_press);
    metrics.handle(TouchEvent::Pressed, after(400), origin(), double_tap(), long_press);
    assert_eq!(
        texts(&metrics)[0],
        (Ink::Trace, 24, 258, 23, "DOWN / PRESSED".to_string())
    );
    metrics.handle(TouchEvent::Released, after(500), origin(), double_tap(), long_press);
    let shown = texts(&metrics);
    assert_eq!(
        shown[1].4,
        "hold 100ms   up-gap 300ms   press-period 400ms   release-period 400ms"
    );
    assert_eq!(
        shown[2],
        (Ink::Hit, 24, 294, 20, "DOUBLE TAP: HIT".to_string())
    );
    assert_eq!(
        shown[5],
        (Ink::Muted, 360, 337, 15, "   0.100s  RELEASED".to_string())
    );
    metrics.handle(TouchEvent::Pressed, after(9000), origin(), double_tap(), long_press);
    metrics.handle(TouchEvent::Released, after(12_000), origin(), double_tap(), long_press);
    assert_eq!(texts(&metrics)[2].0, Ink::Miss);
    assert_eq!(
        info_area(),
        Rect {
            left: 0,
            top: 258,
            width: 960,
            height: 118
        }
    );
}

#[test]
fn checks_the_settings() {
    assert_eq!(check_settings(40, 125, true, 150, 1000), Ok(()));
    assert_eq!(check_settings(1, 1, true, 7, 7), Ok(()));
    for (outcome, error, message) in [
        (
            check_settings(0, 0, false, 2, 1),
            SettingsError::SamplePeriod,
            "--sample-ms must be greater than zero",
        ),
        (
            check_settings(1, 0, false, 2, 1),
            SettingsError::DisplayPeriod,
            "--display-ms must be greater than zero",
        ),
        (
            check_settings(1, 1, false, 2, 1),
            SettingsError::SweepTime,
            "--sweep-seconds must be positive",
        ),
        (
            check_settings(1, 1, true, 2, 1),
            SettingsError::DoubleTap,
            "--double-tap-min-ms must not exceed --double-tap-ms",
        ),
    ] {
        assert_eq!(outcome, Err(error));
        assert_eq!(error.message(), message);
    }
}

fn step(scope: ScopeLoop, action: ScopeAction, event: ScopeEvent) -> ScopeLoop {
    assert_eq!(scope.action(), action);
    scope.advance(event).0
}

#[test]
fn scope_loop_samples_and_sends() {
    let scope = ScopeLoop::new(
        Sweep::new(3),
        origin(),
        double_tap(),
        Duration::from_secs(2),
        40,
        125,
        after(0),
        after(0),
    );
    let (scope, noted) = scope.advance(ScopeEvent::Touch(TimedTouchEvent {
        event: TouchEvent::Pressed,
        at: after(30),
    }));
    assert!(noted);
    assert_eq!(scope.metrics().verdict, "WAITING FOR RELEASE");
    let mut scope = step(scope, ScopeAction::TakeTouch, ScopeEvent::NoTouch);
    scope = step(scope, ScopeAction::ReadClock, ScopeEvent::Time(after(81)));
    let mut levels = Vec::new();
    while let ScopeAction::Plot(stroke) = scope.action() {
        levels.push((stroke.cursor.x1, stroke.cursor.y1));
        scope = scope.advance(ScopeEvent::Done).0;
    }
    assert_eq!(levels, vec![(58, LOW_Y), (61, HIGH_Y), (64, HIGH_Y)]);
    assert_eq!(scope.info().len(), 4);
    scope = step(scope, ScopeAction::Inform, ScopeEvent::Done);
    scope = step(scope, ScopeAction::Send, ScopeEvent::Done);
    scope = step(scope, ScopeAction::ReadClock, ScopeEvent::Time(after(90)));
    scope = step(scope, ScopeAction::TakeTouch, ScopeEvent::NoTouch);
    scope = step(scope, ScopeAction::ReadClock, ScopeEvent::Time(after(123)));
    scope = step(
        scope,
        ScopeAction::Pause(Duration::from_millis(2)),
        ScopeEvent::Done,
    );
    scope = step(scope, ScopeAction::TakeTouch, ScopeEvent::NoTouch);
    scope = step(scope, ScopeAction::ReadClock, ScopeEvent::Time(after(91)));
    scope = step(
        scope,
        ScopeAction::Pause(Duration::from_millis(5)),
        ScopeEvent::Done,
    );
    scope = step(scope, ScopeAction::TakeTouch, ScopeEvent::NoTouch);
    scope = step(scope, ScopeAction::ReadClock, ScopeEvent::Time(after(125)));
    // The sample that was due at 120 ms, and no new figures.
    assert!(matches!(scope.action(), ScopeAction::Plot(_)));
    scope = scope.advance(ScopeEvent::Done).0;
    scope = step(scope, ScopeAction::Send, ScopeEvent::Done);
    // Sending took so long that the display has fallen behind.
    scope = step(scope, ScopeAction::ReadClock, ScopeEvent::Time(after(900)));
    scope = step(scope, ScopeAction::ReadClock, ScopeEvent::Time(after(901)));
    scope = step(scope, ScopeAction::TakeTouch, ScopeEvent::NoTouch);
    scope = step(scope, ScopeAction::ReadClock, ScopeEvent::Time(after(900)));
    assert_eq!(
        scope.action(),
        ScopeAction::Pause(Duration::from_millis(1))
    );
}

#[test]
fn scope_loop_sends_nothing_without_news() {
    let scope = ScopeLoop::new(
        Sweep::new(3),
        origin(),
        double_tap(),
        Duration::from_secs(2),
        40,
        125,
        after(50),
        after(0),
    );
    let scope = step(scope, ScopeAction::TakeTouch, ScopeEvent::NoTouch);
    let scope = step(scope, ScopeAction::ReadClock, ScopeEvent::Time(after(10)));
    let scope = step(scope, ScopeAction::ReadClock, ScopeEvent::Time(after(10)));
    assert_eq!(scope.action(), ScopeAction::TakeTouch);
}

#[test]
fn strokes_keep_bytes_in_sync() {
    let base = Picture::for_display(Ink::Background.color());
    let mut frame = ScopeFrame::new(base.copy());
    let mut sweep = Sweep::new(200);
    for round in 0..9 {
        let state = round % 3 == 0;
        let stroke = sweep.stroke(state);
        for x in stroke.trace.x1..=stroke.trace.x2 {
            frame.image.put_pixel(x, stroke.trace.y1, stroke.trace.ink.color());
        }
        restore_rect(&base, &mut frame.image, stroke.cleared);
        for x in stroke.cursor.x1..=stroke.cursor.x2 {
            frame.image.put_pixel(x, stroke.cursor.y1, stroke.cursor.ink.color());
        }
        frame.sync_rect(stroke.retraced);
        frame.sync_rect(stroke.cleared);
        sweep.advance(state);
        let fresh = ScopeFrame::new(frame.image.copy());
        assert_eq!(frame.to_rgb565_le(), fresh.to_rgb565_le(), "round {round}");
        frame.sync_rect(stroke.cleared);
        assert_eq!(frame.to_rgb565_le(), fresh.to_rgb565_le());
    }
}

#[test]
fn delays_do_not_change_what_is_measured() {
    let measure = |delay: u64| {
        let mut scope = ScopeLoop::new(
            Sweep::new(3),
            origin(),
            double_tap(),
            Duration::from_secs(2),
            40,
            125,
            after(0),
            after(0),
        );
        let mut now = 0;
        for (event, millis) in [
            (TouchEvent::Pressed, 10),
            (TouchEvent::Released, 90),
            (TouchEvent::Pressed, 300),
            (TouchEvent::Released, 380),
        ] {
            let touch = ScopeEvent::Touch(TimedTouchEvent {
                event,
                at: after(millis),
            });
            while scope.action() != ScopeAction::TakeTouch {
                let event = match scope.action() {
                    ScopeAction::ReadClock => {
                        now += delay;
                        ScopeEvent::Time(after(now))
                    }
                    _ => ScopeEvent::Done,
                };
                scope = scope.advance(event).0;
            }
            scope = scope.advance(touch).0.advance(ScopeEvent::NoTouch).0;
        }
        (
            scope.metrics().verdict,
            scope.metrics().hold,
            scope.metrics().up_gap,
        )
    };
    let prompt = measure(1);
    assert_eq!(
        prompt,
        (
            "DOUBLE TAP: HIT",
            Some(Duration::from_millis(80)),
            Some(Duration::from_millis(210))
        )
    );
    assert_eq!(measure(5_000), prompt);
}
