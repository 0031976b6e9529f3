//! What the scope draws besides the trace: the plot and its legend, and the figures below.

use crate::caption::{lone_figure, plain, Caption, Figure, PieceView};
use crate::scope::layout::{
    Ink, Line, Rect, DISPLAY_HEIGHT, DISPLAY_WIDTH, HIGH_Y, INFO_TOP, LOW_Y, PLOT_BOTTOM,
    PLOT_LEFT, PLOT_RIGHT, PLOT_TOP,
};
use crate::scope::metrics::{duration_line, duration_text, Metrics, MetricsView};
use crate::scope::sweep::PLOT_WIDTH;
use crate::text::{
    contains_part, decimal, decimal_text, has_part, join2, join4, law_part_stands_within, text_equal,
};
use crate::time::Duration;
use vstd::prelude::*;

verus! {

/// Something to be drawn.
#[derive(Debug, PartialEq, Eq)]
pub enum Drawing {
    /// A text of a size, with its upper left corner at a place.
    Text { ink: Ink, x: u32, y: u32, size: u32, caption: Caption },
    Line(Line),
}

/// A drawing by its caption.
pub enum DrawingView {
    Text { ink: Ink, x: u32, y: u32, size: u32, caption: Seq<PieceView> },
    Line(Line),
}

impl View for Drawing {
    type V = DrawingView;

    open spec fn view(&self) -> DrawingView {
        match *self {
            Drawing::Text { ink, x, y, size, caption } => DrawingView::Text {
                ink,
                x,
                y,
                size,
                caption: caption@,
            },
            Drawing::Line(line) => DrawingView::Line(line),
        }
    }
}

/// The drawings by their captions.
pub open spec fn drawing_views(drawings: Seq<Drawing>) -> Seq<DrawingView> {
    drawings.map_values(|drawing: Drawing| drawing@)
}

// ---------------------------------------------------------------------------------------------
// Plot
// ---------------------------------------------------------------------------------------------
/// The whole milliseconds of a span.
pub open spec fn millis_text(span: Duration) -> Seq<char> {
    decimal_text(span.nanos as nat / 1_000_000)
}

/// The line about the settings.
pub open spec fn settings_caption(
    sweep: Duration,
    sample: Duration,
    double_tap: (Duration, Duration),
    long_press: Duration,
) -> Seq<PieceView> {
    plain("sweep "@) + lone_figure(Figure::CoarseSeconds { span: sweep }, 1, 0) + plain(
        "s  sample "@,
    ) + plain(millis_text(sample)) + plain("ms  double "@) + plain(millis_text(double_tap.0))
        + plain(".."@) + plain(millis_text(double_tap.1)) + plain("ms  long >= "@) + plain(
        millis_text(long_press),
    ) + plain("ms"@)
}

/// An upright line of the grid. There are eleven, a tenth of the plot apart.
pub open spec fn grid_column(division: int) -> DrawingView {
    let x = (PLOT_LEFT + PLOT_WIDTH * division / 10) as u32;
    DrawingView::Line(Line { x1: x, y1: PLOT_TOP, x2: x, y2: PLOT_BOTTOM, ink: Ink::Grid })
}

/// A level line of the grid.
pub open spec fn grid_row(y: u32) -> DrawingView {
    DrawingView::Line(Line { x1: PLOT_LEFT, y1: y, x2: PLOT_RIGHT, y2: y, ink: Ink::Grid })
}

/// A text of the legend.
pub open spec fn label(ink: Ink, x: u32, y: u32, size: u32, text: Seq<char>) -> DrawingView {
    DrawingView::Text { ink, x, y, size, caption: plain(text) }
}

/// The levels of the trace and what they stand for.
pub open spec fn legend_views() -> Seq<DrawingView> {
    seq![
        grid_row(HIGH_Y),
        grid_row(((HIGH_Y + LOW_Y) / 2) as u32),
        grid_row(LOW_Y),
        label(Ink::Trace, 8, (HIGH_Y - 11) as u32, 14, "DOWN"@),
        label(Ink::Muted, 18, (LOW_Y - 11) as u32, 14, "UP"@),
    ]
}

/// The plot without a trace, and its legend.
pub open spec fn base_views(
    sweep: Duration,
    sample: Duration,
    double_tap: (Duration, Duration),
    long_press: Duration,
) -> Seq<DrawingView> {
    seq![
        label(Ink::Text, 24, 16, 28, "FINGERPRINT TOUCH SCOPE"@),
        DrawingView::Text {
            ink: Ink::Muted,
            x: 490,
            y: 24,
            size: 15,
            caption: settings_caption(sweep, sample, double_tap, long_press),
        },
    ] + Seq::new(11, |division: int| grid_column(division)) + legend_views()
}

fn write_settings(
    sweep: Duration,
    sample: Duration,
    double_tap: (Duration, Duration),
    long_press: Duration,
) -> (caption: Caption)
    ensures
        caption@ == settings_caption(sweep, sample, double_tap, long_press),
{
    let sample_millis: String = decimal(sample.as_millis());
    let min_millis: String = decimal(double_tap.0.as_millis());
    let max_millis: String = decimal(double_tap.1.as_millis());
    let long_millis: String = decimal(long_press.as_millis());
    Caption::of_text("sweep ".to_owned()).with_figure(
        Figure::CoarseSeconds { span: sweep },
        1,
        0,
    ).with_text("s  sample ").with_text(sample_millis.as_str()).with_text("ms  double ").with_text(
        min_millis.as_str(),
    ).with_text("..").with_text(max_millis.as_str()).with_text("ms  long >= ").with_text(
        long_millis.as_str(),
    ).with_text("ms")
}

fn text_drawing(ink: Ink, x: u32, y: u32, size: u32, text: &str) -> (drawing: Drawing)
    ensures
        drawing@ == label(ink, x, y, size, text@),
{
    Drawing::Text { ink, x, y, size, caption: Caption::of_text(text.to_owned()) }
}

/// What makes up the plot without a trace, and its legend. It is drawn on the background.
pub fn draw_base(
    sweep: Duration,
    sample: Duration,
    double_tap: (Duration, Duration),
    long_press: Duration,
) -> (drawings: Vec<Drawing>)
    ensures
        drawing_views(drawings@) == base_views(sweep, sample, double_tap, long_press),
{
    let mut drawings: Vec<Drawing> = Vec::new();
    drawings.push(text_drawing(Ink::Text, 24, 16, 28, "FINGERPRINT TOUCH SCOPE"));
    drawings.push(
        Drawing::Text {
            ink: Ink::Muted,
            x: 490,
            y: 24,
            size: 15,
            caption: write_settings(sweep, sample, double_tap, long_press),
        },
    );
    let ghost title = drawing_views(drawings@);
    assert(title =~= base_views(sweep, sample, double_tap, long_press).take(2));
    let mut division: u32 = 0;
    while division <= 10
        invariant
            division <= 11,
            title == base_views(sweep, sample, double_tap, long_press).take(2),
            drawing_views(drawings@) == title + Seq::new(
                division as nat,
                |division: int| grid_column(division),
            ),
        decreases 11 - division,
    {
        let ghost before = drawing_views(drawings@);
        assert(PLOT_WIDTH * division <= 8780) by (nonlinear_arith)
            requires
                PLOT_WIDTH == 878,
                division <= 10,
        ;
        let x: u32 = PLOT_LEFT + PLOT_WIDTH * division / 10;
        drawings.push(
            Drawing::Line(
                Line { x1: x, y1: PLOT_TOP, x2: x, y2: PLOT_BOTTOM, ink: Ink::Grid },
            ),
        );
        assert(drawing_views(drawings@) =~= before.push(grid_column(division as int)));
        division += 1;
        assert(drawing_views(drawings@) =~= title + Seq::new(
            division as nat,
            |division: int| grid_column(division),
        ));
    }
    let ghost grid = drawing_views(drawings@);
    drawings.push(
        Drawing::Line(
            Line { x1: PLOT_LEFT, y1: HIGH_Y, x2: PLOT_RIGHT, y2: HIGH_Y, ink: Ink::Grid },
        ),
    );
    let middle: u32 = (HIGH_Y + LOW_Y) / 2;
    drawings.push(
        Drawing::Line(
            Line { x1: PLOT_LEFT, y1: middle, x2: PLOT_RIGHT, y2: middle, ink: Ink::Grid },
        ),
    );
    drawings.push(
        Drawing::Line(
            Line { x1: PLOT_LEFT, y1: LOW_Y, x2: PLOT_RIGHT, y2: LOW_Y, ink: Ink::Grid },
        ),
    );
    drawings.push(text_drawing(Ink::Trace, 8, HIGH_Y - 11, 14, "DOWN"));
    drawings.push(text_drawing(Ink::Muted, 18, LOW_Y - 11, 14, "UP"));
    proof {
        let legend = legend_views();
        assert(drawing_views(drawings@) =~= grid + legend);
        let base = base_views(sweep, sample, double_tap, long_press);
        assert(base =~= base.take(2) + Seq::new(11, |division: int| grid_column(division))
            + legend);
        assert(drawing_views(drawings@) =~= base);
    }
    drawings
}

// ---------------------------------------------------------------------------------------------
// Figures
// ---------------------------------------------------------------------------------------------
/// The part of the display with the figures.
pub open spec fn info_rect() -> Rect {
    Rect {
        left: 0,
        top: INFO_TOP,
        width: DISPLAY_WIDTH,
        height: (DISPLAY_HEIGHT - INFO_TOP) as u32,
    }
}

/// The part of the display with the figures.
pub fn info_area() -> (rect: Rect)
    ensures
        rect == info_rect(),
{
    Rect { left: 0, top: INFO_TOP, width: DISPLAY_WIDTH, height: DISPLAY_HEIGHT - INFO_TOP }
}

/// The line with the spans.
pub open spec fn timing_text(m: MetricsView) -> Seq<char> {
    "hold "@ + duration_line(m.hold) + "   up-gap "@ + duration_line(m.up_gap)
        + "   press-period "@ + duration_line(m.press_period) + "   release-period "@
        + duration_line(m.release_period)
}

/// The ink of a verdict.
pub open spec fn verdict_ink(verdict: Seq<char>) -> Ink {
    if has_part(verdict, "HIT"@) {
        Ink::Hit
    } else if verdict == "LONG PRESS"@ {
        Ink::Miss
    } else {
        Ink::Cursor
    }
}

/// The line about an event.
pub open spec fn event_drawing(index: int, caption: Seq<PieceView>) -> DrawingView {
    DrawingView::Text {
        ink: Ink::Muted,
        x: 360,
        y: (INFO_TOP + 35 + index * 22) as u32,
        size: 15,
        caption,
    }
}

/// The figures about the touches.
pub open spec fn metrics_views(m: MetricsView) -> Seq<DrawingView> {
    seq![
        label(
            if m.state {
                Ink::Trace
            } else {
                Ink::Text
            },
            24,
            INFO_TOP,
            23,
            if m.state {
                "DOWN / PRESSED"@
            } else {
                "UP / RELEASED"@
            },
        ),
        label(Ink::Text, 260, (INFO_TOP + 3) as u32, 17, timing_text(m)),
        label(verdict_ink(m.verdict), 24, (INFO_TOP + 36) as u32, 20, m.verdict),
    ] + Seq::new(m.events.len(), |index: int| event_drawing(index, m.events[index]))
}

fn write_timing(m: &Metrics) -> (text: String)
    ensures
        text@ == timing_text(m@),
{
    let hold: String = duration_text(m.hold);
    let up_gap: String = duration_text(m.up_gap);
    let press_period: String = duration_text(m.press_period);
    let release_period: String = duration_text(m.release_period);
    let front: String = join4("hold ", hold.as_str(), "   up-gap ", up_gap.as_str());
    join2(
        join4(front.as_str(), "   press-period ", press_period.as_str(), "   release-period ")
            .as_str(),
        release_period.as_str(),
    )
}

fn ink_of_verdict(verdict: &str) -> (ink: Ink)
    ensures
        ink == verdict_ink(verdict@),
{
    if contains_part(verdict, "HIT") {
        Ink::Hit
    } else if text_equal(verdict, "LONG PRESS") {
        Ink::Miss
    } else {
        Ink::Cursor
    }
}

/// The figures about the touches. They are drawn where the plot leaves room for them.
pub fn draw_metrics(m: &Metrics) -> (drawings: Vec<Drawing>)
    requires
        m@.events.len() <= 3,
    ensures
        drawing_views(drawings@) == metrics_views(m@),
{
    let mut drawings: Vec<Drawing> = Vec::new();
    if m.state {
        drawings.push(text_drawing(Ink::Trace, 24, INFO_TOP, 23, "DOWN / PRESSED"));
    } else {
        drawings.push(text_drawing(Ink::Text, 24, INFO_TOP, 23, "UP / RELEASED"));
    }
    drawings.push(text_drawing(Ink::Text, 260, INFO_TOP + 3, 17, write_timing(m).as_str()));
    drawings.push(text_drawing(ink_of_verdict(m.verdict), 24, INFO_TOP + 36, 20, m.verdict));
    let ghost head = drawing_views(drawings@);
    let mut index: usize = 0;
    while index < m.events.len()
        invariant
            index <= m.events@.len() <= 3,
            head.len() == 3,
            drawing_views(drawings@) == head + Seq::new(
                index as nat,
                |index: int| event_drawing(index, m@.events[index]),
            ),
        decreases m.events@.len() - index,
    {
        let ghost before = drawing_views(drawings@);
        drawings.push(
            Drawing::Text {
                ink: Ink::Muted,
                x: 360,
                y: INFO_TOP + 35 + index as u32 * 22,
                size: 15,
                caption: m.events[index].copy(),
            },
        );
        assert(drawing_views(drawings@) =~= before.push(
            event_drawing(index as int, m@.events[index as int]),
        ));
        index += 1;
        assert(drawing_views(drawings@) =~= head + Seq::new(
            index as nat,
            |index: int| event_drawing(index, m@.events[index]),
        ));
    }
    assert(drawing_views(drawings@) =~= metrics_views(m@));
    drawings
}

// ---------------------------------------------------------------------------------------------
// Laws
// ---------------------------------------------------------------------------------------------
/// The line about the settings tells how long a sweep takes in seconds, and the time between
/// samples, the limits for the gap of a double tap and that of a long press in whole milliseconds.
pub proof fn law_settings_are_told(
    sweep: Duration,
    sample: Duration,
    double_tap: (Duration, Duration),
    long_press: Duration,
)
    ensures
        settings_caption(sweep, sample, double_tap, long_press) == seq![
            PieceView::Text("sweep "@),
            PieceView::Figure {
                figure: Figure::CoarseSeconds { span: sweep },
                decimals: 1,
                width: 0,
            },
            PieceView::Text("s  sample "@),
            PieceView::Text(decimal_text(sample.nanos as nat / 1_000_000)),
            PieceView::Text("ms  double "@),
            PieceView::Text(decimal_text(double_tap.0.nanos as nat / 1_000_000)),
            PieceView::Text(".."@),
            PieceView::Text(decimal_text(double_tap.1.nanos as nat / 1_000_000)),
            PieceView::Text("ms  long >= "@),
            PieceView::Text(decimal_text(long_press.nanos as nat / 1_000_000)),
            PieceView::Text("ms"@),
        ],
{
}

/// The plot has a title, the settings, eleven upright lines from its left to its right, a level
/// line for each state and one midway between them, and the names of the states.
pub proof fn law_plot_is_drawn(
    sweep: Duration,
    sample: Duration,
    double_tap: (Duration, Duration),
    long_press: Duration,
    division: int,
)
    requires
        0 <= division <= 10,
    ensures
        ({
            let drawn = base_views(sweep, sample, double_tap, long_press);
            let column = (58 + 878 * division / 10) as u32;
            let level = |y: u32| DrawingView::Line(
                Line { x1: 58, y1: y, x2: 936, y2: y, ink: Ink::Grid },
            );
            &&& drawn.len() == 18
            &&& drawn[0] == (DrawingView::Text {
                ink: Ink::Text,
                x: 24,
                y: 16,
                size: 28,
                caption: seq![PieceView::Text("FINGERPRINT TOUCH SCOPE"@)],
            })
            &&& drawn[1] == (DrawingView::Text {
                ink: Ink::Muted,
                x: 490,
                y: 24,
                size: 15,
                caption: settings_caption(sweep, sample, double_tap, long_press),
            })
            &&& drawn[2 + division] == DrawingView::Line(
                Line { x1: column, y1: 72, x2: column, y2: 238, ink: Ink::Grid },
            )
            &&& drawn[13] == level(104)
            &&& drawn[14] == level(157)
            &&& drawn[15] == level(210)
            &&& drawn[16] == (DrawingView::Text {
                ink: Ink::Trace,
                x: 8,
                y: 93,
                size: 14,
                caption: seq![PieceView::Text("DOWN"@)],
            })
            &&& drawn[17] == (DrawingView::Text {
                ink: Ink::Muted,
                x: 18,
                y: 199,
                size: 14,
                caption: seq![PieceView::Text("UP"@)],
            })
        }),
{
}

/// The figures take up all that is below the plot, from side to side.
pub proof fn law_figures_have_their_place()
    ensures
        info_rect() == (Rect { left: 0, top: 258, width: 960, height: 118 }),
        info_rect().top + info_rect().height == 376,
        info_rect().top > 238,
{
}

/// The figures tell the state of the finger, the four spans, the verdict, and below one another the
/// last events. A finger on the sensor is told in the colour of the trace.
pub proof fn law_figures_are_drawn(m: MetricsView, index: int)
    ensures
        ({
            let drawn = metrics_views(m);
            &&& drawn.len() == 3 + m.events.len()
            &&& m.state ==> drawn[0] == (DrawingView::Text {
                ink: Ink::Trace,
                x: 24,
                y: 258,
                size: 23,
                caption: seq![PieceView::Text("DOWN / PRESSED"@)],
            })
            &&& !m.state ==> drawn[0] == (DrawingView::Text {
                ink: Ink::Text,
                x: 24,
                y: 258,
                size: 23,
                caption: seq![PieceView::Text("UP / RELEASED"@)],
            })
            &&& drawn[1] == (DrawingView::Text {
                ink: Ink::Text,
                x: 260,
                y: 261,
                size: 17,
                caption: seq![
                    PieceView::Text(
                        "hold "@ + duration_line(m.hold) + "   up-gap "@ + duration_line(m.up_gap)
                            + "   press-period "@ + duration_line(m.press_period)
                            + "   release-period "@ + duration_line(m.release_period),
                    ),
                ],
            })
            &&& drawn[2] == (DrawingView::Text {
                ink: verdict_ink(m.verdict),
                x: 24,
                y: 294,
                size: 20,
                caption: seq![PieceView::Text(m.verdict)],
            })
            &&& 0 <= index < m.events.len() && m.events.len() <= 3 ==> drawn[3 + index] == (
            DrawingView::Text {
                ink: Ink::Muted,
                x: 360,
                y: (293 + 22 * index) as u32,
                size: 15,
                caption: m.events[index],
            })
        }),
{
}

/// A verdict that tells of a hit has the ink of a hit, a long press that of a miss, and any other
/// that of the cursor.
pub proof fn law_verdicts_have_their_ink(front: Seq<char>, back: Seq<char>, verdict: Seq<char>)
    ensures
        verdict_ink(front + "HIT"@ + back) == Ink::Hit,
        !has_part(verdict, "HIT"@) && verdict == "LONG PRESS"@ ==> verdict_ink(verdict) == Ink::Miss,
        !has_part(verdict, "HIT"@) && verdict != "LONG PRESS"@ ==> verdict_ink(verdict)
            == Ink::Cursor,
{
    law_part_stands_within(front, "HIT"@, back, front + "HIT"@ + back);
}

/// A drawing is known by its place, its ink and its caption.
pub proof fn law_drawings_are_known_by_their_captions(drawings: Seq<Drawing>, index: int)
    requires
        0 <= index < drawings.len(),
    ensures
        drawing_views(drawings).len() == drawings.len(),
        match drawings[index] {
            Drawing::Text { ink, x, y, size, caption } => drawing_views(drawings)[index] == (
            DrawingView::Text { ink, x, y, size, caption: caption@ }),
            Drawing::Line(line) => drawing_views(drawings)[index] == DrawingView::Line(line),
        },
{
}

} // verus!
