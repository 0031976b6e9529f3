//! The trace of the scope: a pen that goes over the plot from left to right, again and again.

use crate::scope::layout::{
    Ink, Line, Rect, HIGH_Y, LOW_Y, PLOT_BOTTOM, PLOT_LEFT, PLOT_RIGHT, PLOT_TOP,
};
use vstd::prelude::*;

verus! {

/// The width of the plot.
pub const PLOT_WIDTH: u32 = PLOT_RIGHT - PLOT_LEFT;

/// How far apart samples are drawn, so that the plot holds them.
pub open spec fn is_step(step: u32) -> bool {
    1 <= step <= PLOT_WIDTH
}

/// How many samples the plot holds.
pub open spec fn slot_count(step: u32) -> int {
    PLOT_WIDTH as int / step as int
}

/// How many samples the plot holds.
pub fn slots(step: u32) -> (count: u32)
    requires
        is_step(step),
    ensures
        count == slot_count(step),
        1 <= count <= PLOT_WIDTH,
{
    proof {
        vstd::arithmetic::div_mod::lemma_div_is_ordered_by_denominator(
            PLOT_WIDTH as int,
            1,
            step as int,
        );
        vstd::arithmetic::div_mod::lemma_div_non_zero(PLOT_WIDTH as int, step as int);
    }
    PLOT_WIDTH / step
}

/// The pen of the scope.
pub struct Sweep {
    step: u32,
    x: u32,
    previous_x: u32,
    plotted_state: bool,
}

/// A [`Sweep`].
pub struct SweepView {
    /// How far apart samples are drawn.
    pub step: u32,
    /// Where the next sample is drawn.
    pub x: u32,
    /// Where the last sample was drawn.
    pub previous_x: u32,
    /// What the last sample was.
    pub plotted_state: bool,
}

/// What is drawn for a sample, in this order: the last sample turns from the cursor into a part of
/// the trace, its successor is cleared, and the cursor is drawn there.
#[derive(Clone, Copy, Debug, PartialEq, Eq, Structural)]
pub struct Stroke {
    pub trace: Line,
    pub cleared: Rect,
    pub cursor: Line,
    /// Where the trace has changed; besides, all that was cleared has.
    pub retraced: Rect,
}

/// The height at which a state is drawn: high for a finger on the sensor, low for none.
pub open spec fn level(state: bool) -> u32 {
    if state {
        HIGH_Y
    } else {
        LOW_Y
    }
}

/// Where a sample ends that is drawn at a place.
pub open spec fn sample_end(x: u32, step: u32) -> u32 {
    if x + step - 1 < PLOT_RIGHT - 1 {
        (x + step - 1) as u32
    } else {
        (PLOT_RIGHT - 1) as u32
    }
}

impl SweepView {
    /// Whether both places are in the plot.
    pub open spec fn is_in_plot(self) -> bool {
        &&& is_step(self.step)
        &&& PLOT_LEFT <= self.x && self.x + self.step <= PLOT_RIGHT
        &&& PLOT_LEFT <= self.previous_x && self.previous_x + self.step <= PLOT_RIGHT
    }

    /// What is drawn for a sample.
    pub open spec fn stroke(self, state: bool) -> Stroke {
        Stroke {
            trace: Line {
                x1: self.previous_x,
                y1: level(self.plotted_state),
                x2: sample_end(self.previous_x, self.step),
                y2: level(self.plotted_state),
                ink: Ink::Trace,
            },
            cleared: Rect {
                left: self.x,
                top: PLOT_TOP,
                width: self.step,
                height: (PLOT_BOTTOM - PLOT_TOP + 1) as u32,
            },
            cursor: Line {
                x1: self.x,
                y1: level(state),
                x2: sample_end(self.x, self.step),
                y2: level(state),
                ink: Ink::Cursor,
            },
            retraced: Rect {
                left: self.previous_x,
                top: level(self.plotted_state),
                width: self.step,
                height: 1,
            },
        }
    }

    /// The pen after a sample.
    pub open spec fn after(self, state: bool) -> SweepView {
        SweepView {
            step: self.step,
            x: if self.x + self.step + self.step > PLOT_RIGHT {
                PLOT_LEFT
            } else {
                (self.x + self.step) as u32
            },
            previous_x: self.x,
            plotted_state: state,
        }
    }

    /// The pen after several samples.
    pub open spec fn after_all(self, states: Seq<bool>) -> SweepView
        decreases states.len(),
    {
        if states.len() == 0 {
            self
        } else {
            self.after_all(states.drop_last()).after(states.last())
        }
    }
}

/// A pen at the left of the plot, before its first sample.
pub open spec fn first_sweep(step: u32) -> SweepView {
    SweepView { step, x: PLOT_LEFT, previous_x: PLOT_LEFT, plotted_state: false }
}

impl View for Sweep {
    type V = SweepView;

    closed spec fn view(&self) -> SweepView {
        SweepView {
            step: self.step,
            x: self.x,
            previous_x: self.previous_x,
            plotted_state: self.plotted_state,
        }
    }
}

fn level_of(state: bool) -> (y: u32)
    ensures
        y == level(state),
{
    if state {
        HIGH_Y
    } else {
        LOW_Y
    }
}

fn end_of(x: u32, step: u32) -> (end: u32)
    requires
        is_step(step),
        x <= PLOT_RIGHT,
    ensures
        end == sample_end(x, step),
{
    if x + step - 1 < PLOT_RIGHT - 1 {
        x + step - 1
    } else {
        PLOT_RIGHT - 1
    }
}

impl Sweep {
    #[verifier::type_invariant]
    spec fn in_plot(self) -> bool {
        self@.is_in_plot()
    }

    /// A pen at the left of the plot.
    pub fn new(step: u32) -> (sweep: Sweep)
        requires
            is_step(step),
        ensures
            sweep@ == (SweepView {
                step,
                x: PLOT_LEFT,
                previous_x: PLOT_LEFT,
                plotted_state: false,
            }),
            sweep@ == first_sweep(step),
    {
        Sweep { step, x: PLOT_LEFT, previous_x: PLOT_LEFT, plotted_state: false }
    }

    /// What is drawn for a sample.
    pub fn stroke(&self, state: bool) -> (stroke: Stroke)
        ensures
            stroke == self@.stroke(state),
            self@.is_in_plot(),
    {
        proof {
            use_type_invariant(self);
        }
        let previous_y: u32 = level_of(self.plotted_state);
        let y: u32 = level_of(state);
        Stroke {
            trace: Line {
                x1: self.previous_x,
                y1: previous_y,
                x2: end_of(self.previous_x, self.step),
                y2: previous_y,
                ink: Ink::Trace,
            },
            cleared: Rect {
                left: self.x,
                top: PLOT_TOP,
                width: self.step,
                height: PLOT_BOTTOM - PLOT_TOP + 1,
            },
            cursor: Line {
                x1: self.x,
                y1: y,
                x2: end_of(self.x, self.step),
                y2: y,
                ink: Ink::Cursor,
            },
            retraced: Rect { left: self.previous_x, top: previous_y, width: self.step, height: 1 },
        }
    }

    /// Moves the pen on behind a sample.
    pub fn advance(&mut self, state: bool)
        ensures
            final(self)@ == old(self)@.after(state),
    {
        proof {
            use_type_invariant(&*self);
        }
        let step: u32 = self.step;
        let place: u32 = self.x;
        let next: u32 = if place + step + step > PLOT_RIGHT {
            PLOT_LEFT
        } else {
            place + step
        };
        *self = Sweep { step, x: next, previous_x: place, plotted_state: state };
    }
}

// ---------------------------------------------------------------------------------------------
// Laws
// ---------------------------------------------------------------------------------------------
/// The pen stays in the plot.
pub proof fn law_pen_stays_in_plot(sweep: SweepView, states: Seq<bool>)
    requires
        sweep.is_in_plot(),
    ensures
        sweep.after_all(states).is_in_plot(),
    decreases states.len(),
{
    if states.len() > 0 {
        law_pen_stays_in_plot(sweep, states.drop_last());
    }
}

/// All that is drawn for a sample lies in the plot, and in what is noted as changed.
pub proof fn law_stroke_stays_in_plot(sweep: SweepView, state: bool)
    requires
        sweep.is_in_plot(),
    ensures
        ({
            let stroke = sweep.stroke(state);
            &&& PLOT_LEFT <= stroke.trace.x1 <= stroke.trace.x2 < PLOT_RIGHT
            &&& PLOT_LEFT <= stroke.cursor.x1 <= stroke.cursor.x2 < PLOT_RIGHT
            &&& PLOT_TOP < stroke.trace.y1 < PLOT_BOTTOM
            &&& PLOT_TOP < stroke.cursor.y1 < PLOT_BOTTOM
            &&& forall|x: int|
                stroke.trace.x1 <= x <= stroke.trace.x2 ==> #[trigger] stroke.retraced.covers(
                    x,
                    stroke.trace.y1 as int,
                )
            &&& forall|x: int|
                stroke.cursor.x1 <= x <= stroke.cursor.x2 ==> #[trigger] stroke.cleared.covers(
                    x,
                    stroke.cursor.y1 as int,
                )
        }),
{
}

/// The place of a pen that started at the left of the plot depends only on the number of samples:
/// it comes back to the left as soon as the plot is full.
pub proof fn law_sweep_is_cyclic(step: u32, states: Seq<bool>)
    requires
        is_step(step),
    ensures
        ({
            let start = SweepView {
                step,
                x: PLOT_LEFT,
                previous_x: PLOT_LEFT,
                plotted_state: false,
            };
            let count = slot_count(step);
            &&& count >= 1
            &&& start.after_all(states).step == step
            &&& start.after_all(states).x == PLOT_LEFT + (states.len() as int % count) * step
        }),
    decreases states.len(),
{
    let start = SweepView { step, x: PLOT_LEFT, previous_x: PLOT_LEFT, plotted_state: false };
    let count = slot_count(step);
    let width = PLOT_WIDTH as int;
    let s = step as int;
    assert(count >= 1 && count * s <= width && width < (count + 1) * s) by (nonlinear_arith)
        requires
            1 <= s <= width,
            count == width / s,
    ;
    if states.len() == 0 {
        assert(0int % count == 0) by (nonlinear_arith)
            requires
                count >= 1,
        ;
    } else {
        law_sweep_is_cyclic(step, states.drop_last());
        let n = states.len() - 1;
        let k = n % count;
        assert(0 <= k < count) by (nonlinear_arith)
            requires
                count >= 1,
                k == n % count,
        ;
        let before = start.after_all(states.drop_last());
        assert(before.x == PLOT_LEFT + k * s);
        assert((k + 2) * s == k * s + 2 * s) by (nonlinear_arith);
        if k + 1 < count {
            assert((k + 2) * s <= count * s) by (nonlinear_arith)
                requires
                    k + 2 <= count,
                    s >= 1,
            ;
            assert((n + 1) % count == k + 1) by (nonlinear_arith)
                requires
                    k == n % count,
                    k + 1 < count,
                    n >= 0,
                    count >= 1,
            ;
            assert((k + 1) * s == k * s + s) by (nonlinear_arith);
        } else {
            assert((k + 2) * s == (count + 1) * s) by (nonlinear_arith)
                requires
                    k + 1 == count,
            ;
            assert((n + 1) % count == 0) by (nonlinear_arith)
                requires
                    k == n % count,
                    k + 1 == count,
                    n >= 0,
                    count >= 1,
            ;
        }
    }
}

/// The plot holds as many samples as fit between its left and its right.
pub proof fn law_slots_fill_the_plot(step: u32)
    requires
        is_step(step),
    ensures
        slot_count(step) * step <= 936 - 58 < (slot_count(step) + 1) * step,
{
    let count = slot_count(step);
    let s = step as int;
    assert(count * s <= 878 && 878 < (count + 1) * s) by (nonlinear_arith)
        requires
            1 <= s <= 878,
            count == 878int / s,
    ;
}

/// Behind a sample the pen draws that sample into the trace, where it was and as high as it was,
/// and the next one at the cursor, on cleared ground. Each takes up a step, but nothing is drawn
/// behind the right of the plot. A finger on the sensor is drawn high and none low.
pub proof fn law_samples_are_drawn_in_turn(sweep: SweepView, sample: bool, next: bool)
    requires
        sweep.is_in_plot(),
    ensures
        ({
            let after = sweep.after(sample);
            let stroke = after.stroke(next);
            let high = 104u32;
            let low = 210u32;
            let right = 935int;
            let ends = |x: u32| if x + sweep.step - 1 < right {
                x + sweep.step - 1
            } else {
                right
            };
            &&& stroke.trace.x1 == sweep.x && stroke.trace.x2 == ends(sweep.x)
            &&& stroke.trace.y1 == stroke.trace.y2 && stroke.trace.y1 == if sample {
                high
            } else {
                low
            }
            &&& stroke.trace.ink is Trace
            &&& stroke.cursor.x1 == after.x && stroke.cursor.x2 == ends(after.x)
            &&& stroke.cursor.y1 == stroke.cursor.y2 && stroke.cursor.y1 == if next {
                high
            } else {
                low
            }
            &&& stroke.cursor.ink is Cursor
            &&& stroke.cleared == (Rect { left: after.x, top: 72, width: sweep.step, height: 167 })
            &&& stroke.retraced == (Rect {
                left: sweep.x,
                top: stroke.trace.y1,
                width: sweep.step,
                height: 1,
            })
            &&& after.step == sweep.step
            &&& after.x == sweep.x + sweep.step || (after.x == 58 && sweep.x + 2 * sweep.step > 936)
            &&& after.x + sweep.step <= 936
        }),
{
}

/// A pen starts at the left of the plot, where its first sample is drawn over the level of a finger
/// that is off.
pub proof fn law_pen_starts_at_the_left(step: u32, sample: bool)
    requires
        is_step(step),
    ensures
        ({
            let stroke = first_sweep(step).stroke(sample);
            &&& first_sweep(step).is_in_plot() && first_sweep(step).step == step
            &&& stroke.trace.x1 == 58 && stroke.trace.y1 == 210
            &&& stroke.cleared.left == 58 && stroke.cursor.x1 == 58
            &&& stroke.cursor.y1 == if sample {
                104u32
            } else {
                210u32
            }
        }),
{
}

} // verus!
