//! Where things stand on the display and in which colour.

use vstd::prelude::*;

verus! {

/// A colour by the levels of red, green and blue.
#[derive(Clone, Copy, Debug, PartialEq, Eq, Structural)]
pub struct Color {
    pub red: u8,
    pub green: u8,
    pub blue: u8,
}

/// A part of the display.
#[derive(Clone, Copy, Debug, PartialEq, Eq, Structural)]
pub struct Rect {
    pub left: u32,
    pub top: u32,
    pub width: u32,
    pub height: u32,
}

/// A stroke from one pixel to another.
#[derive(Clone, Copy, Debug, PartialEq, Eq, Structural)]
pub struct Line {
    pub x1: u32,
    pub y1: u32,
    pub x2: u32,
    pub y2: u32,
    pub ink: Ink,
}

pub const DISPLAY_WIDTH: u32 = 960;

pub const DISPLAY_HEIGHT: u32 = 376;

pub const PLOT_LEFT: u32 = 58;

pub const PLOT_RIGHT: u32 = 936;

pub const PLOT_TOP: u32 = 72;

pub const PLOT_BOTTOM: u32 = 238;

pub const HIGH_Y: u32 = 104;

pub const LOW_Y: u32 = 210;

pub const INFO_TOP: u32 = 258;

/// What a colour is used for.
#[derive(Clone, Copy, Debug, PartialEq, Eq, Structural)]
pub enum Ink {
    Background,
    Grid,
    Text,
    Muted,
    Trace,
    Cursor,
    Hit,
    Miss,
}

/// The colour of an ink.
pub open spec fn ink_color(ink: Ink) -> Color {
    match ink {
        Ink::Background => Color { red: 7, green: 12, blue: 20 },
        Ink::Grid => Color { red: 31, green: 49, blue: 64 },
        Ink::Text => Color { red: 205, green: 221, blue: 232 },
        Ink::Muted => Color { red: 111, green: 137, blue: 153 },
        Ink::Trace => Color { red: 52, green: 255, blue: 142 },
        Ink::Cursor => Color { red: 255, green: 183, blue: 64 },
        Ink::Hit => Color { red: 60, green: 231, blue: 131 },
        Ink::Miss => Color { red: 255, green: 106, blue: 92 },
    }
}

impl Ink {
    /// The colour of the ink.
    pub fn color(self) -> (color: Color)
        ensures
            color == ink_color(self),
    {
        match self {
            Ink::Background => Color { red: 7, green: 12, blue: 20 },
            Ink::Grid => Color { red: 31, green: 49, blue: 64 },
            Ink::Text => Color { red: 205, green: 221, blue: 232 },
            Ink::Muted => Color { red: 111, green: 137, blue: 153 },
            Ink::Trace => Color { red: 52, green: 255, blue: 142 },
            Ink::Cursor => Color { red: 255, green: 183, blue: 64 },
            Ink::Hit => Color { red: 60, green: 231, blue: 131 },
            Ink::Miss => Color { red: 255, green: 106, blue: 92 },
        }
    }
}

impl Rect {
    /// Whether the rectangle ends where a number can say.
    pub open spec fn is_bounded(self) -> bool {
        self.left + self.width <= u32::MAX && self.top + self.height <= u32::MAX
    }

    /// Whether a pixel of the display lies in the rectangle.
    pub open spec fn covers(self, x: int, y: int) -> bool {
        &&& self.left <= x < self.left + self.width
        &&& self.top <= y < self.top + self.height
        &&& x < DISPLAY_WIDTH
        &&& y < DISPLAY_HEIGHT
    }

    /// Where the rectangle ends to the right on the display.
    pub(crate) fn right(self) -> (right: u32)
        requires
            self.is_bounded(),
        ensures
            right == if self.left + self.width < DISPLAY_WIDTH {
                self.left + self.width
            } else {
                DISPLAY_WIDTH as int
            },
    {
        if self.left + self.width < DISPLAY_WIDTH {
            self.left + self.width
        } else {
            DISPLAY_WIDTH
        }
    }

    /// Where the rectangle ends at the bottom on the display.
    pub(crate) fn bottom(self) -> (bottom: u32)
        requires
            self.is_bounded(),
        ensures
            bottom == if self.top + self.height < DISPLAY_HEIGHT {
                self.top + self.height
            } else {
                DISPLAY_HEIGHT as int
            },
    {
        if self.top + self.height < DISPLAY_HEIGHT {
            self.top + self.height
        } else {
            DISPLAY_HEIGHT
        }
    }
}

// ---------------------------------------------------------------------------------------------
// Laws
// ---------------------------------------------------------------------------------------------
/// The colours of the inks.
pub proof fn law_inks_have_these_colours()
    ensures
        ink_color(Ink::Background) == (Color { red: 7, green: 12, blue: 20 }),
        ink_color(Ink::Grid) == (Color { red: 31, green: 49, blue: 64 }),
        ink_color(Ink::Text) == (Color { red: 205, green: 221, blue: 232 }),
        ink_color(Ink::Muted) == (Color { red: 111, green: 137, blue: 153 }),
        ink_color(Ink::Trace) == (Color { red: 52, green: 255, blue: 142 }),
        ink_color(Ink::Cursor) == (Color { red: 255, green: 183, blue: 64 }),
        ink_color(Ink::Hit) == (Color { red: 60, green: 231, blue: 131 }),
        ink_color(Ink::Miss) == (Color { red: 255, green: 106, blue: 92 }),
{
}

/// A rectangle takes up as many columns from its left and as many rows from its top as it is wide
/// and high, as far as they are on the display, which has 960 columns and 376 rows, and nothing
/// else.
pub proof fn law_rectangle_has_its_size(rect: Rect, x: int, y: int)
    ensures
        rect.covers(rect.left + x, rect.top + y) <==> {
            &&& 0 <= x < rect.width
            &&& 0 <= y < rect.height
            &&& rect.left + x < 960
            &&& rect.top + y < 376
        },
{
}

} // verus!
