//! Pictures in memory.

use crate::scope::layout::{Color, Rect, DISPLAY_HEIGHT, DISPLAY_WIDTH};
use vstd::prelude::*;

verus! {

/// An `image::RgbImage`: what it holds is known by its size and the colours of its pixels.
#[verifier::external_body]
pub struct Picture(image::RgbImage);

/// The width and the height of a picture.
pub uninterp spec fn picture_size(picture: Picture) -> (u32, u32);

/// The colours of the pixels of a picture.
pub uninterp spec fn picture_pixels(picture: Picture) -> Map<(u32, u32), Color>;

impl View for Picture {
    type V = Map<(u32, u32), Color>;

    open spec fn view(&self) -> Map<(u32, u32), Color> {
        picture_pixels(*self)
    }
}

impl Picture {
    /// Whether a pixel lies in the picture.
    pub open spec fn has(self, x: u32, y: u32) -> bool {
        x < picture_size(self).0 && y < picture_size(self).1
    }

    /// Whether the picture is as large as the display.
    pub open spec fn fills_display(self) -> bool {
        picture_size(self) == (DISPLAY_WIDTH, DISPLAY_HEIGHT)
    }
}

/// Calls `image::RgbImage::from_pixel`: a picture of the given size with the given colour in every
/// pixel. The size is limited to what any machine can address.
#[verifier::external_body]
fn new_picture(width: u32, height: u32, color: Color) -> (picture: Picture)
    requires
        width * 3 <= 0x7fff_ffff,
        width * height * 3 <= 0x7fff_ffff,
    ensures
        picture_size(picture) == (width, height),
        picture_pixels(picture) == Map::new(
            |at: (u32, u32)| at.0 < width && at.1 < height,
            |at: (u32, u32)| color,
        ),
{
    let pixel = image::Rgb([color.red, color.green, color.blue]);
    Picture(image::RgbImage::from_pixel(width, height, pixel))
}

/// Calls `image::RgbImage::get_pixel`: the colour of a pixel.
#[verifier::external_body]
fn read_pixel(picture: &Picture, x: u32, y: u32) -> (color: Color)
    requires
        picture.has(x, y),
    ensures
        color == picture_pixels(*picture)[(x, y)],
{
    let pixel = picture.0.get_pixel(x, y).0;
    Color { red: pixel[0], green: pixel[1], blue: pixel[2] }
}

/// Calls `image::RgbImage::put_pixel`: gives a pixel a colour and leaves the others.
#[verifier::external_body]
fn write_pixel(picture: &mut Picture, x: u32, y: u32, color: Color)
    requires
        old(picture).has(x, y),
    ensures
        picture_size(*final(picture)) == picture_size(*old(picture)),
        picture_pixels(*final(picture)) == picture_pixels(*old(picture)).insert((x, y), color),
{
    picture.0.put_pixel(x, y, image::Rgb([color.red, color.green, color.blue]));
}

/// Calls `clone` of `image::RgbImage`: a picture of the same size with the same pixels.
#[verifier::external_body]
fn clone_picture(picture: &Picture) -> (copy: Picture)
    ensures
        picture_size(copy) == picture_size(*picture),
        picture_pixels(copy) == picture_pixels(*picture),
{
    Picture(picture.0.clone())
}

impl Picture {
    /// A picture for the display, all in one colour.
    pub fn for_display(color: Color) -> (picture: Picture)
        ensures
            picture.fills_display(),
            picture@ == Map::new(
                |at: (u32, u32)| at.0 < DISPLAY_WIDTH && at.1 < DISPLAY_HEIGHT,
                |at: (u32, u32)| color,
            ),
    {
        new_picture(DISPLAY_WIDTH, DISPLAY_HEIGHT, color)
    }

    /// The colour of a pixel.
    pub fn get_pixel(&self, x: u32, y: u32) -> (color: Color)
        requires
            self.has(x, y),
        ensures
            color == self@[(x, y)],
    {
        read_pixel(self, x, y)
    }

    /// Gives a pixel a colour.
    pub fn put_pixel(&mut self, x: u32, y: u32, color: Color)
        requires
            old(self).has(x, y),
        ensures
            picture_size(*final(self)) == picture_size(*old(self)),
            final(self)@ == old(self)@.insert((x, y), color),
    {
        write_pixel(self, x, y, color);
    }

    /// A copy of the picture.
    pub fn copy(&self) -> (copy: Picture)
        ensures
            picture_size(copy) == picture_size(*self),
            copy@ == self@,
    {
        clone_picture(self)
    }
}

/// The pixels of `frame` with those in a rectangle taken from `base`.
pub open spec fn restored(
    base: Map<(u32, u32), Color>,
    frame: Map<(u32, u32), Color>,
    rect: Rect,
) -> Map<(u32, u32), Color> {
    frame.union_prefer_right(
        Map::new(
            |at: (u32, u32)| rect.covers(at.0 as int, at.1 as int),
            |at: (u32, u32)| base[at],
        ),
    )
}

/// Puts back the part of a picture that lies in a rectangle, as far as it is on the display.
pub fn restore_rect(base: &Picture, frame: &mut Picture, rect: Rect)
    requires
        base.fills_display(),
        old(frame).fills_display(),
        rect.is_bounded(),
    ensures
        final(frame).fills_display(),
        final(frame)@ == restored(base@, old(frame)@, rect),
{
    let right: u32 = rect.right();
    let bottom: u32 = rect.bottom();
    let ghost before = frame@;
    let mut y: u32 = rect.top;
    while y < bottom
        invariant
            base.fills_display(),
            frame.fills_display(),
            rect.is_bounded(),
            rect.top <= y,
            y <= bottom || bottom <= rect.top,
            bottom <= DISPLAY_HEIGHT,
            right <= DISPLAY_WIDTH,
            right == rect.left + rect.width || right == DISPLAY_WIDTH,
            forall|at: (u32, u32)|
                #[trigger] frame@.contains_key(at) <==> before.contains_key(at) || (rect.covers(
                    at.0 as int,
                    at.1 as int,
                ) && at.1 < y),
            forall|at: (u32, u32)|
                #![trigger frame@[at]]
                frame@[at] == if rect.covers(at.0 as int, at.1 as int) && at.1 < y {
                    base@[at]
                } else {
                    before[at]
                },
            bottom == rect.top + rect.height || bottom == DISPLAY_HEIGHT,
            bottom <= rect.top + rect.height,
            right <= rect.left + rect.width,
        decreases bottom - y,
    {
        let mut x: u32 = rect.left;
        while x < right
            invariant
                base.fills_display(),
                frame.fills_display(),
                rect.left <= x,
                rect.top <= y < bottom <= DISPLAY_HEIGHT,
                right <= DISPLAY_WIDTH,
                bottom <= rect.top + rect.height,
                right <= rect.left + rect.width,
                forall|at: (u32, u32)|
                    #[trigger] frame@.contains_key(at) <==> before.contains_key(at) || (rect.covers(
                        at.0 as int,
                        at.1 as int,
                    ) && (at.1 < y || (at.1 == y && at.0 < x))),
                forall|at: (u32, u32)|
                    #![trigger frame@[at]]
                    frame@[at] == if rect.covers(at.0 as int, at.1 as int) && (at.1 < y || (at.1
                        == y && at.0 < x)) {
                        base@[at]
                    } else {
                        before[at]
                    },
            decreases right - x,
        {
            let color: Color = base.get_pixel(x, y);
            frame.put_pixel(x, y, color);
            x += 1;
        }
        y += 1;
    }
    assert(frame@ =~= restored(base@, before, rect));
}

/// What is put back has the pixels of the base within the rectangle, and keeps its own outside.
pub proof fn law_rectangle_is_put_back(
    base: Map<(u32, u32), Color>,
    frame: Map<(u32, u32), Color>,
    rect: Rect,
    x: u32,
    y: u32,
)
    requires
        x < 960,
        y < 376,
        frame.contains_key((x, y)),
    ensures
        ({
            let after = restored(base, frame, rect);
            let inside = rect.left <= x < rect.left + rect.width && rect.top <= y < rect.top
                + rect.height;
            &&& after.contains_key((x, y))
            &&& inside ==> after[(x, y)] == base[(x, y)]
            &&& !inside ==> after[(x, y)] == frame[(x, y)]
        }),
{
}

} // verus!
