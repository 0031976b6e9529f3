//! The picture on the display together with the bytes that the display takes for it.
//!
//! The display takes 16 bits for a pixel: five for red, six for green and five for blue, low byte
//! first. The bytes are kept, so that only those of a part that has changed are worked out anew.

use crate::scope::layout::{Color, Rect, DISPLAY_HEIGHT, DISPLAY_WIDTH};
use crate::scope::picture::{picture_size, Picture};
use vstd::prelude::*;

verus! {

/// How many bytes the display takes.
pub const FRAME_BYTES: usize = 721_920;

// ---------------------------------------------------------------------------------------------
// Byte buffers
// ---------------------------------------------------------------------------------------------
/// `bytes::BytesMut`, a buffer of bytes.
#[verifier::external_type_specification]
#[verifier::external_body]
pub struct ExBytesMut(bytes::BytesMut);

/// The bytes in a buffer.
pub uninterp spec fn buffer_bytes(buffer: bytes::BytesMut) -> Seq<u8>;

/// Calls `bytes::BytesMut::zeroed`: a buffer with so many zeros. The length is limited to what any
/// machine can address.
#[verifier::external_body]
fn new_buffer(length: usize) -> (buffer: bytes::BytesMut)
    requires
        length <= 0x7fff_ffff,
    ensures
        buffer_bytes(buffer) == Seq::new(length as nat, |i: int| 0u8),
{
    bytes::BytesMut::zeroed(length)
}

/// Assigns to a byte through `IndexMut` of the slice that `bytes::BytesMut` dereferences to: the
/// byte is replaced and the others stay.
#[verifier::external_body]
fn write_byte(buffer: &mut bytes::BytesMut, index: usize, byte: u8)
    requires
        index < buffer_bytes(*old(buffer)).len(),
    ensures
        buffer_bytes(*final(buffer)) == buffer_bytes(*old(buffer)).update(index as int, byte),
{
    buffer[index] = byte;
}

/// Calls `clone` of `bytes::BytesMut`: a buffer with the same bytes.
#[verifier::external_body]
fn clone_buffer(buffer: &bytes::BytesMut) -> (copy: bytes::BytesMut)
    ensures
        buffer_bytes(copy) == buffer_bytes(*buffer),
{
    buffer.clone()
}

// ---------------------------------------------------------------------------------------------
// Pixels
// ---------------------------------------------------------------------------------------------
/// The 16 bits for a colour: the upper five bits of red, six of green and five of blue.
pub open spec fn pixel_word(color: Color) -> u16 {
    ((color.red / 8) * 2048 + (color.green / 4) * 32 + color.blue / 8) as u16
}

/// The bytes for a colour, low byte first.
pub open spec fn pixel_byte(color: Color, place: int) -> u8 {
    if place == 0 {
        (pixel_word(color) % 256) as u8
    } else {
        (pixel_word(color) / 256) as u8
    }
}

/// The column of the pixel to which a byte belongs.
pub open spec fn byte_column(index: int) -> u32 {
    (index / 2 % 960) as u32
}

/// The row of the pixel to which a byte belongs.
pub open spec fn byte_row(index: int) -> u32 {
    (index / 2 / 960) as u32
}

/// The byte that the display takes at a place for a picture.
pub open spec fn picture_byte(pixels: Map<(u32, u32), Color>, index: int) -> u8 {
    pixel_byte(pixels[(byte_column(index), byte_row(index))], index % 2)
}

/// The bytes that the display takes for a picture.
pub open spec fn picture_bytes(pixels: Map<(u32, u32), Color>) -> Seq<u8> {
    Seq::new(FRAME_BYTES as nat, |i: int| picture_byte(pixels, i))
}

/// The bytes with those of the pixels in a rectangle taken from a picture.
pub open spec fn synced(bytes: Seq<u8>, pixels: Map<(u32, u32), Color>, rect: Rect) -> Seq<u8> {
    Seq::new(
        bytes.len(),
        |i: int|
            if rect.covers(byte_column(i) as int, byte_row(i) as int) {
                picture_byte(pixels, i)
            } else {
                bytes[i]
            },
    )
}

/// The 16 bits for a colour.
pub fn to_pixel_word(color: Color) -> (value: u16)
    ensures
        value == pixel_word(color),
{
    let red: u8 = color.red;
    let green: u8 = color.green;
    let blue: u8 = color.blue;
    let value: u16 = (((red & 248) as u16) << 8) | (((green & 252) as u16) << 3) | ((blue as u16)
        >> 3);
    assert(value == (red / 8) * 2048 + (green / 4) * 32 + blue / 8) by (bit_vector)
        requires
            value == (((red & 248) as u16) << 8) | (((green & 252) as u16) << 3) | ((blue as u16)
                >> 3),
    ;
    value
}

// ---------------------------------------------------------------------------------------------
// Frames
// ---------------------------------------------------------------------------------------------
/// A picture for the display and the bytes for it.
pub struct ScopeFrame {
    pub image: Picture,
    pub rgb565: bytes::BytesMut,
}

proof fn lemma_offset(x: u32, y: u32)
    requires
        x < DISPLAY_WIDTH,
        y < DISPLAY_HEIGHT,
    ensures
        (y * 960 + x) * 2 + 1 < FRAME_BYTES,
        forall|i: int|
            #![trigger byte_column(i)]
            0 <= i < FRAME_BYTES ==> (byte_column(i) == x && byte_row(i) == y <==> i == (y * 960
                + x) * 2 || i == (y * 960 + x) * 2 + 1),
{
    assert forall|i: int|
        #![trigger byte_column(i)]
        0 <= i < FRAME_BYTES implies (byte_column(i) == x && byte_row(i) == y <==> i == (y * 960
        + x) * 2 || i == (y * 960 + x) * 2 + 1) by {
        let p = i / 2;
        assert(p / 960 < 376);
        assert(p == (p / 960) * 960 + p % 960);
    }
}

impl ScopeFrame {
    /// Whether the picture is as large as the display and there is a byte for each half of its
    /// pixels.
    pub open spec fn fits_display(self) -> bool {
        self.image.fills_display() && buffer_bytes(self.rgb565).len() == FRAME_BYTES
    }

    /// Whether the bytes are those of the picture.
    pub open spec fn in_sync(self) -> bool {
        buffer_bytes(self.rgb565) == picture_bytes(self.image@)
    }

    /// A frame with a picture and the bytes for it.
    pub fn new(image: Picture) -> (frame: ScopeFrame)
        requires
            image.fills_display(),
        ensures
            frame.fits_display(),
            frame.in_sync(),
            frame.image == image,
    {
        let mut frame = ScopeFrame { image, rgb565: new_buffer(FRAME_BYTES) };
        let all = Rect { left: 0, top: 0, width: DISPLAY_WIDTH, height: DISPLAY_HEIGHT };
        frame.sync_rect(all);
        proof {
            assert forall|i: int| 0 <= i < FRAME_BYTES implies #[trigger] buffer_bytes(
                frame.rgb565,
            )[i] == picture_byte(image@, i) by {
                assert(all.covers(byte_column(i) as int, byte_row(i) as int));
            }
            assert(buffer_bytes(frame.rgb565) =~= picture_bytes(image@));
        }
        frame
    }

    /// Works out the bytes for a part of the picture, as far as it is on the display.
    pub fn sync_rect(&mut self, rect: Rect)
        requires
            old(self).fits_display(),
            rect.is_bounded(),
        ensures
            final(self).fits_display(),
            final(self).image == old(self).image,
            buffer_bytes(final(self).rgb565) == synced(
                buffer_bytes(old(self).rgb565),
                old(self).image@,
                rect,
            ),
    {
        let right: u32 = rect.right();
        let bottom: u32 = rect.bottom();
        let ghost before = buffer_bytes(self.rgb565);
        let ghost image = self.image;
        let mut y: u32 = rect.top;
        while y < bottom
            invariant
                self.fits_display(),
                self.image == image,
                rect.top <= y,
                bottom <= DISPLAY_HEIGHT,
                right <= DISPLAY_WIDTH,
                bottom == rect.top + rect.height || bottom == DISPLAY_HEIGHT,
                right == rect.left + rect.width || right == DISPLAY_WIDTH,
                bottom <= rect.top + rect.height,
                right <= rect.left + rect.width,
                forall|i: int|
                    #![trigger buffer_bytes(self.rgb565)[i]]
                    0 <= i < FRAME_BYTES ==> buffer_bytes(self.rgb565)[i] == if rect.covers(
                        byte_column(i) as int,
                        byte_row(i) as int,
                    ) && byte_row(i) < y {
                        picture_byte(image@, i)
                    } else {
                        before[i]
                    },
            decreases bottom - y,
        {
            let mut x: u32 = rect.left;
            while x < right
                invariant
                    self.fits_display(),
                    self.image == image,
                    rect.left <= x,
                    rect.top <= y < bottom <= DISPLAY_HEIGHT,
                    right <= DISPLAY_WIDTH,
                    bottom <= rect.top + rect.height,
                    right <= rect.left + rect.width,
                    forall|i: int|
                        #![trigger buffer_bytes(self.rgb565)[i]]
                        0 <= i < FRAME_BYTES ==> buffer_bytes(self.rgb565)[i] == if rect.covers(
                            byte_column(i) as int,
                            byte_row(i) as int,
                        ) && (byte_row(i) < y || (byte_row(i) == y && byte_column(i) < x)) {
                            picture_byte(image@, i)
                        } else {
                            before[i]
                        },
                decreases right - x,
            {
                let ghost sofar = buffer_bytes(self.rgb565);
                proof {
                    lemma_offset(x, y);
                }
                let value: u16 = to_pixel_word(self.image.get_pixel(x, y));
                let offset: usize = ((y * DISPLAY_WIDTH + x) * 2) as usize;
                write_byte(&mut self.rgb565, offset, (value % 256) as u8);
                write_byte(&mut self.rgb565, offset + 1, (value / 256) as u8);
                proof {
                    assert forall|i: int|
                        #![trigger buffer_bytes(self.rgb565)[i]]
                        0 <= i < FRAME_BYTES implies buffer_bytes(self.rgb565)[i]
                        == if rect.covers(byte_column(i) as int, byte_row(i) as int) && (byte_row(
                        i,
                    ) < y || (byte_row(i) == y && byte_column(i) < x + 1)) {
                        picture_byte(image@, i)
                    } else {
                        before[i]
                    } by {
                        if i != offset && i != offset + 1 {
                            assert(buffer_bytes(self.rgb565)[i] == sofar[i]);
                            assert(!(byte_column(i) == x && byte_row(i) == y));
                        } else {
                            assert(byte_column(i) == x && byte_row(i) == y);
                            assert(i % 2 == 0 <==> i == offset);
                        }
                    }
                }
                x += 1;
            }
            y += 1;
        }
        assert(buffer_bytes(self.rgb565) =~= synced(before, image@, rect));
    }

    /// The bytes that the display takes.
    pub fn to_rgb565_le(&self) -> (copy: bytes::BytesMut)
        ensures
            buffer_bytes(copy) == buffer_bytes(self.rgb565),
    {
        clone_buffer(&self.rgb565)
    }
}

// ---------------------------------------------------------------------------------------------
// Laws
// ---------------------------------------------------------------------------------------------
/// Where the bytes were those of a picture and the picture has changed only in a rectangle, working
/// out the bytes of that rectangle makes them those of the new picture.
pub proof fn law_partial_update_is_enough(
    old_pixels: Map<(u32, u32), Color>,
    new_pixels: Map<(u32, u32), Color>,
    rect: Rect,
)
    requires
        forall|x: u32, y: u32|
            x < DISPLAY_WIDTH && y < DISPLAY_HEIGHT && !rect.covers(x as int, y as int)
                ==> #[trigger] new_pixels[(x, y)] == old_pixels[(x, y)],
    ensures
        synced(picture_bytes(old_pixels), new_pixels, rect) == picture_bytes(new_pixels),
{
    let bytes = synced(picture_bytes(old_pixels), new_pixels, rect);
    assert forall|i: int| 0 <= i < FRAME_BYTES implies #[trigger] bytes[i] == picture_byte(
        new_pixels,
        i,
    ) by {
        let x = byte_column(i);
        let y = byte_row(i);
        assert(x < DISPLAY_WIDTH && y < DISPLAY_HEIGHT);
        if !rect.covers(x as int, y as int) {
            assert(new_pixels[(x, y)] == old_pixels[(x, y)]);
        }
    }
    assert(bytes =~= picture_bytes(new_pixels));
}

/// Working out a rectangle twice is the same as once.
pub proof fn law_sync_settles(bytes: Seq<u8>, pixels: Map<(u32, u32), Color>, rect: Rect)
    ensures
        synced(synced(bytes, pixels, rect), pixels, rect) == synced(bytes, pixels, rect),
{
    assert(synced(synced(bytes, pixels, rect), pixels, rect) =~= synced(bytes, pixels, rect));
}

/// The upper five bits of red, six of green and five of blue stand side by side in the 16 bits of a
/// colour, of which the low byte comes first.
pub proof fn law_bits_of_a_colour(color: Color)
    ensures
        pixel_word(color) as int / 2048 == color.red as int / 8,
        pixel_word(color) as int / 32 % 64 == color.green as int / 4,
        pixel_word(color) as int % 32 == color.blue as int / 8,
        pixel_byte(color, 0) + 256 * pixel_byte(color, 1) == pixel_word(color),
{
    let red = color.red as int / 8;
    let green = color.green as int / 4;
    let blue = color.blue as int / 8;
    let value = red * 2048 + green * 32 + blue;
    assert(value / 2048 == red && value / 32 % 64 == green && value % 32 == blue);
}

/// The bytes of a picture go row by row from the top, each row from the left, with two bytes for a
/// pixel.
pub proof fn law_pixels_go_row_by_row(pixels: Map<(u32, u32), Color>, x: u32, y: u32)
    requires
        x < 960,
        y < 376,
    ensures
        picture_bytes(pixels).len() == 960 * 376 * 2,
        ({
            let place = (y * 960 + x) * 2;
            let bytes = picture_bytes(pixels);
            bytes[place] + 256 * bytes[place + 1] == pixel_word(pixels[(x, y)])
        }),
{
    lemma_offset(x, y);
    let place = (y * 960 + x) * 2;
    law_bits_of_a_colour(pixels[(x, y)]);
    assert(byte_column(place) == x && byte_row(place) == y && place % 2 == 0);
    assert(byte_column(place + 1) == x && byte_row(place + 1) == y && (place + 1) % 2 == 1);
}

/// Working out a rectangle gives the pixels in it the bytes of the picture and leaves all other
/// bytes.
pub proof fn law_sync_works_out_its_rectangle(
    bytes: Seq<u8>,
    pixels: Map<(u32, u32), Color>,
    rect: Rect,
    x: u32,
    y: u32,
)
    requires
        bytes.len() == FRAME_BYTES,
        x < 960,
        y < 376,
    ensures
        ({
            let place = (y * 960 + x) * 2;
            let after = synced(bytes, pixels, rect);
            let inside = rect.left <= x < rect.left + rect.width && rect.top <= y < rect.top
                + rect.height;
            &&& after.len() == bytes.len()
            &&& inside ==> after[place] + 256 * after[place + 1] == pixel_word(pixels[(x, y)])
            &&& !inside ==> after[place] == bytes[place] && after[place + 1] == bytes[place + 1]
        }),
{
    law_pixels_go_row_by_row(pixels, x, y);
    lemma_offset(x, y);
    let place = (y * 960 + x) * 2;
    assert(byte_column(place) == x && byte_row(place) == y);
    assert(byte_column(place + 1) == x && byte_row(place + 1) == y);
}

/// A frame is in step where its bytes are those of its picture, pixel by pixel, and fits the
/// display where both are as large as the display.
pub proof fn law_frame_is_in_step(frame: ScopeFrame, x: u32, y: u32)
    requires
        x < 960,
        y < 376,
        frame.in_sync(),
    ensures
        ({
            let place = (y * 960 + x) * 2;
            let bytes = buffer_bytes(frame.rgb565);
            bytes[place] + 256 * bytes[place + 1] == pixel_word(frame.image@[(x, y)])
        }),
        frame.fits_display() <==> picture_size(frame.image) == (960u32, 376u32),
        frame.image.has(x, y) <==> x < picture_size(frame.image).0 && y < picture_size(frame.image).1,
{
    law_pixels_go_row_by_row(frame.image@, x, y);
}

} // verus!
