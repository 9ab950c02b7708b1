use crate::machine::{DISPLAY_HEIGHT, DISPLAY_SIZE, DISPLAY_WIDTH};
use vstd::prelude::*;

verus! {

/// Frame pixels to the side of one display pixel.
pub const SCALE: usize = 20;

/// Pixels in a row of the frame: the display's width times the scale.
pub const FRAME_WIDTH: usize = 1280;

/// Rows of the frame: the display's height times the scale.
pub const FRAME_HEIGHT: usize = 640;

/// Pixels of the frame.
pub const FRAME_SIZE: usize = 819200;

/// The colour of a pixel that is on.
pub const PIXEL_ON: u32 = 0xFFFFFF;

/// The colour of a pixel that is off.
pub const PIXEL_OFF: u32 = 0;

/// The colour of a display pixel.
pub open spec fn colour(on: bool) -> u32 {
    if on {
        PIXEL_ON
    } else {
        PIXEL_OFF
    }
}

/// The colour of entry `p` of the frame: that of the display pixel whose
/// square it lies in.
pub open spec fn frame_pixel(display: Seq<bool>, p: int) -> u32 {
    let px = (p % (FRAME_WIDTH as int)) / (SCALE as int);
    let py = (p / (FRAME_WIDTH as int)) / (SCALE as int);
    colour(display[py * DISPLAY_WIDTH + px])
}

/// The frame that shows a display: row-major, each display pixel a square
/// of `SCALE` by `SCALE` frame pixels.
pub open spec fn frame_of(display: Seq<bool>) -> Seq<u32> {
    Seq::new(FRAME_SIZE as nat, |p: int| frame_pixel(display, p))
}

/// Fills `frame` with the picture of the display, whatever it held before.
pub fn render(pixels: &[bool; DISPLAY_SIZE], frame: &mut Vec<u32>)
    ensures
        final(frame)@ == frame_of(pixels@),
{
    frame.clear();
    let mut p: usize = 0;
    while p < FRAME_SIZE
        invariant
            p <= FRAME_SIZE,
            frame@.len() == p,
            forall|q: int| 0 <= q < p ==> frame@[q] == frame_pixel(pixels@, q),
        decreases FRAME_SIZE - p,
    {
        let px: usize = (p % FRAME_WIDTH) / SCALE;
        let py: usize = (p / FRAME_WIDTH) / SCALE;
        let on: bool = pixels[py * DISPLAY_WIDTH + px];
        frame.push(
            if on {
                PIXEL_ON
            } else {
                PIXEL_OFF
            },
        );
        p += 1;
    }
}

/// In the frame, display pixel `(px, py)` is the square whose top-left
/// corner is `(px * SCALE, py * SCALE)`: every frame pixel `(i, j)` of the
/// square has the colour of the display pixel.
pub proof fn frame_shows_squares(display: Seq<bool>, px: int, py: int, i: int, j: int)
    requires
        display.len() == DISPLAY_SIZE,
        0 <= px < DISPLAY_WIDTH,
        0 <= py < DISPLAY_HEIGHT,
        0 <= i < SCALE,
        0 <= j < SCALE,
    ensures
        frame_of(display).len() == FRAME_WIDTH * FRAME_HEIGHT,
        0 <= (py * SCALE + j) * FRAME_WIDTH + (px * SCALE + i) < FRAME_SIZE,
        frame_of(display)[(py * SCALE + j) * FRAME_WIDTH + (px * SCALE + i)] == colour(
            display[py * DISPLAY_WIDTH + px],
        ),
{
}

} // verus!
