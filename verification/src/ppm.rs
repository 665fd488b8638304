//! Pictures that are written out as plain PPM images.

use vstd::prelude::*;
use crate::picture::{refitted, Grid, Picture};
use crate::pixel::Pixel;
use crate::vector::Color;

verus! {

/// The decimal digits of `n` as characters.
pub open spec fn digits(n: nat) -> Seq<u8>
    decreases n,
{
    if n < 10 {
        seq![(48 + n) as u8]
    } else {
        digits(n / 10) + seq![(48 + n % 10) as u8]
    }
}

/// The first three lines of the file: the magic word of a plain PPM, the
/// width and the height, and the greatest value of a channel.
pub open spec fn heading(width: u32, height: u32, intensity: u32) -> Seq<u8> {
    seq![80u8, 51u8, 10u8] + digits(width as nat) + seq![32u8] + digits(height as nat) + seq![10u8] + digits(
        intensity as nat,
    ) + seq![10u8]
}

/// The red, green and blue of `p` with a blank between them, and after
/// them a line end or a blank.
pub open spec fn triple(p: Pixel, line_end: bool) -> Seq<u8> {
    digits(p@.0 as nat) + seq![32u8] + digits(p@.1 as nat) + seq![32u8] + digits(p@.2 as nat) + seq![
        if line_end {
            10u8
        } else {
            32u8
        },
    ]
}

/// What the file holds of the pixel `p`, the `count`th of the picture: its
/// three channels, and after them a blank, or a line end after every
/// eleventh pixel.
pub open spec fn entry(p: Pixel, count: nat) -> Seq<u8> {
    triple(p, count % 11 == 0)
}

/// What the file holds of the first `count` pixels.
pub open spec fn entries(tones: Seq<Pixel>, count: nat) -> Seq<u8>
    decreases count,
{
    if count == 0 {
        Seq::empty()
    } else {
        entries(tones, (count - 1) as nat) + entry(tones[count - 1], count)
    }
}

/// The whole file: the heading, the pixels, and a line end.
pub open spec fn text(width: u32, height: u32, intensity: u32, tones: Seq<Pixel>) -> Seq<u8> {
    heading(width, height, intensity) + entries(tones, tones.len()) + seq![10u8]
}

fn push_decimal(out: &mut Vec<u8>, n: u32)
    ensures
        final(out)@ == old(out)@ + digits(n as nat),
    decreases n,
{
    if n >= 10 {
        push_decimal(out, n / 10);
    }
    let d: u8 = (n % 10) as u8;
    out.push(48 + d);
    assert(out@ =~= old(out)@ + digits(n as nat));
}

fn push_triple(out: &mut Vec<u8>, px: Pixel, line_end: bool)
    ensures
        final(out)@ == old(out)@ + triple(px, line_end),
{
    push_decimal(out, px.get_red() as u32);
    out.push(32);
    let ghost one = out@;
    assert(one =~= old(out)@ + (digits(px@.0 as nat) + seq![32u8]));
    push_decimal(out, px.get_green() as u32);
    out.push(32);
    let ghost two = out@;
    assert(two =~= one + (digits(px@.1 as nat) + seq![32u8]));
    push_decimal(out, px.get_blue() as u32);
    out.push(if line_end { 10 } else { 32 });
    assert(out@ =~= two + (digits(px@.2 as nat) + seq![if line_end { 10u8 } else { 32u8 }]));
    assert(out@ =~= old(out)@ + triple(px, line_end));
}

/// A picture to be written out as a plain PPM image: the colour of each
/// pixel, and the greatest value that the file gives a channel.
pub struct PpmPicture {
    intensity: u32,
    grid: Grid,
}

impl PpmPicture {
    /// The grid of colours.
    pub closed spec fn grid(&self) -> Grid {
        self.grid
    }

    /// The greatest value of a channel.
    pub closed spec fn intensity(&self) -> u32 {
        self.intensity
    }

    /// A black picture of `width` by `height` pixels, whose channels go up
    /// to `intensity`.
    pub fn new(width: u32, height: u32, intensity: u32) -> (p: Self)
        ensures
            p.intensity() == intensity,
            p.grid().width() == width,
            p.grid().height() == height,
            p.grid()@ == refitted(Seq::empty(), width as nat, height as nat),
            p.grid().full(),
    {
        Self { intensity, grid: Grid::new(width, height) }
    }

    /// The greatest value of a channel.
    pub fn get_intensity(&self) -> (s: u32)
        ensures
            s == self.intensity(),
    {
        self.intensity
    }

    /// The text of the file for a picture of `width` by `height` whose
    /// pixels are `tones`, row by row. With it comes the count that the
    /// writer reports: the number of pixels.
    pub fn encode(width: u32, height: u32, intensity: u32, tones: &Vec<Pixel>) -> (r: (Vec<u8>, usize))
        ensures
            r.0@ == text(width, height, intensity, tones@),
            r.1 == tones@.len(),
    {
        let mut out: Vec<u8> = Vec::new();
        out.push(80);
        out.push(51);
        out.push(10);
        push_decimal(&mut out, width);
        out.push(32);
        push_decimal(&mut out, height);
        out.push(10);
        push_decimal(&mut out, intensity);
        out.push(10);
        assert(out@ =~= heading(width, height, intensity));
        let mut i: usize = 0;
        let mut num_pixels: usize = 0;
        while num_pixels < tones.len()
            invariant
                num_pixels <= tones@.len(),
                i <= 10,
                i == num_pixels % 11,
                out@ == heading(width, height, intensity) + entries(tones@, num_pixels as nat),
            decreases tones@.len() - num_pixels,
        {
            let px = tones[num_pixels];
            let ghost before = out@;
            i += 1;
            num_pixels += 1;
            if i > 10 {
                push_triple(&mut out, px, true);
                i = 0;
            } else {
                push_triple(&mut out, px, false);
            }
            assert(out@ == before + entry(px, num_pixels as nat));
            assert(out@ =~= heading(width, height, intensity) + entries(tones@, num_pixels as nat));
        }
        out.push(10);
        (out, num_pixels)
    }
}

impl Picture for PpmPicture {
    open spec fn canvas(&self) -> Grid {
        self.grid()
    }

    fn holds(&self, x: u32, y: u32) -> (r: bool) {
        self.grid.contains(x, y)
    }

    fn get_pixel(&self, x: u32, y: u32) -> (c: Color) {
        self.grid.get_pixel(x, y)
    }

    fn set_pixel(&mut self, x: u32, y: u32, pixel: &Color) {
        self.grid.set_pixel(x, y, pixel);
    }

    fn get_width(&self) -> (w: u32) {
        self.grid.get_width()
    }

    fn get_height(&self) -> (h: u32) {
        self.grid.get_height()
    }

    fn resize(&mut self, new_width: u32, new_height: u32) {
        self.grid.resize(new_width, new_height);
    }
}

} // verus!
