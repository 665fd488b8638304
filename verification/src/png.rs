//! Pictures that are written out as PNG images.

use vstd::prelude::*;
use crate::picture::{lemma_locate, refitted, Grid, Picture};
use crate::pixel::Pixel;
use crate::vector::Color;

verus! {

/// The channel of `p` that stands at place `c` of its three bytes in the
/// image data: red, then green, then blue.
pub open spec fn channel(p: Pixel, c: int) -> u8 {
    if c == 0 {
        p@.0
    } else if c == 1 {
        p@.1
    } else {
        p@.2
    }
}

/// The byte at place `at` of the image data, where `tones` holds the
/// pixels row by row: the rows follow each other from the last back to the
/// first, each with its pixels in order.
pub open spec fn data_byte(width: u32, height: u32, tones: Seq<Pixel>, at: int) -> u8 {
    let row = height - 1 - at / (3 * width);
    let off = at % (3 * width);
    channel(tones[row * width + off / 3], off % 3)
}

/// Whether a picture can be written out: whether `tones` holds one pixel
/// for each place, and the data is no longer than memory can hold.
pub open spec fn encodable(width: u32, height: u32, tones: Seq<Pixel>) -> bool {
    tones.len() == width * height && 3 * (width * height) <= usize::MAX
}

/// The image data of a picture of `width` by `height`: three bytes to the
/// pixel.
pub open spec fn data(width: u32, height: u32, tones: Seq<Pixel>) -> Seq<u8> {
    Seq::new((3 * (width * height)) as nat, |at: int| data_byte(width, height, tones, at))
}

/// A picture to be written out as a PNG image: the sums of the samples of
/// each pixel, and the number of samples in each sum.
pub struct PngPicture {
    samples: u32,
    grid: Grid,
}

impl PngPicture {
    /// The grid of sums.
    pub closed spec fn grid(&self) -> Grid {
        self.grid
    }

    /// How many samples each sum holds.
    pub closed spec fn samples(&self) -> u32 {
        self.samples
    }

    /// A black picture of `width` by `height` pixels, for sums of `samples`
    /// samples.
    pub fn new(width: u32, height: u32, samples: u32) -> (p: Self)
        ensures
            p.samples() == samples,
            p.grid().width() == width,
            p.grid().height() == height,
            p.grid()@ == refitted(Seq::empty(), width as nat, height as nat),
            p.grid().full(),
    {
        Self { samples, grid: Grid::new(width, height) }
    }

    /// How many samples each sum holds.
    pub fn get_samples(&self) -> (s: u32)
        ensures
            s == self.samples(),
    {
        self.samples
    }

    /// The sum in column `x` of row `y`.
    pub fn get_pixel(&self, x: u32, y: u32) -> (c: Color)
        requires
            self.grid().has(x, y),
        ensures
            c == self.grid()@[y as int][x as int],
    {
        self.grid.get_pixel(x, y)
    }

    /// Writes the sum `pixel` to column `x` of row `y`.
    pub fn set_pixel(&mut self, x: u32, y: u32, pixel: &Color)
        requires
            old(self).grid().has(x, y),
        ensures
            final(self).grid()@ == old(self).grid()@.update(
                y as int,
                old(self).grid()@[y as int].update(x as int, *pixel),
            ),
            final(self).grid().width() == old(self).grid().width(),
            final(self).grid().height() == old(self).grid().height(),
            final(self).samples() == old(self).samples(),
            old(self).grid().full() ==> final(self).grid().full(),
    {
        self.grid.set_pixel(x, y, pixel);
    }

    /// The width.
    pub fn get_width(&self) -> (w: u32)
        ensures
            w == self.grid().width(),
    {
        self.grid.get_width()
    }

    /// The height.
    pub fn get_height(&self) -> (h: u32)
        ensures
            h == self.grid().height(),
    {
        self.grid.get_height()
    }

    /// Gives the picture a new size: see [`Grid::resize`].
    pub fn resize(&mut self, new_width: u32, new_height: u32)
        ensures
            final(self).grid().width() == new_width,
            final(self).grid().height() == new_height,
            final(self).grid()@ == refitted(old(self).grid()@, new_width as nat, new_height as nat),
            final(self).samples() == old(self).samples(),
    {
        self.grid.resize(new_width, new_height);
    }

    /// The image data for a picture of `width` by `height` whose pixels,
    /// brought to eight bits a channel, are `tones`, row by row: what an
    /// encoder for eight-bit RGB is to be fed. With it comes the count of
    /// bytes that the writer reports. Nothing comes back where `tones`
    /// does not hold one pixel for each place, or where the data would be
    /// longer than memory can hold.
    pub fn encode(width: u32, height: u32, tones: &Vec<Pixel>) -> (r: Option<(Vec<u8>, usize)>)
        ensures
            r is Some <==> encodable(width, height, tones@),
            r matches Some(done) ==> done.0@ == data(width, height, tones@) && done.1 == 3 * (width * height),
    {
        assert(width * height <= 0xffff_ffff * 0xffff_ffff) by (nonlinear_arith)
            requires
                0 <= width <= 0xffff_ffff,
                0 <= height <= 0xffff_ffff,
        ;
        let pixels: u64 = width as u64 * height as u64;
        if tones.len() as u64 != pixels {
            return None;
        }
        let total: u128 = 3 * (pixels as u128);
        if total > usize::MAX as u128 {
            return None;
        }
        Some(Self::encode_all(width, height, tones))
    }

    fn encode_all(width: u32, height: u32, tones: &Vec<Pixel>) -> (r: (Vec<u8>, usize))
        requires
            tones@.len() == width * height,
            3 * (width * height) <= usize::MAX,
        ensures
            r.0@ == data(width, height, tones@),
            r.1 == 3 * (width * height),
    {
        let mut out: Vec<u8> = Vec::new();
        let mut bytes_written: usize = 0;
        let w: usize = width as usize;
        let h: usize = height as usize;
        let ghost step = 3 * width;
        let mut done: usize = 0;
        while done < h
            invariant
                done <= h,
                w == width,
                h == height,
                step == 3 * width,
                tones@.len() == width * height,
                3 * (width * height) <= usize::MAX,
                out@.len() == done * step,
                bytes_written == done * step,
                forall|at: int| 0 <= at < done * step ==> out@[at] == data_byte(width, height, tones@, at),
            decreases h - done,
        {
            let row: usize = h - 1 - done;
            assert((done + 1) * step <= 3 * (width * height)) by (nonlinear_arith)
                requires
                    done < height,
                    step == 3 * width,
            ;
            assert((done + 1) * step == done * step + step) by (nonlinear_arith);
            assert((row + 1) * width <= width * height) by (nonlinear_arith)
                requires
                    row < height,
                    width >= 0,
            ;
            assert((row + 1) * width == row * width + width) by (nonlinear_arith);
            let mut col: usize = 0;
            while col < w
                invariant
                    done < h,
                    row == h - 1 - done,
                    col <= w,
                    w == width,
                    h == height,
                    step == 3 * width,
                    tones@.len() == width * height,
                    3 * (width * height) <= usize::MAX,
                    (done + 1) * step <= 3 * (width * height),
                    (done + 1) * step == done * step + step,
                    (row + 1) * width <= width * height,
                    (row + 1) * width == row * width + width,
                    out@.len() == done * step + 3 * col,
                    bytes_written == done * step + 3 * col,
                    forall|at: int| 0 <= at < done * step + 3 * col ==> out@[at] == data_byte(width, height, tones@, at),
                decreases w - col,
            {
                let px = tones[row * w + col];
                let ghost base = done * step + 3 * col;
                let ghost before = out@;
                proof {
                    lemma_locate(base, done as int, 3 * col, step);
                    lemma_locate(base + 1, done as int, 3 * col + 1, step);
                    lemma_locate(base + 2, done as int, 3 * col + 2, step);
                    lemma_locate(3 * col, col as int, 0, 3);
                    lemma_locate(3 * col + 1, col as int, 1, 3);
                    lemma_locate(3 * col + 2, col as int, 2, 3);
                }
                out.push(px.get_red());
                out.push(px.get_green());
                out.push(px.get_blue());
                bytes_written = bytes_written + 3;
                proof {
                    assert forall|at: int| 0 <= at < base + 3 implies out@[at] == data_byte(width, height, tones@, at) by {
                        if at < base {
                            assert(out@[at] == before[at]);
                        }
                    }
                }
                col += 1;
            }
            done += 1;
        }
        proof {
            assert(done * step == 3 * (width * height)) by (nonlinear_arith)
                requires
                    done == height,
                    step == 3 * width,
            ;
            assert(out@ =~= data(width, height, tones@));
        }
        (out, bytes_written)
    }
}

impl Picture for PngPicture {
    open spec fn canvas(&self) -> Grid {
        self.grid()
    }

    fn holds(&self, x: u32, y: u32) -> (r: bool) {
        self.grid.contains(x, y)
    }

    fn get_pixel(&self, x: u32, y: u32) -> (c: Color) {
        self.grid.get_pixel(x, y)
    }

    fn set_pixel(&mut self, x: u32, y: u32, pixel: &Color) {
        self.grid.set_pixel(x, y, pixel);
    }

    fn get_width(&self) -> (w: u32) {
        self.grid.get_width()
    }

    fn get_height(&self) -> (h: u32) {
        self.grid.get_height()
    }

    fn resize(&mut self, new_width: u32, new_height: u32) {
        self.grid.resize(new_width, new_height);
    }
}

} // verus!
