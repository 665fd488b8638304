//! Pictures that are written out as Windows bitmaps.

use vstd::prelude::*;
use crate::picture::{lemma_locate, refitted, Grid, Picture};
use crate::pixel::Pixel;
use crate::vector::Color;

verus! {

/// The length of the two headers of a bitmap file.
pub const HEADER_BYTES: usize = 54;

/// The four bytes of `x`, the lowest first.
pub open spec fn le32(x: u32) -> Seq<u8> {
    seq![
        (x % 256) as u8,
        ((x / 256) % 256) as u8,
        ((x / 65536) % 256) as u8,
        ((x / 16777216) % 256) as u8,
    ]
}

/// The two bytes of `x`, the lower first.
pub open spec fn le16(x: u16) -> Seq<u8> {
    seq![(x % 256) as u8, ((x / 256) % 256) as u8]
}

/// The file header and the info header of a bitmap of `width` by `height`
/// pixels with 24 bits to the pixel. Every field stands with its lowest
/// byte first: the signature `BM`; the size, which is given as 14; two
/// reserved fields; the offset, given as 14 too; then the length 40 of the
/// info header, the width, the height, one plane, 24 bits, no compression,
/// no image size, a resolution of one by one, and no colour table.
pub open spec fn headers(width: u32, height: u32) -> Seq<u8> {
    le16(0x4d42) + le32(14) + le16(0) + le16(0) + le32(14) + le32(40) + le32(width) + le32(height) + le16(1)
        + le16(24) + le32(0) + le32(0) + le32(1) + le32(1) + le32(0) + le32(0)
}

/// How many bytes of zeros follow the pixels of a row, to make its length
/// a multiple of four.
pub open spec fn row_padding(width: u32) -> int {
    if (3 * width) % 4 == 0 {
        0
    } else {
        4 - (3 * width) % 4
    }
}

/// The length of a row in the file: three bytes to the pixel, and the
/// padding.
pub open spec fn stride(width: u32) -> int {
    3 * width + row_padding(width)
}

/// The channel of `p` that stands at place `c` of its three bytes in the
/// file: blue, then green, then red.
pub open spec fn channel(p: Pixel, c: int) -> u8 {
    if c == 0 {
        p@.2
    } else if c == 1 {
        p@.1
    } else {
        p@.0
    }
}

/// The byte at place `at` of the pixel data, where `tones` holds the
/// pixels row by row: the rows follow each other from the first on, each
/// with its pixels in order and then its padding.
pub open spec fn data_byte(width: u32, tones: Seq<Pixel>, at: int) -> u8 {
    let row = at / stride(width);
    let off = at % stride(width);
    if off < 3 * width {
        channel(tones[row * width + off / 3], off % 3)
    } else {
        0
    }
}

/// Whether a picture can be written out: whether `tones` holds one pixel
/// for each place, and the file is no longer than memory can hold.
pub open spec fn encodable(width: u32, height: u32, tones: Seq<Pixel>) -> bool {
    tones.len() == width * height && HEADER_BYTES + height * stride(width) <= usize::MAX
}

/// The whole file: the headers and the pixel data.
pub open spec fn file(width: u32, height: u32, tones: Seq<Pixel>) -> Seq<u8> {
    headers(width, height) + Seq::new((height * stride(width)) as nat, |at: int| data_byte(width, tones, at))
}

fn push_le32(out: &mut Vec<u8>, x: u32)
    ensures
        final(out)@ == old(out)@ + le32(x),
{
    let b0: u8 = (x & 0xff) as u8;
    let b1: u8 = ((x >> 8) & 0xff) as u8;
    let b2: u8 = ((x >> 16) & 0xff) as u8;
    let b3: u8 = ((x >> 24) & 0xff) as u8;
    assert(x & 0xff == x % 256 && (x >> 8) & 0xff == (x / 256) % 256 && (x >> 16) & 0xff == (x / 65536) % 256 && (x
        >> 24) & 0xff == (x / 16777216) % 256) by (bit_vector);
    out.push(b0);
    out.push(b1);
    out.push(b2);
    out.push(b3);
    assert(out@ =~= old(out)@ + le32(x));
}

fn push_le16(out: &mut Vec<u8>, x: u16)
    ensures
        final(out)@ == old(out)@ + le16(x),
{
    let b0: u8 = (x & 0xff) as u8;
    let b1: u8 = ((x >> 8) & 0xff) as u8;
    assert(x & 0xff == x % 256 && (x >> 8) & 0xff == (x / 256) % 256) by (bit_vector);
    out.push(b0);
    out.push(b1);
    assert(out@ =~= old(out)@ + le16(x));
}

/// A picture to be written out as a bitmap: the sums of the samples of
/// each pixel, and the number of samples in each sum.
pub struct BmpPicture {
    samples: u32,
    grid: Grid,
}

impl BmpPicture {
    /// The grid of sums.
    pub closed spec fn grid(&self) -> Grid {
        self.grid
    }

    /// How many samples each sum holds.
    pub closed spec fn samples(&self) -> u32 {
        self.samples
    }

    /// A black picture of `width` by `height` pixels, for sums of `samples`
    /// samples.
    pub fn new(width: u32, height: u32, samples: u32) -> (p: Self)
        ensures
            p.samples() == samples,
            p.grid().width() == width,
            p.grid().height() == height,
            p.grid()@ == refitted(Seq::empty(), width as nat, height as nat),
            p.grid().full(),
    {
        Self { samples, grid: Grid::new(width, height) }
    }

    /// How many samples each sum holds.
    pub fn get_samples(&self) -> (s: u32)
        ensures
            s == self.samples(),
    {
        self.samples
    }

    /// The sum in column `x` of row `y`.
    pub fn get_pixel(&self, x: u32, y: u32) -> (c: Color)
        requires
            self.grid().has(x, y),
        ensures
            c == self.grid()@[y as int][x as int],
    {
        self.grid.get_pixel(x, y)
    }

    /// Writes the sum `pixel` to column `x` of row `y`.
    pub fn set_pixel(&mut self, x: u32, y: u32, pixel: &Color)
        requires
            old(self).grid().has(x, y),
        ensures
            final(self).grid()@ == old(self).grid()@.update(
                y as int,
                old(self).grid()@[y as int].update(x as int, *pixel),
            ),
            final(self).grid().width() == old(self).grid().width(),
            final(self).grid().height() == old(self).grid().height(),
            final(self).samples() == old(self).samples(),
            old(self).grid().full() ==> final(self).grid().full(),
    {
        self.grid.set_pixel(x, y, pixel);
    }

    /// The width.
    pub fn get_width(&self) -> (w: u32)
        ensures
            w == self.grid().width(),
    {
        self.grid.get_width()
    }

    /// The height.
    pub fn get_height(&self) -> (h: u32)
        ensures
            h == self.grid().height(),
    {
        self.grid.get_height()
    }

    /// Gives the picture a new size: see [`Grid::resize`].
    pub fn resize(&mut self, new_width: u32, new_height: u32)
        ensures
            final(self).grid().width() == new_width,
            final(self).grid().height() == new_height,
            final(self).grid()@ == refitted(old(self).grid()@, new_width as nat, new_height as nat),
            final(self).samples() == old(self).samples(),
    {
        self.grid.resize(new_width, new_height);
    }

    /// The headers of the file for a picture of `width` by `height`.
    pub fn header(width: u32, height: u32) -> (out: Vec<u8>)
        ensures
            out@ == headers(width, height),
            out@.len() == HEADER_BYTES,
    {
        let mut out: Vec<u8> = Vec::with_capacity(HEADER_BYTES);
        push_le16(&mut out, 0x4d42);
        push_le32(&mut out, 14);
        push_le16(&mut out, 0);
        push_le16(&mut out, 0);
        push_le32(&mut out, 14);
        push_le32(&mut out, 40);
        push_le32(&mut out, width);
        push_le32(&mut out, height);
        push_le16(&mut out, 1);
        push_le16(&mut out, 24);
        push_le32(&mut out, 0);
        push_le32(&mut out, 0);
        push_le32(&mut out, 1);
        push_le32(&mut out, 1);
        push_le32(&mut out, 0);
        push_le32(&mut out, 0);
        assert(out@ =~= headers(width, height));
        out
    }

    /// The number of zero bytes after the pixels of each row.
    pub fn padding(width: u32) -> (pad: usize)
        ensures
            pad == row_padding(width),
            pad < 4,
    {
        let row_bytes: u64 = width as u64 * 3;
        if row_bytes % 4 != 0 {
            (4 - row_bytes % 4) as usize
        } else {
            0
        }
    }

    /// The bytes of the file for a picture of `width` by `height` whose
    /// pixels, brought to eight bits a channel, are `tones`, row by row.
    /// With them comes the count of bytes that the writer reports: the
    /// headers and three bytes to the pixel, the padding left out.
    /// Nothing comes back where `tones` does not hold one pixel for each
    /// place, or where the file would be longer than memory can hold.
    pub fn encode(width: u32, height: u32, tones: &Vec<Pixel>) -> (r: Option<(Vec<u8>, usize)>)
        ensures
            r is Some <==> encodable(width, height, tones@),
            r matches Some(done) ==> done.0@ == file(width, height, tones@) && done.1 == HEADER_BYTES + 3 * (width
                * height),
    {
        let pad: usize = Self::padding(width);
        assert(width * height <= 0xffff_ffff * 0xffff_ffff) by (nonlinear_arith)
            requires
                0 <= width <= 0xffff_ffff,
                0 <= height <= 0xffff_ffff,
        ;
        let pixels: u64 = width as u64 * height as u64;
        if tones.len() as u64 != pixels {
            return None;
        }
        let step: u128 = 3 * (width as u128) + pad as u128;
        assert(height * step <= 0xffff_ffff * step) by (nonlinear_arith)
            requires
                0 <= height <= 0xffff_ffff,
                0 <= step,
        ;
        let total: u128 = HEADER_BYTES as u128 + height as u128 * step;
        if total > usize::MAX as u128 {
            return None;
        }
        Some(Self::encode_all(width, height, tones))
    }

    fn encode_all(width: u32, height: u32, tones: &Vec<Pixel>) -> (r: (Vec<u8>, usize))
        requires
            tones@.len() == width * height,
            HEADER_BYTES + height * stride(width) <= usize::MAX,
        ensures
            r.0@ == file(width, height, tones@),
            r.1 == HEADER_BYTES + 3 * (width * height),
    {
        let pad: usize = Self::padding(width);
        let mut out = Self::header(width, height);
        let mut bytes_written: usize = out.len();
        let ghost step = stride(width);
        let w: usize = width as usize;
        let h: usize = height as usize;
        let mut row: usize = 0;
        assert(3 * (width * height) <= height * step) by (nonlinear_arith)
            requires
                step >= 3 * width,
                width >= 0,
                height >= 0,
        ;
        while row < h
            invariant
                row <= h,
                w == width,
                h == height,
                pad == row_padding(width),
                step == stride(width),
                tones@.len() == width * height,
                HEADER_BYTES + height * step <= usize::MAX,
                out@.len() == HEADER_BYTES + row * step,
                bytes_written == HEADER_BYTES + 3 * (row * width),
                3 * (row * width) <= row * step,
                forall|i: int| 0 <= i < HEADER_BYTES ==> out@[i] == headers(width, height)[i],
                forall|at: int| 0 <= at < row * step ==> out@[HEADER_BYTES + at] == data_byte(width, tones@, at),
            decreases h - row,
        {
            assert((row + 1) * step <= height * step) by (nonlinear_arith)
                requires
                    row < height,
                    step >= 0,
            ;
            assert((row + 1) * step == row * step + step) by (nonlinear_arith);
            assert((row + 1) * width <= width * height) by (nonlinear_arith)
                requires
                    row < height,
                    width >= 0,
            ;
            assert((row + 1) * width == row * width + width) by (nonlinear_arith);
            assert(3 * ((row + 1) * width) <= (row + 1) * step) by (nonlinear_arith)
                requires
                    step >= 3 * width,
                    row >= 0,
            ;
            let mut col: usize = 0;
            while col < w
                invariant
                    row < h,
                    col <= w,
                    w == width,
                    h == height,
                    pad == row_padding(width),
                    step == stride(width),
                    tones@.len() == width * height,
                    HEADER_BYTES + height * step <= usize::MAX,
                    (row + 1) * step <= height * step,
                    (row + 1) * step == row * step + step,
                    (row + 1) * width <= width * height,
                    (row + 1) * width == row * width + width,
                    out@.len() == HEADER_BYTES + row * step + 3 * col,
                    bytes_written == HEADER_BYTES + 3 * (row * width) + 3 * col,
                    3 * (row * width) <= row * step,
                    forall|i: int| 0 <= i < HEADER_BYTES ==> out@[i] == headers(width, height)[i],
                    forall|at: int|
                        0 <= at < row * step + 3 * col ==> out@[HEADER_BYTES + at] == data_byte(width, tones@, at),
                decreases w - col,
            {
                let px = tones[row * w + col];
                let ghost base = row * step + 3 * col;
                let ghost before = out@;
                proof {
                    lemma_locate(base, row as int, 3 * col, step);
                    lemma_locate(base + 1, row as int, 3 * col + 1, step);
                    lemma_locate(base + 2, row as int, 3 * col + 2, step);
                    lemma_locate(3 * col, col as int, 0, 3);
                    lemma_locate(3 * col + 1, col as int, 1, 3);
                    lemma_locate(3 * col + 2, col as int, 2, 3);
                }
                out.push(px.get_blue());
                out.push(px.get_green());
                out.push(px.get_red());
                bytes_written = bytes_written + 3;
                proof {
                    assert forall|at: int| 0 <= at < base + 3 implies out@[HEADER_BYTES + at] == data_byte(
                        width,
                        tones@,
                        at,
                    ) by {
                        if at < base {
                            assert(out@[HEADER_BYTES + at] == before[HEADER_BYTES + at]);
                        }
                    }
                }
                col += 1;
            }
            let mut fill: usize = 0;
            while fill < pad
                invariant
                    row < h,
                    fill <= pad,
                    w == width,
                    pad == row_padding(width),
                    step == stride(width),
                    HEADER_BYTES + height * step <= usize::MAX,
                    (row + 1) * step <= height * step,
                    (row + 1) * step == row * step + step,
                    out@.len() == HEADER_BYTES + row * step + 3 * w + fill,
                    forall|i: int| 0 <= i < HEADER_BYTES ==> out@[i] == headers(width, height)[i],
                    forall|at: int|
                        0 <= at < row * step + 3 * w + fill ==> out@[HEADER_BYTES + at] == data_byte(width, tones@, at),
                decreases pad - fill,
            {
                let ghost base = row * step + 3 * w + fill;
                let ghost before = out@;
                proof {
                    lemma_locate(base, row as int, 3 * w + fill, step);
                }
                out.push(0);
                proof {
                    assert forall|at: int| 0 <= at < base + 1 implies out@[HEADER_BYTES + at] == data_byte(
                        width,
                        tones@,
                        at,
                    ) by {
                        if at < base {
                            assert(out@[HEADER_BYTES + at] == before[HEADER_BYTES + at]);
                        }
                    }
                }
                fill += 1;
            }
            row += 1;
        }
        proof {
            assert(row * width == width * height) by (nonlinear_arith)
                requires
                    row == height,
            ;
            assert(row * step == height * step) by (nonlinear_arith)
                requires
                    row == height,
            ;
            assert(out@ =~= file(width, height, tones@));
        }
        (out, bytes_written)
    }
}

impl Picture for BmpPicture {
    open spec fn canvas(&self) -> Grid {
        self.grid()
    }

    fn holds(&self, x: u32, y: u32) -> (r: bool) {
        self.grid.contains(x, y)
    }

    fn get_pixel(&self, x: u32, y: u32) -> (c: Color) {
        self.grid.get_pixel(x, y)
    }

    fn set_pixel(&mut self, x: u32, y: u32, pixel: &Color) {
        self.grid.set_pixel(x, y, pixel);
    }

    fn get_width(&self) -> (w: u32) {
        self.grid.get_width()
    }

    fn get_height(&self) -> (h: u32) {
        self.grid.get_height()
    }

    fn resize(&mut self, new_width: u32, new_height: u32) {
        self.grid.resize(new_width, new_height);
    }
}

} // verus!
