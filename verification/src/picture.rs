//! The grid of colours that a frame is gathered in.

use vstd::prelude::*;
use vstd::arithmetic::div_mod::lemma_fundamental_div_mod_converse;
use crate::scalar::Scalar;
use crate::vector::Color;

verus! {

/// One row of a picture.
pub struct Row {
    cols: Vec<Color>,
}

/// Black, the colour of a pixel that nothing was written to.
pub open spec fn blank() -> Color {
    Color::new_spec(Scalar::from_bits_spec(0), Scalar::from_bits_spec(0), Scalar::from_bits_spec(0))
}

/// The row `row` cut or filled up with black to `width` pixels.
pub open spec fn fitted(row: Seq<Color>, width: nat) -> Seq<Color> {
    Seq::new(
        width,
        |i: int|
            if i < row.len() {
                row[i]
            } else {
                blank()
            },
    )
}

/// The rows `rows` cut to `height` rows, or filled up to as many with
/// black rows of `width` pixels. A row that stays keeps its length.
pub open spec fn refitted(rows: Seq<Seq<Color>>, width: nat, height: nat) -> Seq<Seq<Color>> {
    Seq::new(
        height,
        |j: int|
            if j < rows.len() {
                rows[j]
            } else {
                fitted(Seq::empty(), width)
            },
    )
}

impl Row {
    /// The pixels of the row.
    pub closed spec fn view(&self) -> Seq<Color> {
        self.cols@
    }

    /// The number of pixels.
    pub fn len(&self) -> (n: usize)
        ensures
            n == self@.len(),
    {
        self.cols.len()
    }

    /// The pixel at `x`.
    pub fn get(&self, x: usize) -> (c: Color)
        requires
            x < self@.len(),
        ensures
            c == self@[x as int],
    {
        self.cols[x]
    }

    /// Replaces the pixel at `x`.
    pub fn set(&mut self, x: usize, pixel: Color)
        requires
            x < old(self)@.len(),
        ensures
            final(self)@ == old(self)@.update(x as int, pixel),
    {
        self.cols.set(x, pixel);
    }

    /// Cuts the row to `new_width` pixels, or fills it up to as many with
    /// black.
    pub fn resize_width(&mut self, new_width: usize)
        ensures
            final(self)@ == fitted(old(self)@, new_width as nat),
    {
        if new_width <= self.cols.len() {
            self.cols.truncate(new_width);
        } else {
            while self.cols.len() < new_width
                invariant
                    old(self)@.len() <= self.cols@.len() <= new_width,
                    forall|i: int| 0 <= i < old(self)@.len() ==> self.cols@[i] == old(self)@[i],
                    forall|i: int| old(self)@.len() <= i < self.cols@.len() ==> self.cols@[i] == blank(),
                decreases new_width - self.cols@.len(),
            {
                self.cols.push(Color::default());
            }
        }
        assert(self@ =~= fitted(old(self)@, new_width as nat));
    }
}

impl Default for Row {
    /// The row without pixels.
    fn default() -> (r: Self)
        ensures
            r@ == Seq::<Color>::empty(),
    {
        Self { cols: Vec::new() }
    }
}

/// The rows of a picture and the size it is said to have.
pub struct Grid {
    width: u32,
    height: u32,
    rows: Vec<Row>,
}

impl Grid {
    /// The rows, each with its pixels.
    pub closed spec fn view(&self) -> Seq<Seq<Color>> {
        Seq::new(self.rows@.len(), |j: int| self.rows@[j]@)
    }

    /// The width that the picture is said to have.
    pub closed spec fn width(&self) -> u32 {
        self.width
    }

    /// The height that the picture is said to have.
    pub closed spec fn height(&self) -> u32 {
        self.height
    }

    /// Whether the grid has a pixel in column `x` of row `y`.
    pub open spec fn has(&self, x: u32, y: u32) -> bool {
        y < self@.len() && x < self@[y as int].len()
    }

    /// Whether the grid has the size it is said to have: `height` rows of
    /// `width` pixels each.
    pub open spec fn full(&self) -> bool {
        &&& self@.len() == self.height()
        &&& forall|j: int| 0 <= j < self@.len() ==> (#[trigger] self@[j]).len() == self.width()
    }

    /// A black grid of `width` by `height` pixels.
    pub fn new(width: u32, height: u32) -> (g: Self)
        ensures
            g.width() == width,
            g.height() == height,
            g@ == refitted(Seq::empty(), width as nat, height as nat),
            g.full(),
    {
        let mut g = Self { width, height, rows: Vec::new() };
        g.resize(width, height);
        g
    }

    /// Tells whether the grid has a pixel in column `x` of row `y`.
    pub fn contains(&self, x: u32, y: u32) -> (r: bool)
        ensures
            r == self.has(x, y),
    {
        if (y as usize) < self.rows.len() {
            assert(self@[y as int] == self.rows@[y as int]@);
            (x as usize) < self.rows[y as usize].len()
        } else {
            false
        }
    }

    /// The colour in column `x` of row `y`.
    pub fn get_pixel(&self, x: u32, y: u32) -> (c: Color)
        requires
            self.has(x, y),
        ensures
            c == self@[y as int][x as int],
    {
        self.rows[y as usize].get(x as usize)
    }

    /// Writes `pixel` to column `x` of row `y`.
    pub fn set_pixel(&mut self, x: u32, y: u32, pixel: &Color)
        requires
            old(self).has(x, y),
        ensures
            final(self)@ == old(self)@.update(y as int, old(self)@[y as int].update(x as int, *pixel)),
            final(self).width() == old(self).width(),
            final(self).height() == old(self).height(),
            old(self).full() ==> final(self).full(),
    {
        self.rows[y as usize].set(x as usize, *pixel);
        assert(self@ =~= old(self)@.update(y as int, old(self)@[y as int].update(x as int, *pixel)));
    }

    /// The width that the picture is said to have.
    pub fn get_width(&self) -> (w: u32)
        ensures
            w == self.width(),
    {
        self.width
    }

    /// The height that the picture is said to have.
    pub fn get_height(&self) -> (h: u32)
        ensures
            h == self.height(),
    {
        self.height
    }

    /// Gives the picture a new size. Rows beyond the new height are
    /// dropped, and missing rows are added in black at the new width. A
    /// row that stays keeps the pixels and the length it had.
    pub fn resize(&mut self, new_width: u32, new_height: u32)
        ensures
            final(self).width() == new_width,
            final(self).height() == new_height,
            final(self)@ == refitted(old(self)@, new_width as nat, new_height as nat),
    {
        self.width = new_width;
        self.height = new_height;
        let target: usize = new_height as usize;
        if target <= self.rows.len() {
            self.rows.truncate(target);
        } else {
            while self.rows.len() < target
                invariant
                    self.width == new_width,
                    self.height == new_height,
                    target == new_height,
                    old(self).rows@.len() <= self.rows@.len() <= target,
                    forall|j: int| 0 <= j < old(self).rows@.len() ==> self.rows@[j] == old(self).rows@[j],
                    forall|j: int|
                        old(self).rows@.len() <= j < self.rows@.len() ==> (#[trigger] self.rows@[j])@ == fitted(
                            Seq::empty(),
                            new_width as nat,
                        ),
                decreases target - self.rows@.len(),
            {
                let mut r = Row::default();
                r.resize_width(new_width as usize);
                self.rows.push(r);
            }
        }
        assert(self@ =~= refitted(old(self)@, new_width as nat, new_height as nat));
    }
}

/// The place `at` of a stream of rows, each `step` long, lies in the row
/// `row` at the offset `off` where it is `row * step + off`.
pub proof fn lemma_locate(at: int, row: int, off: int, step: int)
    requires
        0 <= off < step,
        at == row * step + off,
    ensures
        at / step == row,
        at % step == off,
{
    lemma_fundamental_div_mod_converse(at, step, row, off);
}

/// What every picture offers, whatever file it is written to in the end.
pub trait Picture {
    /// The grid of colours.
    spec fn canvas(&self) -> Grid;

    /// Tells whether the picture has a pixel in column `x` of row `y`.
    fn holds(&self, x: u32, y: u32) -> (r: bool)
        ensures
            r == self.canvas().has(x, y),
    ;

    /// The colour in column `x` of row `y`.
    fn get_pixel(&self, x: u32, y: u32) -> (c: Color)
        requires
            self.canvas().has(x, y),
        ensures
            c == self.canvas()@[y as int][x as int],
    ;

    /// Writes `pixel` to column `x` of row `y`.
    fn set_pixel(&mut self, x: u32, y: u32, pixel: &Color)
        requires
            old(self).canvas().has(x, y),
        ensures
            final(self).canvas()@ == old(self).canvas()@.update(
                y as int,
                old(self).canvas()@[y as int].update(x as int, *pixel),
            ),
            final(self).canvas().width() == old(self).canvas().width(),
            final(self).canvas().height() == old(self).canvas().height(),
    ;

    /// The width.
    fn get_width(&self) -> (w: u32)
        ensures
            w == self.canvas().width(),
    ;

    /// The height.
    fn get_height(&self) -> (h: u32)
        ensures
            h == self.canvas().height(),
    ;

    /// Gives the picture a new size: see [`Grid::resize`].
    fn resize(&mut self, new_width: u32, new_height: u32)
        ensures
            final(self).canvas().width() == new_width,
            final(self).canvas().height() == new_height,
            final(self).canvas()@ == refitted(old(self).canvas()@, new_width as nat, new_height as nat),
    ;
}

} // verus!
