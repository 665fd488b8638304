//! Textures: what colour a surface has at a point.

use vstd::prelude::*;
use std::sync::Arc;
use crate::perlin::{is_permutation, Perlin, POINT_COUNT};
use crate::scalar::{Scalar, ONE_BITS};
use crate::vector::{Color, Vec3};

verus! {

/// One colour everywhere.
#[derive(Clone, Copy, Debug)]
pub struct SolidColor {
    color_value: Color,
}

impl SolidColor {
    /// The colour.
    pub closed spec fn view(&self) -> Color {
        self.color_value
    }

    /// The texture of the given colour.
    pub fn new(color_value: Color) -> (t: Self)
        ensures
            t@ == color_value,
    {
        Self { color_value }
    }

    /// The texture of the colour with the given red, green and blue.
    pub fn from_rgb(r: Scalar, g: Scalar, b: Scalar) -> (t: Self)
        ensures
            t@@ == seq![r, g, b],
    {
        Self { color_value: Color::new(r, g, b) }
    }

    /// The colour at the surface coordinates `(u, v)` and the point `point`:
    /// the same everywhere.
    pub fn value(&self, u: Scalar, v: Scalar, point: &Vec3) -> (c: Color)
        ensures
            c == self@,
    {
        self.color_value
    }
}

impl Default for SolidColor {
    /// Black.
    fn default() -> (t: Self)
        ensures
            t@@ == seq![Scalar::from_bits_spec(0), Scalar::from_bits_spec(0), Scalar::from_bits_spec(0)],
    {
        Self { color_value: Color::default() }
    }
}

/// Two textures that alternate in a three-dimensional chequered pattern.
pub struct CheckeredTexture {
    odd: Arc<Texture>,
    even: Arc<Texture>,
}

impl CheckeredTexture {
    /// The texture of the cells where the pattern's sign is negative.
    pub closed spec fn odd_texture(&self) -> Texture {
        *self.odd
    }

    /// The texture of the other cells.
    pub closed spec fn even_texture(&self) -> Texture {
        *self.even
    }

    /// The pattern of the two textures.
    pub fn new(odd: Arc<Texture>, even: Arc<Texture>) -> (t: Self)
        ensures
            t.odd_texture() == *odd,
            t.even_texture() == *even,
    {
        Self { odd, even }
    }

    /// The pattern of two plain colours.
    pub fn new_color(odd: Vec3, even: Vec3) -> (t: Self)
        ensures
            t.odd_texture() matches Texture::Solid(s) && s@ == odd,
            t.even_texture() matches Texture::Solid(s) && s@ == even,
    {
        let odd = Arc::new(Texture::Solid(SolidColor::new(odd)));
        let even = Arc::new(Texture::Solid(SolidColor::new(even)));
        Self::new(odd, even)
    }

    /// The texture that colours a point, given the product `sines` of the
    /// sines of its scaled coordinates: the odd one where the product is
    /// negative, the even one elsewhere (also where it is a NaN).
    pub fn select(&self, sines: Scalar) -> (t: &Texture)
        ensures
            *t == if sines.precedes(Scalar::from_bits_spec(0)) {
                self.odd_texture()
            } else {
                self.even_texture()
            },
    {
        if sines.lt(&Scalar::zero()) {
            &self.odd
        } else {
            &self.even
        }
    }
}

/// A texture of Perlin noise.
pub struct NoiseTexture {
    perlin: Perlin,
}

impl NoiseTexture {
    /// The noise lattice.
    pub closed spec fn view(&self) -> Perlin {
        self.perlin
    }

    /// A noise over the given 256 lattice values, with three fresh random
    /// permutations.
    pub fn new(ranfloat: [Scalar; POINT_COUNT]) -> (t: Self)
        ensures
            t@.values() == ranfloat@,
            is_permutation(t@.permutation(0)) && t@.permutation(0).len() == POINT_COUNT,
            is_permutation(t@.permutation(1)) && t@.permutation(1).len() == POINT_COUNT,
            is_permutation(t@.permutation(2)) && t@.permutation(2).len() == POINT_COUNT,
    {
        Self { perlin: Perlin::new(ranfloat) }
    }

    /// The noise lattice.
    pub fn perlin(&self) -> (p: &Perlin)
        ensures
            *p == self@,
    {
        &self.perlin
    }
}

/// A texture read from a raster image, row by row from the top.
pub struct ImageTexture {
    data: Vec<Color>,
    width: usize,
    height: usize,
    bytes_per_scanline: usize,
}

impl ImageTexture {
    /// The texels, row after row.
    pub closed spec fn texels(&self) -> Seq<Color> {
        self.data@
    }

    /// The number of texels in a row.
    pub closed spec fn columns(&self) -> usize {
        self.width
    }

    /// The number of rows.
    pub closed spec fn rows(&self) -> usize {
        self.height
    }

    /// The length of a row as the image's source counted it.
    pub closed spec fn scanline(&self) -> usize {
        self.bytes_per_scanline
    }

    /// An image can be sampled when it is empty, or has at least one column
    /// and one row and a texel for each place.
    pub open spec fn well_formed(&self) -> bool {
        self.texels().len() == 0 || (self.columns() > 0 && self.rows() > 0 && self.columns()
            * self.rows() <= self.texels().len())
    }

    /// The colour of an image without texels.
    pub open spec fn missing() -> Seq<Scalar> {
        seq![Scalar::from_bits_spec(0), Scalar::from_bits_spec(ONE_BITS), Scalar::from_bits_spec(ONE_BITS)]
    }

    /// The texel in column `i` of row `j`, where a column or row past the
    /// last counts as the last.
    pub open spec fn texel(&self, i: usize, j: usize) -> Color {
        let column = if i >= self.columns() { self.columns() - 1 } else { i as int };
        let row = if j >= self.rows() { self.rows() - 1 } else { j as int };
        self.texels()[row * self.columns() + column]
    }

    /// An image of `width` by `height` texels.
    pub fn new(data: Vec<Color>, width: usize, height: usize, bytes_per_scanline: usize) -> (t: Self)
        ensures
            t.texels() == data@,
            t.columns() == width,
            t.rows() == height,
            t.scanline() == bytes_per_scanline,
    {
        Self { data, width, height, bytes_per_scanline }
    }

    /// The number of texels in a row.
    pub fn width(&self) -> (w: usize)
        ensures
            w == self.columns(),
    {
        self.width
    }

    /// The number of rows.
    pub fn height(&self) -> (h: usize)
        ensures
            h == self.rows(),
    {
        self.height
    }

    /// The length of a row as the image's source counted it.
    pub fn bytes_per_scanline(&self) -> (n: usize)
        ensures
            n == self.scanline(),
    {
        self.bytes_per_scanline
    }

    /// The texels, row after row.
    pub fn data(&self) -> (d: &Vec<Color>)
        ensures
            d@ == self.texels(),
    {
        &self.data
    }

    /// Whether the image can be sampled.
    pub fn is_well_formed(&self) -> (r: bool)
        ensures
            r == self.well_formed(),
    {
        if self.data.len() == 0 {
            return true;
        }
        if self.width == 0 || self.height == 0 {
            return false;
        }
        match self.width.checked_mul(self.height) {
            Some(n) => n <= self.data.len(),
            None => false,
        }
    }

    /// The colour of the texel in column `i` of row `j`, clamped to the
    /// image; of an image without texels, cyan.
    pub fn value(&self, i: usize, j: usize) -> (c: Color)
        requires
            self.well_formed(),
        ensures
            self.texels().len() == 0 ==> c@ == Self::missing(),
            self.texels().len() > 0 ==> c == self.texel(i, j),
    {
        if self.data.len() == 0 {
            return Color::new(Scalar::zero(), Scalar::one(), Scalar::one());
        }
        let mut i = i;
        let mut j = j;
        if i >= self.width {
            i = self.width - 1;
        }
        if j >= self.height {
            j = self.height - 1;
        }
        assert(j * self.width + i < self.width * self.height) by (nonlinear_arith)
            requires
                i < self.width,
                j < self.height,
        ;
        self.data[j * self.width + i]
    }
}

/// A texture: one of the four kinds.
pub enum Texture {
    /// One colour everywhere.
    Solid(SolidColor),
    /// Two textures in a chequered pattern.
    Checkered(CheckeredTexture),
    /// Perlin noise.
    Noise(NoiseTexture),
    /// A raster image.
    Image(ImageTexture),
}

} // verus!
