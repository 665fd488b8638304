//! Eight-bit RGB pixels.

use vstd::prelude::*;
use crate::vector::Color;

verus! {

/// One pixel of an image: three colour channels of eight bits each.
#[derive(Clone, Copy, Debug)]
pub struct Pixel {
    red: u8,
    green: u8,
    blue: u8,
}

impl Pixel {
    /// The channels as a mathematical triple `(red, green, blue)`.
    pub closed spec fn view(&self) -> (u8, u8, u8) {
        (self.red, self.green, self.blue)
    }

    /// A pixel with the given channels.
    pub fn new(red: u8, green: u8, blue: u8) -> (p: Self)
        ensures
            p@ == (red, green, blue),
    {
        Self { red, green, blue }
    }

    /// The pixel of a colour whose channels have been brought to the range
    /// from 0 to 255: each channel cut to a byte, the way a cast does it.
    pub fn from_color(color: &Color) -> (p: Self)
        ensures
            p@ == (color@[0].cut(255) as u8, color@[1].cut(255) as u8, color@[2].cut(255) as u8),
    {
        Self { red: color.x().to_u8(), green: color.y().to_u8(), blue: color.z().to_u8() }
    }

    /// Replaces the red channel and leaves the other two as they were.
    pub fn set_red(&mut self, val: u8)
        ensures
            final(self)@ == (val, old(self)@.1, old(self)@.2),
    {
        self.red = val;
    }

    /// Replaces the green channel and leaves the other two as they were.
    pub fn set_green(&mut self, val: u8)
        ensures
            final(self)@ == (old(self)@.0, val, old(self)@.2),
    {
        self.green = val;
    }

    /// Replaces the blue channel and leaves the other two as they were.
    pub fn set_blue(&mut self, val: u8)
        ensures
            final(self)@ == (old(self)@.0, old(self)@.1, val),
    {
        self.blue = val;
    }

    /// The red channel.
    pub fn get_red(&self) -> (r: u8)
        ensures
            r == self@.0,
    {
        self.red
    }

    /// The green channel.
    pub fn get_green(&self) -> (g: u8)
        ensures
            g == self@.1,
    {
        self.green
    }

    /// The blue channel.
    pub fn get_blue(&self) -> (b: u8)
        ensures
            b == self@.2,
    {
        self.blue
    }

    /// The channel at `idx`: red at 0, green at 1, blue at 2.
    pub fn get(&self, idx: usize) -> (c: u8)
        requires
            idx < 3,
        ensures
            c == if idx == 0 {
                self@.0
            } else if idx == 1 {
                self@.1
            } else {
                self@.2
            },
    {
        if idx == 0 {
            self.red
        } else if idx == 1 {
            self.green
        } else {
            self.blue
        }
    }

    /// Replaces the channel at `idx` and leaves the other two.
    pub fn set(&mut self, idx: usize, val: u8)
        requires
            idx < 3,
        ensures
            final(self)@ == if idx == 0 {
                (val, old(self)@.1, old(self)@.2)
            } else if idx == 1 {
                (old(self)@.0, val, old(self)@.2)
            } else {
                (old(self)@.0, old(self)@.1, val)
            },
    {
        if idx == 0 {
            self.red = val;
        } else if idx == 1 {
            self.green = val;
        } else {
            self.blue = val;
        }
    }
}

impl Default for Pixel {
    /// Black.
    fn default() -> (p: Self)
        ensures
            p@ == (0u8, 0u8, 0u8),
    {
        Self { red: 0, green: 0, blue: 0 }
    }
}

} // verus!
