//! A rectangular grid of colors and its export as plain-text PPM.
//!
//! The canvas stores colors as they are. For the export each channel is
//! scaled by 255, rounded to the nearest integer and clamped to `0..=255`.

use vstd::prelude::*;
use crate::arithmetic::{nearest_of, product, steady, Arithmetic};
use crate::color::Color;
use crate::error::Error;
use crate::grid::lemma_index_in_grid;
use crate::lines::{lemma_picture_lines_fit, lines_fit};
use crate::ppm::{data_text, header_text, ppm_text, write_data, write_header, ScaledColor};
use crate::scalar::Scalar;

verus! {

/// A 2D grid of pixels, stored row by row from the top.
pub struct Canvas {
    width: usize,
    height: usize,
    pixels: Vec<Color>,
}

/// What a canvas holds: its size and its pixels, row by row.
pub struct CanvasView {
    pub width: nat,
    pub height: nat,
    pub pixels: Seq<Color>,
}

impl CanvasView {
    /// There is one pixel for each position.
    pub open spec fn wf(self) -> bool {
        self.pixels.len() == self.width * self.height
    }

    /// Where the pixel of column `x` and row `y` stands in `pixels`.
    pub open spec fn index_of(self, x: int, y: int) -> int {
        y * self.width + x
    }

    /// The pixel of column `x` and row `y`.
    pub open spec fn at(self, x: int, y: int) -> Color {
        self.pixels[self.index_of(x, y)]
    }
}

impl View for Canvas {
    type V = CanvasView;

    closed spec fn view(&self) -> CanvasView {
        CanvasView {
            width: self.width as nat,
            height: self.height as nat,
            pixels: self.pixels@,
        }
    }
}

impl Canvas {
    /// There is one pixel for each position.
    #[verifier::type_invariant]
    closed spec fn inv(self) -> bool {
        self.pixels@.len() == self.width * self.height
    }

    /// Creates a black canvas of the given size.
    pub fn new(width: usize, height: usize) -> (r: Canvas)
        requires
            width * height <= usize::MAX,
        ensures
            r@.wf(),
            r@.width == width,
            r@.height == height,
            r@.pixels == Seq::new((width * height) as nat, |i: int| Color::gray(Scalar::spec_zero())),
    {
        let count: usize = width * height;
        let mut pixels: Vec<Color> = Vec::new();
        let mut i: usize = 0;
        while i < count
            invariant
                i <= count,
                pixels@ == Seq::new(i as nat, |k: int| Color::gray(Scalar::spec_zero())),
            decreases count - i,
        {
            pixels.push(crate::color::black());
            i += 1;
            assert(pixels@ =~= Seq::new(i as nat, |k: int| Color::gray(Scalar::spec_zero())));
        }
        Canvas { width, height, pixels }
    }

    /// Creates the canvas of the given size that holds `pixels`, row by
    /// row from the top.
    pub fn from_pixels(width: usize, height: usize, pixels: Vec<Color>) -> (r: Canvas)
        requires
            pixels@.len() == width * height,
        ensures
            r@.wf(),
            r@ == (CanvasView { width: width as nat, height: height as nat, pixels: pixels@ }),
    {
        Canvas { width, height, pixels }
    }

    pub fn width(&self) -> (r: usize)
        ensures
            r == self@.width,
            self@.wf(),
    {
        proof {
            use_type_invariant(self);
        }
        self.width
    }

    pub fn height(&self) -> (r: usize)
        ensures
            r == self@.height,
            self@.wf(),
    {
        proof {
            use_type_invariant(self);
        }
        self.height
    }

    /// The pixel of column `x` and row `y`, which the canvas has.
    pub fn pixel(&self, x: usize, y: usize) -> (r: &Color)
        requires
            x < self@.width,
            y < self@.height,
        ensures
            *r == self@.at(x as int, y as int),
    {
        proof {
            use_type_invariant(self);
            lemma_index_in_grid(self.width as nat, self.height as nat, x as nat, y as nat);
            assert(y * self.width + x < self.pixels.len() <= usize::MAX);
        }
        &self.pixels[y * self.width + x]
    }

    /// The pixel of column `x` and row `y`, if the canvas has it.
    pub fn get(&self, x: usize, y: usize) -> (r: Result<&Color, Error>)
        ensures
            match r {
                Ok(color) => x < self@.width && y < self@.height && *color == self@.at(
                    x as int,
                    y as int,
                ),
                Err(e) => !(x < self@.width && y < self@.height) && e == Error::IndexOutOfRange,
            },
    {
        if x < self.width && y < self.height {
            Ok(self.pixel(x, y))
        } else {
            Err(Error::IndexOutOfRange)
        }
    }

    /// Stores `color` at column `x` and row `y`, if the canvas has that
    /// pixel; every other pixel stays. Where it has no such pixel, the
    /// canvas stays as it is.
    pub fn set(&mut self, x: usize, y: usize, color: &Color) -> (done: Result<(), Error>)
        ensures
            final(self)@.wf(),
            final(self)@.width == old(self)@.width,
            final(self)@.height == old(self)@.height,
            x < old(self)@.width && y < old(self)@.height ==> done.is_ok() && final(self)@.pixels
                == old(self)@.pixels.update(old(self)@.index_of(x as int, y as int), *color),
            !(x < old(self)@.width && y < old(self)@.height) ==> done == Err::<(), Error>(
                Error::IndexOutOfRange,
            ) && final(self)@ == old(self)@,
    {
        proof {
            use_type_invariant(&*self);
        }
        if x < self.width && y < self.height {
            proof {
                lemma_index_in_grid(self.width as nat, self.height as nat, x as nat, y as nat);
                assert(y * self.width + x < self.pixels.len() <= usize::MAX);
            }
            let index: usize = y * self.width + x;
            let mut taken = Canvas { width: 0, height: 0, pixels: Vec::new() };
            core::mem::swap(self, &mut taken);
            let Canvas { width, height, mut pixels } = taken;
            pixels.set(index, *color);
            *self = Canvas { width, height, pixels };
            Ok(())
        } else {
            Err(Error::IndexOutOfRange)
        }
    }

    /// Sets every pixel to `color`.
    pub fn fill(&mut self, color: &Color)
        ensures
            final(self)@.wf(),
            final(self)@.width == old(self)@.width,
            final(self)@.height == old(self)@.height,
            final(self)@.pixels == Seq::new(old(self)@.pixels.len(), |i: int| *color),
    {
        proof {
            use_type_invariant(&*self);
        }
        let mut taken = Canvas { width: 0, height: 0, pixels: Vec::new() };
        core::mem::swap(self, &mut taken);
        let Canvas { width, height, mut pixels } = taken;
        let count: usize = pixels.len();
        let mut i: usize = 0;
        while i < count
            invariant
                i <= count,
                count == pixels@.len(),
                forall|k: int| 0 <= k < i ==> pixels@[k] == *color,
            decreases count - i,
        {
            pixels.set(i, *color);
            i += 1;
        }
        assert(pixels@ =~= Seq::new(count as nat, |k: int| *color));
        *self = Canvas { width, height, pixels };
    }
}

/// The pattern of the number 255.
pub const FULL_BITS: u64 = 0x406F_E000_0000_0000;

/// The color scaled for the picture: each channel times 255, brought to the
/// nearest integer.
pub open spec fn scaled<A: Arithmetic>(color: Color, ops: &A) -> ScaledColor {
    ScaledColor {
        red: nearest_of(ops, product(ops, color.red, Scalar { bits: FULL_BITS })),
        green: nearest_of(ops, product(ops, color.green, Scalar { bits: FULL_BITS })),
        blue: nearest_of(ops, product(ops, color.blue, Scalar { bits: FULL_BITS })),
    }
}

impl CanvasView {
    /// The scaled color of every pixel, row by row.
    pub open spec fn samples<A: Arithmetic>(self, ops: &A) -> Seq<ScaledColor> {
        Seq::new(self.pixels.len(), |i: int| scaled(self.pixels[i], ops))
    }
}

/// Scales a color for the picture.
pub fn scale_color<A: Arithmetic>(color: &Color, ops: &A) -> (r: ScaledColor)
    requires
        steady(ops),
    ensures
        r == scaled(*color, ops),
{
    let full = Scalar::from_bits(FULL_BITS);
    ScaledColor {
        red: ops.nearest(ops.times(color.red, full)),
        green: ops.nearest(ops.times(color.green, full)),
        blue: ops.nearest(ops.times(color.blue, full)),
    }
}

impl Canvas {
    /// The scaled color of every pixel, row by row.
    pub fn samples<A: Arithmetic>(&self, ops: &A) -> (r: Vec<ScaledColor>)
        requires
            steady(ops),
        ensures
            r@ == self@.samples(ops),
            self@.wf(),
    {
        proof {
            use_type_invariant(self);
        }
        let mut out: Vec<ScaledColor> = Vec::new();
        let mut i: usize = 0;
        while i < self.pixels.len()
            invariant
                steady(ops),
                i <= self.pixels.len(),
                out@.len() == i,
                forall|k: int| 0 <= k < i ==> out@[k] == scaled(self.pixels@[k], ops),
            decreases self.pixels.len() - i,
        {
            out.push(scale_color(&self.pixels[i], ops));
            i += 1;
        }
        assert(out@ =~= self@.samples(ops));
        out
    }

    /// The header of the picture as PPM text.
    pub fn write_ppm_header(&self) -> (out: Vec<u8>)
        ensures
            out@ == header_text(self@.width, self@.height),
    {
        write_header(self.width, self.height)
    }

    /// The pixels of the picture as PPM text: each channel scaled by 255,
    /// rounded and clamped to `0..=255`.
    pub fn write_ppm_data<A: Arithmetic>(&self, ops: &A) -> (out: Vec<u8>)
        requires
            steady(ops),
        ensures
            out@ == data_text(self@.width, self@.height, self@.samples(ops)),
            lines_fit(out@),
    {
        let samples = self.samples(ops);
        write_data(self.width, self.height, &samples)
    }

    /// The picture as PPM text: header, then data.
    pub fn to_ppm<A: Arithmetic>(&self, ops: &A) -> (out: Vec<u8>)
        requires
            steady(ops),
        ensures
            out@ == ppm_text(self@.width, self@.height, self@.samples(ops)),
            lines_fit(out@),
    {
        proof {
            lemma_picture_lines_fit(self@.width, self@.height, self@.samples(ops));
        }
        let mut out = self.write_ppm_header();
        let mut data = self.write_ppm_data(ops);
        out.append(&mut data);
        out
    }
}

} // verus!
