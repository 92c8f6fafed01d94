//! Colors as three scalars: red, green and blue intensity.

use vstd::prelude::*;
use crate::arithmetic::{close, difference, nearly_equal, product, steady, sum, Arithmetic};
use crate::scalar::Scalar;

verus! {

/// An RGB color. A channel may hold any scalar; 0 is dark and 1 is full
/// intensity.
#[derive(Clone, Copy, Debug)]
pub struct Color {
    pub red: Scalar,
    pub green: Scalar,
    pub blue: Scalar,
}

impl Color {
    /// The channel of index `i`: 0 is red, 1 is green, anything else blue.
    pub open spec fn component(self, i: int) -> Scalar {
        if i == 0 {
            self.red
        } else if i == 1 {
            self.green
        } else {
            self.blue
        }
    }

    /// The color whose three channels are `v`.
    pub open spec fn gray(v: Scalar) -> Color {
        Color { red: v, green: v, blue: v }
    }

    /// The color with the given channels.
    pub fn new(red: Scalar, green: Scalar, blue: Scalar) -> (c: Color)
        ensures
            c == (Color { red, green, blue }),
    {
        Color { red, green, blue }
    }

    pub fn red(&self) -> (r: Scalar)
        ensures
            r == self.red,
    {
        self.red
    }

    pub fn green(&self) -> (r: Scalar)
        ensures
            r == self.green,
    {
        self.green
    }

    pub fn blue(&self) -> (r: Scalar)
        ensures
            r == self.blue,
    {
        self.blue
    }

    /// The channel of index `i`.
    pub fn channel(&self, i: usize) -> (r: Scalar)
        requires
            i < 3,
        ensures
            r == self.component(i as int),
    {
        if i == 0 {
            self.red
        } else if i == 1 {
            self.green
        } else {
            self.blue
        }
    }
}

impl Color {
    /// The sum, channel by channel.
    pub open spec fn added<A: Arithmetic>(self, other: Color, ops: &A) -> Color {
        Color {
            red: sum(ops, self.red, other.red),
            green: sum(ops, self.green, other.green),
            blue: sum(ops, self.blue, other.blue),
        }
    }

    /// The difference, channel by channel.
    pub open spec fn subtracted<A: Arithmetic>(self, other: Color, ops: &A) -> Color {
        Color {
            red: difference(ops, self.red, other.red),
            green: difference(ops, self.green, other.green),
            blue: difference(ops, self.blue, other.blue),
        }
    }

    /// Every channel multiplied by `k`.
    pub open spec fn scaled<A: Arithmetic>(self, k: Scalar, ops: &A) -> Color {
        Color {
            red: product(ops, self.red, k),
            green: product(ops, self.green, k),
            blue: product(ops, self.blue, k),
        }
    }

    /// The product, channel by channel.
    pub open spec fn blended<A: Arithmetic>(self, other: Color, ops: &A) -> Color {
        Color {
            red: product(ops, self.red, other.red),
            green: product(ops, self.green, other.green),
            blue: product(ops, self.blue, other.blue),
        }
    }

    /// Every channel is close to that of the other color.
    pub open spec fn close_to<A: Arithmetic>(self, other: Color, ops: &A) -> bool {
        &&& close(ops, self.red, other.red)
        &&& close(ops, self.green, other.green)
        &&& close(ops, self.blue, other.blue)
    }

    /// The sum of two colors.
    pub fn plus<A: Arithmetic>(&self, other: &Color, ops: &A) -> (r: Color)
        requires
            steady(ops),
        ensures
            r == self.added(*other, ops),
    {
        Color {
            red: ops.plus(self.red, other.red),
            green: ops.plus(self.green, other.green),
            blue: ops.plus(self.blue, other.blue),
        }
    }

    /// The difference of two colors.
    pub fn minus<A: Arithmetic>(&self, other: &Color, ops: &A) -> (r: Color)
        requires
            steady(ops),
        ensures
            r == self.subtracted(*other, ops),
    {
        Color {
            red: ops.minus(self.red, other.red),
            green: ops.minus(self.green, other.green),
            blue: ops.minus(self.blue, other.blue),
        }
    }

    /// The color multiplied by `k`.
    pub fn times<A: Arithmetic>(&self, k: Scalar, ops: &A) -> (r: Color)
        requires
            steady(ops),
        ensures
            r == self.scaled(k, ops),
    {
        Color {
            red: ops.times(self.red, k),
            green: ops.times(self.green, k),
            blue: ops.times(self.blue, k),
        }
    }

    /// The product of two colors, channel by channel.
    pub fn blend<A: Arithmetic>(&self, other: &Color, ops: &A) -> (r: Color)
        requires
            steady(ops),
        ensures
            r == self.blended(*other, ops),
    {
        Color {
            red: ops.times(self.red, other.red),
            green: ops.times(self.green, other.green),
            blue: ops.times(self.blue, other.blue),
        }
    }

    /// Whether two colors are equal up to rounding.
    pub fn nearly<A: Arithmetic>(&self, other: &Color, ops: &A) -> (r: bool)
        requires
            steady(ops),
        ensures
            r == self.close_to(*other, ops),
    {
        nearly_equal(ops, self.red, other.red) && nearly_equal(ops, self.green, other.green)
            && nearly_equal(ops, self.blue, other.blue)
    }
}

/// Black: every channel 0.
pub fn black() -> (c: Color)
    ensures
        c == Color::gray(Scalar::spec_zero()),
{
    Color { red: Scalar::zero(), green: Scalar::zero(), blue: Scalar::zero() }
}

/// White: every channel 1.
pub fn white() -> (c: Color)
    ensures
        c == Color::gray(Scalar::spec_one()),
{
    Color { red: Scalar::one(), green: Scalar::one(), blue: Scalar::one() }
}

/// Pure red.
pub fn red() -> (c: Color)
    ensures
        c == (Color {
            red: Scalar::spec_one(),
            green: Scalar::spec_zero(),
            blue: Scalar::spec_zero(),
        }),
{
    Color { red: Scalar::one(), green: Scalar::zero(), blue: Scalar::zero() }
}

/// Pure green.
pub fn green() -> (c: Color)
    ensures
        c == (Color {
            red: Scalar::spec_zero(),
            green: Scalar::spec_one(),
            blue: Scalar::spec_zero(),
        }),
{
    Color { red: Scalar::zero(), green: Scalar::one(), blue: Scalar::zero() }
}

/// Pure blue.
pub fn blue() -> (c: Color)
    ensures
        c == (Color {
            red: Scalar::spec_zero(),
            green: Scalar::spec_zero(),
            blue: Scalar::spec_one(),
        }),
{
    Color { red: Scalar::zero(), green: Scalar::zero(), blue: Scalar::one() }
}

} // verus!
