//! The text of a plain (ASCII) PPM picture.
//!
//! The header names the format, the size and the largest sample value. The
//! data follow row by row: each sample clamped to `0..=255` and written in
//! decimal, samples separated by one space, and a line broken before a sample
//! that would not fit. Every row starts on a line of its own.

use vstd::prelude::*;
use crate::grid::lemma_index_in_grid;
use crate::lines::{lemma_data_lines_fit, lines_fit};

verus! {

/// The largest sample value of the format.
pub const PPM_MAX_SAMPLE: i32 = 255;

/// The byte of a line feed.
pub const NEWLINE: u8 = 10;

/// The byte of a space.
pub const SPACE: u8 = 32;

/// The byte of the digit `0`.
pub const DIGIT_ZERO: u8 = 48;

/// The three channels of a color on the scale on which 255 is full
/// intensity, rounded to integers. A sample may lie outside `0..=255`; it is
/// clamped when it is written.
#[derive(Clone, Copy, Debug, PartialEq, Eq, Structural)]
pub struct ScaledColor {
    pub red: i32,
    pub green: i32,
    pub blue: i32,
}

impl ScaledColor {
    /// The sample of channel `i`: 0 is red, 1 is green, anything else blue.
    pub open spec fn sample(self, i: int) -> int {
        if i == 0 {
            self.red as int
        } else if i == 1 {
            self.green as int
        } else {
            self.blue as int
        }
    }

    /// The scaled color with the given samples.
    pub fn new(red: i32, green: i32, blue: i32) -> (r: ScaledColor)
        ensures
            r == (ScaledColor { red, green, blue }),
    {
        ScaledColor { red, green, blue }
    }

    /// The sample of index `i`.
    pub fn channel(&self, i: usize) -> (r: i32)
        requires
            i < 3,
        ensures
            r == self.sample(i as int),
    {
        if i == 0 {
            self.red
        } else if i == 1 {
            self.green
        } else {
            self.blue
        }
    }
}

/// The decimal digits of `n`, most significant first, as ASCII bytes.
pub open spec fn decimal(n: nat) -> Seq<u8>
    decreases n,
{
    if n < 10 {
        seq![(48 + n) as u8]
    } else {
        decimal(n / 10).push((48 + n % 10) as u8)
    }
}

/// A sample brought into `0..=255`.
pub open spec fn clamped(sample: int) -> nat {
    if sample < 0 {
        0
    } else if sample > 255 {
        255
    } else {
        sample as nat
    }
}

/// Whether a token of `len` characters must start a new line when the
/// current line already holds `used` characters: with its separator it would
/// pass the limit of 70.
pub open spec fn breaks_line(len: nat, used: nat) -> bool {
    used + len >= 70
}

/// The characters that put `token` behind a line of `used` characters: a
/// line feed where the line is full, a space where the line has begun, and
/// then the token.
pub open spec fn placed(token: Seq<u8>, used: nat) -> Seq<u8> {
    if breaks_line(token.len(), used) {
        seq![10u8] + token
    } else if used > 0 {
        seq![32u8] + token
    } else {
        token
    }
}

/// The length of the current line after a token of `len` characters was
/// placed behind `used` characters.
pub open spec fn used_after(len: nat, used: nat) -> nat {
    if breaks_line(len, used) {
        len
    } else if used > 0 {
        used + 1 + len
    } else {
        len
    }
}

/// The text of `values` placed one after the other behind a line of `used`
/// characters, with the line feed that ends the last line.
pub open spec fn wrapped(values: Seq<nat>, used: nat) -> Seq<u8>
    decreases values.len(),
{
    if values.len() == 0 {
        if used > 0 {
            seq![10u8]
        } else {
            Seq::empty()
        }
    } else {
        let token = decimal(values[0]);
        placed(token, used) + wrapped(values.skip(1), used_after(token.len(), used))
    }
}

/// The clamped samples of row `row`, pixel by pixel, red, green, blue.
pub open spec fn row_values(pixels: Seq<ScaledColor>, width: nat, row: nat) -> Seq<nat> {
    Seq::new(3 * width, |k: int| clamped(pixels[row * width + k / 3].sample(k % 3)))
}

/// The text of the first `rows` rows.
pub open spec fn rows_text(pixels: Seq<ScaledColor>, width: nat, rows: nat) -> Seq<u8>
    decreases rows,
{
    if rows == 0 {
        Seq::empty()
    } else {
        rows_text(pixels, width, (rows - 1) as nat) + wrapped(
            row_values(pixels, width, (rows - 1) as nat),
            0,
        )
    }
}

/// The data part of a picture of `width` by `height` pixels.
pub open spec fn data_text(width: nat, height: nat, pixels: Seq<ScaledColor>) -> Seq<u8> {
    rows_text(pixels, width, height)
}

/// The header: the two characters that name the plain format, then width
/// and height, then 255, each on its line.
pub open spec fn header_text(width: nat, height: nat) -> Seq<u8> {
    seq![80u8, 51u8, 10u8] + decimal(width) + seq![32u8] + decimal(height) + seq![
        10u8,
        50u8,
        53u8,
        53u8,
        10u8,
    ]
}

/// The whole picture.
pub open spec fn ppm_text(width: nat, height: nat, pixels: Seq<ScaledColor>) -> Seq<u8> {
    header_text(width, height) + data_text(width, height, pixels)
}

/// A number below 1000 has as many digits as its size says.
pub proof fn lemma_decimal_len(n: nat)
    requires
        n < 1000,
    ensures
        decimal(n).len() == if n < 10 {
            1nat
        } else if n < 100 {
            2nat
        } else {
            3nat
        },
{
    reveal_with_fuel(decimal, 3);
}

/// The text of the values from `k` on starts with `values[k]` placed, and
/// goes on with the values behind it.
pub proof fn lemma_wrapped_step(values: Seq<nat>, k: int, used: nat)
    requires
        0 <= k < values.len(),
    ensures
        wrapped(values.skip(k), used) == placed(decimal(values[k]), used) + wrapped(
            values.skip(k + 1),
            used_after(decimal(values[k]).len(), used),
        ),
{
    assert(values.skip(k).skip(1) =~= values.skip(k + 1));
}

/// Brings a sample into `0..=255`.
pub fn clamp_sample(sample: i32) -> (r: u8)
    ensures
        r == clamped(sample as int),
{
    if sample < 0 {
        0
    } else if sample > PPM_MAX_SAMPLE {
        255
    } else {
        sample as u8
    }
}

/// Appends the decimal digits of `n` to `out`.
pub fn push_decimal(out: &mut Vec<u8>, n: usize)
    ensures
        final(out)@ == old(out)@ + decimal(n as nat),
    decreases n,
{
    if n < 10 {
        out.push(DIGIT_ZERO + n as u8);
        assert(out@ =~= old(out)@ + decimal(n as nat));
    } else {
        push_decimal(out, n / 10);
        out.push(DIGIT_ZERO + (n % 10) as u8);
        assert(out@ =~= old(out)@ + decimal(n as nat));
    }
}

/// Appends one clamped sample to `out`, behind a line that holds `used`
/// characters, and returns the length of the line after it.
pub fn push_sample(out: &mut Vec<u8>, value: u8, used: usize) -> (r: usize)
    requires
        used <= 70,
    ensures
        final(out)@ == old(out)@ + placed(decimal(value as nat), used as nat),
        r == used_after(decimal(value as nat).len(), used as nat),
        0 < r <= 70,
{
    proof {
        lemma_decimal_len(value as nat);
    }
    let len: usize = if value < 10 {
        1
    } else if value < 100 {
        2
    } else {
        3
    };
    let ghost before = out@;
    let mut now: usize = used;
    if used + len >= 70 {
        out.push(NEWLINE);
        now = 0;
    } else if used > 0 {
        out.push(SPACE);
        now = used + 1;
    }
    push_decimal(out, value as usize);
    assert(out@ =~= before + placed(decimal(value as nat), used as nat));
    now + len
}

/// Writes the header of a picture of `width` by `height` pixels.
pub fn write_header(width: usize, height: usize) -> (out: Vec<u8>)
    ensures
        out@ == header_text(width as nat, height as nat),
{
    let mut out: Vec<u8> = Vec::new();
    out.push(80);
    out.push(51);
    out.push(NEWLINE);
    push_decimal(&mut out, width);
    out.push(SPACE);
    push_decimal(&mut out, height);
    out.push(NEWLINE);
    out.push(50);
    out.push(53);
    out.push(53);
    out.push(NEWLINE);
    assert(out@ =~= header_text(width as nat, height as nat));
    out
}

/// Writes the data of a picture of `width` by `height` pixels, where
/// `samples` holds the scaled color of each pixel, row by row.
pub fn write_data(width: usize, height: usize, samples: &Vec<ScaledColor>) -> (out: Vec<u8>)
    requires
        samples@.len() == width * height,
    ensures
        out@ == data_text(width as nat, height as nat, samples@),
        lines_fit(out@),
{
    proof {
        lemma_data_lines_fit(width as nat, height as nat, samples@);
    }
    let mut out: Vec<u8> = Vec::new();
    let mut y: usize = 0;
    while y < height
        invariant
            samples@.len() == width * height,
            y <= height,
            out@ == rows_text(samples@, width as nat, y as nat),
        decreases height - y,
    {
        let ghost done = out@;
        let ghost row = row_values(samples@, width as nat, y as nat);
        let mut used: usize = 0;
        let mut x: usize = 0;
        assert(row.skip(0) =~= row);
        while x < width
            invariant
                samples@.len() == width * height,
                y < height,
                x <= width,
                used <= 70,
                row == row_values(samples@, width as nat, y as nat),
                done + wrapped(row, 0) == out@ + wrapped(row.skip(3 * x), used as nat),
            decreases width - x,
        {
            proof {
                lemma_index_in_grid(width as nat, height as nat, x as nat, y as nat);
                assert(y * width + x < samples.len() <= usize::MAX);
            }
            let pixel = samples[y * width + x];
            let mut c: usize = 0;
            while c < 3
                invariant
                    x < width,
                    c <= 3,
                    used <= 70,
                    pixel == samples@[y * width + x],
                    row == row_values(samples@, width as nat, y as nat),
                    done + wrapped(row, 0) == out@ + wrapped(row.skip(3 * x + c), used as nat),
                decreases 3 - c,
            {
                let value = clamp_sample(pixel.channel(c));
                proof {
                    lemma_wrapped_step(row, 3 * x + c, used as nat);
                }
                used = push_sample(&mut out, value, used);
                c += 1;
                assert(done + wrapped(row, 0) =~= out@ + wrapped(
                    row.skip(3 * x + c),
                    used as nat,
                ));
            }
            x += 1;
        }
        assert(row.skip(3 * width) =~= Seq::<nat>::empty());
        if used > 0 {
            out.push(NEWLINE);
        }
        assert(out@ =~= done + wrapped(row, 0));
        y += 1;
    }
    out
}

} // verus!
