//! The lines of the exported text: none is longer than 70 characters.

use vstd::prelude::*;
use crate::ppm::{
    data_text, decimal, header_text, placed, ppm_text, row_values, rows_text, used_after, wrapped,
    ScaledColor,
};

verus! {

/// The number of characters of `text` behind its last line feed: the length
/// of the line that `text` ends in.
pub open spec fn tail_len(text: Seq<u8>) -> nat
    decreases text.len(),
{
    if text.len() == 0 {
        0
    } else if text.last() == 10u8 {
        0
    } else {
        tail_len(text.drop_last()) + 1
    }
}

/// No line of `text` is longer than 70 characters: wherever the text is cut,
/// the line that it then ends in has at most 70.
pub open spec fn lines_fit(text: Seq<u8>) -> bool {
    forall|n: int| 0 <= n <= text.len() ==> tail_len(#[trigger] text.take(n)) <= 70
}

/// No byte of `block` is a line feed.
pub open spec fn on_one_line(block: Seq<u8>) -> bool {
    forall|i: int| 0 <= i < block.len() ==> #[trigger] block[i] != 10u8
}

/// The digits of a number are digits, so none is a line feed.
pub proof fn lemma_decimal_on_one_line(n: nat)
    ensures
        on_one_line(decimal(n)),
    decreases n,
{
    if n >= 10 {
        lemma_decimal_on_one_line(n / 10);
    }
}

/// A block without a line feed makes the last line longer by its length.
pub proof fn lemma_tail_of_block(text: Seq<u8>, block: Seq<u8>)
    requires
        on_one_line(block),
    ensures
        tail_len(text + block) == tail_len(text) + block.len(),
    decreases block.len(),
{
    if block.len() == 0 {
        assert(text + block =~= text);
    } else {
        let front = block.drop_last();
        assert(block[block.len() - 1] != 10u8);
        lemma_tail_of_block(text, front);
        assert((text + block).drop_last() =~= text + front);
    }
}

/// A text whose lines fit still has lines that fit behind a block without
/// a line feed, if the last line has room for the block.
pub proof fn lemma_fit_block(text: Seq<u8>, block: Seq<u8>)
    requires
        lines_fit(text),
        on_one_line(block),
        tail_len(text) + block.len() <= 70,
    ensures
        lines_fit(text + block),
        tail_len(text + block) == tail_len(text) + block.len(),
{
    let whole = text + block;
    assert forall|n: int| 0 <= n <= whole.len() implies tail_len(#[trigger] whole.take(n))
        <= 70 by {
        if n <= text.len() {
            assert(whole.take(n) =~= text.take(n));
        } else {
            let part = block.take(n - text.len());
            assert(whole.take(n) =~= text + part);
            lemma_tail_of_block(text, part);
        }
    }
    lemma_tail_of_block(text, block);
}

/// A text whose lines fit still has lines that fit behind a line feed, and
/// then ends in an empty line.
pub proof fn lemma_fit_line_feed(text: Seq<u8>)
    requires
        lines_fit(text),
    ensures
        lines_fit(text.push(10u8)),
        tail_len(text.push(10u8)) == 0,
{
    let whole = text.push(10u8);
    assert forall|n: int| 0 <= n <= whole.len() implies tail_len(#[trigger] whole.take(n))
        <= 70 by {
        if n <= text.len() {
            assert(whole.take(n) =~= text.take(n));
        } else {
            assert(whole.take(n) =~= whole);
        }
    }
}

/// Placing a token of at most three digits behind a text whose lines fit
/// leaves lines that fit.
pub proof fn lemma_fit_placed(text: Seq<u8>, value: nat, used: nat)
    requires
        lines_fit(text),
        tail_len(text) == used,
        value < 1000,
    ensures
        lines_fit(text + placed(decimal(value), used)),
        tail_len(text + placed(decimal(value), used)) == used_after(decimal(value).len(), used),
{
    let token = decimal(value);
    crate::ppm::lemma_decimal_len(value);
    lemma_decimal_on_one_line(value);
    assert(text.take(text.len() as int) =~= text);
    if used + token.len() >= 70 {
        lemma_fit_line_feed(text);
        lemma_fit_block(text.push(10u8), token);
        assert(text + placed(token, used) =~= text.push(10u8) + token);
    } else if used > 0 {
        let block = seq![32u8] + token;
        assert(on_one_line(block));
        lemma_fit_block(text, block);
    } else {
        lemma_fit_block(text, token);
    }
}

/// Placing values of at most three digits behind a text whose lines fit
/// leaves lines that fit, and a text that ends in an empty line.
pub proof fn lemma_fit_wrapped(text: Seq<u8>, values: Seq<nat>, used: nat)
    requires
        lines_fit(text),
        tail_len(text) == used,
        forall|i: int| 0 <= i < values.len() ==> #[trigger] values[i] < 1000,
    ensures
        lines_fit(text + wrapped(values, used)),
        tail_len(text + wrapped(values, used)) == 0,
    decreases values.len(),
{
    if values.len() == 0 {
        if used > 0 {
            lemma_fit_line_feed(text);
            assert(text + wrapped(values, used) =~= text.push(10u8));
        } else {
            assert(text + wrapped(values, used) =~= text);
        }
    } else {
        let token = decimal(values[0]);
        let next = text + placed(token, used);
        lemma_fit_placed(text, values[0], used);
        assert forall|i: int| 0 <= i < values.skip(1).len() implies #[trigger] values.skip(1)[i]
            < 1000 by {
            assert(values[i + 1] < 1000);
        }
        lemma_fit_wrapped(next, values.skip(1), used_after(token.len(), used));
        assert(text + wrapped(values, used) =~= next + wrapped(
            values.skip(1),
            used_after(token.len(), used),
        ));
    }
}

/// Behind a text whose lines fit and that ends in an empty line, the text
/// of the first `rows` rows leaves lines that fit, and again an empty line
/// at the end.
pub proof fn lemma_fit_rows(text: Seq<u8>, pixels: Seq<ScaledColor>, width: nat, rows: nat)
    requires
        lines_fit(text),
        tail_len(text) == 0,
    ensures
        lines_fit(text + rows_text(pixels, width, rows)),
        tail_len(text + rows_text(pixels, width, rows)) == 0,
    decreases rows,
{
    if rows == 0 {
        assert(text + rows_text(pixels, width, rows) =~= text);
    } else {
        let done = rows_text(pixels, width, (rows - 1) as nat);
        let row = wrapped(row_values(pixels, width, (rows - 1) as nat), 0);
        lemma_fit_rows(text, pixels, width, (rows - 1) as nat);
        lemma_fit_wrapped(text + done, row_values(pixels, width, (rows - 1) as nat), 0);
        assert(text + rows_text(pixels, width, rows) =~= (text + done) + row);
    }
}

/// The empty text has no line that is too long.
pub proof fn lemma_fit_empty()
    ensures
        lines_fit(Seq::<u8>::empty()),
        tail_len(Seq::<u8>::empty()) == 0,
{
    assert forall|n: int| 0 <= n <= 0 implies tail_len(#[trigger] Seq::<u8>::empty().take(n))
        <= 70 by {
        assert(Seq::<u8>::empty().take(n) =~= Seq::empty());
    }
}

/// No line of the data of a picture is longer than 70 characters, whatever
/// its size and its samples.
pub proof fn lemma_data_lines_fit(width: nat, height: nat, pixels: Seq<ScaledColor>)
    ensures
        lines_fit(data_text(width, height, pixels)),
{
    lemma_fit_empty();
    lemma_fit_rows(Seq::empty(), pixels, width, height);
    assert(Seq::<u8>::empty() + rows_text(pixels, width, height) =~= rows_text(
        pixels,
        width,
        height,
    ));
}

/// Ten to the power of `digits`.
pub open spec fn power_of_ten(digits: nat) -> nat
    decreases digits,
{
    if digits == 0 {
        1
    } else {
        10 * power_of_ten((digits - 1) as nat)
    }
}

/// A number below ten to the power of `digits` has at most `digits` digits.
pub proof fn lemma_decimal_len_below(n: nat, digits: nat)
    requires
        digits >= 1,
        n < power_of_ten(digits),
    ensures
        1 <= decimal(n).len() <= digits,
    decreases n,
{
    if n >= 10 {
        reveal_with_fuel(power_of_ten, 2);
        lemma_decimal_len_below(n / 10, (digits - 1) as nat);
    }
}

/// No line of a whole picture is longer than 70 characters, for every size
/// that a canvas can have.
pub proof fn lemma_picture_lines_fit(width: nat, height: nat, pixels: Seq<ScaledColor>)
    requires
        width <= u64::MAX,
        height <= u64::MAX,
    ensures
        lines_fit(ppm_text(width, height, pixels)),
{
    assert(power_of_ten(20) == 100_000_000_000_000_000_000nat) by {
        reveal_with_fuel(power_of_ten, 21);
    }
    lemma_decimal_len_below(width, 20);
    lemma_decimal_len_below(height, 20);
    lemma_decimal_on_one_line(width);
    lemma_decimal_on_one_line(height);
    lemma_fit_empty();
    let t0 = Seq::<u8>::empty();
    let t1 = t0 + seq![80u8, 51u8];
    lemma_fit_block(t0, seq![80u8, 51u8]);
    let t2 = t1.push(10u8);
    lemma_fit_line_feed(t1);
    let t3 = t2 + decimal(width);
    lemma_fit_block(t2, decimal(width));
    let t4 = t3 + seq![32u8];
    lemma_fit_block(t3, seq![32u8]);
    let t5 = t4 + decimal(height);
    lemma_fit_block(t4, decimal(height));
    let t6 = t5.push(10u8);
    lemma_fit_line_feed(t5);
    let t7 = t6 + seq![50u8, 53u8, 53u8];
    lemma_fit_block(t6, seq![50u8, 53u8, 53u8]);
    let t8 = t7.push(10u8);
    lemma_fit_line_feed(t7);
    assert(t8 =~= header_text(width, height));
    lemma_fit_rows(t8, pixels, width, height);
}

} // verus!
