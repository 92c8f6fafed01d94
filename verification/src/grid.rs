//! Grids stored row by row.

use vstd::prelude::*;

verus! {

/// A position inside a grid has its index inside the grid's storage, and two
/// positions share an index only if they are the same.
pub proof fn lemma_index_in_grid(width: nat, height: nat, x: nat, y: nat)
    requires
        x < width,
        y < height,
    ensures
        y * width + x < width * height,
        (y * width + x) / width == y,
        (y * width + x) % width == x,
{
    assert(y * width + x < width * height) by (nonlinear_arith)
        requires
            x < width,
            y < height,
    ;
    vstd::arithmetic::div_mod::lemma_fundamental_div_mod_converse(
        (y * width + x) as int,
        width as int,
        y as int,
        x as int,
    );
}

} // verus!
