//! Row-major buffers.
use vstd::arithmetic::div_mod::lemma_fundamental_div_mod_converse;
use vstd::prelude::*;

verus! {

/// Row `row` and column `col` of a row-major buffer with rows of `stride`
/// entries sit at index `row * stride + col`, and nowhere else.
pub proof fn lemma_row_major(row: int, col: int, stride: int, rows: int)
    requires
        0 <= col < stride,
        0 <= row < rows,
    ensures
        0 <= row * stride + col < rows * stride,
        rows * stride == stride * rows,
        (row * stride + col) / stride == row,
        (row * stride + col) % stride == col,
{
    lemma_fundamental_div_mod_converse(row * stride + col, stride, row, col);
    assert(row * stride + col < rows * stride && rows * stride == stride * rows)
        by (nonlinear_arith)
        requires
            0 <= col < stride,
            0 <= row < rows,
    ;
    assert(0 <= row * stride) by (nonlinear_arith)
        requires
            0 <= row,
            0 < stride,
    ;
}

} // verus!
