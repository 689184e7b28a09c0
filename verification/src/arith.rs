//! Index arithmetic shared by the plane layouts: row-major positions,
//! their bounds and their decomposition back into row and column.
use vstd::prelude::*;

verus! {

/// Row-major position `row * pitch + col` stays inside `rows * pitch`.
pub proof fn lemma_row_major_bound(row: int, col: int, pitch: int, rows: int)
    requires
        0 <= row < rows,
        0 <= col < pitch,
    ensures
        0 <= row * pitch + col < rows * pitch,
        row * pitch + col + 1 <= rows * pitch,
        0 <= row * pitch,
{
    assert(row * pitch + col < rows * pitch) by (nonlinear_arith)
        requires
            0 <= row < rows,
            0 <= col < pitch,
    ;
    assert(0 <= row * pitch) by (nonlinear_arith)
        requires
            0 <= row,
            0 <= col < pitch,
    ;
}

/// A row-major position decomposes back into its row and column.
pub proof fn lemma_row_major_split(row: int, col: int, pitch: int)
    requires
        0 <= row,
        0 <= col < pitch,
    ensures
        (row * pitch + col) / pitch == row,
        (row * pitch + col) % pitch == col,
{
    vstd::arithmetic::div_mod::lemma_fundamental_div_mod_converse(row * pitch + col, pitch, row, col);
}

/// Every position below `rows * pitch` has a row below `rows` and a column below `pitch`,
/// and is the row-major position of that row and column.
pub proof fn lemma_row_major_of(k: int, pitch: int, rows: int)
    requires
        pitch > 0,
        0 <= k < rows * pitch,
    ensures
        0 <= k / pitch < rows,
        0 <= k % pitch < pitch,
        k == (k / pitch) * pitch + k % pitch,
{
    vstd::arithmetic::div_mod::lemma_fundamental_div_mod(k, pitch);
    vstd::arithmetic::div_mod::lemma_mod_bound(k, pitch);
    vstd::arithmetic::div_mod::lemma_div_pos_is_pos(k, pitch);
    vstd::arithmetic::mul::lemma_mul_is_commutative(pitch, k / pitch);
    if k / pitch >= rows {
        assert((k / pitch) * pitch >= rows * pitch) by (nonlinear_arith)
            requires
                k / pitch >= rows,
                pitch > 0,
        ;
    }
}

/// A row that starts inside a buffer of `rows` rows ends inside it too.
pub proof fn lemma_row_start_le(row: int, pitch: int, rows: int)
    requires
        0 <= row < rows,
        0 <= pitch,
    ensures
        row * pitch + pitch <= rows * pitch,
        0 <= row * pitch,
        row * pitch <= (rows - 1) * pitch,
{
    assert(row * pitch + pitch <= rows * pitch) by (nonlinear_arith)
        requires
            0 <= row < rows,
            0 <= pitch,
    ;
    assert(0 <= row * pitch) by (nonlinear_arith)
        requires
            0 <= row,
            0 <= pitch,
    ;
    assert(row * pitch <= (rows - 1) * pitch) by (nonlinear_arith)
        requires
            0 <= row < rows,
            0 <= pitch,
    ;
}

/// Products grow with their factors.
pub proof fn lemma_mul_le(a: int, b: int, c: int, d: int)
    requires
        0 <= a <= c,
        0 <= b <= d,
    ensures
        a * b <= c * d,
        0 <= a * b,
{
    assert(a * b <= c * d) by (nonlinear_arith)
        requires
            0 <= a <= c,
            0 <= b <= d,
    ;
    assert(0 <= a * b) by (nonlinear_arith)
        requires
            0 <= a,
            0 <= b,
    ;
}

} // verus!
