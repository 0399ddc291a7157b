//! The index algebra of square matrices: taking out a row and a column,
//! transposing, and the sign pattern of cofactors. It holds for matrices of
//! any entry type.

use vstd::prelude::*;

verus! {

/// The row (or column) of the full matrix that row (or column) `i` of a
/// submatrix comes from, when `removed` was taken out.
pub open spec fn kept(i: int, removed: int) -> int {
    if i < removed {
        i
    } else {
        i + 1
    }
}

fn skip(i: usize, removed: usize) -> (r: usize)
    requires
        i < 3,
    ensures
        r == kept(i as int, removed as int),
{
    if i < removed {
        i
    } else {
        i + 1
    }
}

/// The 3x3 matrix left when row `rmv_row` and column `rmv_col` are taken out
/// of `m`; the other rows and columns keep their order.
pub fn submatrix4<T: Copy>(m: &[[T; 4]; 4], rmv_row: usize, rmv_col: usize) -> (r: [[T; 3]; 3])
    requires
        rmv_row < 4,
        rmv_col < 4,
    ensures
        forall|i: int, j: int|
            0 <= i < 3 && 0 <= j < 3 ==> #[trigger] r[i][j] == m[kept(i, rmv_row as int)][kept(
                j,
                rmv_col as int,
            )],
{
    let r0 = skip(0, rmv_row);
    let r1 = skip(1, rmv_row);
    let r2 = skip(2, rmv_row);
    let c0 = skip(0, rmv_col);
    let c1 = skip(1, rmv_col);
    let c2 = skip(2, rmv_col);
    let res = [
        [m[r0][c0], m[r0][c1], m[r0][c2]],
        [m[r1][c0], m[r1][c1], m[r1][c2]],
        [m[r2][c0], m[r2][c1], m[r2][c2]],
    ];
    assert forall|i: int, j: int| 0 <= i < 3 && 0 <= j < 3 implies #[trigger] res[i][j]
        == m[kept(i, rmv_row as int)][kept(j, rmv_col as int)] by {
        assert(0 <= i <= 2);
    }
    res
}

/// The 2x2 matrix left when row `rmv_row` and column `rmv_col` are taken out
/// of `m`; the other rows and columns keep their order.
pub fn submatrix3<T: Copy>(m: &[[T; 3]; 3], rmv_row: usize, rmv_col: usize) -> (r: [[T; 2]; 2])
    requires
        rmv_row < 3,
        rmv_col < 3,
    ensures
        forall|i: int, j: int|
            0 <= i < 2 && 0 <= j < 2 ==> #[trigger] r[i][j] == m[kept(i, rmv_row as int)][kept(
                j,
                rmv_col as int,
            )],
{
    let r0 = skip(0, rmv_row);
    let r1 = skip(1, rmv_row);
    let c0 = skip(0, rmv_col);
    let c1 = skip(1, rmv_col);
    [[m[r0][c0], m[r0][c1]], [m[r1][c0], m[r1][c1]]]
}

/// The transpose of a 4x4 matrix: entry `(i, j)` of the result is entry
/// `(j, i)` of `m`.
pub fn transposed4<T: Copy>(m: &[[T; 4]; 4]) -> (r: [[T; 4]; 4])
    ensures
        forall|i: int, j: int| 0 <= i < 4 && 0 <= j < 4 ==> #[trigger] r[i][j] == m[j][i],
{
    [
        [m[0][0], m[1][0], m[2][0], m[3][0]],
        [m[0][1], m[1][1], m[2][1], m[3][1]],
        [m[0][2], m[1][2], m[2][2], m[3][2]],
        [m[0][3], m[1][3], m[2][3], m[3][3]],
    ]
}

/// The sign that turns the minor at `(row, col)` into the cofactor: `1` when
/// `row + col` is even, `-1` when it is odd.
pub fn cofactor_sign(row: usize, col: usize) -> (r: i8)
    requires
        row <= 4,
        col <= 4,
    ensures
        r == (if (row + col) % 2 == 0 {
            1i8
        } else {
            -1i8
        }),
{
    if (row + col) % 2 == 0 {
        1
    } else {
        -1
    }
}

} // verus!
