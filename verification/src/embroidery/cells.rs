//! The geometry of the grid: how many rows of cells an image holds, which
//! pixels a cell samples, and which pixels it fills when the pattern is
//! rendered. The side of a cell is the rational `width / columns`; all bounds
//! are computed exactly, in integers.

use vstd::arithmetic::div_mod::{lemma_fundamental_div_mod, lemma_mod_bound};
use vstd::prelude::*;

verus! {

/// The integer nearest to `a / b`, a half rounded up.
pub open spec fn round_div(a: int, b: int) -> int {
    (2 * a + b) / (2 * b)
}

/// The least integer that is at least `a / b`.
pub open spec fn ceil_div(a: int, b: int) -> int {
    (a + b - 1) / b
}

/// The number of rows of cells: the image's height over the side of a cell,
/// which is `width / columns`, rounded to the nearest integer.
pub open spec fn row_count(width: int, height: int, columns: int) -> int {
    round_div(height * columns, width)
}

/// The first pixel that cell `n` samples along an axis.
pub open spec fn sample_start(n: int, width: int, columns: int) -> int {
    round_div(n * width, columns)
}

/// The pixel after the last that cell `n` samples along an axis of `limit`
/// pixels.
pub open spec fn sample_end(n: int, width: int, columns: int, limit: int) -> int {
    if round_div((n + 1) * width, columns) < limit {
        round_div((n + 1) * width, columns)
    } else {
        limit
    }
}

/// The first pixel that cell `n` fills along an axis.
pub open spec fn fill_start(n: int, width: int, columns: int) -> int {
    ceil_div(n * width, columns)
}

/// The pixel after the last that cell `n` fills along an axis of `limit`
/// pixels.
pub open spec fn fill_end(n: int, width: int, columns: int, limit: int) -> int {
    if ceil_div((n + 1) * width, columns) < limit {
        ceil_div((n + 1) * width, columns)
    } else {
        limit
    }
}

/// The cell whose fill holds pixel `p` along an axis.
pub open spec fn cell_of(p: int, width: int, columns: int) -> int {
    (p * columns) / width
}

/// A quotient's defining bounds.
pub proof fn lemma_div_bounds(x: int, d: int)
    requires
        0 <= x,
        0 < d,
    ensures
        0 <= x / d,
        d * (x / d) <= x < d * (x / d) + d,
{
    lemma_fundamental_div_mod(x, d);
    lemma_mod_bound(x, d);
    let q = x / d;
    assert(0 <= q) by (nonlinear_arith)
        requires
            0 < d,
            0 <= x,
            x < d * q + d,
    ;
}

/// The quotient is the one integer within its bounds.
pub proof fn lemma_div_unique(x: int, d: int, q: int)
    requires
        0 < d,
        d * q <= x < d * q + d,
    ensures
        x / d == q,
{
    lemma_fundamental_div_mod(x, d);
    lemma_mod_bound(x, d);
    assert(x / d == q) by (nonlinear_arith)
        requires
            0 < d,
            d * q <= x < d * q + d,
            d * (x / d) <= x < d * (x / d) + d,
    ;
}

/// Along the width every cell samples at least one pixel, inside the image,
/// and the next cell starts where this one ends.
pub proof fn lemma_sample_columns(n: int, width: int, columns: int)
    requires
        0 < columns <= width,
        0 <= n < columns,
    ensures
        0 <= sample_start(n, width, columns) < sample_end(n, width, columns, width) <= width,
        n + 1 < columns ==> sample_end(n, width, columns, width) == sample_start(
            n + 1,
            width,
            columns,
        ),
        n + 1 == columns ==> sample_end(n, width, columns, width) == width,
        sample_start(0, width, columns) == 0,
{
    let s = sample_start(n, width, columns);
    let e = round_div((n + 1) * width, columns);
    assert(0 <= n * width && 0 <= (n + 1) * width && (n + 1) * width == n * width + width) by (
    nonlinear_arith)
        requires
            0 <= n,
            0 < width,
    ;
    lemma_div_bounds(2 * (n * width) + columns, 2 * columns);
    lemma_div_bounds(2 * ((n + 1) * width) + columns, 2 * columns);
    assert(s < e) by (nonlinear_arith)
        requires
            0 < columns <= width,
            (2 * columns) * s <= 2 * (n * width) + columns,
            2 * (n * width + width) + columns < (2 * columns) * e + 2 * columns,
    ;
    assert((n + 1) * width <= columns * width) by (nonlinear_arith)
        requires
            n + 1 <= columns,
            0 < width,
    ;
    assert(s < width) by (nonlinear_arith)
        requires
            0 < columns <= width,
            (2 * columns) * s <= 2 * (n * width) + columns,
            n * width + width <= columns * width,
    ;
    if n + 1 == columns {
        assert((n + 1) * width == columns * width) by (nonlinear_arith)
            requires
                n + 1 == columns,
        ;
        assert(e >= width) by (nonlinear_arith)
            requires
                0 < columns,
                2 * (columns * width) + columns < (2 * columns) * e + 2 * columns,
        ;
    } else {
        assert((n + 2) * width <= columns * width && (n + 2) * width == (n + 1) * width
            + width) by (nonlinear_arith)
            requires
                n + 2 <= columns,
                0 < width,
        ;
        assert(e < width) by (nonlinear_arith)
            requires
                0 < columns <= width,
                (2 * columns) * e <= 2 * ((n + 1) * width) + columns,
                (n + 2) * width <= columns * width,
                (n + 2) * width == (n + 1) * width + width,
        ;
    }
    assert(0 * width == 0);
    lemma_div_unique(columns, 2 * columns, 0);
}

/// There are at most as many rows as the image is high, and down the height
/// every row of cells samples at least one pixel, inside the image, and the
/// next row starts where this one ends.
pub proof fn lemma_sample_rows(n: int, width: int, height: int, columns: int)
    requires
        0 < columns <= width,
        0 <= height,
        0 <= n < row_count(width, height, columns),
    ensures
        row_count(width, height, columns) <= height,
        0 <= sample_start(n, width, columns) < sample_end(n, width, columns, height) <= height,
        n + 1 < row_count(width, height, columns) ==> sample_end(n, width, columns, height)
            == sample_start(n + 1, width, columns),
        sample_start(0, width, columns) == 0,
    decreases row_count(width, height, columns) - n,
{
    let rows = row_count(width, height, columns);
    if n + 1 < rows {
        lemma_sample_rows(n + 1, width, height, columns);
    }
    assert(0 * width == 0);
    lemma_div_unique(columns, 2 * columns, 0);
    let s = sample_start(n, width, columns);
    let e = round_div((n + 1) * width, columns);
    assert(0 <= height * columns) by (nonlinear_arith)
        requires
            0 <= height,
            0 < columns,
    ;
    assert(0 <= n * width && 0 <= (n + 1) * width && (n + 1) * width == n * width + width) by (
    nonlinear_arith)
        requires
            0 <= n,
            0 < width,
    ;
    lemma_div_bounds(2 * (height * columns) + width, 2 * width);
    lemma_div_bounds(2 * (n * width) + columns, 2 * columns);
    lemma_div_bounds(2 * ((n + 1) * width) + columns, 2 * columns);
    assert(rows <= height) by (nonlinear_arith)
        requires
            0 < columns <= width,
            0 <= height,
            (2 * width) * rows <= 2 * (height * columns) + width,
    ;
    assert(s < e) by (nonlinear_arith)
        requires
            0 < columns <= width,
            (2 * columns) * s <= 2 * (n * width) + columns,
            2 * (n * width + width) + columns < (2 * columns) * e + 2 * columns,
    ;
    assert((n + 1) * width <= rows * width) by (nonlinear_arith)
        requires
            n + 1 <= rows,
            0 < width,
    ;
    if columns < width {
        assert(s < height) by (nonlinear_arith)
            requires
                0 < columns < width,
                (2 * columns) * s <= 2 * (n * width) + columns,
                n * width + width <= rows * width,
                (2 * width) * rows <= 2 * (height * columns) + width,
        ;
    } else {
        assert(s <= n) by (nonlinear_arith)
            requires
                0 < columns,
                columns == width,
                (2 * columns) * s <= 2 * (n * width) + columns,
        ;
    }
}

/// A pixel lies in the fill of cell `n` exactly if `n` is `cell_of` the
/// pixel: the fills of the cells are disjoint and leave no gap between them.
pub proof fn lemma_fill_cell(p: int, n: int, width: int, columns: int, limit: int)
    requires
        0 < columns,
        0 < width,
        0 <= p < limit,
        0 <= n,
    ensures
        (fill_start(n, width, columns) <= p < fill_end(n, width, columns, limit)) <==> n
            == cell_of(p, width, columns),
{
    let s = fill_start(n, width, columns);
    let e = fill_start(n + 1, width, columns);
    let c = cell_of(p, width, columns);
    assert(0 <= n * width && 0 <= (n + 1) * width && (n + 1) * width == n * width + width && 0 <= p
        * columns) by (nonlinear_arith)
        requires
            0 <= n,
            0 < width,
            0 <= p,
            0 < columns,
    ;
    lemma_div_bounds(n * width + columns - 1, columns);
    lemma_div_bounds((n + 1) * width + columns - 1, columns);
    lemma_div_bounds(p * columns, width);
    // s <= p  <==>  n * width <= p * columns
    assert((s <= p) <==> (n * width <= p * columns)) by (nonlinear_arith)
        requires
            0 < columns,
            columns * s <= n * width + columns - 1 < columns * s + columns,
    ;
    // p < e  <==>  p * columns < (n + 1) * width
    assert((p < e) <==> (p * columns < n * width + width)) by (nonlinear_arith)
        requires
            0 < columns,
            columns * e <= n * width + width + columns - 1 < columns * e + columns,
    ;
    assert((n * width <= p * columns && p * columns < n * width + width) <==> n == c) by (
    nonlinear_arith)
        requires
            0 < width,
            width * c <= p * columns < width * c + width,
    ;
}

/// Where the width is a multiple of the number of columns, the pixels that a
/// cell samples are pixels that it fills.
pub proof fn lemma_sampled_is_filled(p: int, n: int, width: int, columns: int, limit: int)
    requires
        0 < columns <= width,
        width % columns == 0,
        0 <= n,
        sample_start(n, width, columns) <= p < sample_end(n, width, columns, limit),
    ensures
        cell_of(p, width, columns) == n,
{
    let side = width / columns;
    lemma_fundamental_div_mod(width, columns);
    assert(width == columns * side);
    assert(side >= 1) by (nonlinear_arith)
        requires
            width == columns * side,
            0 < columns <= width,
    ;
    assert(n * width == columns * (n * side) && (n + 1) * width == columns * ((n + 1) * side)
        && 0 <= n * side && (n + 1) * side == n * side + side) by (nonlinear_arith)
        requires
            width == columns * side,
            0 <= n,
            0 <= side,
    ;
    assert((2 * columns) * (n * side) <= 2 * (n * width) + columns < (2 * columns) * (n * side) + 2
        * columns) by (nonlinear_arith)
        requires
            n * width == columns * (n * side),
            0 < columns,
    ;
    lemma_div_unique(2 * (n * width) + columns, 2 * columns, n * side);
    assert((2 * columns) * ((n + 1) * side) <= 2 * ((n + 1) * width) + columns < (2 * columns) * ((n
        + 1) * side) + 2 * columns) by (nonlinear_arith)
        requires
            (n + 1) * width == columns * ((n + 1) * side),
            0 < columns,
    ;
    lemma_div_unique(2 * ((n + 1) * width) + columns, 2 * columns, (n + 1) * side);
    assert(width * n <= p * columns < width * n + width) by (nonlinear_arith)
        requires
            width == columns * side,
            0 < columns,
            n * side <= p < n * side + side,
    ;
    lemma_div_unique(p * columns, width, n);
}

/// Cell `n` samples pixel `p` along an axis of `limit` pixels.
pub open spec fn samples(n: int, p: int, width: int, columns: int, limit: int) -> bool {
    sample_start(n, width, columns) <= p < sample_end(n, width, columns, limit)
}

/// Along an axis of `limit` pixels, each of the first `count` cells samples
/// only pixels that it fills.
pub open spec fn samples_its_fill(width: int, columns: int, count: int, limit: int) -> bool {
    forall|n: int, p: int|
        0 <= n < count && #[trigger] samples(n, p, width, columns, limit) ==> cell_of(
            p,
            width,
            columns,
        ) == n
}

/// Where the width is a multiple of the number of columns, every cell
/// samples only pixels that it fills.
pub proof fn lemma_multiple_samples_its_fill(width: int, columns: int, count: int, limit: int)
    requires
        0 < columns <= width,
        width % columns == 0,
    ensures
        samples_its_fill(width, columns, count, limit),
{
    assert forall|n: int, p: int|
        0 <= n < count && #[trigger] samples(n, p, width, columns, limit) implies cell_of(
        p,
        width,
        columns,
    ) == n by {
        lemma_sampled_is_filled(p, n, width, columns, limit);
    }
}

/// The cell of a pixel inside the image is one of the cells of a row.
pub proof fn lemma_cell_of_bound(p: int, width: int, columns: int)
    requires
        0 < columns,
        0 <= p < width,
    ensures
        0 <= cell_of(p, width, columns) < columns,
{
    assert(0 <= p * columns < columns * width) by (nonlinear_arith)
        requires
            0 < columns,
            0 <= p < width,
    ;
    lemma_div_bounds(p * columns, width);
    let c = cell_of(p, width, columns);
    assert(c < columns) by (nonlinear_arith)
        requires
            0 < width,
            width * c <= p * columns,
            p * columns < columns * width,
    ;
}

/// Computes `round_div(n * width, columns)`.
pub fn round_at(n: u32, width: u32, columns: u32) -> (r: u64)
    requires
        columns > 0,
    ensures
        r == round_div(n * width, columns as int),
{
    assert(0 <= n * width <= 0xffff_ffff * 0xffff_ffff) by (nonlinear_arith)
        requires
            0 <= n <= 0xffff_ffff,
            0 <= width <= 0xffff_ffff,
    ;
    let product: u64 = (n as u64) * (width as u64);
    let numerator: u128 = 2 * (product as u128) + (columns as u128);
    let denominator: u128 = 2 * (columns as u128);
    let q: u128 = numerator / denominator;
    proof {
        lemma_div_bounds(numerator as int, denominator as int);
        assert(q <= product) by (nonlinear_arith)
            requires
                0 < columns,
                (2 * columns) * q <= 2 * product + columns,
        ;
    }
    q as u64
}

/// Computes `ceil_div(n * width, columns)`.
pub fn ceil_at(n: u32, width: u32, columns: u32) -> (r: u64)
    requires
        columns > 0,
    ensures
        r == ceil_div(n * width, columns as int),
{
    assert(0 <= n * width <= 0xffff_ffff * 0xffff_ffff) by (nonlinear_arith)
        requires
            0 <= n <= 0xffff_ffff,
            0 <= width <= 0xffff_ffff,
    ;
    let product: u64 = (n as u64) * (width as u64);
    let numerator: u128 = (product as u128) + (columns as u128) - 1;
    let q: u128 = numerator / (columns as u128);
    proof {
        lemma_div_bounds(numerator as int, columns as int);
        assert(q <= product) by (nonlinear_arith)
            requires
                0 < columns,
                columns * q <= product + columns - 1,
        ;
    }
    q as u64
}

/// Computes `cell_of(p, width, columns)`.
pub fn cell_at(p: u32, width: u32, columns: u32) -> (r: u64)
    requires
        width > 0,
    ensures
        r == cell_of(p as int, width as int, columns as int),
{
    assert(0 <= p * columns <= 0xffff_ffff * 0xffff_ffff) by (nonlinear_arith)
        requires
            0 <= p <= 0xffff_ffff,
            0 <= columns <= 0xffff_ffff,
    ;
    let product: u64 = (p as u64) * (columns as u64);
    product / (width as u64)
}

} // verus!
