//! Rectangles of wells: corner standardization, membership, and the
//! row-major enumeration of a (possibly strided) rectangle.
//!
//! A well is a pair `(u8, u8)`. The first component runs along the axis that
//! the enumeration walks slowest, the second along the one it walks fastest.

use vstd::prelude::*;
use vstd::arithmetic::div_mod::lemma_fundamental_div_mod_converse;
use vstd::arithmetic::div_mod::lemma_fundamental_div_mod;

verus! {

/// The smaller of two coordinates.
pub open spec fn lesser(a: u8, b: u8) -> u8 {
    if a <= b {
        a
    } else {
        b
    }
}

/// The larger of two coordinates.
pub open spec fn greater(a: u8, b: u8) -> u8 {
    if a <= b {
        b
    } else {
        a
    }
}

/// The corner of the rectangle spanned by `c1` and `c2` that is smallest on
/// both axes.
pub open spec fn upper_left(c1: (u8, u8), c2: (u8, u8)) -> (u8, u8) {
    (lesser(c1.0, c2.0), lesser(c1.1, c2.1))
}

/// The corner of the rectangle spanned by `c1` and `c2` that is largest on
/// both axes.
pub open spec fn bottom_right(c1: (u8, u8), c2: (u8, u8)) -> (u8, u8) {
    (greater(c1.0, c2.0), greater(c1.1, c2.1))
}

/// Whether `pt` lies in the rectangle spanned by `c1` and `c2`, edges
/// included.
pub open spec fn within(c1: (u8, u8), c2: (u8, u8), pt: (u8, u8)) -> bool {
    &&& upper_left(c1, c2).0 <= pt.0 <= bottom_right(c1, c2).0
    &&& upper_left(c1, c2).1 <= pt.1 <= bottom_right(c1, c2).1
}

/// How many values `lo, lo + step, lo + 2 * step, ...` are at most `hi`.
pub open spec fn step_count(lo: int, hi: int, step: int) -> int {
    if hi < lo {
        0
    } else {
        (hi - lo) / step + 1
    }
}

/// The `k`-th well of the row-major walk that starts at `ul`, advances by
/// `step.1` along the second axis `cols` times, then by `step.0` along the
/// first axis.
pub open spec fn strided_cell(ul: (u8, u8), step: (int, int), cols: int, k: int) -> (u8, u8) {
    ((ul.0 + (k / cols) * step.0) as u8, (ul.1 + (k % cols) * step.1) as u8)
}

/// Every well `(i, j)` with `i` stepping from `ul.0` to `br.0` by `step.0`
/// and `j` stepping from `ul.1` to `br.1` by `step.1`, first axis slowest.
/// The end of an axis is part of the walk only if a step lands on it.
pub open spec fn strided_wells(ul: (u8, u8), br: (u8, u8), step: (int, int)) -> Seq<(u8, u8)> {
    let rows = step_count(ul.0 as int, br.0 as int, step.0);
    let cols = step_count(ul.1 as int, br.1 as int, step.1);
    Seq::new((rows * cols) as nat, |k: int| strided_cell(ul, step, cols, k))
}

/// Every well of the rectangle spanned by `c1` and `c2`, first axis slowest.
pub open spec fn dense_wells(c1: (u8, u8), c2: (u8, u8)) -> Seq<(u8, u8)> {
    strided_wells(upper_left(c1, c2), bottom_right(c1, c2), (1, 1))
}

/// Orders two arbitrary corners into `(upper_left, bottom_right)`.
pub fn standardize_rectangle(c1: &(u8, u8), c2: &(u8, u8)) -> (r: ((u8, u8), (u8, u8)))
    ensures
        r.0 == upper_left(*c1, *c2),
        r.1 == bottom_right(*c1, *c2),
{
    let upper_left_i: u8 = if c1.0 <= c2.0 { c1.0 } else { c2.0 };
    let upper_left_j: u8 = if c1.1 <= c2.1 { c1.1 } else { c2.1 };
    let bottom_right_i: u8 = if c1.0 <= c2.0 { c2.0 } else { c1.0 };
    let bottom_right_j: u8 = if c1.1 <= c2.1 { c2.1 } else { c1.1 };
    ((upper_left_i, upper_left_j), (bottom_right_i, bottom_right_j))
}

/// Whether `pt` lies in the rectangle spanned by the two corners. With a
/// corner missing there is no rectangle and the answer is `false`.
pub fn in_rect(corner1: Option<(u8, u8)>, corner2: Option<(u8, u8)>, pt: (u8, u8)) -> (r: bool)
    ensures
        r == match (corner1, corner2) {
            (Some(c1), Some(c2)) => within(c1, c2, pt),
            _ => false,
        },
{
    match (corner1, corner2) {
        (Some(c1), Some(c2)) => {
            let (ul, br) = standardize_rectangle(&c1, &c2);
            pt.0 <= br.0 && pt.0 >= ul.0 && pt.1 <= br.1 && pt.1 >= ul.1
        },
        _ => false,
    }
}

/// `q * step <= span` holds exactly for the `q` up to `span / step`.
pub proof fn lemma_steps_within(span: int, step: int, q: int)
    requires
        0 <= span,
        0 < step,
        0 <= q,
    ensures
        q * step <= span <==> q <= span / step,
{
    lemma_fundamental_div_mod(span, step);
    let d = span / step;
    if q <= d {
        assert(q * step <= d * step) by (nonlinear_arith)
            requires
                q <= d,
                0 < step,
        ;
        assert(step * d == d * step) by (nonlinear_arith);
    } else {
        assert(q * step >= (d + 1) * step) by (nonlinear_arith)
            requires
                q >= d + 1,
                0 < step,
        ;
        assert((d + 1) * step == step * d + step) by (nonlinear_arith);
    }
}

/// The index `row * cols + col` splits back into `row` and `col`, and lies
/// below `rows * cols`.
pub proof fn lemma_cell_index(rows: int, cols: int, row: int, col: int)
    requires
        0 <= row < rows,
        0 <= col < cols,
    ensures
        0 <= row * cols + col < rows * cols,
        (row * cols + col) / cols == row,
        (row * cols + col) % cols == col,
{
    assert(0 <= row * cols) by (nonlinear_arith)
        requires
            0 <= row,
            0 < cols,
    ;
    assert(row * cols + cols <= rows * cols) by (nonlinear_arith)
        requires
            row + 1 <= rows,
            0 < cols,
    ;
    assert(row * cols == cols * row) by (nonlinear_arith);
    lemma_fundamental_div_mod_converse(row * cols + col, cols, row, col);
}

/// The row-major walk of the rectangle from `ul` to `br` with the given
/// steps along the two axes.
pub fn strided_rectangle(ul: (u8, u8), br: (u8, u8), step: (u8, u8)) -> (wells: Vec<(u8, u8)>)
    requires
        step.0 >= 1,
        step.1 >= 1,
    ensures
        wells@ == strided_wells(ul, br, (step.0 as int, step.1 as int)),
{
    let ghost steps = (step.0 as int, step.1 as int);
    let ghost rows = step_count(ul.0 as int, br.0 as int, steps.0);
    let ghost cols = step_count(ul.1 as int, br.1 as int, steps.1);
    let mut wells: Vec<(u8, u8)> = Vec::new();
    let mut i: u16 = ul.0 as u16;
    let ghost mut row: int = 0;
    proof {
        if ul.0 <= br.0 {
            lemma_steps_within(br.0 - ul.0, steps.0, 0);
        }
        if ul.1 <= br.1 {
            lemma_steps_within(br.1 - ul.1, steps.1, 0);
        }
        assert(0 * cols == 0);
    }
    while i <= br.0 as u16
        invariant
            step.0 >= 1,
            step.1 >= 1,
            steps == (step.0 as int, step.1 as int),
            rows == step_count(ul.0 as int, br.0 as int, steps.0),
            cols == step_count(ul.1 as int, br.1 as int, steps.1),
            0 <= cols,
            0 <= row <= rows,
            i == ul.0 + row * steps.0,
            i <= br.0 <==> row < rows,
            i <= 255 + step.0,
            wells@.len() == row * cols,
            forall|k: int| 0 <= k < wells@.len() ==> wells@[k] == strided_cell(ul, steps, cols, k),
        decreases rows - row,
    {
        let mut j: u16 = ul.1 as u16;
        let ghost mut col: int = 0;
        while j <= br.1 as u16
            invariant
                step.1 >= 1,
                steps == (step.0 as int, step.1 as int),
                cols == step_count(ul.1 as int, br.1 as int, steps.1),
                0 <= row < rows,
                i == ul.0 + row * steps.0,
                i <= br.0,
                0 <= col <= cols,
                j == ul.1 + col * steps.1,
                j <= br.1 <==> col < cols,
                j <= 255 + step.1,
                wells@.len() == row * cols + col,
                forall|k: int|
                    0 <= k < wells@.len() ==> wells@[k] == strided_cell(ul, steps, cols, k),
            decreases cols - col,
        {
            proof {
                lemma_cell_index(rows, cols, row, col);
            }
            wells.push((i as u8, j as u8));
            j = j + step.1 as u16;
            proof {
                col = col + 1;
                assert(col * steps.1 == (col - 1) * steps.1 + steps.1) by (nonlinear_arith);
                lemma_steps_within(br.1 - ul.1, steps.1, col);
                assert(row * cols + (col - 1) + 1 == row * cols + col);
            }
        }
        i = i + step.0 as u16;
        proof {
            row = row + 1;
            assert(row * steps.0 == (row - 1) * steps.0 + steps.0) by (nonlinear_arith);
            assert(row * cols == (row - 1) * cols + cols) by (nonlinear_arith);
            lemma_steps_within(br.0 - ul.0, steps.0, row);
        }
    }
    assert(wells@ =~= strided_wells(ul, br, steps));
    wells
}

/// Every well between two arbitrary corners, first axis slowest.
pub fn create_dense_rectangle(c1: &(u8, u8), c2: &(u8, u8)) -> (points: Vec<(u8, u8)>)
    ensures
        points@ == dense_wells(*c1, *c2),
{
    let (ul, br) = standardize_rectangle(c1, c2);
    strided_rectangle(ul, br, (1, 1))
}

/// A well belongs to a strided walk exactly if it lies between the corners
/// and a whole number of steps away from the start on both axes.
pub proof fn lemma_strided_wells_contains(ul: (u8, u8), br: (u8, u8), step: (int, int), w: (u8, u8))
    requires
        step.0 >= 1,
        step.1 >= 1,
    ensures
        strided_wells(ul, br, step).contains(w) <==> {
            &&& ul.0 <= w.0 <= br.0
            &&& ul.1 <= w.1 <= br.1
            &&& (w.0 - ul.0) % step.0 == 0
            &&& (w.1 - ul.1) % step.1 == 0
        },
{
    let rows = step_count(ul.0 as int, br.0 as int, step.0);
    let cols = step_count(ul.1 as int, br.1 as int, step.1);
    let all = strided_wells(ul, br, step);
    if ul.0 <= br.0 {
        lemma_steps_within(br.0 - ul.0, step.0, 0);
    }
    if ul.1 <= br.1 {
        lemma_steps_within(br.1 - ul.1, step.1, 0);
    }
    assert(rows * cols >= 0) by (nonlinear_arith)
        requires
            rows >= 0,
            cols >= 0,
    ;
    if all.contains(w) {
        let k = choose|k: int| 0 <= k < all.len() && all[k] == w;
        lemma_fundamental_div_mod(k, cols);
        let row = k / cols;
        let col = k % cols;
        assert(0 <= row < rows) by (nonlinear_arith)
            requires
                0 <= k < rows * cols,
                0 < cols,
                k == cols * row + col,
                0 <= col < cols,
        ;
        lemma_steps_within(br.0 - ul.0, step.0, row);
        lemma_steps_within(br.1 - ul.1, step.1, col);
        assert(0 <= row * step.0) by (nonlinear_arith)
            requires
                0 <= row,
                0 < step.0,
        ;
        assert(0 <= col * step.1) by (nonlinear_arith)
            requires
                0 <= col,
                0 < step.1,
        ;
        assert(row * step.0 == step.0 * row) by (nonlinear_arith);
        assert(col * step.1 == step.1 * col) by (nonlinear_arith);
        lemma_fundamental_div_mod_converse(row * step.0, step.0, row, 0);
        lemma_fundamental_div_mod_converse(col * step.1, step.1, col, 0);
    }
    if ul.0 <= w.0 <= br.0 && ul.1 <= w.1 <= br.1 && (w.0 - ul.0) % step.0 == 0 && (w.1 - ul.1)
        % step.1 == 0 {
        let row = (w.0 - ul.0) / step.0;
        let col = (w.1 - ul.1) / step.1;
        lemma_fundamental_div_mod(w.0 - ul.0, step.0);
        lemma_fundamental_div_mod(w.1 - ul.1, step.1);
        assert(row * step.0 == step.0 * row) by (nonlinear_arith);
        assert(col * step.1 == step.1 * col) by (nonlinear_arith);
        assert(0 <= row) by (nonlinear_arith)
            requires
                0 <= step.0 * row,
                0 < step.0,
        ;
        assert(0 <= col) by (nonlinear_arith)
            requires
                0 <= step.1 * col,
                0 < step.1,
        ;
        lemma_steps_within(br.0 - ul.0, step.0, row);
        lemma_steps_within(br.1 - ul.1, step.1, col);
        lemma_cell_index(rows, cols, row, col);
        let k = row * cols + col;
        assert(all[k] == w);
    }
}

/// Swapping the two corners, or trading their components along one axis,
/// leaves the rectangle unchanged: the standardized corners, membership and
/// the enumeration are the same for all four ways of naming it.
pub proof fn lemma_corner_order(c1: (u8, u8), c2: (u8, u8), pt: (u8, u8))
    ensures
        upper_left(c2, c1) == upper_left(c1, c2),
        bottom_right(c2, c1) == bottom_right(c1, c2),
        upper_left((c1.0, c2.1), (c2.0, c1.1)) == upper_left(c1, c2),
        bottom_right((c1.0, c2.1), (c2.0, c1.1)) == bottom_right(c1, c2),
        within(c2, c1, pt) == within(c1, c2, pt),
        within((c1.0, c2.1), (c2.0, c1.1), pt) == within(c1, c2, pt),
        dense_wells(c2, c1) == dense_wells(c1, c2),
        dense_wells((c1.0, c2.1), (c2.0, c1.1)) == dense_wells(c1, c2),
{
}

} // verus!
