//! Cells of a toroidal grid and the movement of a head across it.

use vstd::arithmetic::div_mod::{lemma_fundamental_div_mod, lemma_fundamental_div_mod_converse};
use vstd::prelude::*;

verus! {

/// A coordinate moved onto the torus: the Euclidean remainder of `v` by `n`.
pub open spec fn wrap(v: int, n: int) -> int {
    v % n
}

/// The cell that a head at `head` reaches by one move along `dir`, on a grid
/// of `width` columns and `height` rows whose edges meet.
pub open spec fn next_cell(head: (i32, i32), dir: (i32, i32), width: int, height: int) -> (int, int) {
    (wrap(head.0 + dir.0, width), wrap(head.1 + dir.1, height))
}

/// Whether `cell` lies on a grid of `width` columns and `height` rows.
pub open spec fn in_grid(cell: (i32, i32), width: int, height: int) -> bool {
    0 <= cell.0 < width && 0 <= cell.1 < height
}

/// Wrapping keeps every coordinate on the grid, however far the raw sum of
/// a head and a heading lies outside it.
pub proof fn lemma_next_cell_in_grid(head: (i32, i32), dir: (i32, i32), width: i32, height: i32)
    requires
        width >= 1,
        height >= 1,
    ensures
        0 <= next_cell(head, dir, width as int, height as int).0 < width,
        0 <= next_cell(head, dir, width as int, height as int).1 < height,
{
}

/// The Euclidean remainder of `v` by a positive `n`.
fn wrap_exec(v: i64, n: i64) -> (r: i64)
    requires
        n >= 1,
        v > i64::MIN,
    ensures
        r as int == wrap(v as int, n as int),
        0 <= r < n,
{
    if v >= 0 {
        v % n
    } else {
        let a: i64 = -v;
        let q: i64 = a % n;
        proof {
            let k = a as int / n as int;
            lemma_fundamental_div_mod(a as int, n as int);
            assert(v as int == (-k) * n as int - q as int) by (nonlinear_arith)
                requires a as int == n as int * k + q as int, v as int == -(a as int);
            assert(v as int == (-k - 1) * n as int + (n - q) as int) by (nonlinear_arith)
                requires v as int == (-k) * n as int - q as int;
            if q == 0 {
                lemma_fundamental_div_mod_converse(v as int, n as int, -k, 0);
            } else {
                lemma_fundamental_div_mod_converse(v as int, n as int, -k - 1, n - q);
            }
        }
        if q == 0 {
            0
        } else {
            n - q
        }
    }
}

/// The cell reached from `head` by one move along `dir`, wrapped onto a grid
/// of `width` columns and `height` rows.
pub fn next_head(head: (i32, i32), dir: (i32, i32), width: i32, height: i32) -> (r: (i32, i32))
    requires
        width >= 1,
        height >= 1,
    ensures
        r.0 as int == next_cell(head, dir, width as int, height as int).0,
        r.1 as int == next_cell(head, dir, width as int, height as int).1,
        in_grid(r, width as int, height as int),
{
    let x = wrap_exec(head.0 as i64 + dir.0 as i64, width as i64);
    let y = wrap_exec(head.1 as i64 + dir.1 as i64, height as i64);
    (x as i32, y as i32)
}

/// The square drawn for `cell` when each cell is `cell_size` pixels wide:
/// its left edge, top edge and side, one cell less a two-pixel gap.
pub fn cell_rect(cell: (i32, i32), cell_size: i32) -> (r: (i64, i64, i64))
    ensures
        r.0 == cell.0 as int * cell_size as int,
        r.1 == cell.1 as int * cell_size as int,
        r.2 == cell_size as int - 2,
{
    proof {
        assert(-0x8000_0000 * 0x8000_0000 <= cell.0 as int * cell_size as int <= 0x8000_0000 * 0x8000_0000) by (nonlinear_arith)
            requires -0x8000_0000 <= cell.0 < 0x8000_0000, -0x8000_0000 <= cell_size < 0x8000_0000;
        assert(-0x8000_0000 * 0x8000_0000 <= cell.1 as int * cell_size as int <= 0x8000_0000 * 0x8000_0000) by (nonlinear_arith)
            requires -0x8000_0000 <= cell.1 < 0x8000_0000, -0x8000_0000 <= cell_size < 0x8000_0000;
    }
    (cell.0 as i64 * cell_size as i64, cell.1 as i64 * cell_size as i64, cell_size as i64 - 2)
}

} // verus!
