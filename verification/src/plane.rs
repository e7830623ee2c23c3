//! The plane tessellator: an `n` by `n` grid of unit-square cells covering a
//! 1 by 1 square centred on the origin in the XY plane, each cell split into
//! two triangles.

use vstd::prelude::*;

use crate::frac::{frac_bounded, frac_zero, Frac};

verus! {

/// Largest accepted subdivision or side count. It keeps every buffer length
/// and triangle count well inside `u32` territory and every grid numerator
/// far from overflow.
pub const MAX_COUNT: usize = 10000;

/// Grid line `j` of an `n`-subdivided unit interval centred on the origin:
/// the rational `j / n - 1/2`, written over the common denominator `2n`.
pub open spec fn grid_coord(n: int, j: int) -> Frac {
    Frac { num: (2 * j - n) as i64, den: (2 * n) as i64 }
}

/// The six vertices (two triangles, eighteen components) of grid cell
/// `(x, y)`, `z = 0`, in emission order: top-left, bottom-left, top-right,
/// then top-right, bottom-left, bottom-right, where "top" is the `+y` edge of
/// the cell. This winding makes the face visible from `+z`.
pub open spec fn plane_cell(n: int, x: int, y: int) -> Seq<Frac> {
    seq![
        grid_coord(n, x),
        grid_coord(n, y + 1),
        frac_zero(),
        grid_coord(n, x),
        grid_coord(n, y),
        frac_zero(),
        grid_coord(n, x + 1),
        grid_coord(n, y + 1),
        frac_zero(),
        grid_coord(n, x + 1),
        grid_coord(n, y + 1),
        frac_zero(),
        grid_coord(n, x),
        grid_coord(n, y),
        frac_zero(),
        grid_coord(n, x + 1),
        grid_coord(n, y),
        frac_zero(),
    ]
}

/// The components of the first `m` grid cells, cells ordered row by row:
/// cell `c` is `(c % n, c / n)`.
pub open spec fn plane_prefix(n: int, m: int) -> Seq<Frac>
    decreases m,
{
    if m <= 0 {
        Seq::empty()
    } else {
        plane_prefix(n, m - 1) + plane_cell(n, (m - 1) % n, (m - 1) / n)
    }
}

/// The full component sequence of the plane with `n` subdivisions.
pub open spec fn plane_seq(n: int) -> Seq<Frac> {
    plane_prefix(n, n * n)
}

/// Each grid cell contributes 18 components, so `m` cells give `18 * m`.
pub proof fn lemma_plane_prefix_len(n: int, m: int)
    requires
        m >= 0,
    ensures
        plane_prefix(n, m).len() == 18 * m,
    decreases m,
{
    if m > 0 {
        lemma_plane_prefix_len(n, m - 1);
    }
}

/// Every component of the first `m` cells of an `n` grid is a bounded
/// fraction, provided `m` stays within the grid.
pub proof fn lemma_plane_prefix_bounded(n: int, m: int)
    requires
        1 <= n <= MAX_COUNT,
        0 <= m <= n * n,
    ensures
        forall|k: int|
            0 <= k < plane_prefix(n, m).len() ==> frac_bounded(#[trigger] plane_prefix(n, m)[k]),
    decreases m,
{
    if m > 0 {
        lemma_plane_prefix_bounded(n, m - 1);
        let x = (m - 1) % n;
        let y = (m - 1) / n;
        vstd::arithmetic::div_mod::lemma_mod_bound(m - 1, n);
        vstd::arithmetic::div_mod::lemma_fundamental_div_mod(m - 1, n);
        assert(0 <= y < n) by (nonlinear_arith)
            requires
                n >= 1 && 0 <= x < n && 1 <= m <= n * n && m - 1 == n * y + x,
        ;
        let prev = plane_prefix(n, m - 1);
        let cell = plane_cell(n, x, y);
        assert forall|k: int| 0 <= k < plane_prefix(n, m).len() implies frac_bounded(
            #[trigger] plane_prefix(n, m)[k],
        ) by {
            if k < prev.len() {
                assert(plane_prefix(n, m)[k] == prev[k]);
            } else {
                assert(plane_prefix(n, m)[k] == cell[k - prev.len()]);
            }
        }
    }
}

/// Within the first `m` grid cells, cell `q` occupies components `18q`
/// through `18q + 17` and is exactly its cell sequence.
pub proof fn lemma_plane_cell_index(n: int, m: int, q: int)
    requires
        0 <= q < m,
    ensures
        forall|j: int|
            0 <= j < 18 ==> plane_prefix(n, m)[18 * q + j] == #[trigger] plane_cell(
                n,
                q % n,
                q / n,
            )[j],
    decreases m,
{
    lemma_plane_prefix_len(n, m - 1);
    if q == m - 1 {
        assert forall|j: int| 0 <= j < 18 implies plane_prefix(n, m)[18 * q + j]
            == #[trigger] plane_cell(n, q % n, q / n)[j] by {
            assert(plane_prefix(n, m)[18 * q + j] == plane_cell(n, (m - 1) % n, (m - 1) / n)[18 * q
                + j - 18 * (m - 1)]);
        }
    } else {
        lemma_plane_cell_index(n, m - 1, q);
        assert forall|j: int| 0 <= j < 18 implies plane_prefix(n, m)[18 * q + j]
            == #[trigger] plane_cell(n, q % n, q / n)[j] by {
            assert(plane_prefix(n, m)[18 * q + j] == plane_prefix(n, m - 1)[18 * q + j]);
        }
    }
}

/// Twice the signed area of the XY triangle `(a, b, c)`, as the numerator
/// over the square of the shared denominator: positive exactly when the
/// triangle is listed counter-clockwise as seen from `+z`. Meaningful only
/// when all six components share one denominator.
pub open spec fn ccw_cross_num(ax: Frac, ay: Frac, bx: Frac, by: Frac, cx: Frac, cy: Frac) -> int {
    (bx.num - ax.num) * (cy.num - ay.num) - (by.num - ay.num) * (cx.num - ax.num)
}

/// Winding law of the plane: every triangle it emits is listed
/// counter-clockwise as seen from `+z`, the visible side; the signed-area
/// numerator over the shared denominator `2n` is exactly 4 (each triangle
/// covers half a grid cell of side `2` in numerator units).
pub proof fn lemma_plane_winding(n: int, t: int)
    requires
        1 <= n <= MAX_COUNT,
        0 <= t < 2 * (n * n),
    ensures
        ({
            let s = plane_seq(n);
            ccw_cross_num(s[9 * t], s[9 * t + 1], s[9 * t + 3], s[9 * t + 4], s[9 * t + 6], s[9 * t
                + 7]) == 4
        }),
{
    let q = t / 2;
    let r = t % 2;
    vstd::arithmetic::div_mod::lemma_fundamental_div_mod(t, 2);
    vstd::arithmetic::div_mod::lemma_mod_bound(t, 2);
    assert(0 <= q < n * n) by (nonlinear_arith)
        requires
            0 <= t < 2 * (n * n) && t == 2 * q + r && 0 <= r < 2,
    ;
    lemma_plane_cell_index(n, n * n, q);
    let x = q % n;
    let y = q / n;
    vstd::arithmetic::div_mod::lemma_mod_bound(q, n);
    vstd::arithmetic::div_mod::lemma_fundamental_div_mod(q, n);
    assert(0 <= y < n) by (nonlinear_arith)
        requires
            n >= 1 && 0 <= x < n && 0 <= q < n * n && q == n * y + x,
    ;
    let cell = plane_cell(n, x, y);
    let s = plane_seq(n);
    assert(9 * t == 18 * q + 9 * r);
    let ax = s[9 * t];
    let ay = s[9 * t + 1];
    let bx = s[9 * t + 3];
    let by = s[9 * t + 4];
    let cx = s[9 * t + 6];
    let cy = s[9 * t + 7];
    if r == 0 {
        assert(ax == cell[0] && ay == cell[1] && bx == cell[3] && by == cell[4] && cx == cell[6]
            && cy == cell[7]);
        assert(bx.num - ax.num == 0 && cy.num - ay.num == 0 && by.num - ay.num == -2 && cx.num
            - ax.num == 2);
    } else {
        assert(ax == cell[9] && ay == cell[10] && bx == cell[12] && by == cell[13] && cx == cell[15]
            && cy == cell[16]);
        assert(bx.num - ax.num == -2 && cy.num - ay.num == -2 && by.num - ay.num == -2 && cx.num
            - ax.num == 0);
    }
}

/// Emits the flat vertex buffer of the subdivided unit plane.
pub fn plane(subdivisions: usize) -> (r: Vec<Frac>)
    requires
        1 <= subdivisions <= MAX_COUNT,
    ensures
        r@ == plane_seq(subdivisions as int),
        r@.len() == 18 * (subdivisions as int) * (subdivisions as int),
        forall|k: int| 0 <= k < r@.len() ==> frac_bounded(#[trigger] r@[k]),
{
    let n = subdivisions;
    let mut temp_vec: Vec<Frac> = Vec::new();
    let mut y: usize = 0;
    while y < n
        invariant
            1 <= n <= MAX_COUNT,
            y <= n,
            temp_vec@ == plane_prefix(n as int, (y * n) as int),
        decreases n - y,
    {
        let mut x: usize = 0;
        proof {
            assert(y * n + n <= n * n) by (nonlinear_arith)
                requires
                    y < n,
            ;
        }
        while x < n
            invariant
                1 <= n <= MAX_COUNT,
                y < n,
                x <= n,
                y * n + n <= n * n,
                temp_vec@ == plane_prefix(n as int, (y * n + x) as int),
            decreases n - x,
        {
            push_cell(&mut temp_vec, n, x, y);
            x = x + 1;
        }
        proof {
            assert(y * n + n == (y + 1) * n) by (nonlinear_arith);
        }
        y = y + 1;
    }
    proof {
        assert(y * n == n * n) by (nonlinear_arith)
            requires
                y == n,
        ;
        lemma_plane_prefix_len(n as int, (n * n) as int);
        lemma_plane_prefix_bounded(n as int, (n * n) as int);
        assert(18 * ((n * n) as int) == 18 * (n as int) * (n as int)) by (nonlinear_arith);
    }
    temp_vec
}

/// Appends the two triangles of grid cell `(x, y)` of the plane.
fn push_cell(temp_vec: &mut Vec<Frac>, n: usize, x: usize, y: usize)
    requires
        1 <= n <= MAX_COUNT,
        x < n,
        y < n,
        y * n + x < n * n,
        old(temp_vec)@ == plane_prefix(n as int, (y * n + x) as int),
    ensures
        final(temp_vec)@ == plane_prefix(n as int, (y * n + x + 1) as int),
{
    let left = Frac { num: 2 * (x as i64) - (n as i64), den: 2 * (n as i64) };
    let right = Frac { num: 2 * (x as i64) + 2 - (n as i64), den: 2 * (n as i64) };
    let bottom = Frac { num: 2 * (y as i64) - (n as i64), den: 2 * (n as i64) };
    let top = Frac { num: 2 * (y as i64) + 2 - (n as i64), den: 2 * (n as i64) };
    let zero = Frac { num: 0, den: 1 };
    temp_vec.push(left);
    temp_vec.push(top);
    temp_vec.push(zero);
    temp_vec.push(left);
    temp_vec.push(bottom);
    temp_vec.push(zero);
    temp_vec.push(right);
    temp_vec.push(top);
    temp_vec.push(zero);
    temp_vec.push(right);
    temp_vec.push(top);
    temp_vec.push(zero);
    temp_vec.push(left);
    temp_vec.push(bottom);
    temp_vec.push(zero);
    temp_vec.push(right);
    temp_vec.push(bottom);
    temp_vec.push(zero);
    proof {
        let m = (y * n + x + 1) as int;
        vstd::arithmetic::div_mod::lemma_fundamental_div_mod_converse(
            m - 1,
            n as int,
            y as int,
            x as int,
        );
        assert(temp_vec@ =~= plane_prefix(n as int, m));
    }
}

} // verus!
