//! The cube tessellator: six axis-aligned faces of the unit cube, each an
//! `n` by `n` grid of quads built like the plane but displaced to the
//! `+Z, -Z, +Y, -Y, +X, -X` faces, with the axis permutation and winding of
//! each face chosen so that every face is visible from outside the cube.

use vstd::prelude::*;

use crate::frac::{frac_bounded, frac_half, frac_neg_half, Frac};
use crate::plane::{grid_coord, MAX_COUNT};

verus! {

/// The six vertices (18 components) of grid cell `(x, y)` of face `f`.
/// Faces are numbered in emission order: 0 is `z = 1/2`, 1 is `z = -1/2`,
/// 2 is `y = 1/2`, 3 is `y = -1/2`, 4 is `x = 1/2`, 5 is `x = -1/2`.
pub open spec fn cube_cell(n: int, f: int, x: int, y: int) -> Seq<Frac> {
    let l = grid_coord(n, x);
    let r = grid_coord(n, x + 1);
    let b = grid_coord(n, y);
    let t = grid_coord(n, y + 1);
    let h = frac_half();
    let nh = frac_neg_half();
    if f == 0 {
        seq![l, t, h, l, b, h, r, t, h, r, t, h, l, b, h, r, b, h]
    } else if f == 1 {
        seq![l, b, nh, l, t, nh, r, t, nh, l, b, nh, r, t, nh, r, b, nh]
    } else if f == 2 {
        seq![l, h, b, l, h, t, r, h, t, l, h, b, r, h, t, r, h, b]
    } else if f == 3 {
        seq![r, nh, t, l, nh, t, l, nh, b, r, nh, b, r, nh, t, l, nh, b]
    } else if f == 4 {
        seq![h, r, t, h, l, t, h, l, b, h, r, b, h, r, t, h, l, b]
    } else {
        seq![nh, l, t, nh, r, t, nh, l, b, nh, r, t, nh, r, b, nh, l, b]
    }
}

/// The components of the first `m` grid cells of face `f`, cells ordered row
/// by row.
pub open spec fn cube_face_prefix(n: int, f: int, m: int) -> Seq<Frac>
    decreases m,
{
    if m <= 0 {
        Seq::empty()
    } else {
        cube_face_prefix(n, f, m - 1) + cube_cell(n, f, (m - 1) % n, (m - 1) / n)
    }
}

/// The components of the first `f` complete faces.
pub open spec fn cube_faces_prefix(n: int, f: int) -> Seq<Frac>
    decreases f,
{
    if f <= 0 {
        Seq::empty()
    } else {
        cube_faces_prefix(n, f - 1) + cube_face_prefix(n, f - 1, n * n)
    }
}

/// The full component sequence of the cube with `n` subdivisions per face.
pub open spec fn cube_seq(n: int) -> Seq<Frac> {
    cube_faces_prefix(n, 6)
}

/// Each grid cell contributes 18 components, so a face has `18 * n * n`.
pub proof fn lemma_cube_face_prefix_len(n: int, f: int, m: int)
    requires
        m >= 0,
    ensures
        cube_face_prefix(n, f, m).len() == 18 * m,
    decreases m,
{
    if m > 0 {
        lemma_cube_face_prefix_len(n, f, m - 1);
    }
}

/// The first `f` faces hold `f * 18 * n * n` components.
pub proof fn lemma_cube_faces_prefix_len(n: int, f: int)
    requires
        f >= 0,
        n >= 0,
    ensures
        cube_faces_prefix(n, f).len() == f * 18 * (n * n),
    decreases f,
{
    if f > 0 {
        lemma_cube_faces_prefix_len(n, f - 1);
        assert(n * n >= 0) by (nonlinear_arith)
            requires
                n >= 0,
        ;
        lemma_cube_face_prefix_len(n, f - 1, n * n);
        assert(cube_faces_prefix(n, f).len() == cube_faces_prefix(n, f - 1).len()
            + cube_face_prefix(n, f - 1, n * n).len());
        assert((f - 1) * 18 * (n * n) + 18 * (n * n) == f * 18 * (n * n)) by (nonlinear_arith);
    } else {
        assert(f * 18 * (n * n) == 0) by (nonlinear_arith)
            requires
                f == 0,
        ;
    }
}

/// Every component of the first `m` cells of a face is a bounded fraction
/// whose value lies within the half-extent of the unit cube.
pub proof fn lemma_cube_face_prefix_bounded(n: int, f: int, m: int)
    requires
        1 <= n <= MAX_COUNT,
        0 <= m <= n * n,
    ensures
        forall|k: int|
            0 <= k < cube_face_prefix(n, f, m).len() ==> frac_bounded(
                #[trigger] cube_face_prefix(n, f, m)[k],
            ),
        forall|k: int|
            0 <= k < cube_face_prefix(n, f, m).len() ==> crate::frac::frac_within_half(
                #[trigger] cube_face_prefix(n, f, m)[k],
            ),
    decreases m,
{
    if m > 0 {
        lemma_cube_face_prefix_bounded(n, f, m - 1);
        let x = (m - 1) % n;
        let y = (m - 1) / n;
        vstd::arithmetic::div_mod::lemma_mod_bound(m - 1, n);
        vstd::arithmetic::div_mod::lemma_fundamental_div_mod(m - 1, n);
        assert(0 <= y < n) by (nonlinear_arith)
            requires
                n >= 1 && 0 <= x < n && 1 <= m <= n * n && m - 1 == n * y + x,
        ;
        let prev = cube_face_prefix(n, f, m - 1);
        let cell = cube_cell(n, f, x, y);
        assert forall|k: int| 0 <= k < cube_face_prefix(n, f, m).len() implies frac_bounded(
            #[trigger] cube_face_prefix(n, f, m)[k],
        ) && crate::frac::frac_within_half(cube_face_prefix(n, f, m)[k]) by {
            if k < prev.len() {
                assert(cube_face_prefix(n, f, m)[k] == prev[k]);
            } else {
                assert(cube_face_prefix(n, f, m)[k] == cell[k - prev.len()]);
            }
        }
    }
}

/// The component axis that face `f` holds fixed at magnitude 1/2.
pub open spec fn face_axis(f: int) -> int {
    if f == 0 || f == 1 {
        2
    } else if f == 2 || f == 3 {
        1
    } else {
        0
    }
}

/// Component `face_axis(f)` of every vertex triple of face `f` has magnitude
/// exactly 1/2: the whole face lies on its bounding plane of the cube.
#[verifier::rlimit(60)]
pub proof fn lemma_cube_face_prefix_half(n: int, f: int, m: int)
    requires
        0 <= m,
    ensures
        forall|v: int|
            0 <= v < 6 * m ==> crate::frac::frac_is_half_mag(
                #[trigger] cube_face_prefix(n, f, m)[3 * v + face_axis(f)],
            ),
    decreases m,
{
    if m > 0 {
        lemma_cube_face_prefix_half(n, f, m - 1);
        lemma_cube_face_prefix_len(n, f, m - 1);
        let prev = cube_face_prefix(n, f, m - 1);
        let cell = cube_cell(n, f, (m - 1) % n, (m - 1) / n);
        assert forall|v: int| 0 <= v < 6 * m implies crate::frac::frac_is_half_mag(
            #[trigger] cube_face_prefix(n, f, m)[3 * v + face_axis(f)],
        ) by {
            if v < 6 * (m - 1) {
                assert(cube_face_prefix(n, f, m)[3 * v + face_axis(f)] == prev[3 * v + face_axis(
                    f,
                )]);
            } else {
                let j = v - 6 * (m - 1);
                assert(cube_face_prefix(n, f, m)[3 * v + face_axis(f)] == cell[3 * j + face_axis(
                    f,
                )]);
                if j == 0 {
                    assert(crate::frac::frac_is_half_mag(cell[3 * 0 + face_axis(f)]));
                } else if j == 1 {
                    assert(crate::frac::frac_is_half_mag(cell[3 * 1 + face_axis(f)]));
                } else if j == 2 {
                    assert(crate::frac::frac_is_half_mag(cell[3 * 2 + face_axis(f)]));
                } else if j == 3 {
                    assert(crate::frac::frac_is_half_mag(cell[3 * 3 + face_axis(f)]));
                } else if j == 4 {
                    assert(crate::frac::frac_is_half_mag(cell[3 * 4 + face_axis(f)]));
                } else {
                    assert(crate::frac::frac_is_half_mag(cell[3 * 5 + face_axis(f)]));
                }
            }
        }
    }
}

/// Whether vertex `v` of the flat rational buffer `s` has a component of
/// magnitude exactly 1/2.
pub open spec fn vertex_touches_half(s: Seq<Frac>, v: int) -> bool {
    exists|c: int| 0 <= c < 3 && #[trigger] crate::frac::frac_is_half_mag(s[3 * v + c])
}

/// Every vertex triple of the first `f` complete faces has a component of
/// magnitude exactly 1/2.
pub proof fn lemma_cube_faces_prefix_half(n: int, f: int)
    requires
        n >= 0,
        0 <= f,
    ensures
        forall|v: int|
            0 <= v < f * 6 * (n * n) ==> #[trigger] vertex_touches_half(
                cube_faces_prefix(n, f),
                v,
            ),
    decreases f,
{
    if f > 0 {
        lemma_cube_faces_prefix_half(n, f - 1);
        lemma_cube_faces_prefix_len(n, f - 1);
        assert(n * n >= 0) by (nonlinear_arith)
            requires
                n >= 0,
        ;
        lemma_cube_face_prefix_len(n, f - 1, n * n);
        lemma_cube_face_prefix_half(n, f - 1, n * n);
        let prev = cube_faces_prefix(n, f - 1);
        let face = cube_face_prefix(n, f - 1, n * n);
        let nn = n * n;
        assert(prev.len() == (f - 1) * 18 * nn && prev.len() == 3 * ((f - 1) * 6 * nn))
            by (nonlinear_arith)
            requires
                prev.len() == (f - 1) * 18 * (n * n) && nn == n * n,
        ;
        assert forall|v: int| 0 <= v < f * 6 * nn implies #[trigger] vertex_touches_half(
            cube_faces_prefix(n, f),
            v,
        ) by {
            if v < (f - 1) * 6 * nn {
                assert(vertex_touches_half(prev, v));
                let c = choose|c: int|
                    0 <= c < 3 && #[trigger] crate::frac::frac_is_half_mag(prev[3 * v + c]);
                assert(3 * v + c < prev.len());
                assert(cube_faces_prefix(n, f)[3 * v + c] == prev[3 * v + c]);
                assert(0 <= c < 3 && crate::frac::frac_is_half_mag(
                    cube_faces_prefix(n, f)[3 * v + c],
                ));
            } else {
                let vl = v - (f - 1) * 6 * nn;
                let c = face_axis(f - 1);
                assert(0 <= vl < 6 * nn) by (nonlinear_arith)
                    requires
                        (f - 1) * 6 * nn <= v < f * 6 * nn && vl == v - (f - 1) * 6 * nn,
                ;
                assert(3 * v + c - prev.len() == 3 * vl + c);
                assert(0 <= c < 3);
                assert(cube_faces_prefix(n, f)[3 * v + c] == face[3 * vl + c]);
                assert(crate::frac::frac_is_half_mag(face[3 * vl + c]));
                assert(0 <= c < 3 && crate::frac::frac_is_half_mag(
                    cube_faces_prefix(n, f)[3 * v + c],
                ));
            }
        }
    } else {
        assert(f * 6 * (n * n) == 0) by (nonlinear_arith)
            requires
                f == 0,
        ;
    }
}

/// Half-extent law of the cube: before scaling, every coordinate of the
/// subdivided cube lies within [-1/2, 1/2], and every vertex has a
/// coordinate of magnitude exactly 1/2 (it lies on a bounding plane), so the
/// largest absolute coordinate value of the whole buffer is exactly 1/2.
pub proof fn lemma_cube_half_extent(n: int)
    requires
        1 <= n <= MAX_COUNT,
    ensures
        forall|k: int|
            0 <= k < cube_seq(n).len() ==> crate::frac::frac_within_half(
                #[trigger] cube_seq(n)[k],
            ),
        forall|v: int|
            0 <= v < 36 * (n * n) ==> #[trigger] vertex_touches_half(cube_seq(n), v),
{
    lemma_cube_faces_prefix_bounded(n, 6);
    lemma_cube_faces_prefix_half(n, 6);
    assert(6 * 6 * (n * n) == 36 * (n * n)) by (nonlinear_arith);
}

/// Every component of the first `f` faces is a bounded fraction whose value
/// lies within the half-extent of the unit cube.
pub proof fn lemma_cube_faces_prefix_bounded(n: int, f: int)
    requires
        1 <= n <= MAX_COUNT,
        f >= 0,
    ensures
        forall|k: int|
            0 <= k < cube_faces_prefix(n, f).len() ==> frac_bounded(
                #[trigger] cube_faces_prefix(n, f)[k],
            ),
        forall|k: int|
            0 <= k < cube_faces_prefix(n, f).len() ==> crate::frac::frac_within_half(
                #[trigger] cube_faces_prefix(n, f)[k],
            ),
    decreases f,
{
    if f > 0 {
        lemma_cube_faces_prefix_bounded(n, f - 1);
        lemma_cube_face_prefix_bounded(n, f - 1, n * n);
        assert(n * n >= 0) by (nonlinear_arith);
        let prev = cube_faces_prefix(n, f - 1);
        let face = cube_face_prefix(n, f - 1, n * n);
        assert forall|k: int| 0 <= k < cube_faces_prefix(n, f).len() implies frac_bounded(
            #[trigger] cube_faces_prefix(n, f)[k],
        ) && crate::frac::frac_within_half(cube_faces_prefix(n, f)[k]) by {
            if k < prev.len() {
                assert(cube_faces_prefix(n, f)[k] == prev[k]);
            } else {
                assert(cube_faces_prefix(n, f)[k] == face[k - prev.len()]);
            }
        }
    }
}

/// Within the first `m` grid cells of face `f`, cell `q` occupies
/// components `18q` through `18q + 17` and is exactly its cell sequence.
pub proof fn lemma_cube_cell_index(n: int, f: int, m: int, q: int)
    requires
        0 <= q < m,
    ensures
        forall|j: int|
            0 <= j < 18 ==> cube_face_prefix(n, f, m)[18 * q + j] == #[trigger] cube_cell(
                n,
                f,
                q % n,
                q / n,
            )[j],
    decreases m,
{
    lemma_cube_face_prefix_len(n, f, m - 1);
    if q == m - 1 {
        assert forall|j: int| 0 <= j < 18 implies cube_face_prefix(n, f, m)[18 * q + j]
            == #[trigger] cube_cell(n, f, q % n, q / n)[j] by {
            assert(cube_face_prefix(n, f, m)[18 * q + j] == cube_cell(n, f, (m - 1) % n, (m - 1)
                / n)[18 * q + j - 18 * (m - 1)]);
        }
    } else {
        lemma_cube_cell_index(n, f, m - 1, q);
        assert forall|j: int| 0 <= j < 18 implies cube_face_prefix(n, f, m)[18 * q + j]
            == #[trigger] cube_cell(n, f, q % n, q / n)[j] by {
            assert(cube_face_prefix(n, f, m)[18 * q + j] == cube_face_prefix(n, f, m - 1)[18 * q
                + j]);
        }
    }
}

/// The components of face `f` sit at offset `f * 18 * n * n` of the full
/// cube buffer.
pub proof fn lemma_cube_face_offset(n: int, f: int, g: int)
    requires
        1 <= n,
        0 <= f < g <= 6,
    ensures
        forall|i: int|
            0 <= i < 18 * (n * n) ==> cube_faces_prefix(n, g)[f * 18 * (n * n) + i]
                == #[trigger] cube_face_prefix(n, f, n * n)[i],
    decreases g,
{
    lemma_cube_faces_prefix_len(n, g - 1);
    assert(n * n >= 0) by (nonlinear_arith);
    lemma_cube_face_prefix_len(n, g - 1, n * n);
    if g == f + 1 {
        assert forall|i: int| 0 <= i < 18 * (n * n) implies cube_faces_prefix(n, g)[f * 18 * (n * n)
            + i] == #[trigger] cube_face_prefix(n, f, n * n)[i] by {
            assert(cube_faces_prefix(n, g - 1).len() == f * 18 * (n * n));
            assert(cube_faces_prefix(n, g)[f * 18 * (n * n) + i] == cube_face_prefix(n, f, n * n)[f
                * 18 * (n * n) + i - cube_faces_prefix(n, g - 1).len()]);
        }
    } else {
        lemma_cube_face_offset(n, f, g - 1);
        assert forall|i: int| 0 <= i < 18 * (n * n) implies cube_faces_prefix(n, g)[f * 18 * (n * n)
            + i] == #[trigger] cube_face_prefix(n, f, n * n)[i] by {
            assert(f * 18 * (n * n) + i < (g - 1) * 18 * (n * n)) by (nonlinear_arith)
                requires
                    0 <= i < 18 * (n * n) && f + 1 <= g - 1,
            ;
            assert(cube_faces_prefix(n, g)[f * 18 * (n * n) + i] == cube_faces_prefix(n, g - 1)[f
                * 18 * (n * n) + i]);
        }
    }
}

/// The in-plane coordinate axes of face `f`, ordered so that the cross
/// product of a triangle's edges over them yields the component of its
/// normal along the face's fixed axis.
pub open spec fn face_plane_u(f: int) -> int {
    if f == 0 || f == 1 {
        0
    } else if f == 2 || f == 3 {
        2
    } else {
        1
    }
}

/// The second in-plane coordinate axis of face `f`; see [`face_plane_u`].
pub open spec fn face_plane_v(f: int) -> int {
    if f == 0 || f == 1 {
        1
    } else if f == 2 || f == 3 {
        0
    } else {
        2
    }
}

/// Which way face `f` faces along its fixed axis: `1` for the faces on the
/// positive side of the cube, `-1` for those on the negative side.
pub open spec fn face_orientation(f: int) -> int {
    if f == 0 || f == 2 || f == 4 {
        1
    } else {
        -1
    }
}

/// The component of the normal of triangle `tri` (nine components, three
/// vertices) along the fixed axis of face `f`, as a numerator over the
/// squared shared denominator of the in-plane coordinates.
pub open spec fn normal_axis_num(tri: Seq<Frac>, f: int) -> int {
    let u = face_plane_u(f);
    let v = face_plane_v(f);
    (tri[3 + u].num - tri[u].num) * (tri[6 + v].num - tri[v].num) - (tri[3 + v].num - tri[v].num)
        * (tri[6 + u].num - tri[u].num)
}

/// Winding of one triangle of one grid cell: the normal of triangle `r` of
/// any cell of face `f` points along the face's fixed axis away from the
/// cube centre.
#[verifier::rlimit(100)]
proof fn lemma_cube_cell_winding(n: int, f: int, x: int, y: int, r: int)
    requires
        1 <= n <= MAX_COUNT,
        0 <= x < n,
        0 <= y < n,
        0 <= f < 6,
        0 <= r < 2,
    ensures
        normal_axis_num(cube_cell(n, f, x, y).subrange(9 * r, 9 * r + 9), f) == 4
            * face_orientation(f),
{
    let cell = cube_cell(n, f, x, y);
    let tri = cell.subrange(9 * r, 9 * r + 9);
    let u = face_plane_u(f);
    let v = face_plane_v(f);
    let du1 = tri[3 + u].num - tri[u].num;
    let dv1 = tri[3 + v].num - tri[v].num;
    let du2 = tri[6 + u].num - tri[u].num;
    let dv2 = tri[6 + v].num - tri[v].num;
    if r == 0 {
        if f == 0 {
            assert(du1 == 0 && dv1 == -2 && du2 == 2 && dv2 == 0);
        } else if f == 1 {
            assert(du1 == 0 && dv1 == 2 && du2 == 2 && dv2 == 2);
        } else if f == 2 {
            assert(du1 == 2 && dv1 == 0 && du2 == 2 && dv2 == 2);
        } else if f == 3 {
            assert(du1 == 0 && dv1 == -2 && du2 == -2 && dv2 == -2);
        } else if f == 4 {
            assert(du1 == -2 && dv1 == 0 && du2 == -2 && dv2 == -2);
        } else {
            assert(du1 == 2 && dv1 == 0 && du2 == 0 && dv2 == -2);
        }
    } else {
        if f == 0 {
            assert(du1 == -2 && dv1 == -2 && du2 == 0 && dv2 == -2);
        } else if f == 1 {
            assert(du1 == 2 && dv1 == 2 && du2 == 2 && dv2 == 0);
        } else if f == 2 {
            assert(du1 == 2 && dv1 == 2 && du2 == 0 && dv2 == 2);
        } else if f == 3 {
            assert(du1 == 2 && dv1 == 0 && du2 == 0 && dv2 == -2);
        } else if f == 4 {
            assert(du1 == 0 && dv1 == 2 && du2 == -2 && dv2 == 0);
        } else {
            assert(du1 == 0 && dv1 == -2 && du2 == -2 && dv2 == -2);
        }
    }
    let o = face_orientation(f);
    assert(du1 * dv2 - dv1 * du2 == 4 * o) by (nonlinear_arith)
        requires
            (du1 == 0 && dv1 == -2 && du2 == 2 && dv2 == 0 && o == 1) || (du1 == 0 && dv1 == 2
                && du2 == 2 && dv2 == 2 && o == -1) || (du1 == 2 && dv1 == 0 && du2 == 2 && dv2 == 2
                && o == 1) || (du1 == 0 && dv1 == -2 && du2 == -2 && dv2 == -2 && o == -1) || (du1
                == -2 && dv1 == 0 && du2 == -2 && dv2 == -2 && o == 1) || (du1 == 2 && dv1 == 0
                && du2 == 0 && dv2 == -2 && o == -1) || (du1 == -2 && dv1 == -2 && du2 == 0 && dv2
                == -2 && o == 1) || (du1 == 2 && dv1 == 2 && du2 == 2 && dv2 == 0 && o == -1) || (
            du1 == 2 && dv1 == 2 && du2 == 0 && dv2 == 2 && o == 1) || (du1 == 0 && dv1 == 2 && du2
                == -2 && dv2 == 0 && o == 1),
    ;
    assert(normal_axis_num(tri, f) == du1 * dv2 - dv1 * du2);
}

/// Outward winding law of the cube: the normal of every triangle of face
/// `f` points along the face's fixed axis away from the cube centre — its
/// numerator is exactly `4 * face_orientation(f)` — so with a consistent
/// front-face convention every face of the cube is visible from outside.
#[verifier::rlimit(100)]
pub proof fn lemma_cube_winding(n: int, f: int, t: int)
    requires
        1 <= n <= MAX_COUNT,
        0 <= f < 6,
        0 <= t < 2 * (n * n),
    ensures
        normal_axis_num(cube_seq(n).subrange(f * 18 * (n * n) + 9 * t, f * 18 * (n * n) + 9 * t + 9), f)
            == 4 * face_orientation(f),
{
    let nn = n * n;
    let q = t / 2;
    let r = t % 2;
    vstd::arithmetic::div_mod::lemma_fundamental_div_mod(t, 2);
    vstd::arithmetic::div_mod::lemma_mod_bound(t, 2);
    assert(0 <= q < nn) by (nonlinear_arith)
        requires
            0 <= t < 2 * nn && t == 2 * q + r && 0 <= r < 2,
    ;
    lemma_cube_face_offset(n, f, 6);
    lemma_cube_cell_index(n, f, nn, q);
    let x = q % n;
    let y = q / n;
    vstd::arithmetic::div_mod::lemma_mod_bound(q, n);
    vstd::arithmetic::div_mod::lemma_fundamental_div_mod(q, n);
    assert(0 <= y < n) by (nonlinear_arith)
        requires
            n >= 1 && 0 <= x < n && 0 <= q < nn && nn == n * n && q == n * y + x,
    ;
    let cell = cube_cell(n, f, x, y);
    let tri = cube_seq(n).subrange(f * 18 * nn + 9 * t, f * 18 * nn + 9 * t + 9);
    lemma_cube_faces_prefix_len(n, 6);
    assert(6 * 18 * (n * n) == 108 * nn) by (nonlinear_arith)
        requires
            nn == n * n,
    ;
    assert(f * 18 * nn + 9 * t + 9 <= 108 * nn) by (nonlinear_arith)
        requires
            0 <= f < 6 && 0 <= t < 2 * nn && 0 <= nn,
    ;
    assert forall|j: int| 0 <= j < 9 implies tri[j] == cell[9 * r + j] by {
        assert(tri[j] == cube_seq(n)[f * 18 * nn + 9 * t + j]);
        assert(9 * t + j == 18 * q + 9 * r + j);
        assert(cube_seq(n)[f * 18 * nn + (18 * q + 9 * r + j)] == cube_face_prefix(n, f, nn)[18 * q
            + 9 * r + j]);
        assert(cube_face_prefix(n, f, nn)[18 * q + (9 * r + j)] == cell[9 * r + j]);
    }
    assert(tri =~= cell.subrange(9 * r, 9 * r + 9));
    lemma_cube_cell_winding(n, f, x, y, r);
}

/// Emits the flat vertex buffer of the subdivided unit cube.
pub fn cube(subdivisions: usize) -> (r: Vec<Frac>)
    requires
        1 <= subdivisions <= MAX_COUNT,
    ensures
        r@ == cube_seq(subdivisions as int),
        r@.len() == 108 * (subdivisions as int) * (subdivisions as int),
        forall|k: int| 0 <= k < r@.len() ==> frac_bounded(#[trigger] r@[k]),
{
    let n = subdivisions;
    let mut temp_vec: Vec<Frac> = Vec::new();
    let mut f: usize = 0;
    while f < 6
        invariant
            1 <= n <= MAX_COUNT,
            f <= 6,
            temp_vec@ == cube_faces_prefix(n as int, f as int),
        decreases 6 - f,
    {
        push_face(&mut temp_vec, n, f);
        f = f + 1;
    }
    proof {
        lemma_cube_faces_prefix_len(n as int, 6);
        lemma_cube_faces_prefix_bounded(n as int, 6);
        assert(6 * 18 * ((n as int) * (n as int)) == 108 * (n as int) * (n as int))
            by (nonlinear_arith);
    }
    temp_vec
}

/// Appends all grid cells of face `f` of the cube.
fn push_face(temp_vec: &mut Vec<Frac>, n: usize, f: usize)
    requires
        1 <= n <= MAX_COUNT,
        f < 6,
        old(temp_vec)@ == cube_faces_prefix(n as int, f as int),
    ensures
        final(temp_vec)@ == cube_faces_prefix(n as int, f as int + 1),
{
    let ghost base = cube_faces_prefix(n as int, f as int);
    let mut y: usize = 0;
    while y < n
        invariant
            1 <= n <= MAX_COUNT,
            f < 6,
            y <= n,
            base == cube_faces_prefix(n as int, f as int),
            temp_vec@ == base + cube_face_prefix(n as int, f as int, (y * n) as int),
        decreases n - y,
    {
        let mut x: usize = 0;
        proof {
            assert(y * n + n <= n * n) by (nonlinear_arith)
                requires
                    y < n,
            ;
        }
        while x < n
            invariant
                1 <= n <= MAX_COUNT,
                f < 6,
                y < n,
                x <= n,
                y * n + n <= n * n,
                base == cube_faces_prefix(n as int, f as int),
                temp_vec@ == base + cube_face_prefix(n as int, f as int, (y * n + x) as int),
            decreases n - x,
        {
            push_face_cell(temp_vec, Ghost(base), n, f, x, y);
            x = x + 1;
        }
        proof {
            assert(y * n + n == (y + 1) * n) by (nonlinear_arith);
        }
        y = y + 1;
    }
    proof {
        assert(y * n == n * n) by (nonlinear_arith)
            requires
                y == n,
        ;
    }
}

/// Appends the two triangles of grid cell `(x, y)` of cube face `f`.
#[verifier::rlimit(60)]
fn push_face_cell(temp_vec: &mut Vec<Frac>, Ghost(base): Ghost<Seq<Frac>>, n: usize, f: usize, x: usize, y: usize)
    requires
        1 <= n <= MAX_COUNT,
        f < 6,
        x < n,
        y < n,
        y * n + x < n * n,
        old(temp_vec)@ == base + cube_face_prefix(n as int, f as int, (y * n + x) as int),
    ensures
        final(temp_vec)@ == base + cube_face_prefix(n as int, f as int, (y * n + x + 1) as int),
{
    let l = Frac { num: 2 * (x as i64) - (n as i64), den: 2 * (n as i64) };
    let r = Frac { num: 2 * (x as i64) + 2 - (n as i64), den: 2 * (n as i64) };
    let b = Frac { num: 2 * (y as i64) - (n as i64), den: 2 * (n as i64) };
    let t = Frac { num: 2 * (y as i64) + 2 - (n as i64), den: 2 * (n as i64) };
    let h = Frac { num: 1, den: 2 };
    let nh = Frac { num: -1, den: 2 };
    if f == 0 {
        push_vertex(temp_vec, l, t, h);
        push_vertex(temp_vec, l, b, h);
        push_vertex(temp_vec, r, t, h);
        push_vertex(temp_vec, r, t, h);
        push_vertex(temp_vec, l, b, h);
        push_vertex(temp_vec, r, b, h);
    } else if f == 1 {
        push_vertex(temp_vec, l, b, nh);
        push_vertex(temp_vec, l, t, nh);
        push_vertex(temp_vec, r, t, nh);
        push_vertex(temp_vec, l, b, nh);
        push_vertex(temp_vec, r, t, nh);
        push_vertex(temp_vec, r, b, nh);
    } else if f == 2 {
        push_vertex(temp_vec, l, h, b);
        push_vertex(temp_vec, l, h, t);
        push_vertex(temp_vec, r, h, t);
        push_vertex(temp_vec, l, h, b);
        push_vertex(temp_vec, r, h, t);
        push_vertex(temp_vec, r, h, b);
    } else if f == 3 {
        push_vertex(temp_vec, r, nh, t);
        push_vertex(temp_vec, l, nh, t);
        push_vertex(temp_vec, l, nh, b);
        push_vertex(temp_vec, r, nh, b);
        push_vertex(temp_vec, r, nh, t);
        push_vertex(temp_vec, l, nh, b);
    } else if f == 4 {
        push_vertex(temp_vec, h, r, t);
        push_vertex(temp_vec, h, l, t);
        push_vertex(temp_vec, h, l, b);
        push_vertex(temp_vec, h, r, b);
        push_vertex(temp_vec, h, r, t);
        push_vertex(temp_vec, h, l, b);
    } else {
        push_vertex(temp_vec, nh, l, t);
        push_vertex(temp_vec, nh, r, t);
        push_vertex(temp_vec, nh, l, b);
        push_vertex(temp_vec, nh, r, t);
        push_vertex(temp_vec, nh, r, b);
        push_vertex(temp_vec, nh, l, b);
    }
    proof {
        let m = (y * n + x + 1) as int;
        vstd::arithmetic::div_mod::lemma_fundamental_div_mod_converse(
            m - 1,
            n as int,
            y as int,
            x as int,
        );
        assert(temp_vec@ =~= base + cube_face_prefix(n as int, f as int, m));
    }
}

/// Appends one vertex, three components.
fn push_vertex(temp_vec: &mut Vec<Frac>, a: Frac, b: Frac, c: Frac)
    ensures
        final(temp_vec)@ == old(temp_vec)@ + seq![a, b, c],
{
    temp_vec.push(a);
    temp_vec.push(b);
    temp_vec.push(c);
    proof {
        assert(temp_vec@ =~= old(temp_vec)@ + seq![a, b, c]);
    }
}

} // verus!
