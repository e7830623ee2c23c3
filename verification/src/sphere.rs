//! The sphere tessellator, derived from the cube: every vertex of the
//! subdivided unit cube is replaced by its central projection onto the unit
//! sphere, that is, divided by its own Euclidean norm. Cube vertices lie on
//! the cube surface and never at the origin, so the norm is never zero.

use vstd::prelude::*;

use crate::cube::{cube, cube_seq};
use crate::frac::Frac;
use crate::plane::MAX_COUNT;
use crate::scalar::{scalar_bounded, Scalar};

verus! {

/// Replaces every component of a flat rational buffer by the corresponding
/// component of its vertex's unit-sphere projection: component `k` becomes
/// its own value divided by the norm of the vertex triple it belongs to.
pub open spec fn spherify(s: Seq<Frac>) -> Seq<Scalar> {
    Seq::new(
        s.len(),
        |k: int|
            Scalar::Normed {
                value: s[k],
                x: s[3 * (k / 3)],
                y: s[3 * (k / 3) + 1],
                z: s[3 * (k / 3) + 2],
            },
    )
}

/// The full component sequence of the sphere with `n` subdivisions.
pub open spec fn sphere_seq(n: int) -> Seq<Scalar> {
    spherify(cube_seq(n))
}

/// Unit-norm law: every component of the sphere buffer divides its own cube
/// coordinate by the norm of exactly the triple `(x, y, z)` that the
/// component belongs to, so every emitted vertex is `(x, y, z)` divided by
/// its own Euclidean norm and therefore lies on the unit sphere.
pub proof fn lemma_sphere_projection(n: int, k: int)
    requires
        0 <= k < sphere_seq(n).len(),
    ensures
        sphere_seq(n)[k] matches Scalar::Normed { value, x, y, z } && (k % 3 == 0 ==> value == x)
            && (k % 3 == 1 ==> value == y) && (k % 3 == 2 ==> value == z),
{
    vstd::arithmetic::div_mod::lemma_fundamental_div_mod(k, 3);
    vstd::arithmetic::div_mod::lemma_mod_bound(k, 3);
}

/// The normalizing triple of every sphere component is a cube vertex with a
/// coordinate of magnitude exactly 1/2: it lies on the cube surface, never
/// at the origin, so the norm divided by is never zero and the central
/// projection is well defined everywhere.
pub proof fn lemma_sphere_normalizer_nonzero(n: int, k: int)
    requires
        1 <= n <= MAX_COUNT,
        0 <= k < sphere_seq(n).len(),
    ensures
        sphere_seq(n)[k] matches Scalar::Normed { value, x, y, z } && (
        crate::frac::frac_is_half_mag(x) || crate::frac::frac_is_half_mag(y)
            || crate::frac::frac_is_half_mag(z)),
{
    let c = cube_seq(n);
    let v = k / 3;
    vstd::arithmetic::div_mod::lemma_fundamental_div_mod(k, 3);
    vstd::arithmetic::div_mod::lemma_mod_bound(k, 3);
    crate::cube::lemma_cube_faces_prefix_len(n, 6);
    assert(6 * 18 * (n * n) == 3 * (36 * (n * n))) by (nonlinear_arith);
    assert(0 <= v < 36 * (n * n)) by (nonlinear_arith)
        requires
            0 <= k < 3 * (36 * (n * n)) && k == 3 * v + k % 3 && 0 <= k % 3 < 3,
    ;
    crate::cube::lemma_cube_faces_prefix_half(n, 6);
    assert(crate::cube::vertex_touches_half(c, v));
    let w = choose|w: int| 0 <= w < 3 && #[trigger] crate::frac::frac_is_half_mag(c[3 * v + w]);
    assert(sphere_seq(n)[k] == Scalar::Normed {
        value: c[k],
        x: c[3 * v],
        y: c[3 * v + 1],
        z: c[3 * v + 2],
    });
    if w == 0 {
        assert(crate::frac::frac_is_half_mag(c[3 * v]));
    } else if w == 1 {
        assert(crate::frac::frac_is_half_mag(c[3 * v + 1]));
    } else {
        assert(crate::frac::frac_is_half_mag(c[3 * v + 2]));
    }
}

/// Emits the flat vertex buffer of the sphere.
pub fn sphere(subdivisions: usize) -> (r: Vec<Scalar>)
    requires
        1 <= subdivisions <= MAX_COUNT,
    ensures
        r@ == sphere_seq(subdivisions as int),
        r@.len() == 108 * (subdivisions as int) * (subdivisions as int),
        forall|k: int| 0 <= k < r@.len() ==> scalar_bounded(#[trigger] r@[k]),
{
    let temp_vec = cube(subdivisions);
    let ghost cube_view = temp_vec@;
    let mut out: Vec<Scalar> = Vec::new();
    proof {
        let a = subdivisions as int;
        assert(108 * a * a == (36 * a * a) * 3) by (nonlinear_arith);
        vstd::arithmetic::div_mod::lemma_mod_multiples_basic(36 * a * a, 3);
        assert(cube_view.len() % 3 == 0);
    }
    let mut i: usize = 0;
    while i < temp_vec.len()
        invariant
            temp_vec@ == cube_view,
            cube_view.len() % 3 == 0,
            i % 3 == 0,
            i <= cube_view.len(),
            out@.len() == i,
            forall|k: int|
                0 <= k < cube_view.len() ==> crate::frac::frac_bounded(#[trigger] cube_view[k]),
            forall|k: int| 0 <= k < i ==> out@[k] == spherify(cube_view)[k],
        decreases cube_view.len() - i,
    {
        proof {
            assert(i + 3 <= cube_view.len()) by (nonlinear_arith)
                requires
                    i % 3 == 0 && cube_view.len() % 3 == 0 && i < cube_view.len(),
            ;
            vstd::arithmetic::div_mod::lemma_fundamental_div_mod(i as int, 3);
            vstd::arithmetic::div_mod::lemma_fundamental_div_mod_converse(
                i as int + 1,
                3,
                i as int / 3,
                1,
            );
            vstd::arithmetic::div_mod::lemma_fundamental_div_mod_converse(
                i as int + 2,
                3,
                i as int / 3,
                2,
            );
        }
        let x = temp_vec[i];
        let y = temp_vec[i + 1];
        let z = temp_vec[i + 2];
        out.push(Scalar::Normed { value: x, x, y, z });
        out.push(Scalar::Normed { value: y, x, y, z });
        out.push(Scalar::Normed { value: z, x, y, z });
        i = i + 3;
    }
    proof {
        assert(out@ =~= spherify(cube_view));
    }
    out
}

} // verus!
