//! The cylinder tessellator: a fan cap at `y = 1/2` wound to face up, a
//! lateral wall of quads between the two rims, and a fan cap at `y = -1/2`
//! wound the opposite way so its face points down.

use vstd::prelude::*;

use crate::disk::{exact, rim_cos, rim_sin};
use crate::frac::{frac_bounded, frac_half, frac_neg_half, frac_zero, Frac};
use crate::plane::MAX_COUNT;
use crate::scalar::{scalar_bounded, Scalar};

verus! {

/// Fan triangle `i` of the top cap: rim point `i + 1`, the cap centre, rim
/// point `i`, all at `y = 1/2`, wound to be visible from above.
pub open spec fn cyl_top_wedge(sides: int, radius: Frac, i: int) -> Seq<Scalar> {
    seq![
        rim_cos(sides, radius, i + 1),
        exact(frac_half()),
        rim_sin(sides, radius, i + 1),
        rim_cos(sides, radius, i),
        exact(frac_half()),
        rim_sin(sides, radius, i),
        exact(frac_zero()),
        exact(frac_half()),
        exact(frac_zero()),
    ]
}

/// The two wall triangles of side `i`, joining rim points `i` and `i + 1` of
/// the top and bottom rims, wound to be visible from outside.
pub open spec fn cyl_wall_wedge(sides: int, radius: Frac, i: int) -> Seq<Scalar> {
    seq![
        rim_cos(sides, radius, i),
        exact(frac_half()),
        rim_sin(sides, radius, i),
        rim_cos(sides, radius, i + 1),
        exact(frac_half()),
        rim_sin(sides, radius, i + 1),
        rim_cos(sides, radius, i),
        exact(frac_neg_half()),
        rim_sin(sides, radius, i),
        rim_cos(sides, radius, i + 1),
        exact(frac_neg_half()),
        rim_sin(sides, radius, i + 1),
        rim_cos(sides, radius, i),
        exact(frac_neg_half()),
        rim_sin(sides, radius, i),
        rim_cos(sides, radius, i + 1),
        exact(frac_half()),
        rim_sin(sides, radius, i + 1),
    ]
}

/// Fan triangle `i` of the bottom cap: rim point `i`, rim point `i + 1`, the
/// cap centre, all at `y = -1/2`, wound opposite to the top cap so its face
/// points down.
pub open spec fn cyl_bottom_wedge(sides: int, radius: Frac, i: int) -> Seq<Scalar> {
    seq![
        rim_cos(sides, radius, i),
        exact(frac_neg_half()),
        rim_sin(sides, radius, i),
        rim_cos(sides, radius, i + 1),
        exact(frac_neg_half()),
        rim_sin(sides, radius, i + 1),
        exact(frac_zero()),
        exact(frac_neg_half()),
        exact(frac_zero()),
    ]
}

/// The first `m` top-cap triangles.
pub open spec fn cyl_top_prefix(sides: int, radius: Frac, m: int) -> Seq<Scalar>
    decreases m,
{
    if m <= 0 {
        Seq::empty()
    } else {
        cyl_top_prefix(sides, radius, m - 1) + cyl_top_wedge(sides, radius, m - 1)
    }
}

/// The first `m` wall sides.
pub open spec fn cyl_wall_prefix(sides: int, radius: Frac, m: int) -> Seq<Scalar>
    decreases m,
{
    if m <= 0 {
        Seq::empty()
    } else {
        cyl_wall_prefix(sides, radius, m - 1) + cyl_wall_wedge(sides, radius, m - 1)
    }
}

/// The first `m` bottom-cap triangles.
pub open spec fn cyl_bottom_prefix(sides: int, radius: Frac, m: int) -> Seq<Scalar>
    decreases m,
{
    if m <= 0 {
        Seq::empty()
    } else {
        cyl_bottom_prefix(sides, radius, m - 1) + cyl_bottom_wedge(sides, radius, m - 1)
    }
}

/// The full component sequence of the cylinder: top cap, then wall, then
/// bottom cap.
pub open spec fn cylinder_seq(sides: int, radius: Frac) -> Seq<Scalar> {
    cyl_top_prefix(sides, radius, sides) + cyl_wall_prefix(sides, radius, sides)
        + cyl_bottom_prefix(sides, radius, sides)
}

/// Section lengths: 9 components per cap triangle, 18 per wall side.
pub proof fn lemma_cylinder_prefix_len(sides: int, radius: Frac, m: int)
    requires
        m >= 0,
    ensures
        cyl_top_prefix(sides, radius, m).len() == 9 * m,
        cyl_wall_prefix(sides, radius, m).len() == 18 * m,
        cyl_bottom_prefix(sides, radius, m).len() == 9 * m,
    decreases m,
{
    if m > 0 {
        lemma_cylinder_prefix_len(sides, radius, m - 1);
    }
}

/// With a bounded radius, every cylinder component is bounded.
pub proof fn lemma_cylinder_prefix_bounded(sides: int, radius: Frac, m: int)
    requires
        m >= 0,
        frac_bounded(radius),
    ensures
        forall|k: int|
            0 <= k < cyl_top_prefix(sides, radius, m).len() ==> scalar_bounded(
                #[trigger] cyl_top_prefix(sides, radius, m)[k],
            ),
        forall|k: int|
            0 <= k < cyl_wall_prefix(sides, radius, m).len() ==> scalar_bounded(
                #[trigger] cyl_wall_prefix(sides, radius, m)[k],
            ),
        forall|k: int|
            0 <= k < cyl_bottom_prefix(sides, radius, m).len() ==> scalar_bounded(
                #[trigger] cyl_bottom_prefix(sides, radius, m)[k],
            ),
    decreases m,
{
    if m > 0 {
        lemma_cylinder_prefix_bounded(sides, radius, m - 1);
        assert forall|k: int| 0 <= k < cyl_top_prefix(sides, radius, m).len() implies
            scalar_bounded(#[trigger] cyl_top_prefix(sides, radius, m)[k]) by {
            let prev = cyl_top_prefix(sides, radius, m - 1);
            if k < prev.len() {
                assert(cyl_top_prefix(sides, radius, m)[k] == prev[k]);
            } else {
                assert(cyl_top_prefix(sides, radius, m)[k] == cyl_top_wedge(sides, radius, m - 1)[
                    k - prev.len()]);
            }
        }
        assert forall|k: int| 0 <= k < cyl_wall_prefix(sides, radius, m).len() implies
            scalar_bounded(#[trigger] cyl_wall_prefix(sides, radius, m)[k]) by {
            let prev = cyl_wall_prefix(sides, radius, m - 1);
            if k < prev.len() {
                assert(cyl_wall_prefix(sides, radius, m)[k] == prev[k]);
            } else {
                assert(cyl_wall_prefix(sides, radius, m)[k] == cyl_wall_wedge(sides, radius, m - 1)[
                    k - prev.len()]);
            }
        }
        assert forall|k: int| 0 <= k < cyl_bottom_prefix(sides, radius, m).len() implies
            scalar_bounded(#[trigger] cyl_bottom_prefix(sides, radius, m)[k]) by {
            let prev = cyl_bottom_prefix(sides, radius, m - 1);
            if k < prev.len() {
                assert(cyl_bottom_prefix(sides, radius, m)[k] == prev[k]);
            } else {
                assert(cyl_bottom_prefix(sides, radius, m)[k] == cyl_bottom_wedge(
                    sides,
                    radius,
                    m - 1,
                )[k - prev.len()]);
            }
        }
    }
}

/// Emits the flat vertex buffer of the cylinder.
pub fn cylinder(sides: usize, radius: Frac) -> (r: Vec<Scalar>)
    requires
        1 <= sides <= MAX_COUNT,
        frac_bounded(radius),
    ensures
        r@ == cylinder_seq(sides as int, radius),
        r@.len() == 36 * (sides as int),
        forall|k: int| 0 <= k < r@.len() ==> scalar_bounded(#[trigger] r@[k]),
{
    let ghost s = sides as int;
    let mut temp_vec: Vec<Scalar> = Vec::new();
    let mut i: usize = 0;
    while i < sides
        invariant
            1 <= sides <= MAX_COUNT,
            i <= sides,
            frac_bounded(radius),
            temp_vec@ == cyl_top_prefix(sides as int, radius, i as int),
        decreases sides - i,
    {
        let half = Scalar::Exact { value: Frac { num: 1, den: 2 } };
        let zero = Scalar::Exact { value: Frac { num: 0, den: 1 } };
        temp_vec.push(Scalar::Cosine { coef: radius, index: i + 1, sides });
        temp_vec.push(half);
        temp_vec.push(Scalar::Sine { coef: radius, index: i + 1, sides });
        temp_vec.push(Scalar::Cosine { coef: radius, index: i, sides });
        temp_vec.push(half);
        temp_vec.push(Scalar::Sine { coef: radius, index: i, sides });
        temp_vec.push(zero);
        temp_vec.push(half);
        temp_vec.push(zero);
        proof {
            assert(temp_vec@ =~= cyl_top_prefix(sides as int, radius, i + 1));
        }
        i = i + 1;
    }
    let ghost top_full = cyl_top_prefix(s, radius, s);
    let mut i: usize = 0;
    while i < sides
        invariant
            1 <= sides <= MAX_COUNT,
            i <= sides,
            frac_bounded(radius),
            top_full == cyl_top_prefix(sides as int, radius, sides as int),
            temp_vec@ == top_full + cyl_wall_prefix(sides as int, radius, i as int),
        decreases sides - i,
    {
        let half = Scalar::Exact { value: Frac { num: 1, den: 2 } };
        let neg_half = Scalar::Exact { value: Frac { num: -1, den: 2 } };
        temp_vec.push(Scalar::Cosine { coef: radius, index: i, sides });
        temp_vec.push(half);
        temp_vec.push(Scalar::Sine { coef: radius, index: i, sides });
        temp_vec.push(Scalar::Cosine { coef: radius, index: i + 1, sides });
        temp_vec.push(half);
        temp_vec.push(Scalar::Sine { coef: radius, index: i + 1, sides });
        temp_vec.push(Scalar::Cosine { coef: radius, index: i, sides });
        temp_vec.push(neg_half);
        temp_vec.push(Scalar::Sine { coef: radius, index: i, sides });
        temp_vec.push(Scalar::Cosine { coef: radius, index: i + 1, sides });
        temp_vec.push(neg_half);
        temp_vec.push(Scalar::Sine { coef: radius, index: i + 1, sides });
        temp_vec.push(Scalar::Cosine { coef: radius, index: i, sides });
        temp_vec.push(neg_half);
        temp_vec.push(Scalar::Sine { coef: radius, index: i, sides });
        temp_vec.push(Scalar::Cosine { coef: radius, index: i + 1, sides });
        temp_vec.push(half);
        temp_vec.push(Scalar::Sine { coef: radius, index: i + 1, sides });
        proof {
            assert(temp_vec@ =~= top_full + cyl_wall_prefix(sides as int, radius, i + 1));
        }
        i = i + 1;
    }
    let ghost top_wall = top_full + cyl_wall_prefix(s, radius, s);
    let mut i: usize = 0;
    while i < sides
        invariant
            1 <= sides <= MAX_COUNT,
            i <= sides,
            frac_bounded(radius),
            top_wall == cyl_top_prefix(sides as int, radius, sides as int) + cyl_wall_prefix(
                sides as int,
                radius,
                sides as int,
            ),
            temp_vec@ == top_wall + cyl_bottom_prefix(sides as int, radius, i as int),
        decreases sides - i,
    {
        let neg_half = Scalar::Exact { value: Frac { num: -1, den: 2 } };
        let zero = Scalar::Exact { value: Frac { num: 0, den: 1 } };
        temp_vec.push(Scalar::Cosine { coef: radius, index: i, sides });
        temp_vec.push(neg_half);
        temp_vec.push(Scalar::Sine { coef: radius, index: i, sides });
        temp_vec.push(Scalar::Cosine { coef: radius, index: i + 1, sides });
        temp_vec.push(neg_half);
        temp_vec.push(Scalar::Sine { coef: radius, index: i + 1, sides });
        temp_vec.push(zero);
        temp_vec.push(neg_half);
        temp_vec.push(zero);
        proof {
            assert(temp_vec@ =~= top_wall + cyl_bottom_prefix(sides as int, radius, i + 1));
        }
        i = i + 1;
    }
    proof {
        lemma_cylinder_prefix_len(s, radius, s);
        lemma_cylinder_prefix_bounded(s, radius, s);
        assert(temp_vec@ == cylinder_seq(s, radius));
        assert forall|k: int| 0 <= k < temp_vec@.len() implies scalar_bounded(
            #[trigger] temp_vec@[k],
        ) by {
            let top = cyl_top_prefix(s, radius, s);
            let wall = cyl_wall_prefix(s, radius, s);
            let bottom = cyl_bottom_prefix(s, radius, s);
            if k < top.len() {
                assert(temp_vec@[k] == top[k]);
            } else if k < top.len() + wall.len() {
                assert(temp_vec@[k] == wall[k - top.len()]);
            } else {
                assert(temp_vec@[k] == bottom[k - top.len() - wall.len()]);
            }
        }
    }
    temp_vec
}

} // verus!
