//! The tube tessellator: an annulus extruded along Y. Four ring surfaces are
//! built independently: the top annulus face, the outer lateral wall, the
//! inner lateral wall (wound oppositely so its face points inward), and the
//! bottom annulus face.

use vstd::prelude::*;

use crate::disk::{exact, rim_cos, rim_sin};
use crate::frac::{frac_bounded, frac_half, frac_neg_half, Frac};
use crate::plane::MAX_COUNT;
use crate::scalar::{scalar_bounded, Scalar};

verus! {

/// The two triangles of segment `i` of the top annulus face, joining inner
/// and outer rim points `i` and `i + 1` at `y = 1/2`.
pub open spec fn tube_top_wedge(sides: int, inner: Frac, outer: Frac, i: int) -> Seq<Scalar> {
    seq![
        rim_cos(sides, inner, i),
        exact(frac_half()),
        rim_sin(sides, inner, i),
        rim_cos(sides, inner, i + 1),
        exact(frac_half()),
        rim_sin(sides, inner, i + 1),
        rim_cos(sides, outer, i),
        exact(frac_half()),
        rim_sin(sides, outer, i),
        rim_cos(sides, outer, i),
        exact(frac_half()),
        rim_sin(sides, outer, i),
        rim_cos(sides, inner, i + 1),
        exact(frac_half()),
        rim_sin(sides, inner, i + 1),
        rim_cos(sides, outer, i + 1),
        exact(frac_half()),
        rim_sin(sides, outer, i + 1),
    ]
}

/// The two triangles of side `i` of the outer lateral wall, wound to be
/// visible from outside.
pub open spec fn tube_outer_wedge(sides: int, inner: Frac, outer: Frac, i: int) -> Seq<Scalar> {
    seq![
        rim_cos(sides, outer, i),
        exact(frac_half()),
        rim_sin(sides, outer, i),
        rim_cos(sides, outer, i + 1),
        exact(frac_half()),
        rim_sin(sides, outer, i + 1),
        rim_cos(sides, outer, i),
        exact(frac_neg_half()),
        rim_sin(sides, outer, i),
        rim_cos(sides, outer, i + 1),
        exact(frac_neg_half()),
        rim_sin(sides, outer, i + 1),
        rim_cos(sides, outer, i),
        exact(frac_neg_half()),
        rim_sin(sides, outer, i),
        rim_cos(sides, outer, i + 1),
        exact(frac_half()),
        rim_sin(sides, outer, i + 1),
    ]
}

/// The two triangles of side `i` of the inner lateral wall, wound the other
/// way round so the visible face points into the bore.
pub open spec fn tube_inner_wedge(sides: int, inner: Frac, outer: Frac, i: int) -> Seq<Scalar> {
    seq![
        rim_cos(sides, inner, i + 1),
        exact(frac_half()),
        rim_sin(sides, inner, i + 1),
        rim_cos(sides, inner, i),
        exact(frac_half()),
        rim_sin(sides, inner, i),
        rim_cos(sides, inner, i),
        exact(frac_neg_half()),
        rim_sin(sides, inner, i),
        rim_cos(sides, inner, i),
        exact(frac_neg_half()),
        rim_sin(sides, inner, i),
        rim_cos(sides, inner, i + 1),
        exact(frac_neg_half()),
        rim_sin(sides, inner, i + 1),
        rim_cos(sides, inner, i + 1),
        exact(frac_half()),
        rim_sin(sides, inner, i + 1),
    ]
}

/// The two triangles of segment `i` of the bottom annulus face at
/// `y = -1/2`, wound opposite to the top face.
pub open spec fn tube_bottom_wedge(sides: int, inner: Frac, outer: Frac, i: int) -> Seq<Scalar> {
    seq![
        rim_cos(sides, inner, i + 1),
        exact(frac_neg_half()),
        rim_sin(sides, inner, i + 1),
        rim_cos(sides, inner, i),
        exact(frac_neg_half()),
        rim_sin(sides, inner, i),
        rim_cos(sides, outer, i),
        exact(frac_neg_half()),
        rim_sin(sides, outer, i),
        rim_cos(sides, inner, i + 1),
        exact(frac_neg_half()),
        rim_sin(sides, inner, i + 1),
        rim_cos(sides, outer, i),
        exact(frac_neg_half()),
        rim_sin(sides, outer, i),
        rim_cos(sides, outer, i + 1),
        exact(frac_neg_half()),
        rim_sin(sides, outer, i + 1),
    ]
}

/// The first `m` top-face segments.
pub open spec fn tube_top_prefix(sides: int, inner: Frac, outer: Frac, m: int) -> Seq<Scalar>
    decreases m,
{
    if m <= 0 {
        Seq::empty()
    } else {
        tube_top_prefix(sides, inner, outer, m - 1) + tube_top_wedge(sides, inner, outer, m - 1)
    }
}

/// The first `m` outer-wall sides.
pub open spec fn tube_outer_prefix(sides: int, inner: Frac, outer: Frac, m: int) -> Seq<Scalar>
    decreases m,
{
    if m <= 0 {
        Seq::empty()
    } else {
        tube_outer_prefix(sides, inner, outer, m - 1) + tube_outer_wedge(sides, inner, outer, m - 1)
    }
}

/// The first `m` inner-wall sides.
pub open spec fn tube_inner_prefix(sides: int, inner: Frac, outer: Frac, m: int) -> Seq<Scalar>
    decreases m,
{
    if m <= 0 {
        Seq::empty()
    } else {
        tube_inner_prefix(sides, inner, outer, m - 1) + tube_inner_wedge(sides, inner, outer, m - 1)
    }
}

/// The first `m` bottom-face segments.
pub open spec fn tube_bottom_prefix(sides: int, inner: Frac, outer: Frac, m: int) -> Seq<Scalar>
    decreases m,
{
    if m <= 0 {
        Seq::empty()
    } else {
        tube_bottom_prefix(sides, inner, outer, m - 1) + tube_bottom_wedge(
            sides,
            inner,
            outer,
            m - 1,
        )
    }
}

/// The full component sequence of the tube: top face, outer wall, inner
/// wall, bottom face.
pub open spec fn tube_seq(sides: int, inner: Frac, outer: Frac) -> Seq<Scalar> {
    tube_top_prefix(sides, inner, outer, sides) + tube_outer_prefix(sides, inner, outer, sides)
        + tube_inner_prefix(sides, inner, outer, sides) + tube_bottom_prefix(
        sides,
        inner,
        outer,
        sides,
    )
}

/// Each segment of each of the four surfaces contributes 18 components.
pub proof fn lemma_tube_prefix_len(sides: int, inner: Frac, outer: Frac, m: int)
    requires
        m >= 0,
    ensures
        tube_top_prefix(sides, inner, outer, m).len() == 18 * m,
        tube_outer_prefix(sides, inner, outer, m).len() == 18 * m,
        tube_inner_prefix(sides, inner, outer, m).len() == 18 * m,
        tube_bottom_prefix(sides, inner, outer, m).len() == 18 * m,
    decreases m,
{
    if m > 0 {
        lemma_tube_prefix_len(sides, inner, outer, m - 1);
    }
}

/// With bounded radii, every tube component is bounded.
pub proof fn lemma_tube_prefix_bounded(sides: int, inner: Frac, outer: Frac, m: int)
    requires
        m >= 0,
        frac_bounded(inner),
        frac_bounded(outer),
    ensures
        forall|k: int|
            0 <= k < tube_top_prefix(sides, inner, outer, m).len() ==> scalar_bounded(
                #[trigger] tube_top_prefix(sides, inner, outer, m)[k],
            ),
        forall|k: int|
            0 <= k < tube_outer_prefix(sides, inner, outer, m).len() ==> scalar_bounded(
                #[trigger] tube_outer_prefix(sides, inner, outer, m)[k],
            ),
        forall|k: int|
            0 <= k < tube_inner_prefix(sides, inner, outer, m).len() ==> scalar_bounded(
                #[trigger] tube_inner_prefix(sides, inner, outer, m)[k],
            ),
        forall|k: int|
            0 <= k < tube_bottom_prefix(sides, inner, outer, m).len() ==> scalar_bounded(
                #[trigger] tube_bottom_prefix(sides, inner, outer, m)[k],
            ),
    decreases m,
{
    if m > 0 {
        lemma_tube_prefix_bounded(sides, inner, outer, m - 1);
        assert forall|k: int| 0 <= k < tube_top_prefix(sides, inner, outer, m).len() implies
            scalar_bounded(#[trigger] tube_top_prefix(sides, inner, outer, m)[k]) by {
            let prev = tube_top_prefix(sides, inner, outer, m - 1);
            if k < prev.len() {
                assert(tube_top_prefix(sides, inner, outer, m)[k] == prev[k]);
            } else {
                assert(tube_top_prefix(sides, inner, outer, m)[k] == tube_top_wedge(
                    sides,
                    inner,
                    outer,
                    m - 1,
                )[k - prev.len()]);
            }
        }
        assert forall|k: int| 0 <= k < tube_outer_prefix(sides, inner, outer, m).len() implies
            scalar_bounded(#[trigger] tube_outer_prefix(sides, inner, outer, m)[k]) by {
            let prev = tube_outer_prefix(sides, inner, outer, m - 1);
            if k < prev.len() {
                assert(tube_outer_prefix(sides, inner, outer, m)[k] == prev[k]);
            } else {
                assert(tube_outer_prefix(sides, inner, outer, m)[k] == tube_outer_wedge(
                    sides,
                    inner,
                    outer,
                    m - 1,
                )[k - prev.len()]);
            }
        }
        assert forall|k: int| 0 <= k < tube_inner_prefix(sides, inner, outer, m).len() implies
            scalar_bounded(#[trigger] tube_inner_prefix(sides, inner, outer, m)[k]) by {
            let prev = tube_inner_prefix(sides, inner, outer, m - 1);
            if k < prev.len() {
                assert(tube_inner_prefix(sides, inner, outer, m)[k] == prev[k]);
            } else {
                assert(tube_inner_prefix(sides, inner, outer, m)[k] == tube_inner_wedge(
                    sides,
                    inner,
                    outer,
                    m - 1,
                )[k - prev.len()]);
            }
        }
        assert forall|k: int| 0 <= k < tube_bottom_prefix(sides, inner, outer, m).len() implies
            scalar_bounded(#[trigger] tube_bottom_prefix(sides, inner, outer, m)[k]) by {
            let prev = tube_bottom_prefix(sides, inner, outer, m - 1);
            if k < prev.len() {
                assert(tube_bottom_prefix(sides, inner, outer, m)[k] == prev[k]);
            } else {
                assert(tube_bottom_prefix(sides, inner, outer, m)[k] == tube_bottom_wedge(
                    sides,
                    inner,
                    outer,
                    m - 1,
                )[k - prev.len()]);
            }
        }
    }
}

/// Emits the flat vertex buffer of the tube.
#[verifier::rlimit(60)]
pub fn tube(sides: usize, inner_radius: Frac, outer_radius: Frac) -> (r: Vec<Scalar>)
    requires
        1 <= sides <= MAX_COUNT,
        frac_bounded(inner_radius),
        frac_bounded(outer_radius),
    ensures
        r@ == tube_seq(sides as int, inner_radius, outer_radius),
        r@.len() == 72 * (sides as int),
        forall|k: int| 0 <= k < r@.len() ==> scalar_bounded(#[trigger] r@[k]),
{
    let ghost s = sides as int;
    let mut temp_vec: Vec<Scalar> = Vec::new();
    let mut i: usize = 0;
    while i < sides
        invariant
            1 <= sides <= MAX_COUNT,
            i <= sides,
            frac_bounded(inner_radius),
            frac_bounded(outer_radius),
            temp_vec@ == tube_top_prefix(sides as int, inner_radius, outer_radius, i as int),
        decreases sides - i,
    {
        let half = Scalar::Exact { value: Frac { num: 1, den: 2 } };
        temp_vec.push(Scalar::Cosine { coef: inner_radius, index: i, sides });
        temp_vec.push(half);
        temp_vec.push(Scalar::Sine { coef: inner_radius, index: i, sides });
        temp_vec.push(Scalar::Cosine { coef: inner_radius, index: i + 1, sides });
        temp_vec.push(half);
        temp_vec.push(Scalar::Sine { coef: inner_radius, index: i + 1, sides });
        temp_vec.push(Scalar::Cosine { coef: outer_radius, index: i, sides });
        temp_vec.push(half);
        temp_vec.push(Scalar::Sine { coef: outer_radius, index: i, sides });
        temp_vec.push(Scalar::Cosine { coef: outer_radius, index: i, sides });
        temp_vec.push(half);
        temp_vec.push(Scalar::Sine { coef: outer_radius, index: i, sides });
        temp_vec.push(Scalar::Cosine { coef: inner_radius, index: i + 1, sides });
        temp_vec.push(half);
        temp_vec.push(Scalar::Sine { coef: inner_radius, index: i + 1, sides });
        temp_vec.push(Scalar::Cosine { coef: outer_radius, index: i + 1, sides });
        temp_vec.push(half);
        temp_vec.push(Scalar::Sine { coef: outer_radius, index: i + 1, sides });
        proof {
            assert(temp_vec@ =~= tube_top_prefix(sides as int, inner_radius, outer_radius, i + 1));
        }
        i = i + 1;
    }
    let ghost top_full = tube_top_prefix(s, inner_radius, outer_radius, s);
    let mut i: usize = 0;
    while i < sides
        invariant
            1 <= sides <= MAX_COUNT,
            i <= sides,
            frac_bounded(inner_radius),
            frac_bounded(outer_radius),
            top_full == tube_top_prefix(sides as int, inner_radius, outer_radius, sides as int),
            temp_vec@ == top_full + tube_outer_prefix(
                sides as int,
                inner_radius,
                outer_radius,
                i as int,
            ),
        decreases sides - i,
    {
        let half = Scalar::Exact { value: Frac { num: 1, den: 2 } };
        let neg_half = Scalar::Exact { value: Frac { num: -1, den: 2 } };
        temp_vec.push(Scalar::Cosine { coef: outer_radius, index: i, sides });
        temp_vec.push(half);
        temp_vec.push(Scalar::Sine { coef: outer_radius, index: i, sides });
        temp_vec.push(Scalar::Cosine { coef: outer_radius, index: i + 1, sides });
        temp_vec.push(half);
        temp_vec.push(Scalar::Sine { coef: outer_radius, index: i + 1, sides });
        temp_vec.push(Scalar::Cosine { coef: outer_radius, index: i, sides });
        temp_vec.push(neg_half);
        temp_vec.push(Scalar::Sine { coef: outer_radius, index: i, sides });
        temp_vec.push(Scalar::Cosine { coef: outer_radius, index: i + 1, sides });
        temp_vec.push(neg_half);
        temp_vec.push(Scalar::Sine { coef: outer_radius, index: i + 1, sides });
        temp_vec.push(Scalar::Cosine { coef: outer_radius, index: i, sides });
        temp_vec.push(neg_half);
        temp_vec.push(Scalar::Sine { coef: outer_radius, index: i, sides });
        temp_vec.push(Scalar::Cosine { coef: outer_radius, index: i + 1, sides });
        temp_vec.push(half);
        temp_vec.push(Scalar::Sine { coef: outer_radius, index: i + 1, sides });
        proof {
            assert(temp_vec@ =~= top_full + tube_outer_prefix(
                sides as int,
                inner_radius,
                outer_radius,
                i + 1,
            ));
        }
        i = i + 1;
    }
    let ghost two_full = top_full + tube_outer_prefix(s, inner_radius, outer_radius, s);
    let mut i: usize = 0;
    while i < sides
        invariant
            1 <= sides <= MAX_COUNT,
            i <= sides,
            frac_bounded(inner_radius),
            frac_bounded(outer_radius),
            two_full == tube_top_prefix(sides as int, inner_radius, outer_radius, sides as int)
                + tube_outer_prefix(sides as int, inner_radius, outer_radius, sides as int),
            temp_vec@ == two_full + tube_inner_prefix(
                sides as int,
                inner_radius,
                outer_radius,
                i as int,
            ),
        decreases sides - i,
    {
        let half = Scalar::Exact { value: Frac { num: 1, den: 2 } };
        let neg_half = Scalar::Exact { value: Frac { num: -1, den: 2 } };
        temp_vec.push(Scalar::Cosine { coef: inner_radius, index: i + 1, sides });
        temp_vec.push(half);
        temp_vec.push(Scalar::Sine { coef: inner_radius, index: i + 1, sides });
        temp_vec.push(Scalar::Cosine { coef: inner_radius, index: i, sides });
        temp_vec.push(half);
        temp_vec.push(Scalar::Sine { coef: inner_radius, index: i, sides });
        temp_vec.push(Scalar::Cosine { coef: inner_radius, index: i, sides });
        temp_vec.push(neg_half);
        temp_vec.push(Scalar::Sine { coef: inner_radius, index: i, sides });
        temp_vec.push(Scalar::Cosine { coef: inner_radius, index: i, sides });
        temp_vec.push(neg_half);
        temp_vec.push(Scalar::Sine { coef: inner_radius, index: i, sides });
        temp_vec.push(Scalar::Cosine { coef: inner_radius, index: i + 1, sides });
        temp_vec.push(neg_half);
        temp_vec.push(Scalar::Sine { coef: inner_radius, index: i + 1, sides });
        temp_vec.push(Scalar::Cosine { coef: inner_radius, index: i + 1, sides });
        temp_vec.push(half);
        temp_vec.push(Scalar::Sine { coef: inner_radius, index: i + 1, sides });
        proof {
            assert(temp_vec@ =~= two_full + tube_inner_prefix(
                sides as int,
                inner_radius,
                outer_radius,
                i + 1,
            ));
        }
        i = i + 1;
    }
    let ghost three_full = two_full + tube_inner_prefix(s, inner_radius, outer_radius, s);
    let mut i: usize = 0;
    while i < sides
        invariant
            1 <= sides <= MAX_COUNT,
            i <= sides,
            frac_bounded(inner_radius),
            frac_bounded(outer_radius),
            three_full == tube_top_prefix(sides as int, inner_radius, outer_radius, sides as int)
                + tube_outer_prefix(sides as int, inner_radius, outer_radius, sides as int)
                + tube_inner_prefix(sides as int, inner_radius, outer_radius, sides as int),
            temp_vec@ == three_full + tube_bottom_prefix(
                sides as int,
                inner_radius,
                outer_radius,
                i as int,
            ),
        decreases sides - i,
    {
        let neg_half = Scalar::Exact { value: Frac { num: -1, den: 2 } };
        temp_vec.push(Scalar::Cosine { coef: inner_radius, index: i + 1, sides });
        temp_vec.push(neg_half);
        temp_vec.push(Scalar::Sine { coef: inner_radius, index: i + 1, sides });
        temp_vec.push(Scalar::Cosine { coef: inner_radius, index: i, sides });
        temp_vec.push(neg_half);
        temp_vec.push(Scalar::Sine { coef: inner_radius, index: i, sides });
        temp_vec.push(Scalar::Cosine { coef: outer_radius, index: i, sides });
        temp_vec.push(neg_half);
        temp_vec.push(Scalar::Sine { coef: outer_radius, index: i, sides });
        temp_vec.push(Scalar::Cosine { coef: inner_radius, index: i + 1, sides });
        temp_vec.push(neg_half);
        temp_vec.push(Scalar::Sine { coef: inner_radius, index: i + 1, sides });
        temp_vec.push(Scalar::Cosine { coef: outer_radius, index: i, sides });
        temp_vec.push(neg_half);
        temp_vec.push(Scalar::Sine { coef: outer_radius, index: i, sides });
        temp_vec.push(Scalar::Cosine { coef: outer_radius, index: i + 1, sides });
        temp_vec.push(neg_half);
        temp_vec.push(Scalar::Sine { coef: outer_radius, index: i + 1, sides });
        proof {
            assert(temp_vec@ =~= three_full + tube_bottom_prefix(
                sides as int,
                inner_radius,
                outer_radius,
                i + 1,
            ));
        }
        i = i + 1;
    }
    proof {
        lemma_tube_prefix_len(s, inner_radius, outer_radius, s);
        lemma_tube_prefix_bounded(s, inner_radius, outer_radius, s);
        assert(temp_vec@ == tube_seq(s, inner_radius, outer_radius));
        assert forall|k: int| 0 <= k < temp_vec@.len() implies scalar_bounded(
            #[trigger] temp_vec@[k],
        ) by {
            let top = tube_top_prefix(s, inner_radius, outer_radius, s);
            let outer = tube_outer_prefix(s, inner_radius, outer_radius, s);
            let inner = tube_inner_prefix(s, inner_radius, outer_radius, s);
            let bottom = tube_bottom_prefix(s, inner_radius, outer_radius, s);
            if k < top.len() {
                assert(temp_vec@[k] == top[k]);
            } else if k < top.len() + outer.len() {
                assert(temp_vec@[k] == outer[k - top.len()]);
            } else if k < top.len() + outer.len() + inner.len() {
                assert(temp_vec@[k] == inner[k - top.len() - outer.len()]);
            } else {
                assert(temp_vec@[k] == bottom[k - top.len() - outer.len() - inner.len()]);
            }
        }
    }
    temp_vec
}

} // verus!
