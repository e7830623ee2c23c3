//! The disk tessellator: a fan of `sides` triangles in the XY plane, each
//! connecting two consecutive points of a circle of the given radius to the
//! origin.

use vstd::prelude::*;

use crate::frac::{frac_bounded, frac_zero, Frac};
use crate::plane::MAX_COUNT;
use crate::scalar::{scalar_bounded, Scalar};

verus! {

/// `radius * cos(2 * pi * i / sides)`, the x component of rim point `i`.
pub open spec fn rim_cos(sides: int, radius: Frac, i: int) -> Scalar {
    Scalar::Cosine { coef: radius, index: i as usize, sides: sides as usize }
}

/// `radius * sin(2 * pi * i / sides)`, the y component of rim point `i`
/// (in the XY plane) or its z component (in the XZ plane).
pub open spec fn rim_sin(sides: int, radius: Frac, i: int) -> Scalar {
    Scalar::Sine { coef: radius, index: i as usize, sides: sides as usize }
}

/// An exact rational component.
pub open spec fn exact(f: Frac) -> Scalar {
    Scalar::Exact { value: f }
}

/// Fan triangle `i` of the disk, nine components: rim point `i`, rim point
/// `i + 1`, then the origin. The wrap-around triangle keeps the index
/// `sides`, denoting the full-turn angle rather than reusing index 0, just as
/// the angle itself is recomputed rather than reused.
pub open spec fn disk_wedge(sides: int, radius: Frac, i: int) -> Seq<Scalar> {
    seq![
        rim_cos(sides, radius, i),
        rim_sin(sides, radius, i),
        exact(frac_zero()),
        rim_cos(sides, radius, i + 1),
        rim_sin(sides, radius, i + 1),
        exact(frac_zero()),
        exact(frac_zero()),
        exact(frac_zero()),
        exact(frac_zero()),
    ]
}

/// The components of the first `m` fan triangles.
pub open spec fn disk_prefix(sides: int, radius: Frac, m: int) -> Seq<Scalar>
    decreases m,
{
    if m <= 0 {
        Seq::empty()
    } else {
        disk_prefix(sides, radius, m - 1) + disk_wedge(sides, radius, m - 1)
    }
}

/// The full component sequence of the disk.
pub open spec fn disk_seq(sides: int, radius: Frac) -> Seq<Scalar> {
    disk_prefix(sides, radius, sides)
}

/// Each fan triangle contributes 9 components.
pub proof fn lemma_disk_prefix_len(sides: int, radius: Frac, m: int)
    requires
        m >= 0,
    ensures
        disk_prefix(sides, radius, m).len() == 9 * m,
    decreases m,
{
    if m > 0 {
        lemma_disk_prefix_len(sides, radius, m - 1);
    }
}

/// With a bounded radius, every component of the disk is bounded.
pub proof fn lemma_disk_prefix_bounded(sides: int, radius: Frac, m: int)
    requires
        m >= 0,
        frac_bounded(radius),
    ensures
        forall|k: int|
            0 <= k < disk_prefix(sides, radius, m).len() ==> scalar_bounded(
                #[trigger] disk_prefix(sides, radius, m)[k],
            ),
    decreases m,
{
    if m > 0 {
        lemma_disk_prefix_bounded(sides, radius, m - 1);
        let prev = disk_prefix(sides, radius, m - 1);
        let wedge = disk_wedge(sides, radius, m - 1);
        assert forall|k: int| 0 <= k < disk_prefix(sides, radius, m).len() implies scalar_bounded(
            #[trigger] disk_prefix(sides, radius, m)[k],
        ) by {
            if k < prev.len() {
                assert(disk_prefix(sides, radius, m)[k] == prev[k]);
            } else {
                assert(disk_prefix(sides, radius, m)[k] == wedge[k - prev.len()]);
            }
        }
    }
}

/// Within the first `m` fan triangles, triangle `t` occupies components
/// `9t` through `9t + 8` and is exactly its wedge.
pub proof fn lemma_disk_triangle(sides: int, radius: Frac, m: int, t: int)
    requires
        0 <= t < m,
    ensures
        forall|j: int|
            0 <= j < 9 ==> disk_prefix(sides, radius, m)[9 * t + j] == #[trigger] disk_wedge(
                sides,
                radius,
                t,
            )[j],
    decreases m,
{
    lemma_disk_prefix_len(sides, radius, m - 1);
    if t == m - 1 {
        assert forall|j: int| 0 <= j < 9 implies disk_prefix(sides, radius, m)[9 * t + j]
            == #[trigger] disk_wedge(sides, radius, t)[j] by {
            assert(disk_prefix(sides, radius, m)[9 * t + j] == disk_wedge(sides, radius, m - 1)[9
                * t + j - 9 * (m - 1)]);
        }
    } else {
        lemma_disk_triangle(sides, radius, m - 1, t);
        assert forall|j: int| 0 <= j < 9 implies disk_prefix(sides, radius, m)[9 * t + j]
            == #[trigger] disk_wedge(sides, radius, t)[j] by {
            assert(disk_prefix(sides, radius, m)[9 * t + j] == disk_prefix(sides, radius, m - 1)[9
                * t + j]);
        }
    }
}

/// Rim law of the disk: fan triangle `t` consists of rim point `t`, rim
/// point `t + 1` and the origin, all at `z = 0`, and both rim points carry
/// the radius as coefficient of the cosine and sine of one and the same
/// angle, so every non-centre vertex lies at distance `radius` from the
/// origin in the XY plane.
pub proof fn lemma_disk_rim(sides: int, radius: Frac, t: int)
    requires
        0 <= t < sides,
    ensures
        disk_seq(sides, radius)[9 * t] == rim_cos(sides, radius, t),
        disk_seq(sides, radius)[9 * t + 1] == rim_sin(sides, radius, t),
        disk_seq(sides, radius)[9 * t + 2] == exact(frac_zero()),
        disk_seq(sides, radius)[9 * t + 3] == rim_cos(sides, radius, t + 1),
        disk_seq(sides, radius)[9 * t + 4] == rim_sin(sides, radius, t + 1),
        disk_seq(sides, radius)[9 * t + 5] == exact(frac_zero()),
        disk_seq(sides, radius)[9 * t + 6] == exact(frac_zero()),
        disk_seq(sides, radius)[9 * t + 7] == exact(frac_zero()),
        disk_seq(sides, radius)[9 * t + 8] == exact(frac_zero()),
{
    lemma_disk_triangle(sides, radius, sides, t);
    assert(disk_seq(sides, radius)[9 * t + 0] == disk_wedge(sides, radius, t)[0]);
    assert(disk_seq(sides, radius)[9 * t + 1] == disk_wedge(sides, radius, t)[1]);
    assert(disk_seq(sides, radius)[9 * t + 2] == disk_wedge(sides, radius, t)[2]);
    assert(disk_seq(sides, radius)[9 * t + 3] == disk_wedge(sides, radius, t)[3]);
    assert(disk_seq(sides, radius)[9 * t + 4] == disk_wedge(sides, radius, t)[4]);
    assert(disk_seq(sides, radius)[9 * t + 5] == disk_wedge(sides, radius, t)[5]);
    assert(disk_seq(sides, radius)[9 * t + 6] == disk_wedge(sides, radius, t)[6]);
    assert(disk_seq(sides, radius)[9 * t + 7] == disk_wedge(sides, radius, t)[7]);
    assert(disk_seq(sides, radius)[9 * t + 8] == disk_wedge(sides, radius, t)[8]);
}

/// Emits the flat vertex buffer of the disk fan.
pub fn disk(sides: usize, radius: Frac) -> (r: Vec<Scalar>)
    requires
        1 <= sides <= MAX_COUNT,
        frac_bounded(radius),
    ensures
        r@ == disk_seq(sides as int, radius),
        r@.len() == 9 * (sides as int),
        forall|k: int| 0 <= k < r@.len() ==> scalar_bounded(#[trigger] r@[k]),
{
    let mut temp_vec: Vec<Scalar> = Vec::new();
    let mut i: usize = 0;
    while i < sides
        invariant
            1 <= sides <= MAX_COUNT,
            i <= sides,
            frac_bounded(radius),
            temp_vec@ == disk_prefix(sides as int, radius, i as int),
        decreases sides - i,
    {
        let zero = Scalar::Exact { value: Frac { num: 0, den: 1 } };
        temp_vec.push(Scalar::Cosine { coef: radius, index: i, sides });
        temp_vec.push(Scalar::Sine { coef: radius, index: i, sides });
        temp_vec.push(zero);
        temp_vec.push(Scalar::Cosine { coef: radius, index: i + 1, sides });
        temp_vec.push(Scalar::Sine { coef: radius, index: i + 1, sides });
        temp_vec.push(zero);
        temp_vec.push(zero);
        temp_vec.push(zero);
        temp_vec.push(zero);
        proof {
            assert(temp_vec@ =~= disk_prefix(sides as int, radius, i + 1));
        }
        i = i + 1;
    }
    proof {
        lemma_disk_prefix_len(sides as int, radius, sides as int);
        lemma_disk_prefix_bounded(sides as int, radius, sides as int);
    }
    temp_vec
}

} // verus!
