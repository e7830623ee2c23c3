//! Exact rational numbers, the coordinate domain of the tessellators.
//!
//! Every coordinate a tessellator emits is either a rational number (grid
//! positions, half extents, radii) or a rational coefficient attached to a
//! trigonometric or normalizing term, so meshes can be described and reasoned
//! about without any rounding.

use vstd::prelude::*;

verus! {

/// An exact rational value `num / den`. Well-formed values keep `den >= 1`;
/// see [`frac_bounded`].
#[derive(Clone, Copy, Debug, PartialEq, Eq, Structural)]
pub struct Frac {
    pub num: i64,
    pub den: i64,
}

/// Bound accepted for numerators and denominators of input fractions, chosen
/// so that the product of two bounded fractions cannot overflow `i64`.
pub const FRAC_LIMIT: i64 = 0x8000_0000;

/// A well-formed input fraction: positive denominator, both components within
/// [`FRAC_LIMIT`], so that one multiplication stays exact in `i64`.
pub open spec fn frac_bounded(f: Frac) -> bool {
    &&& 1 <= f.den <= FRAC_LIMIT
    &&& -FRAC_LIMIT <= f.num <= FRAC_LIMIT
}

/// The rational zero.
pub open spec fn frac_zero() -> Frac {
    Frac { num: 0, den: 1 }
}

/// The rational one, the identity scale factor.
pub open spec fn frac_one() -> Frac {
    Frac { num: 1, den: 1 }
}

/// One half, the half-extent of the unit primitives.
pub open spec fn frac_half() -> Frac {
    Frac { num: 1, den: 2 }
}

/// Minus one half.
pub open spec fn frac_neg_half() -> Frac {
    Frac { num: -1i64, den: 2 }
}

/// Whether `f` denotes a strictly positive value, assuming `f.den >= 1`.
pub open spec fn frac_is_pos(f: Frac) -> bool {
    f.num > 0
}

/// Whether the value of `f` lies within [-1/2, 1/2], assuming `f.den >= 1`.
pub open spec fn frac_within_half(f: Frac) -> bool {
    -f.den <= 2 * f.num && 2 * f.num <= f.den
}

/// Whether the value of `f` is exactly 1/2 or -1/2, assuming `f.den >= 1`.
pub open spec fn frac_is_half_mag(f: Frac) -> bool {
    2 * f.num == f.den || 2 * f.num == -f.den
}

/// The exact product of two fractions. The result is only meaningful when
/// both factors are bounded, so that the products below do not wrap.
pub open spec fn frac_mul_spec(a: Frac, b: Frac) -> Frac {
    Frac { num: (a.num * b.num) as i64, den: (a.den * b.den) as i64 }
}

/// Multiplies two well-formed fractions exactly.
pub fn frac_mul(a: Frac, b: Frac) -> (r: Frac)
    requires
        frac_bounded(a),
        frac_bounded(b),
    ensures
        r == frac_mul_spec(a, b),
        r.den >= 1,
{
    proof {
        assert(-(FRAC_LIMIT * FRAC_LIMIT) <= a.num * b.num <= FRAC_LIMIT * FRAC_LIMIT)
            by (nonlinear_arith)
            requires
                -FRAC_LIMIT <= a.num <= FRAC_LIMIT && -FRAC_LIMIT <= b.num <= FRAC_LIMIT,
        ;
        assert(1 <= a.den * b.den <= FRAC_LIMIT * FRAC_LIMIT) by (nonlinear_arith)
            requires
                1 <= a.den <= FRAC_LIMIT && 1 <= b.den <= FRAC_LIMIT,
        ;
    }
    Frac { num: a.num * b.num, den: a.den * b.den }
}

/// Multiplying by one is the identity, on the representation itself and not
/// merely on the denoted value.
pub proof fn lemma_frac_mul_one(a: Frac)
    ensures
        frac_mul_spec(a, frac_one()) == a,
{
}

/// The count (number of subdivisions or sides) denoted by an argument: the
/// integer part of a non-negative value, and 0 for any non-positive value,
/// mirroring a saturating float-to-integer conversion.
pub open spec fn frac_to_count(a: Frac) -> int {
    if a.num <= 0 {
        0
    } else {
        a.num / a.den
    }
}

/// Extracts the count encoded by argument `a`.
pub fn frac_count(a: Frac) -> (r: usize)
    requires
        frac_bounded(a),
    ensures
        r == frac_to_count(a),
{
    if a.num <= 0 {
        0
    } else {
        assert(a.num / a.den <= a.num) by (nonlinear_arith)
            requires
                a.num > 0 && a.den >= 1,
        ;
        assert(a.num / a.den >= 0) by (nonlinear_arith)
            requires
                a.num > 0 && a.den >= 1,
        ;
        (a.num / a.den) as usize
    }
}

} // verus!
