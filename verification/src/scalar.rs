//! Symbolic vertex components and per-axis scaling.
//!
//! A vertex buffer is a flat sequence of [`Scalar`] values, three per vertex.
//! Grid shapes only ever need exact rationals; the round shapes attach a
//! rational coefficient (the radius) to a sine or cosine of an exact fraction
//! of a full turn, and the sphere divides a cube vertex component by the norm
//! of its vertex. A renderer evaluates each symbol to a machine float at the
//! very end; every transformation before that point is exact.

use vstd::prelude::*;

use crate::frac::{frac_bounded, frac_mul, frac_mul_spec, frac_one, Frac};

verus! {

/// One component of a vertex, in exact symbolic form.
#[derive(Clone, Copy, Debug, PartialEq, Eq, Structural)]
pub enum Scalar {
    /// The rational value itself.
    Exact { value: Frac },
    /// `coef * cos(2 * pi * index / sides)`.
    Cosine { coef: Frac, index: usize, sides: usize },
    /// `coef * sin(2 * pi * index / sides)`.
    Sine { coef: Frac, index: usize, sides: usize },
    /// `value / sqrt(x^2 + y^2 + z^2)`: one component of the central
    /// projection of the rational point `(x, y, z)` onto the unit sphere.
    Normed { value: Frac, x: Frac, y: Frac, z: Frac },
}

/// Whether the coefficient of `s` (the part a scale factor multiplies) is a
/// well-formed bounded fraction, so that scaling stays exact.
pub open spec fn scalar_bounded(s: Scalar) -> bool {
    match s {
        Scalar::Exact { value } => frac_bounded(value),
        Scalar::Cosine { coef, .. } => frac_bounded(coef),
        Scalar::Sine { coef, .. } => frac_bounded(coef),
        Scalar::Normed { value, .. } => frac_bounded(value),
    }
}

/// Multiplies the rational coefficient of `s` by `f`, leaving the symbolic
/// part (angle index or normalizing triple) untouched.
pub open spec fn scale_scalar_spec(s: Scalar, f: Frac) -> Scalar {
    match s {
        Scalar::Exact { value } => Scalar::Exact { value: frac_mul_spec(value, f) },
        Scalar::Cosine { coef, index, sides } => Scalar::Cosine {
            coef: frac_mul_spec(coef, f),
            index,
            sides,
        },
        Scalar::Sine { coef, index, sides } => Scalar::Sine {
            coef: frac_mul_spec(coef, f),
            index,
            sides,
        },
        Scalar::Normed { value, x, y, z } => Scalar::Normed {
            value: frac_mul_spec(value, f),
            x,
            y,
            z,
        },
    }
}

/// Scales one symbolic component by the factor `f`.
pub fn scale_scalar(s: Scalar, f: Frac) -> (r: Scalar)
    requires
        scalar_bounded(s),
        frac_bounded(f),
    ensures
        r == scale_scalar_spec(s, f),
{
    match s {
        Scalar::Exact { value } => Scalar::Exact { value: frac_mul(value, f) },
        Scalar::Cosine { coef, index, sides } => Scalar::Cosine {
            coef: frac_mul(coef, f),
            index,
            sides,
        },
        Scalar::Sine { coef, index, sides } => Scalar::Sine {
            coef: frac_mul(coef, f),
            index,
            sides,
        },
        Scalar::Normed { value, x, y, z } => Scalar::Normed { value: frac_mul(value, f), x, y, z },
    }
}

/// Applies the per-axis scale `(sx, sy, sz)` to a flat vertex buffer:
/// component `k` is multiplied by the factor of axis `k % 3`.
pub open spec fn scale_seq(s: Seq<Scalar>, sx: Frac, sy: Frac, sz: Frac) -> Seq<Scalar> {
    Seq::new(
        s.len(),
        |k: int|
            scale_scalar_spec(
                s[k],
                if k % 3 == 0 {
                    sx
                } else if k % 3 == 1 {
                    sy
                } else {
                    sz
                },
            ),
    )
}

/// Scaling by one on every axis changes nothing, down to the representation
/// of every component.
pub proof fn lemma_scale_seq_identity(s: Seq<Scalar>)
    ensures
        scale_seq(s, frac_one(), frac_one(), frac_one()) == s,
{
    assert forall|k: int| 0 <= k < s.len() implies scale_seq(
        s,
        frac_one(),
        frac_one(),
        frac_one(),
    )[k] == s[k] by {
        crate::frac::lemma_frac_mul_one(
            match s[k] {
                Scalar::Exact { value } => value,
                Scalar::Cosine { coef, .. } => coef,
                Scalar::Sine { coef, .. } => coef,
                Scalar::Normed { value, .. } => value,
            },
        );
    }
    assert(scale_seq(s, frac_one(), frac_one(), frac_one()) =~= s);
}

/// Scaling law: generating a buffer with the identity scale and applying an
/// arbitrary per-axis scale to it afterwards yields exactly the buffer that
/// direct generation with that scale produces.
pub proof fn lemma_scale_after_identity(s: Seq<Scalar>, sx: Frac, sy: Frac, sz: Frac)
    ensures
        scale_seq(scale_seq(s, frac_one(), frac_one(), frac_one()), sx, sy, sz) == scale_seq(
            s,
            sx,
            sy,
            sz,
        ),
{
    lemma_scale_seq_identity(s);
}

/// Scales a vertex buffer in place, axis by axis.
pub fn apply_scale(v: &mut Vec<Scalar>, sx: Frac, sy: Frac, sz: Frac)
    requires
        old(v)@.len() % 3 == 0,
        forall|k: int| 0 <= k < old(v)@.len() ==> scalar_bounded(#[trigger] old(v)@[k]),
        frac_bounded(sx),
        frac_bounded(sy),
        frac_bounded(sz),
    ensures
        final(v)@ == scale_seq(old(v)@, sx, sy, sz),
{
    // Skipping the identity scale is an optimization, not a semantic choice:
    // with the canonical representation of one, multiplying through would
    // leave every component untouched representation for representation.
    if sx.num == 1 && sx.den == 1 && sy.num == 1 && sy.den == 1 && sz.num == 1 && sz.den == 1 {
        proof {
            lemma_scale_seq_identity(v@);
        }
        return ;
    }
    let ghost orig = v@;
    let mut i: usize = 0;
    while i < v.len()
        invariant
            i % 3 == 0,
            i <= v@.len(),
            v@.len() == orig.len(),
            orig.len() % 3 == 0,
            forall|k: int| 0 <= k < orig.len() ==> scalar_bounded(#[trigger] orig[k]),
            frac_bounded(sx),
            frac_bounded(sy),
            frac_bounded(sz),
            forall|k: int| 0 <= k < i ==> v@[k] == scale_seq(orig, sx, sy, sz)[k],
            forall|k: int| i <= k < orig.len() ==> v@[k] == orig[k],
        decreases v@.len() - i,
    {
        proof {
            assert(i + 2 < orig.len()) by (nonlinear_arith)
                requires
                    i % 3 == 0 && orig.len() % 3 == 0 && i < orig.len(),
            ;
            assert((i as int) % 3 == 0 && (i + 1) % 3 == 1 && (i + 2) % 3 == 2)
                by (nonlinear_arith)
                requires
                    i % 3 == 0,
            ;
            assert(v@[i as int] == orig[i as int] && v@[i + 1] == orig[i + 1] && v@[i + 2]
                == orig[i + 2]);
            assert(scalar_bounded(orig[i as int]) && scalar_bounded(orig[i + 1])
                && scalar_bounded(orig[i + 2]));
        }
        let sv = scale_scalar(v[i], sx);
        v.set(i, sv);
        let sv = scale_scalar(v[i + 1], sy);
        v.set(i + 1, sv);
        let sv = scale_scalar(v[i + 2], sz);
        v.set(i + 2, sv);
        i = i + 3;
    }
    assert(v@ =~= scale_seq(orig, sx, sy, sz));
}

} // verus!
