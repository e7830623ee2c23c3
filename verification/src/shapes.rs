//! The geometry facade: dispatches a shape index and argument list to the
//! matching tessellator, validates the inputs, applies the per-axis scale,
//! and packages the resulting vertex buffer with its triangle count.

use vstd::prelude::*;

use crate::cube::{cube, cube_seq};
use crate::cylinder::{cylinder, cylinder_seq};
use crate::disk::{disk, disk_seq};
use crate::frac::{frac_bounded, frac_is_pos, frac_count, frac_to_count, Frac};
use crate::plane::{plane, plane_seq, MAX_COUNT};
use crate::scalar::{apply_scale, scalar_bounded, scale_seq, Scalar};
use crate::sphere::{sphere, sphere_seq};
use crate::tube::{tube, tube_seq};

verus! {

/// The closed set of shapes the generator knows, selected externally by the
/// indices 0 through 5 in declaration order.
#[derive(Clone, Copy, Debug, PartialEq, Eq, Structural)]
pub enum Shape {
    Plane,
    Disk,
    Cube,
    Sphere,
    Cylinder,
    Tube,
}

/// The conditions under which generation is refused.
#[derive(Clone, Copy, Debug, PartialEq, Eq, Structural)]
pub enum GeomError {
    /// The shape index lies outside 0 through 5.
    InvalidShapeKind,
    /// The argument list is shorter than the selected shape requires.
    InsufficientArguments,
    /// A consumed argument violates its domain: a subdivision or side count
    /// below one, or a radius that is not strictly positive.
    InvalidParameter,
}

/// A generated mesh: the flat vertex buffer (three components per vertex,
/// three vertices per triangle, no sharing) and its triangle count.
pub struct ShapeData {
    pub vertices: Vec<Scalar>,
    pub nr_of_triangles: usize,
}

/// The shape selected by an index between 0 and 5.
pub open spec fn index_shape(i: int) -> Shape {
    if i == 0 {
        Shape::Plane
    } else if i == 1 {
        Shape::Disk
    } else if i == 2 {
        Shape::Cube
    } else if i == 3 {
        Shape::Sphere
    } else if i == 4 {
        Shape::Cylinder
    } else {
        Shape::Tube
    }
}

/// How many leading argument slots the shape consumes.
pub open spec fn required_args(shape: Shape) -> int {
    match shape {
        Shape::Plane => 1,
        Shape::Disk => 2,
        Shape::Cube => 1,
        Shape::Sphere => 1,
        Shape::Cylinder => 2,
        Shape::Tube => 3,
    }
}

/// Whether the consumed arguments lie in the shape's domain: at least one
/// subdivision or side, and strictly positive radii where the shape has any.
pub open spec fn params_valid(shape: Shape, args: Seq<Frac>) -> bool {
    let n = frac_to_count(args[0]);
    match shape {
        Shape::Plane => n >= 1,
        Shape::Disk => n >= 1 && frac_is_pos(args[1]),
        Shape::Cube => n >= 1,
        Shape::Sphere => n >= 1,
        Shape::Cylinder => n >= 1 && frac_is_pos(args[1]),
        Shape::Tube => n >= 1 && frac_is_pos(args[1]) && frac_is_pos(args[2]),
    }
}

/// The triangle count of each shape at subdivision or side count `n`.
pub open spec fn triangle_count_spec(shape: Shape, n: int) -> int {
    match shape {
        Shape::Plane => 2 * n * n,
        Shape::Disk => n,
        Shape::Cube => 12 * n * n,
        Shape::Sphere => 12 * n * n,
        Shape::Cylinder => 4 * n,
        Shape::Tube => 8 * n,
    }
}

/// Lifts a rational buffer into the symbolic component domain.
pub open spec fn exact_seq(s: Seq<Frac>) -> Seq<Scalar> {
    Seq::new(s.len(), |k: int| Scalar::Exact { value: s[k] })
}

/// The unscaled vertex buffer the selected shape produces from its
/// arguments.
pub open spec fn raw_vertex_seq(shape: Shape, args: Seq<Frac>) -> Seq<Scalar> {
    let n = frac_to_count(args[0]);
    match shape {
        Shape::Plane => exact_seq(plane_seq(n)),
        Shape::Disk => disk_seq(n, args[1]),
        Shape::Cube => exact_seq(cube_seq(n)),
        Shape::Sphere => sphere_seq(n),
        Shape::Cylinder => cylinder_seq(n, args[1]),
        Shape::Tube => tube_seq(n, args[1], args[2]),
    }
}

/// Converts a shape index to the shape it selects; any index above 5 is an
/// invalid shape kind rather than a fault.
#[allow(non_snake_case)]
pub fn usize2Shape(value: usize) -> (r: Result<Shape, GeomError>)
    ensures
        value <= 5 ==> r == Ok::<Shape, GeomError>(index_shape(value as int)),
        value > 5 ==> r == Err::<Shape, GeomError>(GeomError::InvalidShapeKind),
{
    match value {
        0 => Ok(Shape::Plane),
        1 => Ok(Shape::Disk),
        2 => Ok(Shape::Cube),
        3 => Ok(Shape::Sphere),
        4 => Ok(Shape::Cylinder),
        5 => Ok(Shape::Tube),
        _ => Err(GeomError::InvalidShapeKind),
    }
}

/// The number of triangles of a plane with the given subdivisions.
pub fn nr_of_plane_triangles(subdivisions: usize) -> (r: usize)
    requires
        subdivisions <= MAX_COUNT,
    ensures
        r == 2 * (subdivisions as int) * (subdivisions as int),
{
    proof {
        assert((subdivisions as int) * (subdivisions as int) <= MAX_COUNT * MAX_COUNT
            && 2 * ((subdivisions as int) * (subdivisions as int)) == 2 * (subdivisions as int) * (
        subdivisions as int)) by (nonlinear_arith)
            requires
                subdivisions <= MAX_COUNT,
        ;
    }
    (subdivisions * subdivisions) * 2
}

/// The number of triangles of a disk fan with the given sides.
pub fn nr_of_disk_triangles(sides: usize) -> (r: usize)
    ensures
        r == sides,
{
    sides
}

/// The number of triangles of a cube: six plane faces.
pub fn nr_of_cube_triangles(subdivisions: usize) -> (r: usize)
    requires
        subdivisions <= MAX_COUNT,
    ensures
        r == 12 * (subdivisions as int) * (subdivisions as int),
{
    proof {
        assert(2 * (subdivisions as int) * (subdivisions as int) * 6 == 12 * (subdivisions as int)
            * (subdivisions as int) && 2 * (subdivisions as int) * (subdivisions as int) <= 2
            * MAX_COUNT * MAX_COUNT) by (nonlinear_arith)
            requires
                subdivisions <= MAX_COUNT,
        ;
    }
    nr_of_plane_triangles(subdivisions) * 6
}

/// The number of triangles of a sphere: the same as the cube it derives
/// from.
pub fn nr_of_sphere_triangles(subdivisions: usize) -> (r: usize)
    requires
        subdivisions <= MAX_COUNT,
    ensures
        r == 12 * (subdivisions as int) * (subdivisions as int),
{
    nr_of_cube_triangles(subdivisions)
}

/// The number of triangles of a cylinder: two fan caps plus two triangles
/// per wall side.
pub fn nr_of_cylinder_triangles(sides: usize) -> (r: usize)
    requires
        sides <= MAX_COUNT,
    ensures
        r == 4 * sides,
{
    (nr_of_disk_triangles(sides) * 2) + (sides * 2)
}

/// The number of triangles of a tube: two triangles per side on each of its
/// four surfaces.
pub fn nr_of_tube_triangles(sides: usize) -> (r: usize)
    requires
        sides <= MAX_COUNT,
    ensures
        r == 8 * sides,
{
    sides * 8
}

/// Lifts a rational vertex buffer into the symbolic component domain.
fn exactify(v: Vec<Frac>) -> (r: Vec<Scalar>)
    ensures
        r@ == exact_seq(v@),
        forall|k: int|
            0 <= k < v@.len() && frac_bounded(v@[k]) ==> scalar_bounded(#[trigger] r@[k]),
{
    let mut out: Vec<Scalar> = Vec::new();
    let mut i: usize = 0;
    while i < v.len()
        invariant
            i <= v@.len(),
            out@.len() == i,
            forall|k: int| 0 <= k < i ==> out@[k] == exact_seq(v@)[k],
        decreases v@.len() - i,
    {
        out.push(Scalar::Exact { value: v[i] });
        i = i + 1;
    }
    proof {
        assert(out@ =~= exact_seq(v@));
    }
    out
}

/// Generates the selected shape: validates the index and arguments, runs the
/// matching tessellator, applies the per-axis scale to every vertex
/// component, and returns the packaged buffer with its triangle count.
///
/// The result says exactly when each error occurs, and on success pins the
/// whole buffer: it is the shape's raw vertex sequence under the given
/// scale, and its length is always nine times the triangle count.
pub fn generate_geometry(shape_index: usize, scale: Vec<Frac>, args: Vec<Frac>) -> (r: Result<
    ShapeData,
    GeomError,
>)
    requires
        scale@.len() == 3,
        forall|i: int| 0 <= i < 3 ==> frac_bounded(#[trigger] scale@[i]),
        forall|i: int| 0 <= i < args@.len() ==> frac_bounded(#[trigger] args@[i]),
        args@.len() >= 1 ==> frac_to_count(args@[0]) <= MAX_COUNT,
    ensures
        (r == Err::<ShapeData, GeomError>(GeomError::InvalidShapeKind)) <==> shape_index > 5,
        (r == Err::<ShapeData, GeomError>(GeomError::InsufficientArguments)) <==> (shape_index <= 5
            && args@.len() < required_args(index_shape(shape_index as int))),
        (r == Err::<ShapeData, GeomError>(GeomError::InvalidParameter)) <==> (shape_index <= 5
            && args@.len() >= required_args(index_shape(shape_index as int)) && !params_valid(
            index_shape(shape_index as int),
            args@,
        )),
        (r is Ok) <==> (shape_index <= 5 && args@.len() >= required_args(
            index_shape(shape_index as int),
        ) && params_valid(index_shape(shape_index as int), args@)),
        r matches Ok(d) ==> ({
            &&& d.vertices@ == scale_seq(
                raw_vertex_seq(index_shape(shape_index as int), args@),
                scale@[0],
                scale@[1],
                scale@[2],
            )
            &&& d.nr_of_triangles == triangle_count_spec(
                index_shape(shape_index as int),
                frac_to_count(args@[0]),
            )
            &&& d.vertices@.len() == d.nr_of_triangles * 9
        }),
{
    let shape = match usize2Shape(shape_index) {
        Ok(s) => s,
        Err(e) => { return Err(e) },
    };
    let needed: usize = match shape {
        Shape::Plane => 1,
        Shape::Disk => 2,
        Shape::Cube => 1,
        Shape::Sphere => 1,
        Shape::Cylinder => 2,
        Shape::Tube => 3,
    };
    if args.len() < needed {
        return Err(GeomError::InsufficientArguments);
    }
    let n = frac_count(args[0]);
    if n < 1 {
        return Err(GeomError::InvalidParameter);
    }
    let ghost a = n as int;
    let (mut vertices, nr_of_triangles): (Vec<Scalar>, usize) = match shape {
        Shape::Plane => {
            let v = exactify(plane(n));
            proof {
                assert(18 * a * a == 3 * (6 * a * a) && 18 * a * a == (2 * a * a) * 9)
                    by (nonlinear_arith);
                vstd::arithmetic::div_mod::lemma_mod_multiples_basic(6 * a * a, 3);
            }
            (v, nr_of_plane_triangles(n))
        },
        Shape::Disk => {
            if args[1].num <= 0 {
                return Err(GeomError::InvalidParameter);
            }
            let v = disk(n, args[1]);
            proof {
                vstd::arithmetic::div_mod::lemma_mod_multiples_basic(3 * a, 3);
                assert(9 * a == (3 * a) * 3 && 9 * a == a * 9) by (nonlinear_arith);
            }
            (v, nr_of_disk_triangles(n))
        },
        Shape::Cube => {
            let v = exactify(cube(n));
            proof {
                assert(108 * a * a == 3 * (36 * a * a) && 108 * a * a == (12 * a * a) * 9)
                    by (nonlinear_arith);
                vstd::arithmetic::div_mod::lemma_mod_multiples_basic(36 * a * a, 3);
            }
            (v, nr_of_cube_triangles(n))
        },
        Shape::Sphere => {
            let v = sphere(n);
            proof {
                assert(108 * a * a == 3 * (36 * a * a) && 108 * a * a == (12 * a * a) * 9)
                    by (nonlinear_arith);
                vstd::arithmetic::div_mod::lemma_mod_multiples_basic(36 * a * a, 3);
            }
            (v, nr_of_sphere_triangles(n))
        },
        Shape::Cylinder => {
            if args[1].num <= 0 {
                return Err(GeomError::InvalidParameter);
            }
            let v = cylinder(n, args[1]);
            proof {
                vstd::arithmetic::div_mod::lemma_mod_multiples_basic(12 * a, 3);
                assert(36 * a == (12 * a) * 3 && 36 * a == (4 * a) * 9) by (nonlinear_arith);
            }
            (v, nr_of_cylinder_triangles(n))
        },
        Shape::Tube => {
            if args[1].num <= 0 || args[2].num <= 0 {
                return Err(GeomError::InvalidParameter);
            }
            let v = tube(n, args[1], args[2]);
            proof {
                vstd::arithmetic::div_mod::lemma_mod_multiples_basic(24 * a, 3);
                assert(72 * a == (24 * a) * 3 && 72 * a == (8 * a) * 9) by (nonlinear_arith);
            }
            (v, nr_of_tube_triangles(n))
        },
    };
    apply_scale(&mut vertices, scale[0], scale[1], scale[2]);
    Ok(ShapeData { vertices, nr_of_triangles })
}

} // verus!
