use simple_primitives::export::{dec_string, obj_text};
use simple_primitives::frac::Frac;
use simple_primitives::scalar::Scalar;
use simple_primitives::shapes::{generate_geometry, ShapeData};

fn fr(num: i64, den: i64) -> Frac {
    Frac { num, den }
}

fn unit_scale() -> Vec<Frac> {
    vec![fr(1, 1), fr(1, 1), fr(1, 1)]
}

fn eval_exact(s: &Scalar) -> f32 {
    match s {
        Scalar::Exact { value } => value.num as f32 / value.den as f32,
        _ => panic!("expected an exact component"),
    }
}

fn export_exact(data: &ShapeData) -> String {
    let components: Vec<String> = data
        .vertices
        .iter()
        .map(|s| eval_exact(s).to_string())
        .collect();
    obj_text(&components, data.nr_of_triangles)
}

#[test]
fn decimal_rendering() {
    assert_eq!(dec_string(0), "0");
    assert_eq!(dec_string(7), "7");
    assert_eq!(dec_string(10), "10");
    assert_eq!(dec_string(123), "123");
    assert_eq!(dec_string(9080), "9080");
}

#[test]
fn plane_export_round_trip() {
    let data = generate_geometry(0, unit_scale(), vec![fr(1, 1)]).unwrap();
    let text = export_exact(&data);
    let vertex_count = data.nr_of_triangles * 3;

    let vertex_lines: Vec<&str> = text.lines().filter(|l| l.starts_with("v ")).collect();
    let face_lines: Vec<&str> = text.lines().filter(|l| l.starts_with("f ")).collect();
    assert_eq!(vertex_lines.len(), vertex_count);
    assert_eq!(face_lines.len(), data.nr_of_triangles);
    assert_eq!(text.lines().count(), vertex_count + data.nr_of_triangles);

    // Face indices cover 1..=vertex_count monotonically, three per line.
    let mut expected: usize = 1;
    for line in face_lines {
        let indices: Vec<usize> = line[2..]
            .split(' ')
            .map(|p| p.parse().unwrap())
            .collect();
        assert_eq!(indices.len(), 3);
        for i in indices {
            assert_eq!(i, expected);
            expected += 1;
        }
    }
    assert_eq!(expected, vertex_count + 1);

    // Vertex lines parse back to exactly the values of the buffer.
    for (v, line) in vertex_lines.iter().enumerate() {
        let parts: Vec<f32> = line[2..]
            .split(' ')
            .map(|p| p.parse().unwrap())
            .collect();
        assert_eq!(parts.len(), 3);
        for c in 0..3 {
            assert_eq!(parts[c], eval_exact(&data.vertices[3 * v + c]));
        }
    }
}

#[test]
fn export_lines_are_ordered_vertices_then_faces() {
    let data = generate_geometry(0, unit_scale(), vec![fr(2, 1)]).unwrap();
    let text = export_exact(&data);
    let lines: Vec<&str> = text.lines().collect();
    let vertex_count = data.nr_of_triangles * 3;
    for (i, line) in lines.iter().enumerate() {
        if i < vertex_count {
            assert!(line.starts_with("v "));
        } else {
            assert!(line.starts_with("f "));
        }
    }
}

#[test]
fn export_scales_with_triangle_count() {
    for sides in [3usize, 5, 12] {
        let data = generate_geometry(
            4,
            unit_scale(),
            vec![fr(sides as i64, 1), fr(1, 1)],
        )
        .unwrap();
        // Render every symbolic component as a plain placeholder value: the
        // face structure depends only on the triangle count.
        let components: Vec<String> = (0..data.vertices.len()).map(|_| "0".to_string()).collect();
        let text = obj_text(&components, data.nr_of_triangles);
        assert_eq!(
            text.lines().filter(|l| l.starts_with("f ")).count(),
            4 * sides
        );
        assert_eq!(
            text.lines().filter(|l| l.starts_with("v ")).count(),
            12 * sides
        );
    }
}
