//! Text export of a generated mesh: one `v x y z` line per vertex in buffer
//! order, then one `f i j k` line per triangle. Faces use 1-based sequential
//! indices: the buffer is flat and unshared, so triangle `k` always
//! references vertices `3k + 1`, `3k + 2` and `3k + 3`.
//!
//! The caller supplies the already-rendered text of each vertex component;
//! everything else about the output, including the decimal face indices, is
//! specified here character for character.

use vstd::prelude::*;

verus! {

/// The decimal digit character for `d` between 0 and 9.
pub open spec fn digit_char(d: int) -> char {
    if d == 0 {
        '0'
    } else if d == 1 {
        '1'
    } else if d == 2 {
        '2'
    } else if d == 3 {
        '3'
    } else if d == 4 {
        '4'
    } else if d == 5 {
        '5'
    } else if d == 6 {
        '6'
    } else if d == 7 {
        '7'
    } else if d == 8 {
        '8'
    } else {
        '9'
    }
}

/// The decimal digits of `n`, most significant first, without sign or
/// padding.
pub open spec fn dec_spec(n: nat) -> Seq<char>
    decreases n,
{
    if n < 10 {
        seq![digit_char(n as int)]
    } else {
        dec_spec(n / 10) + seq![digit_char((n % 10) as int)]
    }
}

/// The single-character string for digit `d`.
fn digit_str(d: usize) -> (r: &'static str)
    requires
        d < 10,
    ensures
        r@ == seq![digit_char(d as int)],
{
    if d == 0 {
        proof {
            reveal_strlit("0");
            assert("0"@ =~= seq![digit_char(0)]);
        }
        "0"
    } else if d == 1 {
        proof {
            reveal_strlit("1");
            assert("1"@ =~= seq![digit_char(1)]);
        }
        "1"
    } else if d == 2 {
        proof {
            reveal_strlit("2");
            assert("2"@ =~= seq![digit_char(2)]);
        }
        "2"
    } else if d == 3 {
        proof {
            reveal_strlit("3");
            assert("3"@ =~= seq![digit_char(3)]);
        }
        "3"
    } else if d == 4 {
        proof {
            reveal_strlit("4");
            assert("4"@ =~= seq![digit_char(4)]);
        }
        "4"
    } else if d == 5 {
        proof {
            reveal_strlit("5");
            assert("5"@ =~= seq![digit_char(5)]);
        }
        "5"
    } else if d == 6 {
        proof {
            reveal_strlit("6");
            assert("6"@ =~= seq![digit_char(6)]);
        }
        "6"
    } else if d == 7 {
        proof {
            reveal_strlit("7");
            assert("7"@ =~= seq![digit_char(7)]);
        }
        "7"
    } else if d == 8 {
        proof {
            reveal_strlit("8");
            assert("8"@ =~= seq![digit_char(8)]);
        }
        "8"
    } else {
        proof {
            reveal_strlit("9");
            assert("9"@ =~= seq![digit_char(9)]);
        }
        "9"
    }
}

/// Renders `n` in decimal.
pub fn dec_string(n: usize) -> (r: String)
    ensures
        r@ == dec_spec(n as nat),
    decreases n,
{
    if n < 10 {
        String::from_str(digit_str(n))
    } else {
        let mut s = dec_string(n / 10);
        s.append(digit_str(n % 10));
        proof {
            assert(s@ =~= dec_spec(n as nat));
        }
        s
    }
}

/// The `v` line of vertex `v`: its three component texts separated by single
/// spaces, terminated by a newline.
pub open spec fn vertex_line(c: Seq<Seq<char>>, v: int) -> Seq<char> {
    "v "@ + c[3 * v] + " "@ + c[3 * v + 1] + " "@ + c[3 * v + 2] + "\n"@
}

/// The first `m` vertex lines.
pub open spec fn vertex_lines(c: Seq<Seq<char>>, m: int) -> Seq<char>
    decreases m,
{
    if m <= 0 {
        Seq::empty()
    } else {
        vertex_lines(c, m - 1) + vertex_line(c, m - 1)
    }
}

/// The `f` line of triangle `k`: the 1-based indices of its three vertices,
/// `3k + 1`, `3k + 2` and `3k + 3`.
pub open spec fn face_line(k: int) -> Seq<char> {
    "f "@ + dec_spec((3 * k + 1) as nat) + " "@ + dec_spec((3 * k + 2) as nat) + " "@ + dec_spec(
        (3 * k + 3) as nat,
    ) + "\n"@
}

/// The first `m` face lines.
pub open spec fn face_lines(m: int) -> Seq<char>
    decreases m,
{
    if m <= 0 {
        Seq::empty()
    } else {
        face_lines(m - 1) + face_line(m - 1)
    }
}

/// The complete export text: all vertex lines in buffer order, then all face
/// lines in triangle order.
pub open spec fn obj_spec(c: Seq<Seq<char>>, t: int) -> Seq<char> {
    vertex_lines(c, 3 * t) + face_lines(t)
}

/// Serializes a mesh whose vertex components have already been rendered as
/// text: `components` holds nine texts per triangle, one per vertex
/// component, in buffer order.
pub fn obj_text(components: &Vec<String>, nr_of_triangles: usize) -> (r: String)
    requires
        components@.len() == nr_of_triangles * 9,
    ensures
        r@ == obj_spec(
            components@.map_values(|s: String| s@),
            nr_of_triangles as int,
        ),
{
    let ghost c = components@.map_values(|s: String| s@);
    let mut data = String::from_str("");
    proof {
        reveal_strlit("");
        assert(data@ =~= vertex_lines(c, 0));
    }
    let total = components.len();
    proof {
        assert(total == nr_of_triangles * 9);
        assert(nr_of_triangles * 3 <= nr_of_triangles * 9);
    }
    let vertex_count = nr_of_triangles * 3;
    let mut v: usize = 0;
    while v < vertex_count
        invariant
            c == components@.map_values(|s: String| s@),
            components@.len() == nr_of_triangles * 9,
            nr_of_triangles * 9 <= usize::MAX,
            vertex_count == nr_of_triangles * 3,
            v <= vertex_count,
            data@ == vertex_lines(c, v as int),
        decreases vertex_count - v,
    {
        data.append("v ");
        data.append(components[3 * v].as_str());
        data.append(" ");
        data.append(components[3 * v + 1].as_str());
        data.append(" ");
        data.append(components[3 * v + 2].as_str());
        data.append("\n");
        proof {
            assert(c[3 * (v as int)] == components@[3 * (v as int)]@);
            assert(c[3 * (v as int) + 1] == components@[3 * (v as int) + 1]@);
            assert(c[3 * (v as int) + 2] == components@[3 * (v as int) + 2]@);
            assert(data@ =~= vertex_lines(c, v as int + 1));
        }
        v = v + 1;
    }
    let ghost all_vertex_lines = vertex_lines(c, 3 * (nr_of_triangles as int));
    proof {
        assert(3 * (nr_of_triangles as int) == vertex_count as int);
        assert(data@ == all_vertex_lines + face_lines(0));
    }
    let mut k: usize = 0;
    while k < nr_of_triangles
        invariant
            nr_of_triangles * 3 <= nr_of_triangles * 9,
            nr_of_triangles * 9 <= usize::MAX,
            k <= nr_of_triangles,
            all_vertex_lines == vertex_lines(c, 3 * (nr_of_triangles as int)),
            data@ == all_vertex_lines + face_lines(k as int),
        decreases nr_of_triangles - k,
    {
        data.append("f ");
        let s = dec_string(3 * k + 1);
        data.append(s.as_str());
        data.append(" ");
        let s = dec_string(3 * k + 2);
        data.append(s.as_str());
        data.append(" ");
        let s = dec_string(3 * k + 3);
        data.append(s.as_str());
        data.append("\n");
        proof {
            assert(data@ =~= all_vertex_lines + face_lines(k as int + 1));
        }
        k = k + 1;
    }
    data
}

} // verus!
