//! Geometry for trying out the mesh pipeline.

use crate::f32bits::{F32_MINUS_ONE, F32_ONE};
use crate::mesh::MeshVertex;
use crate::words::{Vec2, Vec3};
use vstd::prelude::*;

verus! {

/// Minus one.
pub const NEG: i32 = -1;

/// 0.5 and -0.5.
pub const HALF: u32 = 0x3f00_0000;

pub const MINUS_HALF: u32 = 0xbf00_0000;

/// The outward direction of a cube face and the two directions along it.
#[derive(Clone, Copy, Debug)]
pub struct FaceAxes {
    pub n: (i32, i32, i32),
    pub u: (i32, i32, i32),
    pub v: (i32, i32, i32),
}

pub open spec fn cube_faces() -> Seq<FaceAxes> {
    seq![
        FaceAxes { n: (1, 0, 0), u: (0, 1, 0), v: (0, 0, 1) },
        FaceAxes { n: (NEG, 0, 0), u: (0, NEG, 0), v: (0, 0, 1) },
        FaceAxes { n: (0, 1, 0), u: (NEG, 0, 0), v: (0, 0, 1) },
        FaceAxes { n: (0, NEG, 0), u: (1, 0, 0), v: (0, 0, 1) },
        FaceAxes { n: (0, 0, 1), u: (1, 0, 0), v: (0, 1, 0) },
        FaceAxes { n: (0, 0, NEG), u: (NEG, 0, 0), v: (0, 1, 0) },
    ]
}

/// On every face the two directions and the outward one form a right-handed frame, so that the
/// corners run counter-clockwise when seen from outside.
pub proof fn law_cube_faces_are_right_handed(f: int)
    requires
        0 <= f < 6,
    ensures
        ({
            let a = cube_faces()[f];
            &&& a.u.1 * a.v.2 - a.u.2 * a.v.1 == a.n.0
            &&& a.u.2 * a.v.0 - a.u.0 * a.v.2 == a.n.1
            &&& a.u.0 * a.v.1 - a.u.1 * a.v.0 == a.n.2
        }),
{
    let a = cube_faces()[f];
    lemma_axes_are_small(f);
    lemma_sign_product(a.u.1 as int, a.v.2 as int);
    lemma_sign_product(a.u.2 as int, a.v.1 as int);
    lemma_sign_product(a.u.2 as int, a.v.0 as int);
    lemma_sign_product(a.u.0 as int, a.v.2 as int);
    lemma_sign_product(a.u.0 as int, a.v.1 as int);
    lemma_sign_product(a.u.1 as int, a.v.0 as int);
}

proof fn lemma_sign_product(a: int, b: int)
    requires
        -1 <= a <= 1,
        -1 <= b <= 1,
    ensures
        a * b == if a == 0 || b == 0 {
            0int
        } else if a == b {
            1int
        } else {
            -1int
        },
{
    assert(a * b == if a == 0 || b == 0 {
        0int
    } else if a == b {
        1int
    } else {
        -1int
    }) by (nonlinear_arith)
        requires
            -1 <= a <= 1,
            -1 <= b <= 1,
    ;
}

/// Signs of corner `k` along the two directions of a face.
pub open spec fn corner_signs(k: int) -> (int, int) {
    if k == 0 {
        (-1, -1)
    } else if k == 1 {
        (1, -1)
    } else if k == 2 {
        (1, 1)
    } else {
        (-1, 1)
    }
}

/// Half a unit to the side that a sign gives.
pub open spec fn half_of(sign: int) -> u32 {
    if sign > 0 {
        HALF
    } else {
        MINUS_HALF
    }
}

/// One, zero or minus one.
pub open spec fn unit_of(sign: int) -> u32 {
    if sign > 0 {
        F32_ONE
    } else if sign < 0 {
        F32_MINUS_ONE
    } else {
        0
    }
}

/// Corner `k` of face `f`.
pub open spec fn cube_vertex(f: int, k: int) -> MeshVertex {
    let a = cube_faces()[f];
    let (s, t) = corner_signs(k);
    MeshVertex {
        pos: Vec3 {
            x: half_of(a.n.0 + s * a.u.0 + t * a.v.0),
            y: half_of(a.n.1 + s * a.u.1 + t * a.v.1),
            z: half_of(a.n.2 + s * a.u.2 + t * a.v.2),
        },
        normal: Vec3 { x: unit_of(a.n.0 as int), y: unit_of(a.n.1 as int), z: unit_of(a.n.2 as int) },
        uv: Vec2 {
            x: if s > 0 {
                F32_ONE
            } else {
                0
            },
            y: if t > 0 {
                0
            } else {
                F32_ONE
            },
        },
        ..crate::mesh::default_vertex()
    }
}

/// Offsets of the six indices of a face: two triangles.
pub open spec fn quad_index(j: int) -> int {
    if j == 0 || j == 3 {
        0
    } else if j == 1 {
        1
    } else if j == 2 || j == 4 {
        2
    } else {
        3
    }
}

fn half_bits(sign: i32) -> (b: u32)
    ensures
        b == half_of(sign as int),
{
    if sign > 0 {
        HALF
    } else {
        MINUS_HALF
    }
}

fn unit_bits(sign: i32) -> (b: u32)
    ensures
        b == unit_of(sign as int),
{
    if sign > 0 {
        F32_ONE
    } else if sign < 0 {
        F32_MINUS_ONE
    } else {
        0
    }
}

fn signed(s: bool, a: i32) -> (r: i32)
    requires
        -1 <= a <= 1,
    ensures
        r == (if s {
            1int
        } else {
            -1int
        }) * a,
        -1 <= r <= 1,
{
    if s {
        a
    } else {
        -a
    }
}

/// A unit cube around the origin, with one normal per face, for trying out the mesh pipeline.
pub fn test_cube() -> (r: (Vec<MeshVertex>, Vec<u32>))
    ensures
        r.0@ == Seq::new(24, |i: int| cube_vertex(i / 4, i % 4)),
        r.1@ == Seq::new(36, |i: int| (4 * (i / 6) + quad_index(i % 6)) as u32),
{
    let faces: Vec<FaceAxes> = vec![
        FaceAxes { n: (1, 0, 0), u: (0, 1, 0), v: (0, 0, 1) },
        FaceAxes { n: (NEG, 0, 0), u: (0, NEG, 0), v: (0, 0, 1) },
        FaceAxes { n: (0, 1, 0), u: (NEG, 0, 0), v: (0, 0, 1) },
        FaceAxes { n: (0, NEG, 0), u: (1, 0, 0), v: (0, 0, 1) },
        FaceAxes { n: (0, 0, 1), u: (1, 0, 0), v: (0, 1, 0) },
        FaceAxes { n: (0, 0, NEG), u: (NEG, 0, 0), v: (0, 1, 0) },
    ];
    assert(faces@ =~= cube_faces());
    let mut verts: Vec<MeshVertex> = Vec::new();
    let mut indices: Vec<u32> = Vec::new();
    let mut f: usize = 0;
    while f < 6
        invariant
            f <= 6,
            faces@ == cube_faces(),
            verts@ == Seq::new((4 * f) as nat, |i: int| cube_vertex(i / 4, i % 4)),
            indices@ == Seq::new(
                (6 * f) as nat,
                |i: int| (4 * (i / 6) + quad_index(i % 6)) as u32,
            ),
        decreases 6 - f,
    {
        let a: FaceAxes = faces[f];
        proof {
            lemma_axes_are_small(f as int);
        }
        let ghost before = verts@;
        let v0: MeshVertex = cube_corner(a, false, false);
        let v1: MeshVertex = cube_corner(a, true, false);
        let v2: MeshVertex = cube_corner(a, true, true);
        let v3: MeshVertex = cube_corner(a, false, true);
        verts.push(v0);
        verts.push(v1);
        verts.push(v2);
        verts.push(v3);
        let base: u32 = 4 * f as u32;
        indices.push(base);
        indices.push(base + 1);
        indices.push(base + 2);
        indices.push(base);
        indices.push(base + 2);
        indices.push(base + 3);
        proof {
            let want = Seq::new((4 * (f + 1)) as nat, |i: int| cube_vertex(i / 4, i % 4));
            assert forall|i: int| 0 <= i < want.len() implies verts@[i] == want[i] by {
                if i < 4 * f {
                    assert(verts@[i] == before[i]);
                } else {
                    assert(i / 4 == f && i % 4 == i - 4 * f);
                }
            }
            assert(verts@ =~= want);
            let wanti = Seq::new(
                (6 * (f + 1)) as nat,
                |i: int| (4 * (i / 6) + quad_index(i % 6)) as u32,
            );
            assert forall|i: int| 0 <= i < wanti.len() implies indices@[i] == wanti[i] by {
                if i >= 6 * f {
                    assert(i / 6 == f && i % 6 == i - 6 * f);
                }
            }
            assert(indices@ =~= wanti);
        }
        f = f + 1;
    }
    (verts, indices)
}

spec fn small(t: (i32, i32, i32)) -> bool {
    -1 <= t.0 <= 1 && -1 <= t.1 <= 1 && -1 <= t.2 <= 1
}

proof fn lemma_axes_are_small(f: int)
    requires
        0 <= f < 6,
    ensures
        small(cube_faces()[f].n),
        small(cube_faces()[f].u),
        small(cube_faces()[f].v),
{
}

fn cube_corner(a: FaceAxes, s: bool, t: bool) -> (v: MeshVertex)
    requires
        small(a.n),
        small(a.u),
        small(a.v),
    ensures
        ({
            let (si, ti) = (
                if s {
                    1int
                } else {
                    -1int
                },
                if t {
                    1int
                } else {
                    -1int
                },
            );
            v == (MeshVertex {
                pos: Vec3 {
                    x: half_of(a.n.0 + si * a.u.0 + ti * a.v.0),
                    y: half_of(a.n.1 + si * a.u.1 + ti * a.v.1),
                    z: half_of(a.n.2 + si * a.u.2 + ti * a.v.2),
                },
                normal: Vec3 {
                    x: unit_of(a.n.0 as int),
                    y: unit_of(a.n.1 as int),
                    z: unit_of(a.n.2 as int),
                },
                uv: Vec2 {
                    x: if s {
                        F32_ONE
                    } else {
                        0
                    },
                    y: if t {
                        0
                    } else {
                        F32_ONE
                    },
                },
                ..crate::mesh::default_vertex()
            })
        }),
{
    let mut v: MeshVertex = MeshVertex::default();
    v.pos = Vec3 {
        x: half_bits(a.n.0 + signed(s, a.u.0) + signed(t, a.v.0)),
        y: half_bits(a.n.1 + signed(s, a.u.1) + signed(t, a.v.1)),
        z: half_bits(a.n.2 + signed(s, a.u.2) + signed(t, a.v.2)),
    };
    v.normal = Vec3 { x: unit_bits(a.n.0), y: unit_bits(a.n.1), z: unit_bits(a.n.2) };
    v.uv = Vec2 { x: if s { F32_ONE } else { 0 }, y: if t { 0 } else { F32_ONE } };
    v
}

/// Both triangles of a face turn the same way, counter-clockwise in the face's own two directions;
/// they share one diagonal and meet all four corners.
pub proof fn law_triangles_turn_outwards(i: int)
    requires
        i == 0 || i == 1,
    ensures
        ({
            let (a, b, c) = (quad_index(3 * i), quad_index(3 * i + 1), quad_index(3 * i + 2));
            let (p, q, r) = (corner_signs(a), corner_signs(b), corner_signs(c));
            &&& (q.0 - p.0) * (r.1 - p.1) - (r.0 - p.0) * (q.1 - p.1) == 4
            &&& 0 <= a < 4 && 0 <= b < 4 && 0 <= c < 4
            &&& a == quad_index(0)
            &&& quad_index(2) == quad_index(4)
            &&& quad_index(1) != quad_index(5)
        }),
{
    assert(2 * 2 - 2 * 0 == 4int && 2 * 2 - 0 * 2 == 4int) by (nonlinear_arith);
    let (a, b, c) = (quad_index(3 * i), quad_index(3 * i + 1), quad_index(3 * i + 2));
    let (p, q, r) = (corner_signs(a), corner_signs(b), corner_signs(c));
    if i == 0 {
        assert(a == 0 && b == 1 && c == 2);
        assert(q.0 - p.0 == 2 && r.1 - p.1 == 2 && r.0 - p.0 == 2 && q.1 - p.1 == 0);
    } else {
        assert(a == 0 && b == 2 && c == 3);
        assert(q.0 - p.0 == 2 && r.1 - p.1 == 2 && r.0 - p.0 == 0 && q.1 - p.1 == 2);
    }
}

/// Faces come in opposite pairs, x before y before z, the positive one first.
pub proof fn law_faces_come_in_pairs(f: int)
    requires
        0 <= f < 6,
        f % 2 == 0,
    ensures
        ({
            let (a, b) = (cube_faces()[f], cube_faces()[f + 1]);
            &&& b.n.0 == -a.n.0 && b.n.1 == -a.n.1 && b.n.2 == -a.n.2
            &&& a.n.0 == 1 <==> f == 0
            &&& a.n.1 == 1 <==> f == 2
            &&& a.n.2 == 1 <==> f == 4
        }),
{
}

/// Every corner of a face lies on it, half a unit out along the face's direction, with the
/// direction as its normal; the corner on the positive side of the first direction has texture
/// coordinate 1, the one on the positive side of the second has 0.
pub proof fn law_corners_lie_on_their_face(f: int, k: int)
    requires
        0 <= f < 6,
        0 <= k < 4,
    ensures
        ({
            let v = cube_vertex(f, k);
            let n = cube_faces()[f].n;
            let s = corner_signs(k);
            &&& n.0 == 1 ==> v.pos.x == HALF && v.normal.x == F32_ONE
            &&& n.0 == -1 ==> v.pos.x == MINUS_HALF && v.normal.x == F32_MINUS_ONE
            &&& n.0 == 0 ==> v.normal.x == 0
            &&& n.1 == 1 ==> v.pos.y == HALF && v.normal.y == F32_ONE
            &&& n.1 == -1 ==> v.pos.y == MINUS_HALF && v.normal.y == F32_MINUS_ONE
            &&& n.1 == 0 ==> v.normal.y == 0
            &&& n.2 == 1 ==> v.pos.z == HALF && v.normal.z == F32_ONE
            &&& n.2 == -1 ==> v.pos.z == MINUS_HALF && v.normal.z == F32_MINUS_ONE
            &&& n.2 == 0 ==> v.normal.z == 0
            &&& s.0 > 0 <==> v.uv.x == F32_ONE
            &&& s.0 < 0 <==> v.uv.x == 0
            &&& s.1 > 0 <==> v.uv.y == 0
            &&& s.1 < 0 <==> v.uv.y == F32_ONE
            &&& v.color == crate::mesh::white()
        }),
{
    let a = cube_faces()[f];
    let (s, t) = corner_signs(k);
    lemma_axes_are_small(f);
    lemma_sign_product(s, a.u.0 as int);
    lemma_sign_product(s, a.u.1 as int);
    lemma_sign_product(s, a.u.2 as int);
    lemma_sign_product(t, a.v.0 as int);
    lemma_sign_product(t, a.v.1 as int);
    lemma_sign_product(t, a.v.2 as int);
}

} // verus!
