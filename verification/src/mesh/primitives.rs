//! Box solid topology: which faces a material group emits, the corners of
//! each face quad and the triangle list over them.

use vstd::prelude::*;

verus! {

/// Which faces of a box solid to emit (multi-material container).
#[derive(Clone, Copy, Debug, PartialEq, Eq, Structural)]
pub enum BoxFaceGroup {
    Sides,
    Front,
    Rear,
    Lids,
}

/// The six faces of a box in emission order: -Z (front), +Z (rear), -X, +X
/// (sides), -Y, +Y (lids).
pub open spec fn face_group(f: int) -> BoxFaceGroup {
    if f == 0 {
        BoxFaceGroup::Front
    } else if f == 1 {
        BoxFaceGroup::Rear
    } else if f == 2 || f == 3 {
        BoxFaceGroup::Sides
    } else {
        BoxFaceGroup::Lids
    }
}

/// Corner `j` of the quad of face `f`, wound outward. Corners are numbered
/// with bit-free signs: 0 (-,-,-), 1 (+,-,-), 2 (+,+,-), 3 (-,+,-),
/// 4 (-,-,+), 5 (+,-,+), 6 (+,+,+), 7 (-,+,+).
pub open spec fn face_quad(f: int) -> Seq<u8> {
    if f == 0 {
        seq![0u8, 1, 2, 3]
    } else if f == 1 {
        seq![4u8, 7, 6, 5]
    } else if f == 2 {
        seq![0u8, 3, 7, 4]
    } else if f == 3 {
        seq![1u8, 5, 6, 2]
    } else if f == 4 {
        seq![0u8, 4, 5, 1]
    } else {
        seq![3u8, 2, 6, 7]
    }
}

/// Outward normal of face `f` as unit axis steps.
pub open spec fn face_normal_spec(f: int) -> (i8, i8, i8) {
    if f == 0 {
        (0i8, 0i8, -1i8)
    } else if f == 1 {
        (0i8, 0i8, 1i8)
    } else if f == 2 {
        (-1i8, 0i8, 0i8)
    } else if f == 3 {
        (1i8, 0i8, 0i8)
    } else if f == 4 {
        (0i8, -1i8, 0i8)
    } else {
        (0i8, 1i8, 0i8)
    }
}

/// Sign of each half extent at corner `c`.
pub open spec fn corner_signs_spec(c: int) -> (i8, i8, i8) {
    (
        if c == 1 || c == 2 || c == 5 || c == 6 { 1i8 } else { -1i8 },
        if c == 2 || c == 3 || c == 6 || c == 7 { 1i8 } else { -1i8 },
        if c >= 4 { 1i8 } else { -1i8 },
    )
}

/// Face `f` belongs to the requested group; `None` asks for all six.
pub open spec fn face_selected(group: Option<BoxFaceGroup>, f: int) -> bool {
    match group {
        None => true,
        Some(g) => face_group(f) == g,
    }
}

/// Offset from a quad's first vertex of each of the six indices of its two
/// triangles.
pub open spec fn quad_offset(j: int) -> int {
    seq![0int, 1, 2, 0, 2, 3][j]
}

/// The faces below `f` that `group` emits, in order.
pub open spec fn selected_faces(group: Option<BoxFaceGroup>, f: nat) -> Seq<u8>
    decreases f,
{
    if f == 0 {
        seq![]
    } else {
        let prev = selected_faces(group, (f - 1) as nat);
        if face_selected(group, f - 1) {
            prev.push((f - 1) as u8)
        } else {
            prev
        }
    }
}

/// Faces, vertex corners and triangle indices of one box face group.
pub struct BoxTopology {
    /// Emitted faces, in emission order.
    pub faces: Vec<u8>,
    /// Corner of each vertex; four per emitted face.
    pub corners: Vec<u8>,
    /// Triangle list over the vertices; six per emitted face.
    pub indices: Vec<u32>,
}

/// The faces of `group` (all six for `None`) in emission order, each as a
/// quad of four vertices and two triangles.
pub open spec fn topology_of(group: Option<BoxFaceGroup>, t: BoxTopology) -> bool {
    &&& t.faces@ == selected_faces(group, 6)
    &&& forall|k: int| 0 <= k < t.faces@.len() ==> #[trigger] t.faces@[k] < 6
    &&& forall|k: int, l: int| 0 <= k < l < t.faces@.len() ==> t.faces@[k] < t.faces@[l]
    &&& forall|f: int| 0 <= f < 6 ==> (face_selected(group, f) <==> t.faces@.contains(f as u8))
    &&& t.corners@.len() == 4 * t.faces@.len()
    &&& t.indices@.len() == 6 * t.faces@.len()
    &&& forall|i: int|
        0 <= i < t.corners@.len() ==> #[trigger] t.corners@[i] == face_quad(
            t.faces@[i / 4] as int,
        )[i % 4]
    &&& forall|i: int|
        0 <= i < t.indices@.len() ==> #[trigger] t.indices@[i] as int == 4 * (i / 6) + quad_offset(
            i % 6,
        )
}

/// Outward normal of face `face` (`face < 6`) as axis steps.
pub fn face_normal(face: u8) -> (r: (i8, i8, i8))
    requires
        face < 6,
    ensures
        r == face_normal_spec(face as int),
{
    if face == 0 {
        (0, 0, -1)
    } else if face == 1 {
        (0, 0, 1)
    } else if face == 2 {
        (-1, 0, 0)
    } else if face == 3 {
        (1, 0, 0)
    } else if face == 4 {
        (0, -1, 0)
    } else {
        (0, 1, 0)
    }
}

/// Sign of each half extent at corner `corner` (`corner < 8`).
pub fn corner_signs(corner: u8) -> (r: (i8, i8, i8))
    requires
        corner < 8,
    ensures
        r == corner_signs_spec(corner as int),
{
    let x: i8 = if corner == 1 || corner == 2 || corner == 5 || corner == 6 {
        1
    } else {
        -1
    };
    let y: i8 = if corner == 2 || corner == 3 || corner == 6 || corner == 7 {
        1
    } else {
        -1
    };
    let z: i8 = if corner >= 4 {
        1
    } else {
        -1
    };
    (x, y, z)
}

fn face_group_of(face: u8) -> (g: BoxFaceGroup)
    requires
        face < 6,
    ensures
        g == face_group(face as int),
{
    if face == 0 {
        BoxFaceGroup::Front
    } else if face == 1 {
        BoxFaceGroup::Rear
    } else if face == 2 || face == 3 {
        BoxFaceGroup::Sides
    } else {
        BoxFaceGroup::Lids
    }
}

fn face_quad_of(face: u8) -> (q: [u8; 4])
    requires
        face < 6,
    ensures
        q@ == face_quad(face as int),
{
    let q: [u8; 4] = if face == 0 {
        [0, 1, 2, 3]
    } else if face == 1 {
        [4, 7, 6, 5]
    } else if face == 2 {
        [0, 3, 7, 4]
    } else if face == 3 {
        [1, 5, 6, 2]
    } else if face == 4 {
        [0, 4, 5, 1]
    } else {
        [3, 2, 6, 7]
    };
    assert(q@ =~= face_quad(face as int));
    q
}

/// Box faces for one material group; `None` emits all six faces.
pub fn box_face_topology(group: Option<BoxFaceGroup>) -> (t: BoxTopology)
    ensures
        topology_of(group, t),
{
    let mut faces: Vec<u8> = Vec::new();
    let mut corners: Vec<u8> = Vec::new();
    let mut indices: Vec<u32> = Vec::new();
    let mut f: u8 = 0;
    while f < 6
        invariant
            f <= 6,
            faces@ == selected_faces(group, f as nat),
            faces@.len() <= f,
            forall|k: int| 0 <= k < faces@.len() ==> #[trigger] faces@[k] < f,
            forall|k: int, l: int| 0 <= k < l < faces@.len() ==> faces@[k] < faces@[l],
            forall|e: int| 0 <= e < f ==> (face_selected(group, e) <==> faces@.contains(e as u8)),
            corners@.len() == 4 * faces@.len(),
            indices@.len() == 6 * faces@.len(),
            forall|i: int|
                0 <= i < corners@.len() ==> #[trigger] corners@[i] == face_quad(
                    faces@[i / 4] as int,
                )[i % 4],
            forall|i: int|
                0 <= i < indices@.len() ==> #[trigger] indices@[i] as int == 4 * (i / 6)
                    + quad_offset(i % 6),
        decreases 6 - f,
    {
        let g = face_group_of(f);
        let selected = match group {
            None => true,
            Some(want) => want == g,
        };
        if selected {
            let ghost old_faces = faces@;
            let ghost old_corners = corners@;
            let ghost old_indices = indices@;
            let q = face_quad_of(f);
            let base: u32 = (corners.len()) as u32;
            assert(base == 4 * old_faces.len());
            corners.push(q[0]);
            corners.push(q[1]);
            corners.push(q[2]);
            corners.push(q[3]);
            indices.push(base);
            indices.push(base + 1);
            indices.push(base + 2);
            indices.push(base);
            indices.push(base + 2);
            indices.push(base + 3);
            faces.push(f);
            assert forall|e: int| 0 <= e < f + 1 implies (face_selected(group, e)
                <==> faces@.contains(e as u8)) by {
                if e < f {
                    if old_faces.contains(e as u8) {
                        let w = choose|w: int| 0 <= w < old_faces.len() && old_faces[w] == e as u8;
                        assert(faces@[w] == e as u8);
                    }
                    if faces@.contains(e as u8) {
                        let w = choose|w: int| 0 <= w < faces@.len() && faces@[w] == e as u8;
                        if w == old_faces.len() {
                            assert(faces@[w] == f);
                        } else {
                            assert(old_faces[w] == e as u8);
                        }
                    }
                } else {
                    assert(faces@[old_faces.len() as int] == f);
                }
            }
            assert forall|i: int| 0 <= i < corners@.len() implies #[trigger] corners@[i]
                == face_quad(faces@[i / 4] as int)[i % 4] by {
                if i < old_corners.len() {
                    assert(corners@[i] == old_corners[i]);
                    assert(faces@[i / 4] == old_faces[i / 4]);
                } else {
                    assert(i / 4 == old_faces.len());
                }
            }
            assert forall|i: int| 0 <= i < indices@.len() implies #[trigger] indices@[i] as int
                == 4 * (i / 6) + quad_offset(i % 6) by {
                if i < old_indices.len() {
                    assert(indices@[i] == old_indices[i]);
                } else {
                    assert(i / 6 == old_faces.len());
                }
            }
        } else {
            assert forall|e: int| 0 <= e < f + 1 implies (face_selected(group, e)
                <==> faces@.contains(e as u8)) by {
                if e == f && faces@.contains(e as u8) {
                    let w = choose|w: int| 0 <= w < faces@.len() && faces@[w] == e as u8;
                    assert(faces@[w] < f);
                }
            }
        }
        f = f + 1;
    }
    BoxTopology { faces, corners, indices }
}

/// Every triangle index of a box face group names one of its vertices, and
/// every vertex names one of the eight corners.
pub proof fn law_box_topology_in_range(group: Option<BoxFaceGroup>, t: BoxTopology)
    requires
        topology_of(group, t),
    ensures
        forall|i: int| 0 <= i < t.indices@.len() ==> #[trigger] t.indices@[i] < t.corners@.len(),
        forall|i: int| 0 <= i < t.corners@.len() ==> #[trigger] t.corners@[i] < 8,
{
    assert forall|i: int| 0 <= i < t.indices@.len() implies #[trigger] t.indices@[i]
        < t.corners@.len() by {
        assert(t.indices@[i] as int == 4 * (i / 6) + quad_offset(i % 6));
        assert(i / 6 < t.faces@.len());
    }
    assert forall|i: int| 0 <= i < t.corners@.len() implies #[trigger] t.corners@[i] < 8 by {
        assert(t.corners@[i] == face_quad(t.faces@[i / 4] as int)[i % 4]);
    }
}

/// How many faces, vertices and indices each group emits: all six faces
/// for `None`, two for the sides and for the lids, one for the front and
/// for the rear; four vertices and six indices per face.
pub proof fn law_box_face_counts(group: Option<BoxFaceGroup>, t: BoxTopology)
    requires
        topology_of(group, t),
    ensures
        t.faces@.len() == match group {
            None => 6int,
            Some(BoxFaceGroup::Sides) => 2int,
            Some(BoxFaceGroup::Front) => 1int,
            Some(BoxFaceGroup::Rear) => 1int,
            Some(BoxFaceGroup::Lids) => 2int,
        },
        t.corners@.len() == 4 * t.faces@.len(),
        t.indices@.len() == 6 * t.faces@.len(),
{
    reveal_with_fuel(selected_faces, 7);
}

/// The four groups split the six faces: each face is emitted by exactly one
/// group, and `None` emits them all.
pub proof fn law_groups_partition_faces(f: int)
    requires
        0 <= f < 6,
    ensures
        face_selected(None, f),
        face_selected(Some(face_group(f)), f),
        forall|g: BoxFaceGroup| #[trigger] face_selected(Some(g), f) ==> g == face_group(f),
{
}

} // verus!
