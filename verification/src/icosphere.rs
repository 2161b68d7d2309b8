//! The topology of the crags' icosphere: an icosahedron whose faces are split
//! in four, a number of times.
//!
//! Each split appends three midpoint vertices per face, one per edge, without
//! sharing them between neighbouring faces: the displacement that shapes a crag
//! depends only on a vertex's direction, so duplicated seam vertices move
//! together and leave no crack. Where each vertex sits is computed from this
//! topology: the twelve corners of the icosahedron, then every midpoint as the
//! normalised mean of the two vertices it joins.

use vstd::prelude::*;

verus! {

/// A triangle, as three vertex indices.
pub type Face = [usize; 3];

/// The twenty faces of the icosahedron over its twelve corners.
pub open spec fn base_faces() -> Seq<Face> {
    seq![
        [0usize, 11, 5], [0usize, 5, 1], [0usize, 1, 7], [0usize, 7, 10], [0usize, 10, 11],
        [1usize, 5, 9], [5usize, 11, 4], [11usize, 10, 2], [10usize, 7, 6], [7usize, 1, 8],
        [3usize, 9, 4], [3usize, 4, 2], [3usize, 2, 6], [3usize, 6, 8], [3usize, 8, 9],
        [4usize, 9, 5], [2usize, 4, 11], [6usize, 2, 10], [8usize, 6, 7], [9usize, 8, 1],
    ]
}

/// The corners of the icosahedron.
pub const CORNERS: usize = 12;

/// The faces that splitting `faces` yields when new vertices are numbered from
/// `first_new` on: face `p` gets the midpoints `first_new + 3p` (edge a-b),
/// `+ 1` (b-c) and `+ 2` (c-a), and becomes its three corner triangles and the
/// middle one.
pub open spec fn split_faces(faces: Seq<Face>, first_new: int) -> Seq<Face>
    decreases faces.len(),
{
    if faces.len() == 0 {
        Seq::empty()
    } else {
        let p = faces.len() - 1;
        let f = faces.last();
        let ab = (first_new + 3 * p) as usize;
        let bc = (first_new + 3 * p + 1) as usize;
        let ca = (first_new + 3 * p + 2) as usize;
        split_faces(faces.drop_last(), first_new) + seq![
            [f[0], ab, ca],
            [f[1], bc, ab],
            [f[2], ca, bc],
            [ab, bc, ca],
        ]
    }
}

/// The vertex pairs whose midpoints splitting `faces` appends, in order.
pub open spec fn split_pairs(faces: Seq<Face>) -> Seq<(usize, usize)>
    decreases faces.len(),
{
    if faces.len() == 0 {
        Seq::empty()
    } else {
        let f = faces.last();
        split_pairs(faces.drop_last()) + seq![(f[0], f[1]), (f[1], f[2]), (f[2], f[0])]
    }
}

/// The faces after `s` splits, and every midpoint pair appended on the way:
/// vertex `CORNERS + m` is the midpoint of pair `m`.
pub open spec fn mesh_after(s: nat) -> (Seq<Face>, Seq<(usize, usize)>)
    decreases s,
{
    if s == 0 {
        (base_faces(), Seq::empty())
    } else {
        let (faces, pairs) = mesh_after((s - 1) as nat);
        (split_faces(faces, CORNERS + pairs.len()), pairs + split_pairs(faces))
    }
}

/// The triangle list of a set of faces, three indices per face.
pub open spec fn flatten_faces(faces: Seq<Face>) -> Seq<usize>
    decreases faces.len(),
{
    if faces.len() == 0 {
        Seq::empty()
    } else {
        let f = faces.last();
        flatten_faces(faces.drop_last()) + seq![f[0], f[1], f[2]]
    }
}

/// How many faces `s` splits leave.
pub open spec fn face_count(s: nat) -> nat
    decreases s,
{
    if s == 0 {
        20
    } else {
        4 * face_count((s - 1) as nat)
    }
}

/// The most splits a mesh may take: its index list still fits a 32-bit
/// address space.
pub const MAX_SUBDIVISIONS: u32 = 10;

/// An icosphere's topology: where each added vertex comes from, and its
/// triangle list.
#[derive(Debug)]
pub struct IcosphereTopology {
    /// Vertex `CORNERS + m` is the midpoint of `midpoints[m]`.
    pub midpoints: Vec<(usize, usize)>,
    /// Three vertex indices per triangle.
    pub indices: Vec<usize>,
}

proof fn lemma_face_count_monotonic(s: nat, t: nat)
    requires
        s <= t,
    ensures
        face_count(s) <= face_count(t),
    decreases t,
{
    if s < t {
        lemma_face_count_monotonic(s, (t - 1) as nat);
    }
}

proof fn lemma_face_count_bound(s: nat)
    requires
        s <= MAX_SUBDIVISIONS,
    ensures
        face_count(s) <= 20971520,
        s < MAX_SUBDIVISIONS ==> face_count(s) <= 5242880,
{
    assert(face_count(9) == 5242880 && face_count(10) == 20971520) by {
        reveal_with_fuel(face_count, 11);
    }
    lemma_face_count_monotonic(s, 10);
    if s < MAX_SUBDIVISIONS {
        lemma_face_count_monotonic(s, 9);
    }
}

/// Split each face in four, numbering the new vertices from `first_new`.
fn split(faces: &Vec<Face>, first_new: usize) -> (out: (Vec<Face>, Vec<(usize, usize)>))
    requires
        first_new + 3 * faces.len() <= usize::MAX,
    ensures
        out.0@ == split_faces(faces@, first_new as int),
        out.1@ == split_pairs(faces@),
{
    let mut faces_out: Vec<Face> = Vec::new();
    let mut pairs: Vec<(usize, usize)> = Vec::new();
    let mut p: usize = 0;
    while p < faces.len()
        invariant
            p <= faces.len(),
            first_new + 3 * faces.len() <= usize::MAX,
            faces_out@ == split_faces(faces@.take(p as int), first_new as int),
            pairs@ == split_pairs(faces@.take(p as int)),
        decreases faces.len() - p,
    {
        let ghost before = faces@.take(p as int);
        assert(faces@.take(p + 1).drop_last() =~= before);
        assert(faces@.take(p + 1).last() == faces@[p as int]);
        let f = faces[p];
        let ab = first_new + 3 * p;
        let bc = ab + 1;
        let ca = ab + 2;
        faces_out.push([f[0], ab, ca]);
        faces_out.push([f[1], bc, ab]);
        faces_out.push([f[2], ca, bc]);
        faces_out.push([ab, bc, ca]);
        pairs.push((f[0], f[1]));
        pairs.push((f[1], f[2]));
        pairs.push((f[2], f[0]));
        assert(faces_out@ =~= split_faces(faces@.take(p + 1), first_new as int));
        assert(pairs@ =~= split_pairs(faces@.take(p + 1)));
        p = p + 1;
    }
    assert(faces@.take(faces.len() as int) =~= faces@);
    (faces_out, pairs)
}

proof fn lemma_split_lengths(faces: Seq<Face>, first_new: int)
    ensures
        split_faces(faces, first_new).len() == 4 * faces.len(),
        split_pairs(faces).len() == 3 * faces.len(),
    decreases faces.len(),
{
    if faces.len() > 0 {
        lemma_split_lengths(faces.drop_last(), first_new);
    }
}

proof fn lemma_mesh_sizes(s: nat)
    ensures
        mesh_after(s).0.len() == face_count(s),
        mesh_after(s).1.len() + 20 == face_count(s),
    decreases s,
{
    if s > 0 {
        let (faces, pairs) = mesh_after((s - 1) as nat);
        lemma_mesh_sizes((s - 1) as nat);
        lemma_split_lengths(faces, CORNERS + pairs.len());
    }
}

/// The topology of an icosphere split `subdivisions` times.
pub fn icosphere(subdivisions: u32) -> (mesh: IcosphereTopology)
    requires
        subdivisions <= MAX_SUBDIVISIONS,
    ensures
        mesh.midpoints@ == mesh_after(subdivisions as nat).1,
        mesh.indices@ == flatten_faces(mesh_after(subdivisions as nat).0),
{
    let mut faces: Vec<Face> = vec![
        [0, 11, 5], [0, 5, 1], [0, 1, 7], [0, 7, 10], [0, 10, 11],
        [1, 5, 9], [5, 11, 4], [11, 10, 2], [10, 7, 6], [7, 1, 8],
        [3, 9, 4], [3, 4, 2], [3, 2, 6], [3, 6, 8], [3, 8, 9],
        [4, 9, 5], [2, 4, 11], [6, 2, 10], [8, 6, 7], [9, 8, 1],
    ];
    assert(faces@ =~= base_faces());
    let mut midpoints: Vec<(usize, usize)> = Vec::new();
    let mut round: u32 = 0;
    while round < subdivisions
        invariant
            round <= subdivisions <= MAX_SUBDIVISIONS,
            faces@ == mesh_after(round as nat).0,
            midpoints@ == mesh_after(round as nat).1,
        decreases subdivisions - round,
    {
        proof {
            lemma_mesh_sizes(round as nat);
            lemma_face_count_bound(round as nat);
        }
        let (next_faces, pairs) = split(&faces, CORNERS + midpoints.len());
        let mut appended = midpoints;
        let mut k: usize = 0;
        while k < pairs.len()
            invariant
                k <= pairs.len(),
                appended@ == mesh_after(round as nat).1 + pairs@.take(k as int),
            decreases pairs.len() - k,
        {
            assert(pairs@.take(k + 1) =~= pairs@.take(k as int).push(pairs@[k as int]));
            appended.push(pairs[k]);
            k = k + 1;
        }
        assert(pairs@.take(pairs.len() as int) =~= pairs@);
        faces = next_faces;
        midpoints = appended;
        round = round + 1;
    }
    proof {
        lemma_mesh_sizes(subdivisions as nat);
        lemma_face_count_bound(subdivisions as nat);
    }
    let mut indices: Vec<usize> = Vec::new();
    let mut p: usize = 0;
    while p < faces.len()
        invariant
            p <= faces.len(),
            indices@ == flatten_faces(faces@.take(p as int)),
        decreases faces.len() - p,
    {
        assert(faces@.take(p + 1).drop_last() =~= faces@.take(p as int));
        assert(faces@.take(p + 1).last() == faces@[p as int]);
        let f = faces[p];
        indices.push(f[0]);
        indices.push(f[1]);
        indices.push(f[2]);
        assert(indices@ =~= flatten_faces(faces@.take(p + 1)));
        p = p + 1;
    }
    assert(faces@.take(faces.len() as int) =~= faces@);
    IcosphereTopology { midpoints, indices }
}

/// Every corner of every face is below `bound`.
pub open spec fn faces_below(faces: Seq<Face>, bound: int) -> bool {
    forall|p: int, k: int| 0 <= p < faces.len() && 0 <= k < 3 ==> #[trigger] faces[p][k] < bound
}

proof fn lemma_split_stays_below(faces: Seq<Face>, first_new: int)
    requires
        faces_below(faces, first_new),
        first_new + 3 * faces.len() <= usize::MAX,
    ensures
        faces_below(split_faces(faces, first_new), first_new + 3 * faces.len()),
        forall|m: int|
            0 <= m < split_pairs(faces).len() ==> #[trigger] split_pairs(faces)[m].0 < first_new
                && split_pairs(faces)[m].1 < first_new,
    decreases faces.len(),
{
    if faces.len() > 0 {
        let rest = faces.drop_last();
        assert(faces_below(rest, first_new)) by {
            assert forall|p: int, k: int| 0 <= p < rest.len() && 0 <= k < 3 implies #[trigger] rest[p][k]
                < first_new by {
                assert(rest[p] == faces[p]);
            }
        }
        lemma_split_stays_below(rest, first_new);
        lemma_split_lengths(rest, first_new);
        let f = faces.last();
        assert(f == faces[faces.len() - 1]);
        assert(f[0] < first_new && f[1] < first_new && f[2] < first_new);
        let split = split_faces(faces, first_new);
        assert forall|p: int, k: int| 0 <= p < split.len() && 0 <= k < 3 implies #[trigger] split[p][k]
            < first_new + 3 * faces.len() by {
            if p < split_faces(rest, first_new).len() {
                assert(split[p] == split_faces(rest, first_new)[p]);
            }
        }
        let pairs = split_pairs(faces);
        assert forall|m: int| 0 <= m < pairs.len() implies #[trigger] pairs[m].0 < first_new
            && pairs[m].1 < first_new by {
            if m < split_pairs(rest).len() {
                assert(pairs[m] == split_pairs(rest)[m]);
            }
        }
    }
}

/// The mesh is well formed after any number of splits: every face names only
/// vertices that exist, and every midpoint joins two vertices that existed
/// before it.
pub proof fn every_face_names_existing_vertices(s: nat)
    requires
        s <= MAX_SUBDIVISIONS,
    ensures
        faces_below(mesh_after(s).0, CORNERS + mesh_after(s).1.len()),
        forall|m: int|
            0 <= m < mesh_after(s).1.len() ==> #[trigger] mesh_after(s).1[m].0 < CORNERS + m
                && mesh_after(s).1[m].1 < CORNERS + m,
    decreases s,
{
    if s > 0 {
        let (faces, pairs) = mesh_after((s - 1) as nat);
        every_face_names_existing_vertices((s - 1) as nat);
        lemma_mesh_sizes((s - 1) as nat);
        lemma_face_count_bound((s - 1) as nat);
        let first_new = CORNERS + pairs.len();
        lemma_split_stays_below(faces, first_new);
        lemma_split_lengths(faces, first_new);
        let all = pairs + split_pairs(faces);
        assert forall|m: int| 0 <= m < all.len() implies #[trigger] all[m].0 < CORNERS + m
            && all[m].1 < CORNERS + m by {
            if m < pairs.len() {
                assert(all[m] == pairs[m]);
            } else {
                assert(all[m] == split_pairs(faces)[m - pairs.len()]);
            }
        }
    } else {
        assert(faces_below(base_faces(), 12)) by {
            assert forall|p: int, k: int| 0 <= p < base_faces().len() && 0 <= k < 3 implies
                #[trigger] base_faces()[p][k] < 12 by {
                assert(base_faces()[p][0] < 12 && base_faces()[p][1] < 12 && base_faces()[p][2]
                    < 12);
            }
        }
    }
}

/// Every split quadruples the faces, and every face adds three vertices: after
/// `s` splits there are `20 * 4^s` faces over `20 * 4^s - 8` vertices.
pub proof fn each_split_quadruples_the_faces(s: nat)
    ensures
        mesh_after(s).0.len() == face_count(s),
        CORNERS + mesh_after(s).1.len() + 8 == face_count(s),
        face_count(s + 1) == 4 * face_count(s),
{
    lemma_mesh_sizes(s);
}

/// The triangles an icosphere split `subdivisions` times declares to the
/// scene budget: each split quadruples the icosahedron's twenty.
pub fn triangles_for(subdivisions: u32) -> (triangles: usize)
    requires
        subdivisions <= MAX_SUBDIVISIONS,
    ensures
        triangles == face_count(subdivisions as nat),
{
    proof {
        lemma_face_count_bound(subdivisions as nat);
    }
    let mut triangles: usize = 20;
    let mut round: u32 = 0;
    while round < subdivisions
        invariant
            round <= subdivisions <= MAX_SUBDIVISIONS,
            triangles == face_count(round as nat),
        decreases subdivisions - round,
    {
        proof {
            lemma_face_count_bound(round as nat);
        }
        triangles = triangles * 4;
        round = round + 1;
    }
    triangles
}

proof fn lemma_flatten_length(faces: Seq<Face>)
    ensures
        flatten_faces(faces).len() == 3 * faces.len(),
    decreases faces.len(),
{
    if faces.len() > 0 {
        lemma_flatten_length(faces.drop_last());
    }
}

/// The triangle count a crag declares is the one its mesh has: the index list
/// after `s` splits holds three indices per declared triangle.
pub proof fn the_declared_triangle_count_matches_the_mesh(s: nat)
    ensures
        flatten_faces(mesh_after(s).0).len() == 3 * face_count(s),
{
    lemma_mesh_sizes(s);
    lemma_flatten_length(mesh_after(s).0);
}

} // verus!
