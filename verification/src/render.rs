//! Compact per-group render buffers: one merged surface per plane group.
//!
//! For each coplanar group the renderer wants a small vertex buffer holding
//! only the points the group uses, plus faces reindexed into that buffer.
//! This collapses render batches from one per triangle to one per plane.

use vstd::prelude::*;

use crate::geom::Vector3d;
use crate::mesh::{
    find_or_insert, lemma_insert_pt, points_distinct, tri_in_range, IndexedTriangleList, Triangle,
};
use crate::topology::PlaneGroup;

verus! {

/// A renderable buffer for one plane group: the used points, deduplicated in
/// first-use order, and the group's triangles reindexed into them.
pub struct GroupMesh {
    pub coords: Vec<Vector3d>,
    pub faces: Vec<Triangle>,
}

pub open spec fn group_in_range(g: PlaneGroup, n: int) -> bool {
    forall|k: int| 0 <= k < g.members@.len() ==> (#[trigger] g.members@[k]) < n
}

/// Build the render buffer of one group.
///
/// Every face cites the same corner points, in the same winding, as the mesh
/// triangle it came from; the coordinate buffer holds mesh points only, each
/// at most once.
pub fn group_render_mesh(mesh: &IndexedTriangleList, group: &PlaneGroup) -> (r: GroupMesh)
    requires
        mesh.wf(),
        group_in_range(*group, mesh.triangles@.len() as int),
    ensures
        r.faces@.len() == group.members@.len(),
        points_distinct(r.coords@),
        forall|k: int| 0 <= k < r.coords@.len() ==> mesh.points@.contains(#[trigger] r.coords@[k]),
        forall|i: int|
            0 <= i < r.faces@.len() ==> tri_in_range(#[trigger] r.faces@[i], r.coords@.len() as int),
        forall|i: int|
            0 <= i < r.faces@.len() ==> {
                let m = group.members@[i] as int;
                r.coords@[#[trigger] r.faces@[i].a as int] == mesh.corner_spec(m).0
                    && r.coords@[r.faces@[i].b as int] == mesh.corner_spec(m).1 && r.coords@[
                    r.faces@[i].c as int
                ] == mesh.corner_spec(m).2
            },
{
    let nm = group.members.len();
    let mut coords: Vec<Vector3d> = Vec::new();
    let mut faces: Vec<Triangle> = Vec::new();
    let mut i: usize = 0;
    while i < nm
        invariant
            mesh.wf(),
            group_in_range(*group, mesh.triangles@.len() as int),
            nm == group.members@.len(),
            i <= nm,
            faces@.len() == i,
            points_distinct(coords@),
            forall|k: int| 0 <= k < coords@.len() ==> mesh.points@.contains(#[trigger] coords@[k]),
            forall|j: int|
                0 <= j < i ==> tri_in_range(#[trigger] faces@[j], coords@.len() as int),
            forall|j: int|
                0 <= j < i ==> {
                    let m = group.members@[j] as int;
                    coords@[#[trigger] faces@[j].a as int] == mesh.corner_spec(m).0 && coords@[
                        faces@[j].b as int
                    ] == mesh.corner_spec(m).1 && coords@[faces@[j].c as int] == mesh.corner_spec(
                        m,
                    ).2
                },
        decreases nm - i,
    {
        let m = group.members[i];
        let (pa, pb, pc) = mesh.corner_points(m);
        let ghost c0 = coords@;
        let ia = find_or_insert(&mut coords, pa);
        let ghost c1 = coords@;
        let ib = find_or_insert(&mut coords, pb);
        let ghost c2 = coords@;
        let ic = find_or_insert(&mut coords, pc);
        let ghost c3 = coords@;
        faces.push(Triangle { a: ia, b: ib, c: ic });
        proof {
            lemma_insert_pt(c0, pa);
            lemma_insert_pt(c1, pb);
            lemma_insert_pt(c2, pc);
            assert(c3[ia as int] == pa);
            assert(c3[ib as int] == pb);
            assert(c3[ic as int] == pc);
            assert(mesh.points@.contains(pa)) by {
                assert(mesh.points@[mesh.triangles@[m as int].a as int] == pa);
            }
            assert(mesh.points@.contains(pb)) by {
                assert(mesh.points@[mesh.triangles@[m as int].b as int] == pb);
            }
            assert(mesh.points@.contains(pc)) by {
                assert(mesh.points@[mesh.triangles@[m as int].c as int] == pc);
            }
            assert forall|k: int|
                0 <= k < coords@.len() implies mesh.points@.contains(
                #[trigger] coords@[k],
            ) by {
                if k < c0.len() {
                    assert(coords@[k] == c0[k]);
                } else {
                    assert(coords@[k] == pa || coords@[k] == pb || coords@[k] == pc);
                }
            }
        }
        i += 1;
    }
    GroupMesh { coords, faces }
}

} // verus!
