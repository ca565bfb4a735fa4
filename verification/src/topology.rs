//! The topology index: triangles grouped by oriented plane key.

use vstd::prelude::*;

use crate::mesh::IndexedTriangleList;
use crate::plane::{plane_key_for, plane_key_spec, PlaneKey};

verus! {

/// One coplanar group: a key and its member triangle indices in source order.
pub struct PlaneGroup {
    pub key: PlaneKey,
    pub members: Vec<usize>,
}

/// Why a topology index could not be built.
#[derive(Clone, Copy, PartialEq, Eq, Structural, Debug)]
pub enum TopologyError {
    /// The mesh holds no triangles; there is nothing to index.
    EmptyMesh,
}

impl TopologyError {
    /// A short description of the failure, for reporting at load time.
    pub fn describe(&self) -> (r: &'static str) {
        match self {
            TopologyError::EmptyMesh => "mesh holds no triangles",
        }
    }
}

/// The plane key of triangle `i` of the mesh.
pub open spec fn tri_key(mesh: IndexedTriangleList, i: int) -> PlaneKey {
    plane_key_spec(mesh.corner_spec(i).0, mesh.corner_spec(i).1, mesh.corner_spec(i).2)
}

pub open spec fn entry_of(gs: Seq<PlaneGroup>, g: int, k: int) -> int {
    gs[g].members@[k] as int
}

pub open spec fn entry_valid(gs: Seq<PlaneGroup>, g: int, k: int) -> bool {
    0 <= g < gs.len() && 0 <= k < gs[g].members@.len()
}

pub open spec fn keys_distinct(gs: Seq<PlaneGroup>) -> bool {
    forall|g1: int, g2: int| 0 <= g1 < g2 < gs.len() ==> gs[g1].key != gs[g2].key
}

pub open spec fn groups_match(gs: Seq<PlaneGroup>, mesh: IndexedTriangleList) -> bool {
    forall|g: int, k: int|
        entry_valid(gs, g, k) ==> 0 <= #[trigger] entry_of(gs, g, k) < mesh.triangles@.len()
            && tri_key(mesh, entry_of(gs, g, k)) == gs[g].key
}

pub open spec fn members_increasing(gs: Seq<PlaneGroup>) -> bool {
    forall|g: int, k1: int, k2: int|
        entry_valid(gs, g, k1) && entry_valid(gs, g, k2) && k1 < k2 ==> #[trigger] entry_of(
            gs,
            g,
            k1,
        ) < #[trigger] entry_of(gs, g, k2)
}

pub open spec fn covers(gs: Seq<PlaneGroup>, i: int) -> bool {
    exists|g: int, k: int| entry_valid(gs, g, k) && #[trigger] entry_of(gs, g, k) == i
}

pub open spec fn complete(gs: Seq<PlaneGroup>, n: int) -> bool {
    forall|i: int| 0 <= i < n ==> covers(gs, i)
}

/// The topology index: a partition of the mesh's triangles into maximal
/// same-plane groups, built once and read-only afterwards.
pub struct TriangleTopology {
    pub groups: Vec<PlaneGroup>,
}

impl TriangleTopology {
    /// The index partitions exactly the triangles of `mesh` by plane key.
    pub open spec fn wf(&self, mesh: IndexedTriangleList) -> bool {
        &&& keys_distinct(self.groups@)
        &&& groups_match(self.groups@, mesh)
        &&& members_increasing(self.groups@)
        &&& complete(self.groups@, mesh.triangles@.len() as int)
    }

    /// Build the index: one pass over the triangles, bucketing each by its
    /// plane key in source order; degenerate triangles land in the catch-all
    /// [`PlaneKey::Degenerate`] group. Fails exactly on an empty mesh.
    pub fn new(mesh: &IndexedTriangleList) -> (r: Result<TriangleTopology, TopologyError>)
        requires
            mesh.wf(),
            mesh.in_bounds(),
        ensures
            match r {
                Ok(t) => mesh.triangles@.len() > 0 && t.wf(*mesh),
                Err(e) => mesh.triangles@.len() == 0 && e == TopologyError::EmptyMesh,
            },
    {
        let n = mesh.triangles.len();
        if n == 0 {
            return Err(TopologyError::EmptyMesh);
        }
        let mut groups: Vec<PlaneGroup> = Vec::new();
        let mut i: usize = 0;
        while i < n
            invariant
                mesh.wf(),
                mesh.in_bounds(),
                n == mesh.triangles@.len(),
                i <= n,
                keys_distinct(groups@),
                groups_match(groups@, *mesh),
                members_increasing(groups@),
                complete(groups@, i as int),
                forall|g: int, k: int|
                    entry_valid(groups@, g, k) ==> #[trigger] entry_of(groups@, g, k) < i,
            decreases n - i,
        {
            let (pa, pb, pc) = mesh.corner_points(i);
            let key = plane_key_for(pa, pb, pc);
            proof {
                assert(key == tri_key(*mesh, i as int));
            }
            let ghost gs0 = groups@;
            let ng = groups.len();
            let mut g: usize = 0;
            while g < ng && groups[g].key != key
                invariant
                    g <= ng,
                    ng == groups@.len(),
                    groups@ == gs0,
                    forall|h: int| 0 <= h < g ==> groups@[h].key != key,
                decreases ng - g,
            {
                g += 1;
            }
            if g < ng {
                groups[g].members.push(i);
                proof {
                    let gs1 = groups@;
                    assert(gs1 =~= gs0.update(
                        g as int,
                        PlaneGroup {
                            key: gs0[g as int].key,
                            members: gs1[g as int].members,
                        },
                    ));
                    assert(gs1[g as int].members@ == gs0[g as int].members@.push(i));
                    assert forall|h: int| 0 <= h < gs1.len() implies gs1[h].key == gs0[h].key by {}
                    assert forall|gg: int, k: int|
                        entry_valid(gs1, gg, k) implies 0 <= #[trigger] entry_of(gs1, gg, k)
                        < mesh.triangles@.len() && tri_key(*mesh, entry_of(gs1, gg, k))
                        == gs1[gg].key && entry_of(gs1, gg, k) < i + 1 by {
                        if gg == g && k == gs0[g as int].members@.len() {
                            assert(entry_of(gs1, gg, k) == i);
                        } else {
                            assert(entry_valid(gs0, gg, k));
                            assert(entry_of(gs1, gg, k) == entry_of(gs0, gg, k));
                        }
                    }
                    assert forall|gg: int, k1: int, k2: int|
                        entry_valid(gs1, gg, k1) && entry_valid(gs1, gg, k2) && k1
                        < k2 implies #[trigger] entry_of(gs1, gg, k1) < #[trigger] entry_of(
                        gs1,
                        gg,
                        k2,
                    ) by {
                        if gg == g && k2 == gs0[g as int].members@.len() {
                            assert(entry_valid(gs0, gg, k1));
                            assert(entry_of(gs1, gg, k1) == entry_of(gs0, gg, k1));
                            assert(entry_of(gs0, gg, k1) < i);
                        } else {
                            assert(entry_valid(gs0, gg, k1));
                            assert(entry_valid(gs0, gg, k2));
                            assert(entry_of(gs1, gg, k1) == entry_of(gs0, gg, k1));
                            assert(entry_of(gs1, gg, k2) == entry_of(gs0, gg, k2));
                        }
                    }
                    assert forall|j: int| 0 <= j < i + 1 implies covers(gs1, j) by {
                        if j < i {
                            assert(covers(gs0, j));
                            let (wg, wk): (int, int) = choose|wg: int, wk: int|
                                entry_valid(gs0, wg, wk) && #[trigger] entry_of(gs0, wg, wk) == j;
                            assert(entry_valid(gs1, wg, wk));
                            assert(entry_of(gs1, wg, wk) == j);
                        } else {
                            let wk = gs0[g as int].members@.len() as int;
                            assert(entry_valid(gs1, g as int, wk));
                            assert(entry_of(gs1, g as int, wk) == i);
                        }
                    }
                }
            } else {
                let members: Vec<usize> = vec![i];
                groups.push(PlaneGroup { key, members });
                proof {
                    let gs1 = groups@;
                    assert(gs1[ng as int].members@ =~= seq![i]);
                    assert forall|h: int| 0 <= h < ng implies gs1[h] == gs0[h] by {}
                    assert forall|gg: int, k: int|
                        entry_valid(gs1, gg, k) implies 0 <= #[trigger] entry_of(gs1, gg, k)
                        < mesh.triangles@.len() && tri_key(*mesh, entry_of(gs1, gg, k))
                        == gs1[gg].key && entry_of(gs1, gg, k) < i + 1 by {
                        if gg == ng {
                            assert(entry_of(gs1, gg, k) == i);
                        } else {
                            assert(entry_valid(gs0, gg, k));
                            assert(entry_of(gs1, gg, k) == entry_of(gs0, gg, k));
                        }
                    }
                    assert forall|gg: int, k1: int, k2: int|
                        entry_valid(gs1, gg, k1) && entry_valid(gs1, gg, k2) && k1
                        < k2 implies #[trigger] entry_of(gs1, gg, k1) < #[trigger] entry_of(
                        gs1,
                        gg,
                        k2,
                    ) by {
                        if gg < ng {
                            assert(entry_valid(gs0, gg, k1));
                            assert(entry_valid(gs0, gg, k2));
                            assert(entry_of(gs1, gg, k1) == entry_of(gs0, gg, k1));
                            assert(entry_of(gs1, gg, k2) == entry_of(gs0, gg, k2));
                        }
                    }
                    assert forall|j: int| 0 <= j < i + 1 implies covers(gs1, j) by {
                        if j < i {
                            assert(covers(gs0, j));
                            let (wg, wk): (int, int) = choose|wg: int, wk: int|
                                entry_valid(gs0, wg, wk) && #[trigger] entry_of(gs0, wg, wk) == j;
                            assert(entry_valid(gs1, wg, wk));
                            assert(entry_of(gs1, wg, wk) == j);
                        } else {
                            assert(entry_valid(gs1, ng as int, 0));
                            assert(entry_of(gs1, ng as int, 0) == i);
                        }
                    }
                }
            }
            i += 1;
        }
        Ok(TriangleTopology { groups })
    }

    /// The groups, for per-plane rendering: one merged surface per key.
    pub fn triangles_of_plane(&self) -> (r: &Vec<PlaneGroup>)
        ensures
            r@ == self.groups@,
    {
        &self.groups
    }

    /// Find the group holding the given key, if any key matches.
    pub fn find_group(&self, key: PlaneKey) -> (r: Option<usize>)
        ensures
            match r {
                Some(g) => g < self.groups@.len() && self.groups@[g as int].key == key,
                None => forall|h: int| 0 <= h < self.groups@.len() ==> self.groups@[h].key != key,
            },
    {
        let ng = self.groups.len();
        let mut g: usize = 0;
        while g < ng
            invariant
                g <= ng,
                ng == self.groups@.len(),
                forall|h: int| 0 <= h < g ==> self.groups@[h].key != key,
            decreases ng - g,
        {
            if self.groups[g].key == key {
                return Some(g);
            }
            g += 1;
        }
        None
    }
}

/// The groups partition the triangle set exactly: a triangle occupies one
/// position in one group, and every triangle occupies one (completeness is
/// part of [`TriangleTopology::wf`]).
pub proof fn lemma_partition_unique(
    mesh: IndexedTriangleList,
    topo: TriangleTopology,
    g1: int,
    k1: int,
    g2: int,
    k2: int,
)
    requires
        topo.wf(mesh),
        entry_valid(topo.groups@, g1, k1),
        entry_valid(topo.groups@, g2, k2),
        entry_of(topo.groups@, g1, k1) == entry_of(topo.groups@, g2, k2),
    ensures
        g1 == g2,
        k1 == k2,
{
    let gs = topo.groups@;
    let i = entry_of(gs, g1, k1);
    assert(tri_key(mesh, i) == gs[g1].key);
    assert(tri_key(mesh, i) == gs[g2].key);
    if g1 != g2 {
        assert(gs[g1].key != gs[g2].key);
        assert(false);
    }
    if k1 < k2 {
        assert(entry_of(gs, g1, k1) < entry_of(gs, g1, k2));
        assert(false);
    }
    if k2 < k1 {
        assert(entry_of(gs, g1, k2) < entry_of(gs, g1, k1));
        assert(false);
    }
}

} // verus!
