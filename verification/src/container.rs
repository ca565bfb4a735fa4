//! The owner/derived container and the pick controller.
//!
//! [`GeometryData`] owns a deduplicated mesh together with the topology index
//! derived from it, as one unit. The index references triangles by integer
//! offset, so the pair relocates freely; the fields are private and only
//! read-only views are exposed, so the mesh can never be mutated (or dropped)
//! out from under its index.

use vstd::prelude::*;

use crate::mesh::IndexedTriangleList;
use crate::plane::PlaneKey;
use crate::ray::{
    find_first_intersection, mesh_den, mesh_hits, mesh_tnum, ray_ok, RayHit, StaticLine3d,
};
use crate::topology::{tri_key, TopologyError, TriangleTopology};

verus! {

/// A mesh and its topology index, owned jointly and never separated.
pub struct GeometryData {
    mesh: IndexedTriangleList,
    topology: TriangleTopology,
}

impl GeometryData {
    /// The owned mesh.
    pub closed spec fn owner_spec(&self) -> IndexedTriangleList {
        self.mesh
    }

    /// The owned derived index.
    pub closed spec fn derived_spec(&self) -> TriangleTopology {
        self.topology
    }

    /// The container's invariant: a valid, in-bounds, non-empty mesh and an
    /// index that partitions exactly that mesh.
    pub open spec fn wf(&self) -> bool {
        &&& self.owner_spec().wf()
        &&& self.owner_spec().in_bounds()
        &&& self.owner_spec().triangles@.len() > 0
        &&& self.derived_spec().wf(self.owner_spec())
    }

    /// Take ownership of a mesh and build its index.
    ///
    /// Fails exactly on an empty mesh: a failed build leaves no
    /// partially-built container, only the error to report at load time.
    pub fn new(mesh: IndexedTriangleList) -> (r: Result<GeometryData, TopologyError>)
        requires
            mesh.wf(),
            mesh.in_bounds(),
        ensures
            match r {
                Ok(g) => mesh.triangles@.len() > 0 && g.wf() && g.owner_spec() == mesh,
                Err(e) => mesh.triangles@.len() == 0 && e == TopologyError::EmptyMesh,
            },
    {
        match TriangleTopology::new(&mesh) {
            Ok(t) => Ok(GeometryData { mesh, topology: t }),
            Err(e) => Err(e),
        }
    }

    /// Read-only view of the owned mesh.
    pub fn view_owner(&self) -> (r: &IndexedTriangleList)
        ensures
            *r == self.owner_spec(),
    {
        &self.mesh
    }

    /// Read-only view of the derived topology index.
    pub fn view_derived(&self) -> (r: &TriangleTopology)
        ensures
            *r == self.derived_spec(),
    {
        &self.topology
    }

    /// Nearest ray hit against the owned mesh; see
    /// [`crate::ray::find_first_intersection`] for the full statement.
    pub fn find_first_intersection(&self, ray: &StaticLine3d) -> (r: Option<RayHit>)
        requires
            self.wf(),
            ray_ok(*ray),
        ensures
            match r {
                None => forall|i: int|
                    0 <= i < self.owner_spec().triangles@.len() ==> !mesh_hits(
                        self.owner_spec(),
                        i,
                        *ray,
                    ),
                Some(h) => {
                    &&& h.triangle.idx < self.owner_spec().triangles@.len()
                    &&& mesh_hits(self.owner_spec(), h.triangle.idx as int, *ray)
                    &&& h.t_den == mesh_den(self.owner_spec(), h.triangle.idx as int, *ray)
                    &&& h.t_num == mesh_tnum(self.owner_spec(), h.triangle.idx as int, *ray)
                    &&& 0 < h.t_den
                    &&& tri_key(self.owner_spec(), h.triangle.idx as int) == PlaneKey::Oriented(
                        h.plane,
                    )
                    &&& h.point.den == h.t_den
                    &&& h.point.xn == ray.origin.x * h.t_den + h.t_num * ray.direction.x
                    &&& h.point.yn == ray.origin.y * h.t_den + h.t_num * ray.direction.y
                    &&& h.point.zn == ray.origin.z * h.t_den + h.t_num * ray.direction.z
                    &&& forall|i: int|
                        0 <= i < self.owner_spec().triangles@.len() && #[trigger] mesh_hits(
                            self.owner_spec(),
                            i,
                            *ray,
                        ) ==> h.t_num * mesh_den(self.owner_spec(), i, *ray) <= mesh_tnum(
                            self.owner_spec(),
                            i,
                            *ray,
                        ) * h.t_den
                    &&& forall|i: int|
                        0 <= i < h.triangle.idx && #[trigger] mesh_hits(
                            self.owner_spec(),
                            i,
                            *ray,
                        ) ==> h.t_num * mesh_den(self.owner_spec(), i, *ray) < mesh_tnum(
                            self.owner_spec(),
                            i,
                            *ray,
                        ) * h.t_den
                },
            },
    {
        find_first_intersection(&self.mesh, ray)
    }
}

/// Tracks which triangle the pointer is over, by stable integer identity, so
/// redundant visual updates can be suppressed between input events.
pub struct PickController {
    selection: Option<usize>,
}

impl PickController {
    /// The identity of the currently selected triangle, if any.
    pub closed spec fn selection_spec(&self) -> Option<usize> {
        self.selection
    }

    /// Start with nothing selected.
    pub fn new() -> (r: PickController)
        ensures
            r.selection_spec() is None,
    {
        PickController { selection: None }
    }

    /// The selection identity of a pick outcome.
    pub open spec fn identity_of(hit: Option<RayHit>) -> Option<usize> {
        match hit {
            Some(h) => Some(h.triangle.idx),
            None => None,
        }
    }

    /// Record a pick outcome; reports whether the selection identity changed,
    /// comparing identities only, never geometry.
    pub fn update_selection(&mut self, hit: &Option<RayHit>) -> (changed: bool)
        ensures
            final(self).selection_spec() == Self::identity_of(*hit),
            changed == (old(self).selection_spec() != final(self).selection_spec()),
    {
        let new_sel: Option<usize> = match hit {
            Some(h) => Some(h.triangle.idx()),
            None => None,
        };
        let changed = match (&self.selection, &new_sel) {
            (Some(a), Some(b)) => *a != *b,
            (None, None) => false,
            _ => true,
        };
        self.selection = new_sel;
        changed
    }
}

} // verus!
