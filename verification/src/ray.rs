//! Exact nearest-hit ray/triangle intersection over the whole mesh.
//!
//! Intersection is decided by the integer Cramer-rule quantities of the ray
//! and the triangle's edge vectors: a determinant and three scaled
//! barycentric/parameter numerators. A triangle is hit when the determinant
//! is non-zero (parallel rays and degenerate triangles both make it zero),
//! the barycentric numerators lie in the determinant's range, and the ray
//! parameter `t` is non-negative. `t` values are exact rationals, compared by
//! cross-multiplication; the reported hit point is the exact rational point
//! on the ray.

use vstd::prelude::*;

use crate::geom::{
    cross3, cross_bounded, dot3, dot_bounded, mul_bounded, sub3, sub_point, vec_ok, widen_point,
    Vector3d, COORD_BOUND,
};
use crate::mesh::{IndexedTriangleList, ReferencedTriangle};
use crate::plane::{plane_key_for, pos3, tri_cross, Plane3d, PlaneKey};
use crate::topology::tri_key;

verus! {

/// A ray: origin and direction in the mesh's coordinate space.
#[derive(Clone, Copy, PartialEq, Eq, Structural, Debug)]
pub struct StaticLine3d {
    pub origin: Vector3d,
    pub direction: Vector3d,
}

impl StaticLine3d {
    pub fn new(origin: Vector3d, direction: Vector3d) -> (r: StaticLine3d)
        ensures
            r == (StaticLine3d { origin, direction }),
    {
        StaticLine3d { origin, direction }
    }
}

pub open spec fn ray_ok(r: StaticLine3d) -> bool {
    vec_ok(r.origin) && vec_ok(r.direction)
}

/// An exact rational point: `(xn/den, yn/den, zn/den)` with `den > 0`.
#[derive(Clone, Copy, PartialEq, Eq, Structural, Debug)]
pub struct RationalPoint {
    pub xn: i128,
    pub yn: i128,
    pub zn: i128,
    pub den: i128,
}

/// The nearest hit: exact hit point, the triangle's oriented plane, the
/// triangle's handle, and the ray parameter as the exact rational
/// `t_num / t_den`.
#[derive(Clone, Copy, PartialEq, Eq, Structural, Debug)]
pub struct RayHit {
    pub point: RationalPoint,
    pub plane: Plane3d,
    pub triangle: ReferencedTriangle,
    pub t_num: i128,
    pub t_den: i128,
}

pub open spec fn mt_det(a: Vector3d, b: Vector3d, c: Vector3d, r: StaticLine3d) -> int {
    dot3(sub3(b, a), cross3(pos3(r.direction), sub3(c, a)))
}

pub open spec fn mt_u(a: Vector3d, b: Vector3d, c: Vector3d, r: StaticLine3d) -> int {
    dot3(sub3(r.origin, a), cross3(pos3(r.direction), sub3(c, a)))
}

pub open spec fn mt_v(a: Vector3d, b: Vector3d, c: Vector3d, r: StaticLine3d) -> int {
    dot3(pos3(r.direction), cross3(sub3(r.origin, a), sub3(b, a)))
}

pub open spec fn mt_t(a: Vector3d, b: Vector3d, c: Vector3d, r: StaticLine3d) -> int {
    dot3(sub3(c, a), cross3(sub3(r.origin, a), sub3(b, a)))
}

pub open spec fn sgn(x: int) -> int {
    if x > 0 {
        1
    } else if x == 0 {
        0
    } else {
        -1
    }
}

/// Whether the ray hits the triangle: non-parallel, non-degenerate,
/// barycentric containment, intersection not behind the origin.
pub open spec fn tri_hits(a: Vector3d, b: Vector3d, c: Vector3d, r: StaticLine3d) -> bool {
    let det = mt_det(a, b, c, r);
    let s = sgn(det);
    &&& det != 0
    &&& 0 <= s * mt_u(a, b, c, r)
    &&& 0 <= s * mt_v(a, b, c, r)
    &&& s * mt_u(a, b, c, r) + s * mt_v(a, b, c, r) <= s * det
    &&& 0 <= s * mt_t(a, b, c, r)
}

/// Positive denominator of the exact ray parameter at the hit.
pub open spec fn hit_den(a: Vector3d, b: Vector3d, c: Vector3d, r: StaticLine3d) -> int {
    sgn(mt_det(a, b, c, r)) * mt_det(a, b, c, r)
}

/// Numerator of the exact ray parameter at the hit (same sign normalization).
pub open spec fn hit_tnum(a: Vector3d, b: Vector3d, c: Vector3d, r: StaticLine3d) -> int {
    sgn(mt_det(a, b, c, r)) * mt_t(a, b, c, r)
}

pub open spec fn mesh_hits(mesh: IndexedTriangleList, i: int, r: StaticLine3d) -> bool {
    tri_hits(mesh.corner_spec(i).0, mesh.corner_spec(i).1, mesh.corner_spec(i).2, r)
}

pub open spec fn mesh_den(mesh: IndexedTriangleList, i: int, r: StaticLine3d) -> int {
    hit_den(mesh.corner_spec(i).0, mesh.corner_spec(i).1, mesh.corner_spec(i).2, r)
}

pub open spec fn mesh_tnum(mesh: IndexedTriangleList, i: int, r: StaticLine3d) -> int {
    hit_tnum(mesh.corner_spec(i).0, mesh.corner_spec(i).1, mesh.corner_spec(i).2, r)
}

/// Test one triangle; `Some((t_num, t_den))` exactly when the ray hits it.
fn try_hit(a: Vector3d, b: Vector3d, c: Vector3d, ray: &StaticLine3d) -> (r: Option<(i128, i128)>)
    requires
        vec_ok(a),
        vec_ok(b),
        vec_ok(c),
        ray_ok(*ray),
    ensures
        match r {
            None => !tri_hits(a, b, c, *ray),
            Some((tn, dn)) => {
                &&& tri_hits(a, b, c, *ray)
                &&& tn == hit_tnum(a, b, c, *ray)
                &&& dn == hit_den(a, b, c, *ray)
                &&& 0 < dn <= 0x18_0000_0000_0000
                &&& 0 <= tn <= 0x30_0000_0000_0000
            },
        },
{
    let e1 = sub_point(b, a);
    let e2 = sub_point(c, a);
    let d = widen_point(ray.direction);
    let w = sub_point(ray.origin, a);
    let pv = cross_bounded(d, e2, Ghost(COORD_BOUND as int), Ghost(2 * COORD_BOUND as int));
    let det = dot_bounded(e1, pv, Ghost(2 * COORD_BOUND as int), Ghost(2 * (COORD_BOUND as int * (2
        * COORD_BOUND as int))));
    if det == 0 {
        return None;
    }
    let u = dot_bounded(w, pv, Ghost(2 * COORD_BOUND as int), Ghost(2 * (COORD_BOUND as int * (2
        * COORD_BOUND as int))));
    let qv = cross_bounded(w, e1, Ghost(2 * COORD_BOUND as int), Ghost(2 * COORD_BOUND as int));
    let v = dot_bounded(d, qv, Ghost(COORD_BOUND as int), Ghost(2 * ((2 * COORD_BOUND as int) * (2
        * COORD_BOUND as int))));
    let t = dot_bounded(e2, qv, Ghost(2 * COORD_BOUND as int), Ghost(2 * ((2 * COORD_BOUND as int)
        * (2 * COORD_BOUND as int))));
    let (un, vn, tn, dn): (i128, i128, i128, i128) = if det > 0 {
        (u, v, t, det)
    } else {
        (-u, -v, -t, -det)
    };
    if 0 <= un && 0 <= vn && un + vn <= dn && 0 <= tn {
        Some((tn, dn))
    } else {
        None
    }
}

proof fn lemma_triple_rot_raw(
    p0: int,
    p1: int,
    p2: int,
    q0: int,
    q1: int,
    q2: int,
    d0: int,
    d1: int,
    d2: int,
)
    ensures
        p0 * (d1 * q2 - d2 * q1) + p1 * (d2 * q0 - d0 * q2) + p2 * (d0 * q1 - d1 * q0) == -(d0 * (
        p1 * q2 - p2 * q1) + d1 * (p2 * q0 - p0 * q2) + d2 * (p0 * q1 - p1 * q0)),
{
    assert(p0 * (d1 * q2 - d2 * q1) == d1 * (p0 * q2) - d2 * (p0 * q1)) by (nonlinear_arith);
    assert(p1 * (d2 * q0 - d0 * q2) == d2 * (p1 * q0) - d0 * (p1 * q2)) by (nonlinear_arith);
    assert(p2 * (d0 * q1 - d1 * q0) == d0 * (p2 * q1) - d1 * (p2 * q0)) by (nonlinear_arith);
    assert(d0 * (p1 * q2 - p2 * q1) == d0 * (p1 * q2) - d0 * (p2 * q1)) by (nonlinear_arith);
    assert(d1 * (p2 * q0 - p0 * q2) == d1 * (p2 * q0) - d1 * (p0 * q2)) by (nonlinear_arith);
    assert(d2 * (p0 * q1 - p1 * q0) == d2 * (p0 * q1) - d2 * (p1 * q0)) by (nonlinear_arith);
}

/// The intersection determinant is the ray direction against the triangle's
/// cross product: a hit triangle is never degenerate.
proof fn lemma_det_is_cross(a: Vector3d, b: Vector3d, c: Vector3d, r: StaticLine3d)
    ensures
        mt_det(a, b, c, r) == -dot3(pos3(r.direction), tri_cross(a, b, c)),
{
    let p = sub3(b, a);
    let q = sub3(c, a);
    let d = pos3(r.direction);
    lemma_triple_rot_raw(p.0, p.1, p.2, q.0, q.1, q.2, d.0, d.1, d.2);
}

proof fn lemma_hit_den_pos(a: Vector3d, b: Vector3d, c: Vector3d, r: StaticLine3d)
    requires
        tri_hits(a, b, c, r),
    ensures
        hit_den(a, b, c, r) > 0,
        hit_tnum(a, b, c, r) >= 0,
{
    let det = mt_det(a, b, c, r);
    let s = sgn(det);
    if det > 0 {
        assert(s * det == det) by (nonlinear_arith)
            requires
                s == 1,
        ;
    } else {
        assert(s * det == -det) by (nonlinear_arith)
            requires
                s == -1,
        ;
    }
}

proof fn lemma_rat_lt_of_lt_le(tn: int, dn: int, bt: int, bd: int, tj: int, dj: int)
    by (nonlinear_arith)
    requires
        dn > 0,
        bd > 0,
        dj > 0,
        tn * bd < bt * dn,
        bt * dj <= tj * bd,
    ensures
        tn * dj < tj * dn,
{
}

/// Find the closest triangle the ray hits, across the entire mesh.
///
/// Candidates are scanned in source-index order; among hits with the same
/// exact `t`, the lowest triangle index wins — ties are deterministic.
/// `None` exactly when no triangle is hit.
pub fn find_first_intersection(mesh: &IndexedTriangleList, ray: &StaticLine3d) -> (r: Option<
    RayHit,
>)
    requires
        mesh.wf(),
        mesh.in_bounds(),
        ray_ok(*ray),
    ensures
        match r {
            None => forall|i: int| 0 <= i < mesh.triangles@.len() ==> !mesh_hits(*mesh, i, *ray),
            Some(h) => {
                &&& h.triangle.idx < mesh.triangles@.len()
                &&& mesh_hits(*mesh, h.triangle.idx as int, *ray)
                &&& h.t_den == mesh_den(*mesh, h.triangle.idx as int, *ray)
                &&& h.t_num == mesh_tnum(*mesh, h.triangle.idx as int, *ray)
                &&& 0 < h.t_den
                &&& 0 <= h.t_num
                &&& tri_key(*mesh, h.triangle.idx as int) == PlaneKey::Oriented(h.plane)
                &&& h.point.den == h.t_den
                &&& h.point.xn == ray.origin.x * h.t_den + h.t_num * ray.direction.x
                &&& h.point.yn == ray.origin.y * h.t_den + h.t_num * ray.direction.y
                &&& h.point.zn == ray.origin.z * h.t_den + h.t_num * ray.direction.z
                &&& forall|i: int|
                    0 <= i < mesh.triangles@.len() && #[trigger] mesh_hits(*mesh, i, *ray)
                        ==> h.t_num * mesh_den(*mesh, i, *ray) <= mesh_tnum(*mesh, i, *ray)
                        * h.t_den
                &&& forall|i: int|
                    0 <= i < h.triangle.idx && #[trigger] mesh_hits(*mesh, i, *ray) ==> h.t_num
                        * mesh_den(*mesh, i, *ray) < mesh_tnum(*mesh, i, *ray) * h.t_den
            },
        },
{
    let n = mesh.triangles.len();
    let mut best: Option<(i128, i128, usize)> = None;
    let mut i: usize = 0;
    while i < n
        invariant
            mesh.wf(),
            mesh.in_bounds(),
            ray_ok(*ray),
            n == mesh.triangles@.len(),
            i <= n,
            match best {
                None => forall|j: int| 0 <= j < i ==> !mesh_hits(*mesh, j, *ray),
                Some((bt, bd, bi)) => {
                    &&& bi < i
                    &&& mesh_hits(*mesh, bi as int, *ray)
                    &&& bt == mesh_tnum(*mesh, bi as int, *ray)
                    &&& bd == mesh_den(*mesh, bi as int, *ray)
                    &&& 0 < bd <= 0x18_0000_0000_0000
                    &&& 0 <= bt <= 0x30_0000_0000_0000
                    &&& forall|j: int|
                        0 <= j < i && #[trigger] mesh_hits(*mesh, j, *ray) ==> bt * mesh_den(
                            *mesh,
                            j,
                            *ray,
                        ) <= mesh_tnum(*mesh, j, *ray) * bd
                    &&& forall|j: int|
                        0 <= j < bi && #[trigger] mesh_hits(*mesh, j, *ray) ==> bt * mesh_den(
                            *mesh,
                            j,
                            *ray,
                        ) < mesh_tnum(*mesh, j, *ray) * bd
                },
            },
        decreases n - i,
    {
        let (pa, pb, pc) = mesh.corner_points(i);
        let cand = try_hit(pa, pb, pc, ray);
        match cand {
            None => {},
            Some((tn, dn)) => {
                proof {
                    assert(mesh_tnum(*mesh, i as int, *ray) == tn);
                    assert(mesh_den(*mesh, i as int, *ray) == dn);
                }
                match best {
                    None => {
                        best = Some((tn, dn, i));
                    },
                    Some((bt, bd, bi)) => {
                        let lhs = mul_bounded(
                            tn,
                            bd,
                            Ghost(0x30_0000_0000_0000),
                            Ghost(0x18_0000_0000_0000),
                        );
                        let rhs = mul_bounded(
                            bt,
                            dn,
                            Ghost(0x30_0000_0000_0000),
                            Ghost(0x18_0000_0000_0000),
                        );
                        if lhs < rhs {
                            proof {
                                assert forall|j: int|
                                    0 <= j < i && #[trigger] mesh_hits(*mesh, j, *ray)
                                    implies tn * mesh_den(*mesh, j, *ray) < mesh_tnum(
                                    *mesh,
                                    j,
                                    *ray,
                                ) * dn by {
                                    lemma_hit_den_pos(
                                        mesh.corner_spec(j).0,
                                        mesh.corner_spec(j).1,
                                        mesh.corner_spec(j).2,
                                        *ray,
                                    );
                                    lemma_rat_lt_of_lt_le(
                                        tn as int,
                                        dn as int,
                                        bt as int,
                                        bd as int,
                                        mesh_tnum(*mesh, j, *ray),
                                        mesh_den(*mesh, j, *ray),
                                    );
                                }
                            }
                            best = Some((tn, dn, i));
                        }
                    },
                }
            },
        }
        i += 1;
    }
    match best {
        None => None,
        Some((tn, dn, bi)) => {
            let (pa, pb, pc) = mesh.corner_points(bi);
            let key = plane_key_for(pa, pb, pc);
            let plane = match key {
                PlaneKey::Oriented(p) => p,
                PlaneKey::Degenerate => {
                    proof {
                        lemma_det_is_cross(pa, pb, pc, *ray);
                    }
                    vstd::pervasive::unreached()
                },
            };
            let ox = widen_point(ray.origin);
            let dx = widen_point(ray.direction);
            let xn = mul_bounded(ox.0, dn, Ghost(COORD_BOUND as int), Ghost(0x18_0000_0000_0000))
                + mul_bounded(tn, dx.0, Ghost(0x30_0000_0000_0000), Ghost(COORD_BOUND as int));
            let yn = mul_bounded(ox.1, dn, Ghost(COORD_BOUND as int), Ghost(0x18_0000_0000_0000))
                + mul_bounded(tn, dx.1, Ghost(0x30_0000_0000_0000), Ghost(COORD_BOUND as int));
            let zn = mul_bounded(ox.2, dn, Ghost(COORD_BOUND as int), Ghost(0x18_0000_0000_0000))
                + mul_bounded(tn, dx.2, Ghost(0x30_0000_0000_0000), Ghost(COORD_BOUND as int));
            Some(
                RayHit {
                    point: RationalPoint { xn, yn, zn, den: dn },
                    plane,
                    triangle: ReferencedTriangle { idx: bi },
                    t_num: tn,
                    t_den: dn,
                },
            )
        },
    }
}

} // verus!
