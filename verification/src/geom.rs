//! Fixed-point coordinates and exact bounded integer vector arithmetic.

use vstd::prelude::*;

verus! {

/// Largest magnitude allowed for one coordinate component.
///
/// A coordinate is an `i64` holding the real value scaled by [`COORD_SCALE`].
/// Bounding components by this constant lets every intermediate product of the
/// plane-key and ray-intersection arithmetic be computed exactly in `i128`.
pub const COORD_BOUND: i64 = 65536;

/// Fixed-point scale: one spatial unit is this many coordinate steps.
///
/// Converting input to this grid is the quantization that makes plane-key
/// equality deterministic; two planes coincide exactly when their quantized
/// coordinates say so.
pub const COORD_SCALE: i64 = 1024;

/// A point or direction in the mesh's coordinate space, in fixed-point steps.
#[derive(Clone, Copy, PartialEq, Eq, Structural, Debug, Hash)]
pub struct Vector3d {
    pub x: i64,
    pub y: i64,
    pub z: i64,
}

impl Vector3d {
    pub fn new(x: i64, y: i64, z: i64) -> (r: Vector3d)
        ensures
            r == (Vector3d { x, y, z }),
    {
        Vector3d { x, y, z }
    }
}

pub open spec fn coord_ok(c: i64) -> bool {
    -COORD_BOUND <= c && c <= COORD_BOUND
}

pub open spec fn vec_ok(v: Vector3d) -> bool {
    coord_ok(v.x) && coord_ok(v.y) && coord_ok(v.z)
}

pub open spec fn sub3(p: Vector3d, q: Vector3d) -> (int, int, int) {
    (p.x - q.x, p.y - q.y, p.z - q.z)
}

pub open spec fn cross3(u: (int, int, int), v: (int, int, int)) -> (int, int, int) {
    (u.1 * v.2 - u.2 * v.1, u.2 * v.0 - u.0 * v.2, u.0 * v.1 - u.1 * v.0)
}

pub open spec fn dot3(u: (int, int, int), v: (int, int, int)) -> int {
    u.0 * v.0 + u.1 * v.1 + u.2 * v.2
}

pub open spec fn bounded3(u: (int, int, int), b: int) -> bool {
    &&& -b <= u.0 <= b
    &&& -b <= u.1 <= b
    &&& -b <= u.2 <= b
}

pub open spec fn view3(t: (i128, i128, i128)) -> (int, int, int) {
    (t.0 as int, t.1 as int, t.2 as int)
}

pub proof fn lemma_mul_bounds(a: int, b: int, aa: int, bb: int)
    by (nonlinear_arith)
    requires
        -aa <= a <= aa,
        -bb <= b <= bb,
        0 <= aa,
        0 <= bb,
    ensures
        -(aa * bb) <= a * b <= aa * bb,
{
}

/// Exact product of two bounded `i128` values; the bound keeps it in range.
pub(crate) fn mul_bounded(a: i128, b: i128, Ghost(aa): Ghost<int>, Ghost(bb): Ghost<int>) -> (r:
    i128)
    requires
        -aa <= a <= aa,
        -bb <= b <= bb,
        0 <= aa,
        0 <= bb,
        aa * bb < 0x4000_0000_0000_0000_0000_0000_0000_0000,
    ensures
        r == a * b,
        -(aa * bb) <= r <= aa * bb,
{
    proof {
        lemma_mul_bounds(a as int, b as int, aa, bb);
    }
    a * b
}

/// Difference of two in-bounds points, widened to `i128` components.
pub(crate) fn sub_point(p: Vector3d, q: Vector3d) -> (r: (i128, i128, i128))
    requires
        vec_ok(p),
        vec_ok(q),
    ensures
        view3(r) == sub3(p, q),
        bounded3(view3(r), 2 * COORD_BOUND),
{
    (
        p.x as i128 - q.x as i128,
        p.y as i128 - q.y as i128,
        p.z as i128 - q.z as i128,
    )
}

/// A point widened to `i128` components.
pub(crate) fn widen_point(p: Vector3d) -> (r: (i128, i128, i128))
    requires
        vec_ok(p),
    ensures
        view3(r) == (p.x as int, p.y as int, p.z as int),
        bounded3(view3(r), COORD_BOUND as int),
{
    (p.x as i128, p.y as i128, p.z as i128)
}

/// Exact cross product of bounded triples.
pub(crate) fn cross_bounded(
    u: (i128, i128, i128),
    v: (i128, i128, i128),
    Ghost(ub): Ghost<int>,
    Ghost(vb): Ghost<int>,
) -> (r: (i128, i128, i128))
    requires
        bounded3(view3(u), ub),
        bounded3(view3(v), vb),
        0 <= ub,
        0 <= vb,
        ub * vb < 0x2000_0000_0000_0000_0000_0000_0000_0000,
    ensures
        view3(r) == cross3(view3(u), view3(v)),
        bounded3(view3(r), 2 * (ub * vb)),
{
    let x = mul_bounded(u.1, v.2, Ghost(ub), Ghost(vb)) - mul_bounded(
        u.2,
        v.1,
        Ghost(ub),
        Ghost(vb),
    );
    let y = mul_bounded(u.2, v.0, Ghost(ub), Ghost(vb)) - mul_bounded(
        u.0,
        v.2,
        Ghost(ub),
        Ghost(vb),
    );
    let z = mul_bounded(u.0, v.1, Ghost(ub), Ghost(vb)) - mul_bounded(
        u.1,
        v.0,
        Ghost(ub),
        Ghost(vb),
    );
    (x, y, z)
}

/// Exact dot product of bounded triples.
pub(crate) fn dot_bounded(
    u: (i128, i128, i128),
    v: (i128, i128, i128),
    Ghost(ub): Ghost<int>,
    Ghost(vb): Ghost<int>,
) -> (r: i128)
    requires
        bounded3(view3(u), ub),
        bounded3(view3(v), vb),
        0 <= ub,
        0 <= vb,
        ub * vb < 0x1000_0000_0000_0000_0000_0000_0000_0000,
    ensures
        r == dot3(view3(u), view3(v)),
        -(3 * (ub * vb)) <= r <= 3 * (ub * vb),
{
    mul_bounded(u.0, v.0, Ghost(ub), Ghost(vb)) + mul_bounded(u.1, v.1, Ghost(ub), Ghost(vb))
        + mul_bounded(u.2, v.2, Ghost(ub), Ghost(vb))
}

} // verus!
