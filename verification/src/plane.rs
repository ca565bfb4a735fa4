//! Oriented plane keys for triangles.
//!
//! The supporting plane of a non-degenerate triangle is keyed by the primitive
//! integer normal of its corner cross product (the cross product divided by the
//! gcd of its component magnitudes, direction kept) together with the signed
//! offset of the plane along that normal. Because coordinates are fixed-point
//! integers the key is exact: two triangles get the same key iff they lie on
//! the same plane with the same orientation. Degenerate (zero-area) triangles
//! get a dedicated catch-all key.

use vstd::prelude::*;

use crate::geom::{
    bounded3, cross3, cross_bounded, dot3, dot_bounded, lemma_mul_bounds, sub3, sub_point, vec_ok,
    widen_point, Vector3d, COORD_BOUND,
};

verus! {

/// An oriented plane: primitive integer normal and signed offset.
///
/// A point `p` lies on the plane iff `nx*p.x + ny*p.y + nz*p.z == d`; the
/// normal keeps the winding orientation of the triangles it came from, so
/// coincident but opposite-facing planes get distinct keys.
#[derive(Clone, Copy, PartialEq, Eq, Structural, Debug, Hash)]
pub struct Plane3d {
    pub nx: i64,
    pub ny: i64,
    pub nz: i64,
    pub d: i64,
}

/// The key a triangle is grouped under: its oriented plane, or the
/// catch-all for degenerate triangles.
#[derive(Clone, Copy, PartialEq, Eq, Structural, Debug, Hash)]
pub enum PlaneKey {
    Degenerate,
    Oriented(Plane3d),
}

pub open spec fn iabs(a: int) -> int {
    if a < 0 {
        -a
    } else {
        a
    }
}

pub open spec fn gcd_nat(a: nat, b: nat) -> nat
    decreases b,
{
    if b == 0 {
        a
    } else {
        gcd_nat(b, a % b)
    }
}

/// Truncating division (rounds toward zero), the rounding the key uses.
pub open spec fn tdiv(x: int, g: int) -> int {
    if x >= 0 {
        x / g
    } else {
        -((-x) / g)
    }
}

/// Cross product of the two edge vectors leaving the first corner.
pub open spec fn tri_cross(a: Vector3d, b: Vector3d, c: Vector3d) -> (int, int, int) {
    cross3(sub3(b, a), sub3(c, a))
}

pub open spec fn gcd3(cr: (int, int, int)) -> int {
    gcd_nat(gcd_nat(iabs(cr.0) as nat, iabs(cr.1) as nat), iabs(cr.2) as nat) as int
}

pub open spec fn pos3(a: Vector3d) -> (int, int, int) {
    (a.x as int, a.y as int, a.z as int)
}

/// The plane key of the triangle `(a, b, c)`, corners in winding order.
pub open spec fn plane_key_spec(a: Vector3d, b: Vector3d, c: Vector3d) -> PlaneKey {
    let cr = tri_cross(a, b, c);
    if cr.0 == 0 && cr.1 == 0 && cr.2 == 0 {
        PlaneKey::Degenerate
    } else {
        let g = gcd3(cr);
        PlaneKey::Oriented(
            Plane3d {
                nx: tdiv(cr.0, g) as i64,
                ny: tdiv(cr.1, g) as i64,
                nz: tdiv(cr.2, g) as i64,
                d: tdiv(dot3(cr, pos3(a)), g) as i64,
            },
        )
    }
}

/// The same plane with its orientation flipped.
pub open spec fn key_opposite(k: PlaneKey) -> PlaneKey {
    match k {
        PlaneKey::Degenerate => PlaneKey::Degenerate,
        PlaneKey::Oriented(p) => PlaneKey::Oriented(
            Plane3d {
                nx: (-(p.nx as int)) as i64,
                ny: (-(p.ny as int)) as i64,
                nz: (-(p.nz as int)) as i64,
                d: (-(p.d as int)) as i64,
            },
        ),
    }
}

proof fn lemma_gcd_zero(a: nat, b: nat)
    ensures
        gcd_nat(a, b) == 0 ==> a == 0 && b == 0,
    decreases b,
{
    if b != 0 {
        lemma_gcd_zero(b, a % b);
    }
}

fn gcd_u64(a: u64, b: u64) -> (r: u64)
    ensures
        r == gcd_nat(a as nat, b as nat),
{
    let mut x: u64 = a;
    let mut y: u64 = b;
    while y != 0
        invariant
            gcd_nat(x as nat, y as nat) == gcd_nat(a as nat, b as nat),
        decreases y,
    {
        let t: u64 = x % y;
        x = y;
        y = t;
    }
    x
}

proof fn lemma_tdiv_bound(x: int, g: int)
    requires
        g >= 1,
    ensures
        -iabs(x) <= tdiv(x, g) <= iabs(x),
{
    if x >= 0 {
        assert(0 <= x / g <= x) by (nonlinear_arith)
            requires
                g >= 1,
                x >= 0,
        ;
    } else {
        assert(0 <= (-x) / g <= -x) by (nonlinear_arith)
            requires
                g >= 1,
                x < 0,
        ;
    }
}

proof fn lemma_tdiv_neg(x: int, g: int)
    requires
        g >= 1,
    ensures
        tdiv(-x, g) == -tdiv(x, g),
{
    assert(0int / g == 0) by (nonlinear_arith)
        requires
            g >= 1,
    ;
}

fn abs_to_u64(a: i64) -> (r: u64)
    requires
        -0x7fff_ffff_ffff_ffff <= a,
    ensures
        r == iabs(a as int),
{
    if a < 0 {
        (-a) as u64
    } else {
        a as u64
    }
}

/// Truncating division of a bounded value by a positive divisor.
fn tdiv_exec(x: i64, g: u64) -> (r: i64)
    requires
        g >= 1,
        -0x4000_0000_0000_0000 <= x <= 0x4000_0000_0000_0000,
    ensures
        r == tdiv(x as int, g as int),
        -iabs(x as int) <= r <= iabs(x as int),
{
    proof {
        lemma_tdiv_bound(x as int, g as int);
    }
    let ax: u64 = abs_to_u64(x);
    let q: u64 = ax / g;
    if x >= 0 {
        q as i64
    } else {
        -(q as i64)
    }
}

/// Bound on one component of a triangle's corner cross product.
pub open spec fn cross_bound() -> int {
    2 * ((2 * COORD_BOUND) * (2 * COORD_BOUND))
}

pub proof fn lemma_tri_cross_bounded(a: Vector3d, b: Vector3d, c: Vector3d)
    requires
        vec_ok(a),
        vec_ok(b),
        vec_ok(c),
    ensures
        bounded3(tri_cross(a, b, c), cross_bound()),
{
    let e1 = sub3(b, a);
    let e2 = sub3(c, a);
    lemma_mul_bounds(e1.1, e2.2, 2 * COORD_BOUND as int, 2 * COORD_BOUND as int);
    lemma_mul_bounds(e1.2, e2.1, 2 * COORD_BOUND as int, 2 * COORD_BOUND as int);
    lemma_mul_bounds(e1.2, e2.0, 2 * COORD_BOUND as int, 2 * COORD_BOUND as int);
    lemma_mul_bounds(e1.0, e2.2, 2 * COORD_BOUND as int, 2 * COORD_BOUND as int);
    lemma_mul_bounds(e1.0, e2.1, 2 * COORD_BOUND as int, 2 * COORD_BOUND as int);
    lemma_mul_bounds(e1.1, e2.0, 2 * COORD_BOUND as int, 2 * COORD_BOUND as int);
}

/// Compute the plane key of a triangle, exactly as [`plane_key_spec`] states.
pub fn plane_key_for(a: Vector3d, b: Vector3d, c: Vector3d) -> (k: PlaneKey)
    requires
        vec_ok(a),
        vec_ok(b),
        vec_ok(c),
    ensures
        k == plane_key_spec(a, b, c),
{
    let e1 = sub_point(b, a);
    let e2 = sub_point(c, a);
    let cr = cross_bounded(e1, e2, Ghost(2 * COORD_BOUND as int), Ghost(2 * COORD_BOUND as int));
    if cr.0 == 0 && cr.1 == 0 && cr.2 == 0 {
        PlaneKey::Degenerate
    } else {
        let ghost crs = tri_cross(a, b, c);
        let ax: u64 = abs_to_u64(cr.0 as i64);
        let ay: u64 = abs_to_u64(cr.1 as i64);
        let az: u64 = abs_to_u64(cr.2 as i64);
        let g: u64 = gcd_u64(gcd_u64(ax, ay), az);
        proof {
            lemma_gcd_zero(gcd_nat(ax as nat, ay as nat), az as nat);
            lemma_gcd_zero(ax as nat, ay as nat);
            assert(g as int == gcd3(crs));
            assert(g >= 1);
        }
        let dv: i128 = dot_bounded(
            cr,
            widen_point(a),
            Ghost(cross_bound()),
            Ghost(COORD_BOUND as int),
        );
        let nx: i64 = tdiv_exec(cr.0 as i64, g);
        let ny: i64 = tdiv_exec(cr.1 as i64, g);
        let nz: i64 = tdiv_exec(cr.2 as i64, g);
        let d: i64 = tdiv_exec(dv as i64, g);
        PlaneKey::Oriented(Plane3d { nx, ny, nz, d })
    }
}

proof fn lemma_cyclic_raw(
    ax: int,
    ay: int,
    az: int,
    bx: int,
    by: int,
    bz: int,
    cx: int,
    cy: int,
    cz: int,
)
    by (nonlinear_arith)
    ensures
        (cy - by) * (az - bz) - (cz - bz) * (ay - by) == (by - ay) * (cz - az) - (bz - az) * (cy
            - ay),
        (cz - bz) * (ax - bx) - (cx - bx) * (az - bz) == (bz - az) * (cx - ax) - (bx - ax) * (cz
            - az),
        (cx - bx) * (ay - by) - (cy - by) * (ax - bx) == (bx - ax) * (cy - ay) - (by - ay) * (cx
            - ax),
{
}

proof fn lemma_cross_cyclic(a: Vector3d, b: Vector3d, c: Vector3d)
    ensures
        tri_cross(b, c, a) == tri_cross(a, b, c),
{
    lemma_cyclic_raw(
        a.x as int,
        a.y as int,
        a.z as int,
        b.x as int,
        b.y as int,
        b.z as int,
        c.x as int,
        c.y as int,
        c.z as int,
    );
}

proof fn lemma_reversed_raw(
    ax: int,
    ay: int,
    az: int,
    bx: int,
    by: int,
    bz: int,
    cx: int,
    cy: int,
    cz: int,
)
    by (nonlinear_arith)
    ensures
        (cy - ay) * (bz - az) - (cz - az) * (by - ay) == -((by - ay) * (cz - az) - (bz - az) * (cy
            - ay)),
        (cz - az) * (bx - ax) - (cx - ax) * (bz - az) == -((bz - az) * (cx - ax) - (bx - ax) * (cz
            - az)),
        (cx - ax) * (by - ay) - (cy - ay) * (bx - ax) == -((bx - ax) * (cy - ay) - (by - ay) * (cx
            - ax)),
{
}

proof fn lemma_cross_reversed(a: Vector3d, b: Vector3d, c: Vector3d)
    ensures
        tri_cross(a, c, b) == (
            -tri_cross(a, b, c).0,
            -tri_cross(a, b, c).1,
            -tri_cross(a, b, c).2,
        ),
{
    lemma_reversed_raw(
        a.x as int,
        a.y as int,
        a.z as int,
        b.x as int,
        b.y as int,
        b.z as int,
        c.x as int,
        c.y as int,
        c.z as int,
    );
}

proof fn lemma_triple_raw(p0: int, p1: int, p2: int, q0: int, q1: int, q2: int)
    by (nonlinear_arith)
    ensures
        (p1 * q2 - p2 * q1) * p0 + (p2 * q0 - p0 * q2) * p1 + (p0 * q1 - p1 * q0) * p2 == 0,
{
}

proof fn lemma_mul_sub(u: int, x: int, y: int)
    by (nonlinear_arith)
    ensures
        u * (x - y) == u * x - u * y,
{
}

proof fn lemma_offset_cyclic(a: Vector3d, b: Vector3d, c: Vector3d)
    ensures
        dot3(tri_cross(a, b, c), pos3(b)) == dot3(tri_cross(a, b, c), pos3(a)),
{
    let e1 = sub3(b, a);
    let e2 = sub3(c, a);
    let cr = tri_cross(a, b, c);
    lemma_triple_raw(e1.0, e1.1, e1.2, e2.0, e2.1, e2.2);
    assert(cr.0 * e1.0 + cr.1 * e1.1 + cr.2 * e1.2 == 0);
    lemma_mul_sub(cr.0, b.x as int, a.x as int);
    lemma_mul_sub(cr.1, b.y as int, a.y as int);
    lemma_mul_sub(cr.2, b.z as int, a.z as int);
}

proof fn lemma_dot_neg_raw(u0: int, u1: int, u2: int, v0: int, v1: int, v2: int)
    by (nonlinear_arith)
    ensures
        (-u0) * v0 + (-u1) * v1 + (-u2) * v2 == -(u0 * v0 + u1 * v1 + u2 * v2),
{
}

proof fn lemma_dot_neg(u: (int, int, int), v: (int, int, int))
    ensures
        dot3((-u.0, -u.1, -u.2), v) == -dot3(u, v),
{
    lemma_dot_neg_raw(u.0, u.1, u.2, v.0, v.1, v.2);
}

/// Reordering a triangle's corners cyclically does not change its plane key.
pub proof fn lemma_plane_key_cyclic(a: Vector3d, b: Vector3d, c: Vector3d)
    ensures
        plane_key_spec(b, c, a) == plane_key_spec(a, b, c),
        plane_key_spec(c, a, b) == plane_key_spec(a, b, c),
{
    lemma_cross_cyclic(a, b, c);
    lemma_cross_cyclic(b, c, a);
    lemma_offset_cyclic(a, b, c);
    lemma_offset_cyclic(b, c, a);
    assert(tri_cross(b, c, a) == tri_cross(a, b, c));
    assert(tri_cross(c, a, b) == tri_cross(b, c, a));
    assert(dot3(tri_cross(a, b, c), pos3(c)) == dot3(tri_cross(a, b, c), pos3(b)));
}

/// Reversing a triangle's winding flips its plane key's orientation.
pub proof fn lemma_plane_key_reversed(a: Vector3d, b: Vector3d, c: Vector3d)
    requires
        vec_ok(a),
        vec_ok(b),
        vec_ok(c),
    ensures
        plane_key_spec(a, c, b) == key_opposite(plane_key_spec(a, b, c)),
{
    let cr = tri_cross(a, b, c);
    lemma_cross_reversed(a, b, c);
    if cr.0 == 0 && cr.1 == 0 && cr.2 == 0 {
    } else {
        let g = gcd3(cr);
        assert(gcd3((-cr.0, -cr.1, -cr.2)) == g);
        lemma_gcd_zero(gcd_nat(iabs(cr.0) as nat, iabs(cr.1) as nat), iabs(cr.2) as nat);
        lemma_gcd_zero(iabs(cr.0) as nat, iabs(cr.1) as nat);
        assert(g >= 1);
        lemma_tri_cross_bounded(a, b, c);
        let dv = dot3(cr, pos3(a));
        lemma_mul_bounds(cr.0, a.x as int, cross_bound(), COORD_BOUND as int);
        lemma_mul_bounds(cr.1, a.y as int, cross_bound(), COORD_BOUND as int);
        lemma_mul_bounds(cr.2, a.z as int, cross_bound(), COORD_BOUND as int);
        lemma_dot_neg(cr, pos3(a));
        lemma_tdiv_neg(cr.0, g);
        lemma_tdiv_neg(cr.1, g);
        lemma_tdiv_neg(cr.2, g);
        lemma_tdiv_neg(dv, g);
        lemma_tdiv_bound(cr.0, g);
        lemma_tdiv_bound(cr.1, g);
        lemma_tdiv_bound(cr.2, g);
        lemma_tdiv_bound(dv, g);
    }
}

} // verus!
