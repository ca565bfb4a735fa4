//! Deduplication and plane-key behaviour on concrete meshes.

use mesh_topology::geom::Vector3d;
use mesh_topology::mesh::{deduplicate, Triangle3d};
use mesh_topology::plane::{plane_key_for, Plane3d, PlaneKey};

fn v(x: i64, y: i64, z: i64) -> Vector3d {
    Vector3d::new(x, y, z)
}

fn tri(p0: Vector3d, p1: Vector3d, p2: Vector3d) -> Triangle3d {
    Triangle3d { p0, p1, p2 }
}

/// A unit square at z = 0 (one unit = 1024 steps), split along the diagonal.
fn square_soup() -> Vec<Triangle3d> {
    let a = v(0, 0, 0);
    let b = v(1024, 0, 0);
    let c = v(1024, 1024, 0);
    let d = v(0, 1024, 0);
    vec![tri(a, b, c), tri(a, c, d)]
}

#[test]
fn dedup_collapses_shared_corners() {
    let mesh = deduplicate(&square_soup());
    assert_eq!(mesh.points.len(), 4);
    assert_eq!(mesh.triangles.len(), 2);
    assert_eq!(mesh.points[0], v(0, 0, 0));
    assert_eq!(mesh.points[1], v(1024, 0, 0));
    assert_eq!(mesh.points[2], v(1024, 1024, 0));
    assert_eq!(mesh.points[3], v(0, 1024, 0));
    assert_eq!(mesh.triangles[0].a, 0);
    assert_eq!(mesh.triangles[0].b, 1);
    assert_eq!(mesh.triangles[0].c, 2);
    assert_eq!(mesh.triangles[1].a, 0);
    assert_eq!(mesh.triangles[1].b, 2);
    assert_eq!(mesh.triangles[1].c, 3);
}

#[test]
fn dedup_is_idempotent() {
    let mesh = deduplicate(&square_soup());
    // read the mesh back out as a soup and deduplicate again
    let mut soup: Vec<Triangle3d> = Vec::new();
    for t in mesh.triangles.iter() {
        soup.push(tri(mesh.points[t.a], mesh.points[t.b], mesh.points[t.c]));
    }
    let again = deduplicate(&soup);
    assert_eq!(again.points, mesh.points);
    assert_eq!(again.triangles, mesh.triangles);
}

#[test]
fn dedup_passes_degenerate_triangles_through() {
    let soup = vec![tri(v(0, 0, 0), v(512, 0, 0), v(1024, 0, 0))];
    let mesh = deduplicate(&soup);
    assert_eq!(mesh.triangles.len(), 1);
    assert_eq!(mesh.points.len(), 3);
}

#[test]
fn plane_key_of_unit_square_half() {
    let key = plane_key_for(v(0, 0, 0), v(1024, 0, 0), v(1024, 1024, 0));
    assert_eq!(
        key,
        PlaneKey::Oriented(Plane3d { nx: 0, ny: 0, nz: 1, d: 0 })
    );
}

#[test]
fn plane_key_offset_scales_with_height() {
    let key = plane_key_for(v(0, 0, 512), v(1024, 0, 512), v(1024, 1024, 512));
    assert_eq!(
        key,
        PlaneKey::Oriented(Plane3d { nx: 0, ny: 0, nz: 1, d: 512 })
    );
}

#[test]
fn plane_key_stable_under_cyclic_reorder() {
    let a = v(0, 0, 0);
    let b = v(1024, 0, 0);
    let c = v(1024, 1024, 0);
    let k0 = plane_key_for(a, b, c);
    assert_eq!(plane_key_for(b, c, a), k0);
    assert_eq!(plane_key_for(c, a, b), k0);
}

#[test]
fn plane_key_flips_under_reversed_winding() {
    let a = v(0, 0, 256);
    let b = v(1024, 0, 256);
    let c = v(1024, 1024, 256);
    assert_eq!(
        plane_key_for(a, b, c),
        PlaneKey::Oriented(Plane3d { nx: 0, ny: 0, nz: 1, d: 256 })
    );
    assert_eq!(
        plane_key_for(a, c, b),
        PlaneKey::Oriented(Plane3d { nx: 0, ny: 0, nz: -1, d: -256 })
    );
}

#[test]
fn plane_key_degenerate_for_collinear_corners() {
    let key = plane_key_for(v(0, 0, 0), v(512, 0, 0), v(1024, 0, 0));
    assert_eq!(key, PlaneKey::Degenerate);
}

#[test]
fn plane_key_normal_is_primitive() {
    // a large triangle and a small coplanar one get the same key
    let big = plane_key_for(v(0, 0, 0), v(4096, 0, 0), v(0, 4096, 0));
    let small = plane_key_for(v(0, 0, 0), v(512, 0, 0), v(0, 512, 0));
    assert_eq!(big, small);
    assert_eq!(
        big,
        PlaneKey::Oriented(Plane3d { nx: 0, ny: 0, nz: 1, d: 0 })
    );
}
