//! Topology grouping, ray picking, the ownership container, and render buffers.

use mesh_topology::container::{GeometryData, PickController};
use mesh_topology::geom::Vector3d;
use mesh_topology::mesh::{deduplicate, IndexedTriangleList, Triangle3d};
use mesh_topology::plane::{Plane3d, PlaneKey};
use mesh_topology::ray::StaticLine3d;
use mesh_topology::render::group_render_mesh;
use mesh_topology::topology::{TopologyError, TriangleTopology};

fn v(x: i64, y: i64, z: i64) -> Vector3d {
    Vector3d::new(x, y, z)
}

fn tri(p0: Vector3d, p1: Vector3d, p2: Vector3d) -> Triangle3d {
    Triangle3d { p0, p1, p2 }
}

/// A unit square at z = 0 (one unit = 1024 steps), split along the diagonal.
fn square_mesh() -> IndexedTriangleList {
    let a = v(0, 0, 0);
    let b = v(1024, 0, 0);
    let c = v(1024, 1024, 0);
    let d = v(0, 1024, 0);
    deduplicate(&vec![tri(a, b, c), tri(a, c, d)])
}

#[test]
fn coplanar_triangles_share_one_group() {
    let mesh = square_mesh();
    let topo = TriangleTopology::new(&mesh).unwrap();
    assert_eq!(topo.groups.len(), 1);
    assert_eq!(topo.groups[0].members, vec![0, 1]);
    assert_eq!(
        topo.groups[0].key,
        PlaneKey::Oriented(Plane3d { nx: 0, ny: 0, nz: 1, d: 0 })
    );
}

#[test]
fn flipped_triangle_lands_in_other_group() {
    let a = v(0, 0, 0);
    let b = v(1024, 0, 0);
    let c = v(1024, 1024, 0);
    let d = v(0, 1024, 0);
    // same square, second half rewound: normal points the other way
    let mesh = deduplicate(&vec![tri(a, b, c), tri(a, d, c)]);
    let topo = TriangleTopology::new(&mesh).unwrap();
    assert_eq!(topo.groups.len(), 2);
    assert_eq!(
        topo.groups[0].key,
        PlaneKey::Oriented(Plane3d { nx: 0, ny: 0, nz: 1, d: 0 })
    );
    assert_eq!(
        topo.groups[1].key,
        PlaneKey::Oriented(Plane3d { nx: 0, ny: 0, nz: -1, d: 0 })
    );
}

#[test]
fn degenerate_triangle_gets_catch_all_group() {
    let mesh = deduplicate(&vec![tri(v(0, 0, 0), v(512, 0, 0), v(1024, 0, 0))]);
    let topo = TriangleTopology::new(&mesh).unwrap();
    assert_eq!(topo.groups.len(), 1);
    assert_eq!(topo.groups[0].key, PlaneKey::Degenerate);
    assert_eq!(topo.find_group(PlaneKey::Degenerate), Some(0));
}

#[test]
fn degenerate_triangle_is_never_hit() {
    let mesh = deduplicate(&vec![tri(v(0, 0, 0), v(512, 0, 0), v(1024, 0, 0))]);
    let data = GeometryData::new(mesh).unwrap();
    let ray = StaticLine3d::new(v(512, 0, 1024), v(0, 0, -1024));
    assert!(data.find_first_intersection(&ray).is_none());
}

#[test]
fn empty_mesh_cannot_be_indexed() {
    let mesh = deduplicate(&Vec::new());
    match TriangleTopology::new(&mesh) {
        Err(e) => {
            assert_eq!(e, TopologyError::EmptyMesh);
            assert_eq!(e.describe(), "mesh holds no triangles");
        },
        Ok(_) => panic!("an empty mesh must be rejected"),
    }
}

#[test]
fn find_group_reports_absent_keys() {
    let mesh = square_mesh();
    let topo = TriangleTopology::new(&mesh).unwrap();
    assert_eq!(topo.find_group(PlaneKey::Degenerate), None);
}

#[test]
fn ray_hits_square_at_quarter_point() {
    // ray from (0.25, 0.25, 1) pointing straight down, in 1024ths
    let data = GeometryData::new(square_mesh()).unwrap();
    let ray = StaticLine3d::new(v(256, 256, 1024), v(0, 0, -1024));
    let hit = data.find_first_intersection(&ray).unwrap();
    // t == 1 exactly
    assert_eq!(hit.t_num, hit.t_den);
    assert!(hit.t_den > 0);
    // hit point is exactly (0.25, 0.25, 0)
    assert_eq!(hit.point.den, hit.t_den);
    assert_eq!(hit.point.xn, 256 * hit.point.den);
    assert_eq!(hit.point.yn, 256 * hit.point.den);
    assert_eq!(hit.point.zn, 0);
    assert_eq!(hit.plane, Plane3d { nx: 0, ny: 0, nz: 1, d: 0 });
    // the quarter point sits on the shared diagonal: both halves are hit at
    // the same t, and the lower source index wins the tie
    assert_eq!(hit.triangle.idx(), 0);
}

#[test]
fn ray_outside_mesh_misses() {
    let data = GeometryData::new(square_mesh()).unwrap();
    let ray = StaticLine3d::new(v(-4096, -4096, 1024), v(0, 0, -1024));
    assert!(data.find_first_intersection(&ray).is_none());
}

#[test]
fn ray_parallel_to_plane_misses() {
    let data = GeometryData::new(square_mesh()).unwrap();
    let ray = StaticLine3d::new(v(0, 0, 512), v(1024, 0, 0));
    assert!(data.find_first_intersection(&ray).is_none());
}

#[test]
fn ray_behind_origin_misses() {
    let data = GeometryData::new(square_mesh()).unwrap();
    // pointing up, away from the square below
    let ray = StaticLine3d::new(v(256, 256, 1024), v(0, 0, 1024));
    assert!(data.find_first_intersection(&ray).is_none());
}

#[test]
fn nearest_of_two_stacked_triangles_wins() {
    let low = tri(v(0, 0, 0), v(1024, 0, 0), v(1024, 1024, 0));
    let high = tri(v(0, 0, 512), v(1024, 0, 512), v(1024, 1024, 512));
    let mesh = deduplicate(&vec![low, high]);
    let data = GeometryData::new(mesh).unwrap();
    let ray = StaticLine3d::new(v(256, 128, 2048), v(0, 0, -1024));
    let hit = data.find_first_intersection(&ray).unwrap();
    // the higher sheet (source index 1) is closer: t = 1.5 against t = 2
    assert_eq!(hit.triangle.idx(), 1);
    assert_eq!(2 * hit.t_num, 3 * hit.t_den);
}

#[test]
fn container_views_stay_paired() {
    let data = GeometryData::new(square_mesh()).unwrap();
    assert_eq!(data.view_owner().points.len(), 4);
    assert_eq!(data.view_owner().triangles.len(), 2);
    assert_eq!(data.view_derived().groups.len(), 1);
}

#[test]
fn pick_controller_suppresses_redundant_updates() {
    let data = GeometryData::new(square_mesh()).unwrap();
    let mut picker = PickController::new();
    let down = StaticLine3d::new(v(256, 256, 1024), v(0, 0, -1024));
    let away = StaticLine3d::new(v(-4096, -4096, 1024), v(0, 0, -1024));

    let miss = data.find_first_intersection(&away);
    assert!(!picker.update_selection(&miss));  // nothing -> nothing: no change

    let hit = data.find_first_intersection(&down);
    assert!(picker.update_selection(&hit));  // nothing -> triangle 0
    assert!(!picker.update_selection(&hit));  // same triangle: suppressed

    assert!(picker.update_selection(&miss));  // triangle 0 -> nothing
}

#[test]
fn group_render_mesh_compacts_vertices() {
    let mesh = square_mesh();
    let topo = TriangleTopology::new(&mesh).unwrap();
    let gm = group_render_mesh(&mesh, &topo.groups[0]);
    assert_eq!(gm.faces.len(), 2);
    assert_eq!(gm.coords.len(), 4);
    for (fi, t) in gm.faces.iter().enumerate() {
        let m = topo.groups[0].members[fi];
        let src = mesh.triangles[m];
        assert_eq!(gm.coords[t.a], mesh.points[src.a]);
        assert_eq!(gm.coords[t.b], mesh.points[src.b]);
        assert_eq!(gm.coords[t.c], mesh.points[src.c]);
    }
}

#[test]
fn referenced_triangle_exposes_corners() {
    let mesh = square_mesh();
    let data = GeometryData::new(mesh).unwrap();
    let ray = StaticLine3d::new(v(256, 256, 1024), v(0, 0, -1024));
    let hit = data.find_first_intersection(&ray).unwrap();
    let (p0, p1, p2) = hit.triangle.points(data.view_owner());
    assert_eq!(p0, v(0, 0, 0));
    assert_eq!(p1, v(1024, 0, 0));
    assert_eq!(p2, v(1024, 1024, 0));
}
