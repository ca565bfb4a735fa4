//! The deduplicated mesh: unique points plus index triples.

use vstd::prelude::*;

use crate::geom::{vec_ok, Vector3d};

verus! {

/// One input triangle: three independent corner points (a "triangle soup" entry).
#[derive(Clone, Copy, PartialEq, Eq, Structural, Debug)]
pub struct Triangle3d {
    pub p0: Vector3d,
    pub p1: Vector3d,
    pub p2: Vector3d,
}

/// One mesh triangle: three indices into the point buffer, winding preserved.
#[derive(Clone, Copy, PartialEq, Eq, Structural, Debug)]
pub struct Triangle {
    pub a: usize,
    pub b: usize,
    pub c: usize,
}

/// A mesh of unique points and triangles referencing them by index.
pub struct IndexedTriangleList {
    pub points: Vec<Vector3d>,
    pub triangles: Vec<Triangle>,
}

/// A stable handle to one triangle of a mesh; its index is the identity used
/// for selection-state comparison across queries.
#[derive(Clone, Copy, PartialEq, Eq, Structural, Debug)]
pub struct ReferencedTriangle {
    pub idx: usize,
}

pub open spec fn points_distinct(pts: Seq<Vector3d>) -> bool {
    forall|i: int, j: int| 0 <= i < j < pts.len() ==> pts[i] != pts[j]
}

pub open spec fn tri_in_range(t: Triangle, n: int) -> bool {
    t.a < n && t.b < n && t.c < n
}

impl IndexedTriangleList {
    /// Structural invariant: indices in range, no two points coordinate-identical.
    pub open spec fn wf(&self) -> bool {
        &&& points_distinct(self.points@)
        &&& forall|i: int|
            0 <= i < self.triangles@.len() ==> tri_in_range(
                self.triangles@[i],
                self.points@.len() as int,
            )
    }

    /// Every point within the fixed-point coordinate range.
    pub open spec fn in_bounds(&self) -> bool {
        forall|i: int| 0 <= i < self.points@.len() ==> vec_ok(self.points@[i])
    }

    /// The three corner points of triangle `i`, in winding order.
    pub open spec fn corner_spec(&self, i: int) -> (Vector3d, Vector3d, Vector3d) {
        (
            self.points@[self.triangles@[i].a as int],
            self.points@[self.triangles@[i].b as int],
            self.points@[self.triangles@[i].c as int],
        )
    }

    pub fn corner_points(&self, i: usize) -> (r: (Vector3d, Vector3d, Vector3d))
        requires
            self.wf(),
            i < self.triangles@.len(),
        ensures
            r == self.corner_spec(i as int),
    {
        let t = self.triangles[i];
        (self.points[t.a], self.points[t.b], self.points[t.c])
    }
}

impl ReferencedTriangle {
    /// The identity of this triangle: its position in the mesh.
    pub fn idx(&self) -> (r: usize)
        ensures
            r == self.idx,
    {
        self.idx
    }

    pub fn points(&self, mesh: &IndexedTriangleList) -> (r: (Vector3d, Vector3d, Vector3d))
        requires
            mesh.wf(),
            self.idx < mesh.triangles@.len(),
        ensures
            r == mesh.corner_spec(self.idx as int),
    {
        mesh.corner_points(self.idx)
    }
}

/// Append `p` unless an identical point is already present.
pub open spec fn insert_pt(pts: Seq<Vector3d>, p: Vector3d) -> Seq<Vector3d> {
    if pts.contains(p) {
        pts
    } else {
        pts.push(p)
    }
}

pub open spec fn insert_tri(pts: Seq<Vector3d>, t: Triangle3d) -> Seq<Vector3d> {
    insert_pt(insert_pt(insert_pt(pts, t.p0), t.p1), t.p2)
}

/// The point buffer deduplication produces: corners in first-occurrence order.
pub open spec fn dedup_points(s: Seq<Triangle3d>) -> Seq<Vector3d>
    decreases s.len(),
{
    if s.len() == 0 {
        Seq::<Vector3d>::empty()
    } else {
        insert_tri(dedup_points(s.drop_last()), s.last())
    }
}

/// Index of the first occurrence of `p` in `pts`.
pub open spec fn first_index(pts: Seq<Vector3d>, p: Vector3d) -> int
    decreases pts.len(),
{
    if pts.len() == 0 {
        0
    } else if pts[0] == p {
        0
    } else {
        1 + first_index(pts.drop_first(), p)
    }
}

pub open spec fn dedup_triangle(pts: Seq<Vector3d>, t: Triangle3d) -> Triangle {
    Triangle {
        a: first_index(pts, t.p0) as usize,
        b: first_index(pts, t.p1) as usize,
        c: first_index(pts, t.p2) as usize,
    }
}

/// The triangle buffer deduplication produces, in source order.
pub open spec fn dedup_tris(s: Seq<Triangle3d>) -> Seq<Triangle> {
    Seq::new(s.len(), |i: int| dedup_triangle(dedup_points(s), s[i]))
}

/// Read a mesh back out as a triangle soup.
pub open spec fn expand(pts: Seq<Vector3d>, tris: Seq<Triangle>) -> Seq<Triangle3d> {
    Seq::new(
        tris.len(),
        |i: int|
            Triangle3d {
                p0: pts[tris[i].a as int],
                p1: pts[tris[i].b as int],
                p2: pts[tris[i].c as int],
            },
    )
}

pub open spec fn soup_in_bounds(s: Seq<Triangle3d>) -> bool {
    forall|i: int|
        0 <= i < s.len() ==> vec_ok(s[i].p0) && vec_ok(s[i].p1) && vec_ok(s[i].p2)
}

proof fn lemma_first_index_correct(pts: Seq<Vector3d>, p: Vector3d)
    requires
        pts.contains(p),
    ensures
        0 <= first_index(pts, p) < pts.len(),
        pts[first_index(pts, p)] == p,
        forall|k: int| 0 <= k < first_index(pts, p) ==> pts[k] != p,
    decreases pts.len(),
{
    if pts[0] == p {
    } else {
        let sub = pts.drop_first();
        let w = choose|w: int| 0 <= w < pts.len() && pts[w] == p;
        assert(sub[w - 1] == p);
        assert(sub.contains(p));
        lemma_first_index_correct(sub, p);
        assert forall|k: int| 0 <= k < first_index(pts, p) implies pts[k] != p by {
            if k >= 1 {
                assert(pts[k] == sub[k - 1]);
            }
        }
    }
}

proof fn lemma_first_index_found(pts: Seq<Vector3d>, p: Vector3d, j: int)
    requires
        0 <= j < pts.len(),
        pts[j] == p,
        forall|k: int| 0 <= k < j ==> pts[k] != p,
    ensures
        first_index(pts, p) == j,
    decreases pts.len(),
{
    if j == 0 {
    } else {
        let sub = pts.drop_first();
        assert(pts[0] != p);
        assert(sub[j - 1] == p);
        assert forall|k: int| 0 <= k < j - 1 implies sub[k] != p by {
            assert(sub[k] == pts[k + 1]);
        }
        lemma_first_index_found(sub, p, j - 1);
    }
}

pub(crate) proof fn lemma_insert_pt(pts: Seq<Vector3d>, q: Vector3d)
    ensures
        insert_pt(pts, q).contains(q),
        forall|p: Vector3d| pts.contains(p) ==> insert_pt(pts, q).contains(p),
        forall|p: Vector3d|
            pts.contains(p) ==> first_index(insert_pt(pts, q), p) == first_index(pts, p),
        points_distinct(pts) ==> points_distinct(insert_pt(pts, q)),
        pts.len() <= insert_pt(pts, q).len() <= pts.len() + 1,
        forall|k: int| 0 <= k < pts.len() ==> insert_pt(pts, q)[k] == pts[k],
        forall|k: int|
            pts.len() <= k < insert_pt(pts, q).len() ==> insert_pt(pts, q)[k] == q,
{
    let res = insert_pt(pts, q);
    if pts.contains(q) {
    } else {
        assert(res[pts.len() as int] == q);
        assert(res.contains(q));
        assert forall|p: Vector3d| pts.contains(p) implies res.contains(p) by {
            let w = choose|w: int| 0 <= w < pts.len() && pts[w] == p;
            assert(res[w] == p);
        }
        assert forall|p: Vector3d| pts.contains(p) implies first_index(res, p) == first_index(
            pts,
            p,
        ) by {
            lemma_first_index_correct(pts, p);
            lemma_first_index_found(res, p, first_index(pts, p));
        }
        if points_distinct(pts) {
            assert forall|i: int, j: int| 0 <= i < j < res.len() implies res[i] != res[j] by {
                if j == pts.len() {
                    assert(res[i] == pts[i]);
                    assert(!pts.contains(q));
                }
            }
        }
    }
}

proof fn lemma_insert_tri(pts: Seq<Vector3d>, t: Triangle3d)
    ensures
        insert_tri(pts, t).contains(t.p0),
        insert_tri(pts, t).contains(t.p1),
        insert_tri(pts, t).contains(t.p2),
        forall|p: Vector3d| pts.contains(p) ==> insert_tri(pts, t).contains(p),
        forall|p: Vector3d|
            pts.contains(p) ==> first_index(insert_tri(pts, t), p) == first_index(pts, p),
        points_distinct(pts) ==> points_distinct(insert_tri(pts, t)),
        pts.len() <= insert_tri(pts, t).len() <= pts.len() + 3,
        forall|k: int| 0 <= k < pts.len() ==> insert_tri(pts, t)[k] == pts[k],
        forall|k: int|
            pts.len() <= k < insert_tri(pts, t).len() ==> (insert_tri(pts, t)[k] == t.p0
                || insert_tri(pts, t)[k] == t.p1 || insert_tri(pts, t)[k] == t.p2),
{
    let s1 = insert_pt(pts, t.p0);
    let s2 = insert_pt(s1, t.p1);
    let s3 = insert_pt(s2, t.p2);
    lemma_insert_pt(pts, t.p0);
    lemma_insert_pt(s1, t.p1);
    lemma_insert_pt(s2, t.p2);
}

proof fn lemma_dedup_points_props(s: Seq<Triangle3d>)
    ensures
        points_distinct(dedup_points(s)),
        dedup_points(s).len() <= 3 * s.len(),
        forall|i: int|
            0 <= i < s.len() ==> dedup_points(s).contains(s[i].p0) && dedup_points(s).contains(
                s[i].p1,
            ) && dedup_points(s).contains(s[i].p2),
    decreases s.len(),
{
    if s.len() == 0 {
    } else {
        let init = s.drop_last();
        let prev = dedup_points(init);
        lemma_dedup_points_props(init);
        lemma_insert_tri(prev, s.last());
        assert forall|i: int|
            0 <= i < s.len() implies dedup_points(s).contains(s[i].p0) && dedup_points(
            s,
        ).contains(s[i].p1) && dedup_points(s).contains(s[i].p2) by {
            if i < s.len() - 1 {
                assert(init[i] == s[i]);
            }
        }
    }
}

pub open spec fn point_from_soup(s: Seq<Triangle3d>, p: Vector3d) -> bool {
    exists|i: int| 0 <= i < s.len() && (p == s[i].p0 || p == s[i].p1 || p == s[i].p2)
}

proof fn lemma_dedup_points_source(s: Seq<Triangle3d>)
    ensures
        forall|k: int|
            0 <= k < dedup_points(s).len() ==> point_from_soup(s, #[trigger] dedup_points(s)[k]),
    decreases s.len(),
{
    if s.len() == 0 {
    } else {
        let init = s.drop_last();
        let prev = dedup_points(init);
        lemma_dedup_points_source(init);
        lemma_insert_tri(prev, s.last());
        assert forall|k: int|
            0 <= k < dedup_points(s).len() implies point_from_soup(
            s,
            #[trigger] dedup_points(s)[k],
        ) by {
            if k < prev.len() {
                assert(dedup_points(s)[k] == prev[k]);
                assert(point_from_soup(init, prev[k]));
                let i = choose|i: int|
                    0 <= i < init.len() && (prev[k] == init[i].p0 || prev[k] == init[i].p1
                        || prev[k] == init[i].p2);
                assert(init[i] == s[i]);
                assert(0 <= i < s.len() && (dedup_points(s)[k] == s[i].p0 || dedup_points(s)[k]
                    == s[i].p1 || dedup_points(s)[k] == s[i].p2));
            } else {
                let i = s.len() - 1;
                assert(0 <= i < s.len() && (dedup_points(s)[k] == s[i].p0 || dedup_points(s)[k]
                    == s[i].p1 || dedup_points(s)[k] == s[i].p2));
            }
        }
    }
}

/// Find the first occurrence of `p`, appending it if absent; the returned
/// index always names an entry equal to `p`.
pub(crate) fn find_or_insert(points: &mut Vec<Vector3d>, p: Vector3d) -> (idx: usize)
    ensures
        final(points)@ == insert_pt(old(points)@, p),
        idx == first_index(final(points)@, p),
        idx < final(points)@.len(),
        final(points)@[idx as int] == p,
        final(points)@.contains(p),
{
    let n = points.len();
    let mut j: usize = 0;
    while j < n
        invariant
            j <= n,
            n == points@.len(),
            points@ == old(points)@,
            forall|k: int| 0 <= k < j ==> points@[k] != p,
        decreases n - j,
    {
        if points[j] == p {
            proof {
                assert(points@.contains(p));
                lemma_first_index_found(points@, p, j as int);
            }
            return j;
        }
        j += 1;
    }
    proof {
        assert(!points@.contains(p));
    }
    points.push(p);
    proof {
        assert(points@[n as int] == p);
        assert(points@.contains(p));
        lemma_first_index_found(points@, p, n as int);
    }
    n
}

/// Collapse a triangle soup into a deduplicated mesh.
///
/// Two input points are the same vertex iff their coordinates are exactly
/// equal; triangle order and winding are preserved; degenerate triangles pass
/// through unfiltered. There are no error conditions.
pub fn deduplicate(soup: &Vec<Triangle3d>) -> (r: IndexedTriangleList)
    ensures
        r.points@ == dedup_points(soup@),
        r.triangles@ == dedup_tris(soup@),
        r.wf(),
        soup_in_bounds(soup@) ==> r.in_bounds(),
{
    let n = soup.len();
    let mut points: Vec<Vector3d> = Vec::new();
    let mut triangles: Vec<Triangle> = Vec::new();
    let mut i: usize = 0;
    proof {
        assert(soup@.take(0) =~= Seq::<Triangle3d>::empty());
    }
    while i < n
        invariant
            i <= n,
            n == soup@.len(),
            points@ == dedup_points(soup@.take(i as int)),
            triangles@.len() == i,
            forall|k: int| 0 <= k < i ==> triangles@[k] == dedup_triangle(points@, soup@[k]),
            forall|k: int|
                0 <= k < i ==> points@.contains(soup@[k].p0) && points@.contains(soup@[k].p1)
                    && points@.contains(soup@[k].p2),
        decreases n - i,
    {
        let t = soup[i];
        let ghost pts0 = points@;
        let ia = find_or_insert(&mut points, t.p0);
        let ghost pts1 = points@;
        let ib = find_or_insert(&mut points, t.p1);
        let ghost pts2 = points@;
        let ic = find_or_insert(&mut points, t.p2);
        let ghost pts3 = points@;
        triangles.push(Triangle { a: ia, b: ib, c: ic });
        proof {
            lemma_insert_pt(pts1, t.p1);
            lemma_insert_pt(pts2, t.p2);
            assert(pts3 == insert_tri(pts0, t));
            assert(soup@.take(i + 1).drop_last() =~= soup@.take(i as int));
            assert(soup@.take(i + 1).last() == soup@[i as int]);
            assert(pts3 == dedup_points(soup@.take(i + 1)));
            // the three returned indices are the first indices in the final buffer
            assert(first_index(pts3, t.p0) == first_index(pts1, t.p0));
            assert(first_index(pts3, t.p1) == first_index(pts2, t.p1));
            assert(triangles@[i as int] == dedup_triangle(pts3, soup@[i as int]));
            // older triangles keep their indices: their corners already sat in pts0
            lemma_insert_tri(pts0, t);
            assert forall|k: int| 0 <= k < i implies triangles@[k] == dedup_triangle(
                pts3,
                soup@[k],
            ) by {
                assert(triangles@[k] == dedup_triangle(pts0, soup@[k]));
                assert(first_index(pts3, soup@[k].p0) == first_index(pts0, soup@[k].p0));
                assert(first_index(pts3, soup@[k].p1) == first_index(pts0, soup@[k].p1));
                assert(first_index(pts3, soup@[k].p2) == first_index(pts0, soup@[k].p2));
            }
        }
        i += 1;
    }
    proof {
        assert(soup@.take(n as int) =~= soup@);
        lemma_dedup_points_props(soup@);
        assert(triangles@ =~= dedup_tris(soup@)) by {
            assert forall|k: int| 0 <= k < n implies triangles@[k] == dedup_tris(soup@)[k] by {
                assert(triangles@[k] == dedup_triangle(points@, soup@[k]));
            }
        }
        // indices are in range and name the source corners
        assert forall|k: int|
            0 <= k < triangles@.len() implies tri_in_range(
            triangles@[k],
            points@.len() as int,
        ) by {
            lemma_first_index_correct(points@, soup@[k].p0);
            lemma_first_index_correct(points@, soup@[k].p1);
            lemma_first_index_correct(points@, soup@[k].p2);
        }
        if soup_in_bounds(soup@) {
            lemma_dedup_points_source(soup@);
            assert forall|k: int| 0 <= k < points@.len() implies vec_ok(points@[k]) by {
                assert(point_from_soup(soup@, points@[k]));
                let wi = choose|wi: int|
                    0 <= wi < soup@.len() && (points@[k] == soup@[wi].p0 || points@[k]
                        == soup@[wi].p1 || points@[k] == soup@[wi].p2);
            }
        }
    }
    IndexedTriangleList { points, triangles }
}

/// Deduplication keeps the soup's geometry: reading the mesh back out gives
/// the input soup, corner for corner.
pub proof fn lemma_dedup_preserves_soup(s: Seq<Triangle3d>)
    requires
        3 * s.len() < usize::MAX,
    ensures
        expand(dedup_points(s), dedup_tris(s)) == s,
{
    let p = dedup_points(s);
    let t = dedup_tris(s);
    let e = expand(p, t);
    lemma_dedup_points_props(s);
    assert forall|i: int| 0 <= i < s.len() implies e[i] == s[i] by {
        lemma_first_index_correct(p, s[i].p0);
        lemma_first_index_correct(p, s[i].p1);
        lemma_first_index_correct(p, s[i].p2);
        assert(e[i].p0 == p[t[i].a as int]);
        assert(e[i].p1 == p[t[i].b as int]);
        assert(e[i].p2 == p[t[i].c as int]);
    }
    assert(e =~= s);
}

/// Deduplicating an already-deduplicated mesh yields an identical mesh:
/// point order and triangle indices are preserved.
pub proof fn lemma_dedup_idempotent(s: Seq<Triangle3d>)
    requires
        3 * s.len() < usize::MAX,
    ensures
        dedup_points(expand(dedup_points(s), dedup_tris(s))) == dedup_points(s),
        dedup_tris(expand(dedup_points(s), dedup_tris(s))) == dedup_tris(s),
{
    lemma_dedup_preserves_soup(s);
}

} // verus!
