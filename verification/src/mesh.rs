//! Which corners make which triangle: the index patterns by which
//! shapes are cut into the triangles that a frame draws.

use vstd::prelude::*;

verus! {

/// The triangle at position `k` of a fan over a convex outline: the
/// first corner with two neighbouring ones.
pub open spec fn fan_triangle(k: int) -> (usize, usize, usize) {
    (0usize, (k + 1) as usize, (k + 2) as usize)
}

/// The triangle at position `k` of the strip that outlines a shape. The
/// strip runs over `vertex_count` vertices and closes on itself.
pub open spec fn stroke_triangle(k: int, vertex_count: int) -> (u32, u32, u32) {
    (k as u32, ((k + 1) % vertex_count) as u32, ((k + 2) % vertex_count) as u32)
}

/// The two triangles of a quad with corners in order around it.
pub fn quad_triangles() -> (triangles: [(usize, usize, usize); 2])
    ensures
        triangles@ == seq![(0usize, 1usize, 2usize), (2usize, 3usize, 0usize)],
{
    [(0, 1, 2), (2, 3, 0)]
}

/// The triangles that fill a convex outline of `point_count` corners, as
/// a fan around the first corner: two fewer than there are corners, and
/// none for an outline of fewer than three.
pub fn fan_triangles(point_count: usize) -> (triangles: Vec<(usize, usize, usize)>)
    ensures
        triangles@.len() == if point_count >= 2 {
            point_count - 2
        } else {
            0
        },
        forall|k: int| 0 <= k < triangles@.len() ==> #[trigger] triangles@[k] == fan_triangle(k),
{
    let mut triangles: Vec<(usize, usize, usize)> = Vec::new();
    if point_count < 2 {
        return triangles;
    }
    let mut i: usize = 1;
    while i < point_count - 1
        invariant
            1 <= i <= point_count - 1,
            triangles@.len() == i - 1,
            forall|k: int| 0 <= k < triangles@.len() ==> #[trigger] triangles@[k] == fan_triangle(k),
        decreases point_count - i,
    {
        triangles.push((0, i, i + 1));
        i += 1;
    }
    triangles
}

/// The triangles that outline a shape of `point_count` corners. Every
/// corner becomes an inner and an outer vertex, in that order, and the
/// strip over these vertices has one triangle per vertex.
pub fn stroke_triangles(point_count: u32) -> (triangles: Vec<(u32, u32, u32)>)
    requires
        point_count <= u32::MAX / 2,
    ensures
        triangles@.len() == 2 * point_count,
        forall|k: int|
            0 <= k < triangles@.len() ==> #[trigger] triangles@[k] == stroke_triangle(
                k,
                2 * point_count,
            ),
{
    let vertex_count: u32 = point_count * 2;
    let mut triangles: Vec<(u32, u32, u32)> = Vec::new();
    let mut i: u32 = 0;
    while i < vertex_count
        invariant
            i <= vertex_count,
            vertex_count == 2 * point_count,
            vertex_count < u32::MAX,
            triangles@.len() == i,
            forall|k: int|
                0 <= k < triangles@.len() ==> #[trigger] triangles@[k] == stroke_triangle(
                    k,
                    vertex_count as int,
                ),
        decreases vertex_count - i,
    {
        triangles.push((i, (i + 1) % vertex_count, (i + 2) % vertex_count));
        i += 1;
    }
    triangles
}

} // verus!
