//! The quad that the crosshair texture is drawn on.
//!
//! The quad is centred on the surface; its corners lie at plus or minus the
//! scale on each axis of clip space (x to the right, y up). Here the corners
//! are given in units of the scale, and the texture coordinates in units of
//! the texture's size (u to the right, v down).
use vstd::prelude::*;

verus! {

/// A corner of the quad: its position in units of the scale, and the point
/// of the texture drawn there.
#[derive(Clone, Copy, Debug, PartialEq, Eq, Structural)]
pub struct QuadVertex {
    pub x: i8,
    pub y: i8,
    pub u: u8,
    pub v: u8,
}

/// The corners in the order of the vertex buffer: top left, top right,
/// bottom right, bottom left.
pub open spec fn spec_quad_vertices() -> Seq<QuadVertex> {
    seq![
        QuadVertex { x: -1i8, y: 1, u: 0, v: 0 },
        QuadVertex { x: 1, y: 1, u: 1, v: 0 },
        QuadVertex { x: 1, y: -1i8, u: 1, v: 1 },
        QuadVertex { x: -1i8, y: -1i8, u: 0, v: 1 },
    ]
}

/// The index buffer: two triangles, top-left/bottom-left/top-right and
/// top-right/bottom-left/bottom-right.
pub open spec fn spec_quad_indices() -> Seq<u16> {
    seq![0, 3, 1, 1, 3, 2]
}

/// The corners of the quad.
pub fn quad_vertices() -> (vertices: [QuadVertex; 4])
    ensures
        vertices@ == spec_quad_vertices(),
{
    let vertices = [
        QuadVertex { x: -1, y: 1, u: 0, v: 0 },
        QuadVertex { x: 1, y: 1, u: 1, v: 0 },
        QuadVertex { x: 1, y: -1, u: 1, v: 1 },
        QuadVertex { x: -1, y: -1, u: 0, v: 1 },
    ];
    assert(vertices@ =~= spec_quad_vertices());
    vertices
}

/// The indices of the two triangles of the quad.
pub fn quad_indices() -> (indices: [u16; 6])
    ensures
        indices@ == spec_quad_indices(),
{
    let indices: [u16; 6] = [0, 3, 1, 1, 3, 2];
    assert(indices@ =~= spec_quad_indices());
    indices
}

/// Twice the signed area of the triangle `a`, `b`, `c`: positive when the
/// corners turn counter-clockwise.
pub open spec fn doubled_signed_area(a: QuadVertex, b: QuadVertex, c: QuadVertex) -> int {
    (b.x - a.x) * (c.y - a.y) - (b.y - a.y) * (c.x - a.x)
}

/// Triangle `t` of the index buffer, as its three corners.
pub open spec fn triangle(t: int) -> (QuadVertex, QuadVertex, QuadVertex) {
    let v = spec_quad_vertices();
    let i = spec_quad_indices();
    (v[i[3 * t] as int], v[i[3 * t + 1] as int], v[i[3 * t + 2] as int])
}

/// The corners of the two triangles.
proof fn lemma_triangle_corners()
    ensures
        triangle(0) == (spec_quad_vertices()[0], spec_quad_vertices()[3], spec_quad_vertices()[1]),
        triangle(1) == (spec_quad_vertices()[1], spec_quad_vertices()[3], spec_quad_vertices()[2]),
        spec_quad_vertices()[0] == (QuadVertex { x: -1i8, y: 1, u: 0, v: 0 }),
        spec_quad_vertices()[1] == (QuadVertex { x: 1, y: 1, u: 1, v: 0 }),
        spec_quad_vertices()[2] == (QuadVertex { x: 1, y: -1i8, u: 1, v: 1 }),
        spec_quad_vertices()[3] == (QuadVertex { x: -1i8, y: -1i8, u: 0, v: 1 }),
{
    let i = spec_quad_indices();
    assert(i[0] == 0 && i[1] == 3 && i[2] == 1 && i[3] == 1 && i[4] == 3 && i[5] == 2);
}

/// Each triangle has twice the signed area 4.
proof fn lemma_triangle_areas()
    ensures
        doubled_signed_area(triangle(0).0, triangle(0).1, triangle(0).2) == 4,
        doubled_signed_area(triangle(1).0, triangle(1).1, triangle(1).2) == 4,
{
    lemma_triangle_corners();
    let (a, b, c) = triangle(0);
    assert(b.x - a.x == 0 && c.y - a.y == 0 && b.y - a.y == -2 && c.x - a.x == 2);
    assert(doubled_signed_area(a, b, c) == 0 * 0 - (-2) * 2);
    let (d, e, f) = triangle(1);
    assert(e.x - d.x == -2 && f.y - d.y == -2 && e.y - d.y == -2 && f.x - d.x == 0);
    assert(doubled_signed_area(d, e, f) == (-2) * (-2) - (-2) * 0);
}

/* Laws of the quad */

/// Every index names a corner.
pub proof fn lemma_indices_name_corners()
    ensures
        forall|k: int|
            0 <= k < spec_quad_indices().len() ==> #[trigger] spec_quad_indices()[k]
                < spec_quad_vertices().len(),
{
}

/// Both triangles turn counter-clockwise, so with counter-clockwise faces in
/// front and back faces culled, neither is dropped.
pub proof fn lemma_triangles_face_the_viewer()
    ensures
        forall|t: int|
            0 <= t < 2 ==> doubled_signed_area(
                #[trigger] triangle(t).0,
                triangle(t).1,
                triangle(t).2,
            ) > 0,
{
    lemma_triangle_areas();
}

/// The two triangles together have the area of the whole quad (a square of
/// side 2), and they split it along the diagonal from the bottom left to the
/// top right corner, which both hold.
pub proof fn lemma_triangles_cover_the_quad()
    ensures
        doubled_signed_area(triangle(0).0, triangle(0).1, triangle(0).2) + doubled_signed_area(
            triangle(1).0,
            triangle(1).1,
            triangle(1).2,
        ) == 2 * (2 * 2),
        triangle(0).1 == triangle(1).1,
        triangle(0).2 == triangle(1).0,
{
    lemma_triangle_corners();
    lemma_triangle_areas();
}

/// The texture is drawn upright and unmirrored: the left edge of the quad
/// shows the left edge of the image and its top edge the image's top row.
pub proof fn lemma_texture_is_upright()
    ensures
        forall|k: int|
            0 <= k < 4 ==> 2 * (#[trigger] spec_quad_vertices()[k]).u == spec_quad_vertices()[k].x
                + 1 && 2 * spec_quad_vertices()[k].v == 1 - spec_quad_vertices()[k].y,
{
    lemma_triangle_corners();
}

} // verus!
