use opencrosshair::geometry::{quad_indices, quad_vertices, QuadVertex};

#[test]
fn quad_corners_in_buffer_order() {
    assert_eq!(
        quad_vertices(),
        [
            QuadVertex { x: -1, y: 1, u: 0, v: 0 },
            QuadVertex { x: 1, y: 1, u: 1, v: 0 },
            QuadVertex { x: 1, y: -1, u: 1, v: 1 },
            QuadVertex { x: -1, y: -1, u: 0, v: 1 },
        ]
    );
}

#[test]
fn quad_triangles_wind_counter_clockwise() {
    let v = quad_vertices();
    let i = quad_indices();
    assert_eq!(i, [0, 3, 1, 1, 3, 2]);
    for t in 0..2 {
        let a = v[i[3 * t] as usize];
        let b = v[i[3 * t + 1] as usize];
        let c = v[i[3 * t + 2] as usize];
        let area2 = (b.x as i32 - a.x as i32) * (c.y as i32 - a.y as i32)
            - (b.y as i32 - a.y as i32) * (c.x as i32 - a.x as i32);
        assert_eq!(area2, 4);
    }
}
