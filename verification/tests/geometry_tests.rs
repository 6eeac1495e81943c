use embedded_workshop::geometry::{create_cube, create_cylinder, create_pyramid, create_sphere, create_torus, shape_topology, ShapeTopology};
use embedded_workshop::shape::Shape;

fn assert_well_formed(t: &ShapeTopology) {
    assert_eq!(t.indices.len() % 3, 0);
    assert_eq!(t.edge_indices.len() % 2, 0);
    assert!(t.indices.iter().all(|&i| (i as usize) < t.vertex_count));
    assert!(t.edge_indices.iter().all(|&i| (i as usize) < t.vertex_count));
}

#[test]
fn cube_has_twelve_triangles_and_twelve_edges() {
    let t = create_cube();
    assert_eq!(t.vertex_count, 24);
    assert_eq!(t.indices.len(), 36);
    assert_eq!(t.edge_indices.len(), 24);
    assert_eq!(&t.indices[0..6], &[0, 1, 2, 2, 3, 0]);
    assert_eq!(&t.edge_indices[16..24], &[0, 4, 1, 5, 2, 6, 3, 7]);
    assert_well_formed(&t);
}

#[test]
fn pyramid_has_six_triangles_and_eight_edges() {
    let t = create_pyramid();
    assert_eq!(t.vertex_count, 9);
    assert_eq!(t.indices.len(), 18);
    assert_eq!(t.edge_indices.len(), 16);
    assert_eq!(&t.indices[6..9], &[5, 6, 4]);
    assert_well_formed(&t);
}

#[test]
fn torus_grid_indices() {
    let t = create_torus(16, 8);
    assert_eq!(t.vertex_count, 17 * 9);
    assert_eq!(t.indices.len(), 6 * 16 * 8);
    assert_eq!(&t.indices[0..6], &[0, 9, 1, 1, 9, 10]);
    // second cell of the second ring: current = 1 * 9 + 1 = 10
    assert_eq!(&t.indices[6 * 9..6 * 10], &[10, 19, 11, 11, 19, 20]);
    // last ring wraps to the first
    let last = 6 * 16 * 8 - 6;
    assert_eq!(t.indices[last], 15 * 9 + 7);
    let e = &t.edge_indices;
    let cell = (15 * 8 + 7) * 4;
    assert_eq!(&e[cell..cell + 4], &[15 * 9 + 7, 7, 15 * 9 + 7, 15 * 9 + 8]);
    assert_well_formed(&t);
}

#[test]
fn sphere_edges_go_to_next_ring() {
    let t = create_sphere(4, 3);
    assert_eq!(t.vertex_count, 4 * 5);
    assert_eq!(t.indices.len(), 6 * 3 * 4);
    assert_eq!(&t.edge_indices[0..4], &[0, 5, 0, 1]);
    assert_well_formed(&t);
}

#[test]
fn cylinder_sides_caps_and_edges() {
    let t = create_cylinder(16);
    assert_eq!(t.vertex_count, 36);
    assert_eq!(t.indices.len(), 12 * 16);
    assert_eq!(&t.indices[0..6], &[0, 1, 2, 1, 3, 2]);
    assert_eq!(&t.indices[96..102], &[34, 0, 2, 35, 3, 1]);
    assert_eq!(t.edge_indices.len(), 160);
    // last segment wraps its rim edges to the first segment
    assert_eq!(&t.edge_indices[150..160], &[30, 0, 31, 1, 30, 31, 34, 30, 35, 31]);
    assert_well_formed(&t);
}

#[test]
fn cylinder_centre_wraps_at_sixteen_bit_limit() {
    let t = create_cylinder(32767);
    assert_eq!(t.vertex_count, 65538);
    assert_eq!(t.indices[6 * 32767], 0);
    assert_eq!(t.indices[6 * 32767 + 3], 1);
}

#[test]
fn shape_topology_dispatch() {
    assert_eq!(shape_topology(Shape::Cube).vertex_count, 24);
    assert_eq!(shape_topology(Shape::Pyramid).vertex_count, 9);
    assert_eq!(shape_topology(Shape::Torus).vertex_count, 153);
    assert_eq!(shape_topology(Shape::Cylinder).vertex_count, 36);
    for s in [Shape::Cube, Shape::Pyramid, Shape::Torus, Shape::Cylinder] {
        assert_well_formed(&shape_topology(s));
    }
}

#[test]
fn shape_topology_draws_the_right_solids() {
    let torus = create_torus(16, 8);
    let t = shape_topology(Shape::Torus);
    assert_eq!(t.indices, torus.indices);
    assert_eq!(t.edge_indices, torus.edge_indices);
    // the torus wireframe wraps from the last ring to the first, unlike a sphere's
    assert_ne!(t.edge_indices, create_sphere(8, 16).edge_indices);
    let cylinder = create_cylinder(16);
    let c = shape_topology(Shape::Cylinder);
    assert_eq!(c.indices, cylinder.indices);
    assert_eq!(c.edge_indices, cylinder.edge_indices);
    assert_eq!(shape_topology(Shape::Cube).indices, create_cube().indices);
}
