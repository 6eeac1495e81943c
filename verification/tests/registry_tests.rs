use embedded_workshop::addr_table::ClientAddr;
use embedded_workshop::endpoint_registry::EndpointRegistry;
use embedded_workshop::protocol::{encode_sample, AxisBits};
use embedded_workshop::registry::{ClientEntry, ClientRegistry, FrameOutcome, TEST_CLIENTS};
use embedded_workshop::shape::{random_shape, shape_from_draw, test_client_shape, Shape};

fn v4(a: u8, b: u8, c: u8, d: u8) -> ClientAddr {
    ClientAddr::V4(u32::from_be_bytes([a, b, c, d]))
}

fn rot(x: f32, y: f32, z: f32) -> AxisBits {
    AxisBits { x: x.to_bits(), y: y.to_bits(), z: z.to_bits() }
}

#[test]
fn draws_map_to_shapes() {
    assert_eq!(shape_from_draw(0), Shape::Cube);
    assert_eq!(shape_from_draw(1), Shape::Pyramid);
    assert_eq!(shape_from_draw(2), Shape::Torus);
    assert_eq!(shape_from_draw(3), Shape::Cylinder);
    assert_eq!(shape_from_draw(-7), Shape::Cylinder);
}

#[test]
fn random_shapes_cover_all_four() {
    let mut seen = [false; 4];
    for _ in 0..400 {
        let i = match random_shape() {
            Shape::Cube => 0,
            Shape::Pyramid => 1,
            Shape::Torus => 2,
            Shape::Cylinder => 3,
        };
        seen[i] = true;
    }
    assert_eq!(seen, [true; 4]);
}

#[test]
fn reconnect_keeps_shape_and_rotation() {
    let mut r = ClientRegistry::new();
    let a = v4(192, 168, 0, 7);
    assert_eq!(r.register(a, Shape::Torus), Shape::Torus);
    assert_eq!(r.lookup(a), Some(ClientEntry { shape: Shape::Torus, rotation: AxisBits::zero() }));
    assert_eq!(r.apply_frame(a, &encode_sample(rot(0.5, 1.0, 1.5))), FrameOutcome::Applied);
    assert_eq!(r.register(a, Shape::Cube), Shape::Torus);
    assert_eq!(r.lookup(a), Some(ClientEntry { shape: Shape::Torus, rotation: rot(0.5, 1.0, 1.5) }));
    let s = r.connect(a);
    assert_eq!(s, Shape::Torus);
}

#[test]
fn frames_update_only_known_clients_with_finite_values() {
    let mut r = ClientRegistry::new();
    let a = v4(10, 0, 0, 2);
    let b = v4(10, 0, 0, 3);
    r.register(a, Shape::Cube);
    assert_eq!(r.apply_frame(b, &encode_sample(rot(1.0, 2.0, 3.0))), FrameOutcome::UnknownClient);
    assert_eq!(r.lookup(b), None);
    assert_eq!(r.apply_frame(a, &encode_sample(rot(f32::NAN, 2.0, 3.0))), FrameOutcome::NotFinite);
    assert_eq!(r.lookup(a).unwrap().rotation, AxisBits::zero());
    assert!(r.set_rotation(a, rot(4.0, 5.0, 6.0)));
    assert!(!r.set_rotation(b, rot(4.0, 5.0, 6.0)));
    assert_eq!(r.lookup(a).unwrap().rotation, rot(4.0, 5.0, 6.0));
}

#[test]
fn listing_is_in_address_order() {
    let mut r = ClientRegistry::new();
    let addrs = [v4(192, 168, 0, 10), ClientAddr::V6(1), v4(10, 0, 0, 1), v4(192, 168, 0, 2), ClientAddr::V6(0)];
    for (i, a) in addrs.iter().enumerate() {
        r.register(*a, shape_from_draw(i as i32));
    }
    let listed: Vec<ClientAddr> = r.sorted_entries().iter().map(|(a, _)| *a).collect();
    assert_eq!(listed, vec![v4(10, 0, 0, 1), v4(192, 168, 0, 2), v4(192, 168, 0, 10), ClientAddr::V6(0), ClientAddr::V6(1)]);
    assert_eq!(r.sorted_entries()[0].1.shape, Shape::Torus);
    assert_eq!(r.sorted_addrs(), listed);
}

#[test]
fn listing_does_not_depend_on_connection_order() {
    let mut r1 = ClientRegistry::new();
    let mut r2 = ClientRegistry::new();
    let addrs = [v4(1, 2, 3, 4), v4(4, 3, 2, 1), ClientAddr::V6(99), v4(0, 0, 0, 1)];
    for a in addrs.iter() {
        r1.register(*a, Shape::Cube);
    }
    for a in addrs.iter().rev() {
        r2.register(*a, Shape::Cube);
    }
    assert_eq!(r1.sorted_entries(), r2.sorted_entries());
}

#[test]
fn test_mode_clients() {
    let mut r = ClientRegistry::new();
    r.add_test_clients();
    let entries = r.sorted_entries();
    assert_eq!(entries.len(), TEST_CLIENTS);
    for (i, (a, e)) in entries.iter().enumerate() {
        assert_eq!(*a, v4(192, 168, 0, (i + 1) as u8));
        assert_eq!(e.shape, test_client_shape(i));
        assert_eq!(e.rotation, AxisBits::zero());
    }
    assert_eq!(entries[4].1.shape, Shape::Cube);
    assert_eq!(entries[9].1.shape, Shape::Pyramid);
}

#[test]
fn yaw_turns_every_shape() {
    let mut r = ClientRegistry::new();
    r.add_test_clients();
    r.set_rotation(v4(192, 168, 0, 3), rot(1.0, 2.0, 3.0));
    r.set_all_yaw(0.02f32.to_bits());
    for (a, e) in r.sorted_entries() {
        assert_eq!(e.rotation.y, 0.02f32.to_bits());
        if a == v4(192, 168, 0, 3) {
            assert_eq!(e.rotation.x, 1.0f32.to_bits());
            assert_eq!(e.rotation.z, 3.0f32.to_bits());
        }
    }
}

#[test]
fn endpoint_moves_to_new_port() {
    let mut r = EndpointRegistry::new();
    let a = v4(10, 10, 0, 5);
    assert_eq!(r.connect_with_shape(a, 40000, Shape::Pyramid), Shape::Pyramid);
    assert!(r.apply_frame(a, 40000, &encode_sample(rot(1.0, 1.0, 1.0))));
    assert_eq!(r.connect_with_shape(a, 40001, Shape::Cube), Shape::Pyramid);
    // the old connection is stale now
    assert!(!r.apply_frame(a, 40000, &encode_sample(rot(2.0, 2.0, 2.0))));
    let e = r.entries();
    assert_eq!(e.len(), 1);
    assert_eq!(e[0], (a, 40001, ClientEntry { shape: Shape::Pyramid, rotation: rot(1.0, 1.0, 1.0) }));
    // frames are not checked for finiteness here
    assert!(r.apply_frame(a, 40001, &encode_sample(rot(f32::INFINITY, 0.0, 0.0))));
    assert_eq!(r.entries()[0].2.rotation.x, f32::INFINITY.to_bits());
    let s = r.connect(v4(10, 10, 0, 6), 1234);
    assert_eq!(r.entries().len(), 2);
    assert_eq!(r.entries()[1].2.shape, s);
}

#[test]
fn endpoint_entries_are_in_address_order() {
    let mut r = EndpointRegistry::new();
    r.connect_with_shape(v4(10, 0, 0, 9), 1, Shape::Cube);
    r.connect_with_shape(v4(10, 0, 0, 2), 2, Shape::Torus);
    r.connect_with_shape(v4(10, 0, 0, 5), 3, Shape::Cylinder);
    r.connect_with_shape(v4(10, 0, 0, 2), 4, Shape::Cube);
    let addrs: Vec<(ClientAddr, u16)> = r.entries().iter().map(|e| (e.0, e.1)).collect();
    assert_eq!(addrs, vec![(v4(10, 0, 0, 2), 4), (v4(10, 0, 0, 5), 3), (v4(10, 0, 0, 9), 1)]);
}
