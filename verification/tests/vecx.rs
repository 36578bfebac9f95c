use ngc_geometry::{CanonPlane, Point, Point3, Vec2, Vec3, Vec5};

#[test]
fn vec3_construction_and_parts() {
    let v = Vec3::new(1, -2, 3);
    assert_eq!(v, Vec3(1, -2, 3));
    assert_eq!(v.plane(), Vec2(1, -2));
    assert_eq!(v.linear(), 3);
    assert_eq!(Vec3::new_from_plane(Vec2::new(7, 8), 9), Vec3(7, 8, 9));
    assert_eq!(Vec3::<i32>::zero(), Vec3(0, 0, 0));
    assert_eq!(Point3::default(), Vec3(0, 0, 0));
}

#[test]
fn vec3_products() {
    let a = Vec3::new(1, -2, 3);
    let b = Vec3::new(4, 5, -6);
    assert_eq!(a.dot(b), 4 - 10 - 18);
    assert_eq!(a.distance_sqr(), 1 + 4 + 9);
    assert_eq!(Vec3::new(0, 0, 0).distance_sqr(), 0);
}

#[test]
fn vec3_abs_and_max() {
    let a = Vec3::new(-6, 3, 0);
    assert_eq!(a.abs(), Vec3(6, 3, 0));
    assert_eq!(a.abs().max_element(), 6);
    assert_eq!(a.max_element(), 3);
    assert_eq!(Vec3::new(-i32::MAX, i32::MAX, -1).abs(), Vec3(i32::MAX, i32::MAX, 1));
}

#[test]
fn vec3_max_element_index_breaks_ties_toward_the_later_axis() {
    assert_eq!(Vec3::new(5, 1, 2).max_element_index(), Vec3(1, 0, 0));
    assert_eq!(Vec3::new(1, 5, 2).max_element_index(), Vec3(0, 1, 0));
    assert_eq!(Vec3::new(1, 2, 5).max_element_index(), Vec3(0, 0, 1));
    assert_eq!(Vec3::new(5, 5, 2).max_element_index(), Vec3(0, 1, 0));
    assert_eq!(Vec3::new(5, 2, 5).max_element_index(), Vec3(0, 0, 1));
    assert_eq!(Vec3::new(2, 5, 5).max_element_index(), Vec3(0, 0, 1));
    assert_eq!(Vec3::new(4, 4, 4).max_element_index(), Vec3(0, 0, 1));
    assert_eq!(Vec3::new(-1, -2, -3).max_element_index(), Vec3(1, 0, 0));
}

#[test]
fn vec3_operators() {
    let a = Vec3::new(6, 4, 0);
    let b = Vec3::new(0, 1, -5);
    assert_eq!(b - a, Vec3(-6, -3, -5));
    assert_eq!(a + b, Vec3(6, 5, -5));
    assert_eq!(-b, Vec3(0, -1, 5));
    assert_eq!(&a * 3, Vec3(18, 12, 0));
    assert_eq!(&Vec3::new(7, -7, 1) / 2, Vec3(3, -3, 0));
    assert_eq!(&Vec3::new(7, -7, 1) / -2, Vec3(-3, 3, 0));
}

#[test]
fn vec2_products_and_operators() {
    let a: Point = Vec2::new(3, 4);
    let b = Vec2::new(-2, 5);
    assert_eq!(a.dot(b), -6 + 20);
    assert_eq!(a.wedge(b), 15 + 8);
    assert_eq!(b.wedge(a), -23);
    assert_eq!(a.wedge(a), 0);
    assert_eq!(a.distance_sqr(), 25);
    assert_eq!(a - b, Vec2(5, -1));
    assert_eq!(a + b, Vec2(1, 9));
    assert_eq!(-a, Vec2(-3, -4));
}

#[test]
fn vec5_holds_its_components() {
    let v = Vec5::new(1u8, 2, 3, 4, 5);
    assert_eq!((v.0, v.1, v.2, v.3, v.4), (1, 2, 3, 4, 5));
}

const PLANES: [CanonPlane; 3] =
    [CanonPlane::CanonPlaneXY, CanonPlane::CanonPlaneYZ, CanonPlane::CanonPlaneXZ];

#[test]
fn to_plane_permutes_the_components() {
    let v = Vec3::new('a', 'b', 'c');
    let xy = CanonPlane::CanonPlaneXY;
    let yz = CanonPlane::CanonPlaneYZ;
    let xz = CanonPlane::CanonPlaneXZ;
    assert_eq!(xy.to_plane(&v, &xy), Vec3('a', 'b', 'c'));
    assert_eq!(xy.to_plane(&v, &yz), Vec3('b', 'c', 'a'));
    assert_eq!(xy.to_plane(&v, &xz), Vec3('c', 'a', 'b'));
    assert_eq!(yz.to_plane(&v, &xy), Vec3('c', 'a', 'b'));
    assert_eq!(yz.to_plane(&v, &yz), Vec3('a', 'b', 'c'));
    assert_eq!(yz.to_plane(&v, &xz), Vec3('b', 'c', 'a'));
    assert_eq!(xz.to_plane(&v, &xy), Vec3('b', 'c', 'a'));
    assert_eq!(xz.to_plane(&v, &yz), Vec3('c', 'a', 'b'));
    assert_eq!(xz.to_plane(&v, &xz), Vec3('a', 'b', 'c'));
}

#[test]
fn to_plane_and_back_is_the_identity() {
    let v = Vec3::new(11, 22, 33);
    for p in PLANES.iter() {
        for q in PLANES.iter() {
            assert_eq!(q.to_plane(&p.to_plane(&v, q), p), v);
        }
    }
}

#[test]
fn to_plane_composes() {
    let v = Vec3::new(11, 22, 33);
    for p in PLANES.iter() {
        for q in PLANES.iter() {
            for r in PLANES.iter() {
                assert_eq!(q.to_plane(&p.to_plane(&v, q), r), p.to_plane(&v, r));
            }
        }
    }
}

#[test]
fn map_machine_axes_scales_each_machine_axis() {
    let x = |v: i32| v * 10;
    let y = |v: i32| v * 100;
    let z = |v: i32| v * 1000;
    let xy = CanonPlane::CanonPlaneXY;
    let yz = CanonPlane::CanonPlaneYZ;
    let xz = CanonPlane::CanonPlaneXZ;
    assert_eq!(xy.map_machine_axes(&Vec3::new(1, 2, 3), x, y, z), Vec3(10, 200, 3000));
    // In the YZ frame the components are (Y, Z, X).
    assert_eq!(yz.map_machine_axes(&Vec3::new(1, 2, 3), x, y, z), Vec3(100, 2000, 30));
    // In the XZ frame the components are (Z, X, Y).
    assert_eq!(xz.map_machine_axes(&Vec3::new(1, 2, 3), x, y, z), Vec3(1000, 20, 300));
}

#[test]
fn map_machine_axes_may_change_the_component_type() {
    let yz = CanonPlane::CanonPlaneYZ;
    let got = yz.map_machine_axes(&Vec3::new(1.26, -2.5, 0.04), |x: f64| (x * 10.).round() as i32, |y: f64| (y * 20.).round() as i32, |z: f64| (z * 30.).round() as i32);
    // (Y, Z, X) = (1.26, -2.5, 0.04): Y * 20 = 25.2, Z * 30 = -75, X * 10 = 0.4.
    assert_eq!(got, Vec3(25, -75, 0));
}
