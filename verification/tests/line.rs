use ngc_geometry::{Line2D, Line3D, Octant, Point, Point3};

#[test]
fn test_line2d_example() {
    let bi = Line2D::new(Point::new(0, 1), Point::new(6, 4));
    assert_eq!(bi.len(), 6);

    let res: Vec<_> = bi.collect();

    assert_eq!(
        res,
        [
            Point::new(0, 1),
            Point::new(1, 1),
            Point::new(2, 2),
            Point::new(3, 2),
            Point::new(4, 3),
            Point::new(5, 3),
        ]
    )
}

#[test]
fn test_line3d_example() {
    let bi = Line3D::new(Point3::new(0, 0, 0), Point3::new(6, 6, 6));
    assert_eq!(bi.len(), 6);

    let res: Vec<_> = bi.collect();
    assert_eq!(
        res,
        [
            Point3::new(1, 1, 1),
            Point3::new(2, 2, 2),
            Point3::new(3, 3, 3),
            Point3::new(4, 4, 4),
            Point3::new(5, 5, 5),
            Point3::new(6, 6, 6),
        ]
    );

    let bi = Line3D::new(Point3::new(0, 0, 0), Point3::new(0, 0, 6));
    assert_eq!(bi.len(), 6);

    let res: Vec<_> = bi.collect();
    assert_eq!(
        res,
        [
            Point3::new(0, 0, 1),
            Point3::new(0, 0, 2),
            Point3::new(0, 0, 3),
            Point3::new(0, 0, 4),
            Point3::new(0, 0, 5),
            Point3::new(0, 0, 6),
        ]
    );

    let bi = Line3D::new(Point3::new(6, 4, 0), Point3::new(0, 1, 0));
    let res: Vec<_> = bi.collect();

    assert_eq!(
        res,
        [
            Point3::new(5, 4, 0),
            Point3::new(4, 3, 0),
            Point3::new(3, 3, 0),
            Point3::new(2, 2, 0),
            Point3::new(1, 2, 0),
            Point3::new(0, 1, 0),
        ]
    )
}

#[test]
fn line3d_diagonal() {
    let res = Line3D::new(Point3::new(0, 0, 0), Point3::new(6, 6, 6)).collect();
    let expected: Vec<Point3> = (1..=6).map(|i| Point3::new(i, i, i)).collect();
    assert_eq!(res, expected);
}

#[test]
fn line3d_z_only() {
    let res = Line3D::new(Point3::new(0, 0, 0), Point3::new(0, 0, 6)).collect();
    let expected: Vec<Point3> = (1..=6).map(|i| Point3::new(0, 0, i)).collect();
    assert_eq!(res, expected);
}

#[test]
fn line3d_reverse_diagonal() {
    let res = Line3D::new(Point3::new(6, 4, 0), Point3::new(0, 1, 0)).collect();
    assert_eq!(
        res,
        vec![
            Point3::new(5, 4, 0),
            Point3::new(4, 3, 0),
            Point3::new(3, 3, 0),
            Point3::new(2, 2, 0),
            Point3::new(1, 2, 0),
            Point3::new(0, 1, 0),
        ]
    );
}

#[test]
fn line3d_empty_when_start_is_end() {
    let mut line = Line3D::new(Point3::new(3, -2, 7), Point3::new(3, -2, 7));
    assert_eq!(line.len(), 0);
    assert_eq!(line.next(), None);
    assert_eq!(line.collect(), Vec::<Point3>::new());
}

#[test]
fn line3d_next_stops_after_the_end_point() {
    let mut line = Line3D::new(Point3::new(0, 0, 0), Point3::new(2, -1, 0));
    assert_eq!(line.len(), 2);
    assert_eq!(line.next(), Some(Point3::new(1, 0, 0)));
    assert_eq!(line.len(), 2);
    assert_eq!(line.next(), Some(Point3::new(2, -1, 0)));
    assert_eq!(line.next(), None);
    assert_eq!(line.next(), None);
}

#[test]
fn line3d_collect_after_some_steps_gives_the_rest() {
    let mut line = Line3D::new(Point3::new(0, 0, 0), Point3::new(4, 2, -4));
    assert_eq!(line.next(), Some(Point3::new(1, 0, -1)));
    assert_eq!(
        line.collect(),
        vec![Point3::new(2, 1, -2), Point3::new(3, 1, -3), Point3::new(4, 2, -4)]
    );
}

fn check_line3d(start: Point3, end: Point3) {
    let dx = (end.0 as i64 - start.0 as i64).abs();
    let dy = (end.1 as i64 - start.1 as i64).abs();
    let dz = (end.2 as i64 - start.2 as i64).abs();
    let dm = dx.max(dy).max(dz);
    let line = Line3D::new(start, end);
    assert_eq!(line.len() as i64, dm);
    let pts = line.collect();
    assert_eq!(pts.len() as i64, dm);
    if dm > 0 {
        assert_eq!(*pts.last().unwrap(), end);
    }
    assert!(!pts.contains(&start));
    let mut prev = start;
    for (j, p) in pts.iter().enumerate() {
        let k = j as i64 + 1;
        let steps = [
            (p.0 as i64 - prev.0 as i64, dx, start.0 < end.0),
            (p.1 as i64 - prev.1 as i64, dy, start.1 < end.1),
            (p.2 as i64 - prev.2 as i64, dz, start.2 < end.2),
        ];
        for (delta, d, up) in steps {
            let sign = if up { 1 } else { -1 };
            assert!(delta == 0 || delta == sign);
            if d == dm {
                assert_eq!(delta, sign);
            }
        }
        let travelled = [
            ((p.0 as i64 - start.0 as i64).abs(), dx),
            ((p.1 as i64 - start.1 as i64).abs(), dy),
            ((p.2 as i64 - start.2 as i64).abs(), dz),
        ];
        for (n, d) in travelled {
            assert!(2 * (n * dm - k * d).abs() <= dm);
        }
        prev = *p;
    }
}

#[test]
fn line3d_sequence_properties() {
    let ends = [-7, -3, -1, 0, 1, 2, 5, 8];
    for &x in ends.iter() {
        for &y in ends.iter() {
            for &z in ends.iter() {
                check_line3d(Point3::new(1, -2, 3), Point3::new(x, y, z));
            }
        }
    }
}

#[test]
fn line3d_at_the_edge_of_the_machine_range() {
    let start = Point3::new(i32::MIN, i32::MAX, 0);
    let end = Point3::new(i32::MIN + 3, i32::MAX - 2, -1);
    assert_eq!(
        Line3D::new(start, end).collect(),
        vec![
            Point3::new(i32::MIN + 1, i32::MAX - 1, 0),
            Point3::new(i32::MIN + 2, i32::MAX - 1, -1),
            Point3::new(i32::MIN + 3, i32::MAX - 2, -1),
        ]
    );
}

#[test]
fn line2d_len_counts_what_is_left() {
    let mut line = Line2D::new(Point::new(0, 0), Point::new(3, 1));
    assert_eq!(line.len(), 3);
    assert_eq!(line.next(), Some(Point::new(0, 0)));
    assert_eq!(line.len(), 2);
    assert_eq!(line.next(), Some(Point::new(1, 0)));
    assert_eq!(line.next(), Some(Point::new(2, 0)));
    assert_eq!(line.len(), 0);
    assert_eq!(line.next(), None);
    assert_eq!(line.next(), None);
}

#[test]
fn line2d_empty_when_start_is_end() {
    let line = Line2D::new(Point::new(4, 4), Point::new(4, 4));
    assert_eq!(line.len(), 0);
    assert_eq!(line.collect(), Vec::<Point>::new());
}

#[test]
fn line2d_every_octant() {
    let cases = [
        (Point::new(4, 2), vec![(0, 0), (1, 0), (2, 1), (3, 1)]),
        (Point::new(2, 4), vec![(0, 0), (0, 1), (1, 2), (1, 3)]),
        (Point::new(-2, 4), vec![(0, 0), (0, 1), (-1, 2), (-1, 3)]),
        (Point::new(-4, 2), vec![(0, 0), (-1, 0), (-2, 1), (-3, 1)]),
        (Point::new(-4, -2), vec![(0, 0), (-1, 0), (-2, -1), (-3, -1)]),
        (Point::new(-2, -4), vec![(0, 0), (0, -1), (-1, -2), (-1, -3)]),
        (Point::new(2, -4), vec![(0, 0), (0, -1), (1, -2), (1, -3)]),
        (Point::new(4, -2), vec![(0, 0), (1, 0), (2, -1), (3, -1)]),
    ];
    for (end, expected) in cases {
        let got = Line2D::new(Point::new(0, 0), end).collect();
        let want: Vec<Point> = expected.iter().map(|&(x, y)| Point::new(x, y)).collect();
        assert_eq!(got, want);
    }
}

#[test]
fn line2d_reverse_of_the_example() {
    let got = Line2D::new(Point::new(6, 4), Point::new(0, 1)).collect();
    assert_eq!(
        got,
        vec![
            Point::new(6, 4),
            Point::new(5, 4),
            Point::new(4, 3),
            Point::new(3, 3),
            Point::new(2, 2),
            Point::new(1, 2),
        ]
    );
}

#[test]
fn octant_numbers() {
    let o = Point::new(0, 0);
    let dirs = [
        ((3, 0), 0),
        ((3, 3), 0),
        ((1, 3), 1),
        ((0, 3), 1),
        ((-1, 3), 2),
        ((-3, 3), 2),
        ((-3, 1), 3),
        ((-3, 0), 3),
        ((-3, -1), 4),
        ((-3, -3), 4),
        ((-1, -3), 5),
        ((0, -3), 5),
        ((1, -3), 6),
        ((3, -3), 6),
        ((3, -1), 7),
        ((0, 0), 0),
    ];
    let probe = Point::new(5, 2);
    let images = [(5, 2), (2, 5), (2, -5), (-5, 2), (-5, -2), (-2, -5), (-2, 5), (5, -2)];
    for ((dx, dy), index) in dirs {
        let oct = Octant::from_points(o, Point::new(dx, dy));
        let (ix, iy) = images[index];
        assert_eq!(oct.to_octant0(probe), Point::new(ix, iy));
        assert_eq!(oct.from_octant0(oct.to_octant0(probe)), probe);
        assert_eq!(oct.to_octant0(oct.from_octant0(probe)), probe);
        let d0 = oct.to_octant0(Point::new(dx, dy));
        assert!(0 <= d0.1 && d0.1 <= d0.0);
    }
}

#[test]
fn line2d_at_the_edge_of_the_machine_range() {
    let start = Point::new(i32::MIN, i32::MIN);
    let end = Point::new(i32::MIN + 4, i32::MIN + 2);
    assert_eq!(
        Line2D::new(start, end).collect(),
        vec![
            Point::new(i32::MIN, i32::MIN),
            Point::new(i32::MIN + 1, i32::MIN),
            Point::new(i32::MIN + 2, i32::MIN + 1),
            Point::new(i32::MIN + 3, i32::MIN + 1),
        ]
    );
    let start = Point::new(i32::MAX, -i32::MAX);
    let end = Point::new(i32::MAX - 1, -i32::MAX + 3);
    assert_eq!(
        Line2D::new(start, end).collect(),
        vec![
            Point::new(i32::MAX, -i32::MAX),
            Point::new(i32::MAX, -i32::MAX + 1),
            Point::new(i32::MAX, -i32::MAX + 2),
        ]
    );
}

fn check_line2d(start: Point, end: Point) {
    let dx = (end.0 as i64 - start.0 as i64).abs();
    let dy = (end.1 as i64 - start.1 as i64).abs();
    let len = dx.max(dy);
    let line = Line2D::new(start, end);
    assert_eq!(line.len() as i64, len);
    let pts = line.collect();
    assert_eq!(pts.len() as i64, len);
    if len > 0 {
        assert_eq!(pts[0], start);
    }
    assert!(!pts.contains(&end));
    for (k, p) in pts.iter().enumerate() {
        let k = k as i64;
        let (major, minor, dmin) = if dx >= dy {
            ((p.0 as i64 - start.0 as i64).abs(), (p.1 as i64 - start.1 as i64).abs(), dy)
        } else {
            ((p.1 as i64 - start.1 as i64).abs(), (p.0 as i64 - start.0 as i64).abs(), dx)
        };
        assert_eq!(major, k);
        assert_eq!(minor, k * dmin / len);
    }
}

#[test]
fn line2d_sequence_properties() {
    let ends = [-9, -4, -1, 0, 1, 3, 4, 7];
    for &x in ends.iter() {
        for &y in ends.iter() {
            check_line2d(Point::new(-1, 2), Point::new(x - 1, y + 2));
        }
    }
}
