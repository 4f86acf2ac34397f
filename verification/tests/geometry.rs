use wasmdome::geometry::{GameBoard, GridDirection, Point};

#[test]
fn gather_points() {
    let board = GameBoard::default();
    let origin = Point::new(6, 6);

    let points = origin
        .gather_points(&board, &GridDirection::NorthEast, 6)
        .into_iter()
        .map(|(p, _d)| p)
        .collect::<Vec<_>>();
    assert_eq!(
        points,
        vec![
            Point::new(7, 7),
            Point::new(8, 8),
            Point::new(9, 9),
            Point::new(10, 10),
            Point::new(11, 11),
            Point::new(12, 12)
        ]
    );

    let truncated_points = origin
        .gather_points(&board, &GridDirection::SouthWest, 20)
        .into_iter()
        .map(|(p, _d)| p)
        .collect::<Vec<_>>();
    assert_eq!(
        truncated_points,
        vec![
            Point::new(5, 5),
            Point::new(4, 4),
            Point::new(3, 3),
            Point::new(2, 2),
            Point::new(1, 1),
            Point::new(0, 0),
        ]
    );
}

#[test]
fn adjacent_points() {
    let board = GameBoard::default();
    let origin = Point::new(10, 5);
    let points = origin.adjacent_points(&board);
    assert_eq!(
        points,
        vec![
            Point::new(10, 6), // North
            Point::new(11, 6),
            Point::new(11, 5), // East
            Point::new(11, 4),
            Point::new(10, 4), // South
            Point::new(9, 4),
            Point::new(9, 5), // West
            Point::new(9, 6),
        ]
    )
}

#[test]
fn compute_bearing() {
    // this should be a 45 degree bearing, or NorthEast
    let me = Point::new(0, 0);
    let them = Point::new(5, 5);
    assert_eq!(me.bearing(&them), GridDirection::NorthEast);

    assert_eq!(Point::new(0, 0).bearing(&Point::new(5, 0)), GridDirection::East);
    assert_eq!(Point::new(0, 0).bearing(&Point::new(0, -5)), GridDirection::South);
    assert_eq!(Point::new(1, 1).bearing(&Point::new(-1, -1)), GridDirection::SouthWest);
    assert_eq!(Point::new(5, 10).bearing(&Point::new(1, 6)), GridDirection::SouthWest);
    assert_eq!(Point::new(0, 0).bearing(&Point::new(0, 5)), GridDirection::North);
    assert_eq!(Point::new(6, 8).bearing(&Point::new(10, 4)), GridDirection::SouthEast);
    assert_eq!(Point::new(9, 11).bearing(&Point::new(4, 11)), GridDirection::West);
}

#[test]
fn gather_points_labels_distances() {
    let board = GameBoard { width: 10, height: 10 };
    let points = Point::new(8, 2).gather_points(&board, &GridDirection::East, 5);
    assert_eq!(points, vec![(Point::new(9, 2), 1), (Point::new(10, 2), 2)]);
}

#[test]
fn relative_point_stays_on_board() {
    let board = GameBoard { width: 10, height: 10 };
    assert_eq!(Point::new(0, 0).relative_point(&board, &GridDirection::South, 1), None);
    assert_eq!(Point::new(10, 10).relative_point(&board, &GridDirection::NorthEast, 1), None);
    assert_eq!(
        Point::new(4, 4).relative_point(&board, &GridDirection::NorthWest, 3),
        Some(Point::new(1, 7))
    );
    assert!(Point::new(10, 0).is_on_board(&board));
    assert!(!Point::new(11, 0).is_on_board(&board));
    assert!(!Point::new(0, -1).is_on_board(&board));
}

#[test]
fn corner_has_three_neighbours() {
    let board = GameBoard { width: 10, height: 10 };
    assert_eq!(
        Point::new(0, 0).adjacent_points(&board),
        vec![Point::new(0, 1), Point::new(1, 1), Point::new(1, 0)]
    );
}

#[test]
fn bearing_of_a_point_itself_is_east() {
    assert_eq!(Point::new(3, 3).bearing(&Point::new(3, 3)), GridDirection::East);
    assert_eq!(Point::new(0, 0).bearing(&Point::new(-5, 5)), GridDirection::NorthWest);
    assert_eq!(Point::new(0, 0).bearing(&Point::new(-5, 4)), GridDirection::West);
    assert_eq!(Point::new(0, 0).bearing(&Point::new(1, 5)), GridDirection::North);
}
