use quoridor_core::errors::ActionError;
use quoridor_core::locations::{
    Coordinate, Direction, Location, PawnLocation, Rotation, WallCoordinate, WallLocation,
    WallOrientation,
};

#[test]
fn locations_coordinate_from_location() {
    let combinations = [
        (PawnLocation::build(0).unwrap(), Coordinate { x: 0, y: 0 }),
        (PawnLocation::build(18).unwrap(), Coordinate { x: 0, y: 2 }),
        (PawnLocation::build(20).unwrap(), Coordinate { x: 2, y: 2 }),
        (PawnLocation::build(35).unwrap(), Coordinate { x: 8, y: 3 }),
        (PawnLocation::build(44).unwrap(), Coordinate { x: 8, y: 4 }),
        (PawnLocation::build(76).unwrap(), Coordinate { x: 4, y: 8 }),
        (PawnLocation::build(80).unwrap(), Coordinate { x: 8, y: 8 }),
    ];
    for (input, expected) in combinations {
        assert_eq!(input.get_coordinate().x, expected.x);
        assert_eq!(input.get_coordinate().y, expected.y);
    }
}

#[test]
fn locations_new_walllocation_successfull() {
    let invalid_square: Vec<u8> = vec![8, 17, 26, 35, 44, 53, 62];
    for square in 0..=70 {
        if !invalid_square.contains(&square) {
            let location = WallLocation::build(square, WallOrientation::Vertical).unwrap();
            assert_eq!(location.get_square(), square);
        }
    }
}

#[test]
#[should_panic]
fn locations_new_walllocation_failed() {
    let _ = WallLocation::build(35, WallOrientation::Horizontal).unwrap();
}

#[test]
fn axes_round_trip() {
    for x in 0..9u8 {
        for y in 0..9u8 {
            let coordinate = Coordinate::new(x, y);
            assert_eq!(*coordinate.get_x(), x);
            assert_eq!(*coordinate.get_y(), y);
            assert_eq!(Coordinate::new(*coordinate.get_x(), *coordinate.get_y()), coordinate);
        }
    }
}

#[test]
fn square_round_trip() {
    for square in 0..81u8 {
        let coordinate = Coordinate::from_square(square);
        assert_eq!(coordinate.to_square(), square);
    }
}

#[test]
fn pawn_location_from_coordinate_rejects_out_of_range() {
    assert_eq!(
        PawnLocation::from_coordinate(Coordinate { x: 9, y: 0 }),
        Err(ActionError::OutOfRange)
    );
    assert_eq!(PawnLocation::build(81), Err(ActionError::OutOfRange));
    let built = PawnLocation::from_coordinate(Coordinate { x: 8, y: 8 }).unwrap();
    assert_eq!(built.get_square(), 80);
}

#[test]
fn coordinate_stepping_stops_at_edges() {
    let center = Coordinate { x: 4, y: 4 };
    assert_eq!(center.from_direction(Direction::North), Some(Coordinate { x: 4, y: 5 }));
    assert_eq!(center.from_direction(Direction::East), Some(Coordinate { x: 5, y: 4 }));
    assert_eq!(center.from_direction(Direction::South), Some(Coordinate { x: 4, y: 3 }));
    assert_eq!(center.from_direction(Direction::West), Some(Coordinate { x: 3, y: 4 }));

    assert_eq!(Coordinate { x: 4, y: 8 }.from_direction(Direction::North), None);
    assert_eq!(Coordinate { x: 8, y: 4 }.from_direction(Direction::East), None);
    assert_eq!(Coordinate { x: 4, y: 0 }.from_direction(Direction::South), None);
    assert_eq!(Coordinate { x: 0, y: 4 }.from_direction(Direction::West), None);
}

#[test]
fn pawn_location_from_direction_steps() {
    let start = PawnLocation::build(4).unwrap();
    assert_eq!(start.from_direction(Direction::North).unwrap().get_square(), 13);
    assert_eq!(start.from_direction(Direction::East).unwrap().get_square(), 5);
    assert_eq!(start.from_direction(Direction::West).unwrap().get_square(), 3);
    assert_eq!(start.from_direction(Direction::South), Err(ActionError::OutOfRange));
}

#[test]
fn from_calculation_shifts_within_board() {
    let center = Coordinate { x: 4, y: 4 };
    assert_eq!(center.from_calculation(-1, 0), Some(Coordinate { x: 3, y: 4 }));
    assert_eq!(center.from_calculation(0, -1), Some(Coordinate { x: 4, y: 3 }));
    assert_eq!(center.from_calculation(4, 4), Some(Coordinate { x: 8, y: 8 }));
    assert_eq!(center.from_calculation(5, 0), None);
    assert_eq!(Coordinate { x: 0, y: 0 }.from_calculation(-1, 0), None);
}

#[test]
fn perpendicular_directions_are_orthogonal() {
    assert_eq!(
        Direction::North.get_perpendicular_directions(),
        (Direction::East, Direction::West)
    );
    assert_eq!(
        Direction::South.get_perpendicular_directions(),
        (Direction::East, Direction::West)
    );
    assert_eq!(
        Direction::East.get_perpendicular_directions(),
        (Direction::North, Direction::South)
    );
    assert_eq!(
        Direction::West.get_perpendicular_directions(),
        (Direction::North, Direction::South)
    );
}

#[test]
fn wall_location_from_coordinate_checks_anchor_range() {
    let built =
        WallLocation::from_coordinate(Coordinate { x: 7, y: 7 }, WallOrientation::Vertical)
            .unwrap();
    assert_eq!(built.get_square(), 70);
    assert_eq!(built.get_orientation(), WallOrientation::Vertical);
    assert_eq!(
        WallLocation::from_coordinate(Coordinate { x: 8, y: 0 }, WallOrientation::Vertical),
        Err(ActionError::OutOfRange)
    );
}

#[test]
fn wall_coordinate_holds_its_parts() {
    let anchor = WallCoordinate::new(3, 5, Rotation::Vertical);
    assert_eq!(*anchor.get_x(), 3);
    assert_eq!(*anchor.get_y(), 5);
    assert!(matches!(anchor.get_rotation(), Rotation::Vertical));
}
