use quoridor_core::locations::{Coordinate, Direction, WallOrientation};
use quoridor_core::onebased::{
    convert_to_coordinate, convert_to_notation, convert_to_square, number_to_alphabet,
    PawnLocation, WallLocation,
};

#[test]
fn coordinate_from_location() {
    let combinations = [
        (PawnLocation::build(1).unwrap(), Coordinate { x: 1, y: 1 }),
        (PawnLocation::build(19).unwrap(), Coordinate { x: 1, y: 3 }),
        (PawnLocation::build(21).unwrap(), Coordinate { x: 3, y: 3 }),
        (PawnLocation::build(36).unwrap(), Coordinate { x: 9, y: 4 }),
        (PawnLocation::build(45).unwrap(), Coordinate { x: 9, y: 5 }),
        (PawnLocation::build(77).unwrap(), Coordinate { x: 5, y: 9 }),
        (PawnLocation::build(81).unwrap(), Coordinate { x: 9, y: 9 }),
    ];
    for (input, expected) in combinations {
        assert_eq!(input.get_coordinate().x, expected.x);
        assert_eq!(input.get_coordinate().y, expected.y);
    }
}

#[test]
fn pawn_location_from_notation() {
    let input_and_expected = [
        ("A1", PawnLocation::build(1).unwrap()),
        ("A9", PawnLocation::build(73).unwrap()),
        ("b6", PawnLocation::build(47).unwrap()),
        ("E6", PawnLocation::build(50).unwrap()),
        ("H8", PawnLocation::build(71).unwrap()),
        ("i1", PawnLocation::build(9).unwrap()),
        ("I9", PawnLocation::build(81).unwrap()),
    ];
    for (input, expected) in input_and_expected {
        assert_eq!(PawnLocation::from_notation(input).unwrap(), expected);
    }
}

#[test]
fn new_pawn_location_from_direction_east_succesfull() {
    let starting_location = PawnLocation::build(5).unwrap();
    let result = starting_location.new_location_from_direction(Direction::East);
    assert_eq!(result.unwrap().get_square(), 6)
}

#[test]
#[should_panic]
fn new_pawn_location_from_direction_north_failed() {
    let starting_location = PawnLocation::build(77).unwrap();
    let _result = starting_location
        .new_location_from_direction(Direction::North)
        .unwrap();
}

#[test]
#[should_panic]
fn new_pawn_location_from_direction_east_failed() {
    let starting_location = PawnLocation::build(9).unwrap();
    let _result = starting_location
        .new_location_from_direction(Direction::East)
        .unwrap();
}

#[test]
#[should_panic]
fn new_pawn_location_from_direction_south_failed() {
    let starting_location = PawnLocation::build(5).unwrap();
    let _result = starting_location
        .new_location_from_direction(Direction::South)
        .unwrap();
}

#[test]
#[should_panic]
fn new_pawn_location_from_direction_west_failed() {
    let starting_location = PawnLocation::build(46).unwrap();
    let _result = starting_location
        .new_location_from_direction(Direction::West)
        .unwrap();
}

#[test]
fn new_walllocation_successfull() {
    let invalid_square: Vec<u8> = vec![9, 18, 27, 36, 45, 54, 63];
    for square in 1..=71 {
        if !invalid_square.contains(&square) {
            let location = WallLocation::build(square, WallOrientation::Vertical).unwrap();
            assert_eq!(location.get_square(), square);
        }
    }
}

#[test]
#[should_panic]
fn new_walllocation_failed() {
    let _location = WallLocation::build(36, WallOrientation::Horizontal).unwrap();
}

#[test]
fn wall_location_from_notation() {
    let input_and_expected = [
        (
            "A1v",
            WallLocation::build(1, WallOrientation::Vertical).unwrap(),
        ),
        (
            "A8h",
            WallLocation::build(64, WallOrientation::Horizontal).unwrap(),
        ),
        (
            "B6v",
            WallLocation::build(47, WallOrientation::Vertical).unwrap(),
        ),
        (
            "E6h",
            WallLocation::build(50, WallOrientation::Horizontal).unwrap(),
        ),
        (
            "F8v",
            WallLocation::build(69, WallOrientation::Vertical).unwrap(),
        ),
        (
            "H1h",
            WallLocation::build(8, WallOrientation::Horizontal).unwrap(),
        ),
        (
            "H8v",
            WallLocation::build(71, WallOrientation::Vertical).unwrap(),
        ),
    ];
    for (input, expected) in input_and_expected {
        assert_eq!(WallLocation::from_notation(input).unwrap(), expected);
    }
}

#[test]
fn one_based_notation_round_trip() {
    for square in [1u8, 9, 37, 45, 73, 81] {
        let location = PawnLocation::build(square).unwrap();
        assert_eq!(
            PawnLocation::from_notation(&location.get_notation()).unwrap(),
            location
        );
    }
    let wall = WallLocation::build(50, WallOrientation::Horizontal).unwrap();
    assert_eq!(wall.get_notation(), "E6h");
    assert_eq!(WallLocation::from_notation(&wall.get_notation()).unwrap(), wall);
}

#[test]
fn one_based_helpers_agree() {
    assert_eq!(number_to_alphabet(1), 'A');
    assert_eq!(number_to_alphabet(9), 'I');
    assert_eq!(
        convert_to_coordinate("E6").unwrap(),
        Coordinate { x: 5, y: 6 }
    );
    assert_eq!(convert_to_square(Coordinate { x: 5, y: 6 }), 50);
    assert_eq!(convert_to_notation(Coordinate { x: 5, y: 6 }, None), "E6");
    assert_eq!(
        convert_to_notation(Coordinate { x: 5, y: 6 }, Some(WallOrientation::Vertical)),
        "E6v"
    );
}
