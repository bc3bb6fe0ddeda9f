use quoridor_core::actions::{
    location_to_notation, notation_to_coordinate, number_to_alphabet, pawn_location_from_notation,
    wall_location_from_notation, Action, PossibleActions, PossibleMoves,
};
use quoridor_core::errors::ActionError;
use quoridor_core::locations::{
    Coordinate, Location, PawnLocation, Rotation, WallCoordinate, WallLocation, WallOrientation,
};

#[test]
fn action_from_notation() {
    let input_and_expected = [
        ("A1", Action::Pawn(PawnLocation::build(0).unwrap())),
        ("A9", Action::Pawn(PawnLocation::build(72).unwrap())),
        ("b6", Action::Pawn(PawnLocation::build(46).unwrap())),
        ("E6", Action::Pawn(PawnLocation::build(49).unwrap())),
        ("H8", Action::Pawn(PawnLocation::build(70).unwrap())),
        ("i1", Action::Pawn(PawnLocation::build(8).unwrap())),
        ("I9", Action::Pawn(PawnLocation::build(80).unwrap())),
        (
            "A1v",
            Action::Wall(WallLocation::build(0, WallOrientation::Vertical).unwrap()),
        ),
        (
            "A8h",
            Action::Wall(WallLocation::build(63, WallOrientation::Horizontal).unwrap()),
        ),
        (
            "B6v",
            Action::Wall(WallLocation::build(46, WallOrientation::Vertical).unwrap()),
        ),
        (
            "E6h",
            Action::Wall(WallLocation::build(49, WallOrientation::Horizontal).unwrap()),
        ),
        (
            "F8v",
            Action::Wall(WallLocation::build(68, WallOrientation::Vertical).unwrap()),
        ),
        (
            "H1h",
            Action::Wall(WallLocation::build(7, WallOrientation::Horizontal).unwrap()),
        ),
        (
            "H8v",
            Action::Wall(WallLocation::build(70, WallOrientation::Vertical).unwrap()),
        ),
    ];
    for (input, expected) in input_and_expected {
        assert_eq!(Action::from_notation(input).unwrap(), expected);
    }
}

#[test]
#[should_panic]
fn action_from_notation_failed() {
    let inputs = ["a", "x1v", "B0h", "c1x", "B1vx", "x1", "A12", "B0", "c0x"];
    for input in inputs {
        Action::from_notation(input).unwrap();
    }
}

#[test]
fn action_get_notation_round_trip() {
    let notations = ["A1", "E6", "I9", "A1v", "E6h", "H8v"];
    for notation in notations {
        let action = Action::from_notation(notation).unwrap();
        assert_eq!(action.get_notation(), notation);
        assert_eq!(Action::from_notation(&action.get_notation()).unwrap(), action);
    }
}

#[test]
fn lower_case_input_encodes_canonically() {
    let action = Action::from_notation("b6").unwrap();
    assert_eq!(action.get_notation(), "B6");
    let wall = Action::from_notation("e6H").unwrap();
    assert_eq!(wall.get_notation(), "E6h");
}

#[test]
fn wall_notation_out_of_anchor_range() {
    assert_eq!(
        Action::from_notation("A9v"),
        Err(ActionError::OutOfRange)
    );
    assert_eq!(
        Action::from_notation("I1h"),
        Err(ActionError::OutOfRange)
    );
    assert_eq!(Action::from_notation("J1"), Err(ActionError::BadNotation));
    assert_eq!(Action::from_notation("A0"), Err(ActionError::BadNotation));
    assert_eq!(Action::from_notation(""), Err(ActionError::BadNotation));
}

#[test]
fn notation_helpers_agree() {
    assert_eq!(number_to_alphabet(0), 'A');
    assert_eq!(number_to_alphabet(8), 'I');
    assert_eq!(
        notation_to_coordinate("E6").unwrap(),
        Coordinate { x: 4, y: 5 }
    );
    assert_eq!(
        pawn_location_from_notation("E6").unwrap().get_square(),
        49
    );
    assert_eq!(
        wall_location_from_notation("E6h").unwrap().get_square(),
        49
    );
    assert_eq!(
        location_to_notation(Coordinate { x: 4, y: 5 }, None),
        "E6"
    );
    assert_eq!(
        location_to_notation(Coordinate { x: 4, y: 5 }, Some(WallOrientation::Vertical)),
        "E6v"
    );
}

#[test]
fn possible_actions_keeps_both_kinds() {
    let pawns = vec![
        PawnLocation::build(13).unwrap(),
        PawnLocation::build(5).unwrap(),
    ];
    let walls = vec![WallLocation::build(40, WallOrientation::Horizontal).unwrap()];
    let possible = PossibleActions::build(pawns.clone(), walls.clone());
    assert_eq!(possible.get_pawn_actions(), &pawns);
    assert_eq!(possible.get_wall_actions(), &walls);
    // Only the pawn destinations enter the combined action list.
    let actions = possible.get_actions();
    assert_eq!(actions.len(), 2);
    assert_eq!(actions[0], Action::Pawn(pawns[0]));
    assert_eq!(actions[1], Action::Pawn(pawns[1]));
}

#[test]
fn possible_moves_accumulates() {
    let mut moves = PossibleMoves::default();
    assert!(moves.get_pawn_moves().is_empty());
    assert!(moves.get_wall_moves().is_empty());
    moves.add_pawn_move(Coordinate::new(2, 2));
    moves.add_wall_move(WallCoordinate::new(1, 1, Rotation::Horizontal));
    assert_eq!(moves.get_pawn_moves().len(), 1);
    assert_eq!(moves.get_pawn_moves()[0], Coordinate { x: 2, y: 2 });
    assert_eq!(moves.get_wall_moves().len(), 1);
}

#[test]
fn action_constructors_wrap_locations() {
    let pawn = PawnLocation::build(40).unwrap();
    let wall = WallLocation::build(40, WallOrientation::Vertical).unwrap();
    assert_eq!(Action::from_pawn_location(pawn), Action::Pawn(pawn));
    assert_eq!(Action::from_wall_location(wall), Action::Wall(wall));
}
