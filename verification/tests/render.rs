use quoridor_core::boardstate::Boardstate;
use quoridor_core::locations::{PawnLocation, WallLocation, WallOrientation};
use quoridor_core::render::{format_horizontal_wall, format_pawn, format_vertical_wall};

#[test]
fn format_pawn_marks_both_players() {
    let white = PawnLocation::build(4).unwrap();
    let black = PawnLocation::build(76).unwrap();
    assert_eq!(format_pawn(&white, &black, 4), 'O');
    assert_eq!(format_pawn(&white, &black, 76), 'X');
    assert_eq!(format_pawn(&white, &black, 40), ' ');
}

#[test]
fn format_walls_show_blocked_edges() {
    let mut boardstate = Boardstate::new();
    boardstate
        .insert_wall_at_location(WallLocation::build(40, WallOrientation::Horizontal).unwrap())
        .unwrap();
    boardstate
        .insert_wall_at_location(WallLocation::build(22, WallOrientation::Vertical).unwrap())
        .unwrap();

    // The horizontal wall on anchor 40 severs the north edges of squares 40
    // and 41 and marks its own anchor corner.
    assert_eq!(
        format_horizontal_wall(&boardstate, &PawnLocation::build(40).unwrap()),
        "--#--#"
    );
    assert_eq!(
        format_horizontal_wall(&boardstate, &PawnLocation::build(41).unwrap()),
        "--#--|"
    );
    assert_eq!(
        format_horizontal_wall(&boardstate, &PawnLocation::build(44).unwrap()),
        "-----|"
    );
    // The vertical wall on anchor 22 severs the east edges of squares 22
    // and 31; its anchor corner is marked too.
    assert_eq!(
        format_vertical_wall(&boardstate, &PawnLocation::build(22).unwrap()),
        '#'
    );
    assert_eq!(
        format_vertical_wall(&boardstate, &PawnLocation::build(31).unwrap()),
        '#'
    );
    assert_eq!(
        format_vertical_wall(&boardstate, &PawnLocation::build(40).unwrap()),
        '|'
    );
    assert_eq!(
        format_horizontal_wall(&boardstate, &PawnLocation::build(22).unwrap()),
        "-----#"
    );
}
