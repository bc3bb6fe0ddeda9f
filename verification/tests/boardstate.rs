use quoridor_core::actions::Action;
use quoridor_core::boardstate::{Boardstate, Player};
use quoridor_core::errors::ActionError;
use quoridor_core::gamestate::{GameStatus, VictoryReason};
use quoridor_core::locations::{Direction, Location, PawnLocation, WallLocation, WallOrientation};

#[test]
fn start_from_position() {
    let white_position = PawnLocation::build(0).unwrap();
    let black_position = PawnLocation::build(80).unwrap();
    let boardstate = Boardstate::start_from(
        white_position.clone(),
        black_position.clone(),
        vec![
            WallLocation::build(0, WallOrientation::Vertical).unwrap(),
            WallLocation::build(70, WallOrientation::Vertical).unwrap(),
            WallLocation::build(40, WallOrientation::Horizontal).unwrap(),
        ],
        None,
    )
    .unwrap();

    let mut expected_wall_positions: Vec<Option<WallOrientation>> = vec![None; 71];
    expected_wall_positions[0] = Some(WallOrientation::Vertical);
    expected_wall_positions[70] = Some(WallOrientation::Vertical);
    expected_wall_positions[40] = Some(WallOrientation::Horizontal);
    assert_eq!(boardstate.get_position_white_pawn(), &white_position);
    assert_eq!(boardstate.get_position_black_pawn(), &black_position);
    assert_eq!(boardstate.get_wall_positions(), expected_wall_positions);
    assert_eq!(boardstate.get_available_walls_white_player(), &8u8);
    assert_eq!(boardstate.get_available_walls_black_player(), &9u8);
    assert_eq!(boardstate.get_active_player(), &Player::Black);
}

#[test]
#[should_panic]
fn start_from_position_overlapping_wall() {
    let _boardstate = Boardstate::start_from(
        PawnLocation::build(22).unwrap(),
        PawnLocation::build(67).unwrap(),
        vec![
            WallLocation::build(40, WallOrientation::Horizontal).unwrap(),
            WallLocation::build(41, WallOrientation::Horizontal).unwrap(),
        ],
        None,
    )
    .unwrap();
}

#[test]
fn is_blocked_in_direction_empty_board() {
    let boardstate = Boardstate::new();
    let parameters = [
        (Direction::North, false),
        (Direction::East, false),
        (Direction::South, true),
        (Direction::West, false),
    ];
    for (direction, expected) in parameters {
        let result =
            boardstate.is_blocked_in_direction(&PawnLocation::build(4).unwrap(), &direction);
        assert_eq!(result, expected);
    }
}

#[test]
fn is_blocked_in_direction_wall_north_and_east() {
    let boardstate = Boardstate::start_from(
        PawnLocation::build(22).unwrap(),
        PawnLocation::build(67).unwrap(),
        vec![
            WallLocation::build(22, WallOrientation::Vertical).unwrap(),
            WallLocation::build(21, WallOrientation::Horizontal).unwrap(),
        ],
        None,
    )
    .unwrap();
    let parameters = [
        (Direction::North, true),
        (Direction::East, true),
        (Direction::South, false),
        (Direction::West, false),
    ];
    for (direction, expected) in parameters {
        let result =
            boardstate.is_blocked_in_direction(&PawnLocation::build(22).unwrap(), &direction);
        assert_eq!(result, expected);
    }
}

#[test]
fn is_blocked_in_direction_wall_south_and_west() {
    let boardstate = Boardstate::start_from(
        PawnLocation::build(22).unwrap(),
        PawnLocation::build(67).unwrap(),
        vec![
            WallLocation::build(13, WallOrientation::Horizontal).unwrap(),
            WallLocation::build(12, WallOrientation::Vertical).unwrap(),
        ],
        None,
    )
    .unwrap();
    let parameters = [
        (Direction::North, false),
        (Direction::East, false),
        (Direction::South, true),
        (Direction::West, true),
    ];
    for (direction, expected) in parameters {
        let result =
            boardstate.is_blocked_in_direction(&PawnLocation::build(22).unwrap(), &direction);
        assert_eq!(result, expected);
    }
}

#[test]
fn get_possible_pawn_moves_starting_position() {
    let boardstate = Boardstate::new();
    let result = boardstate.get_possible_pawn_moves();
    let expected = vec![
        PawnLocation::build(13).unwrap(),
        PawnLocation::build(5).unwrap(),
        PawnLocation::build(3).unwrap(),
    ];
    assert_eq!(result, expected);
}

#[test]
fn move_pawn_up_from_starting_position() {
    let mut boardstate = Boardstate::new();
    assert_eq!(
        boardstate
            .move_pawn_to_location(PawnLocation::build(13).unwrap())
            .unwrap(),
        GameStatus::InProgress
    );

    assert_eq!(boardstate.get_position_white_pawn().get_square(), 13);
}

#[test]
fn white_move_to_top_row_should_win() {
    let mut boardstate = Boardstate::start_from(
        PawnLocation::build(67).unwrap(),
        PawnLocation::build(14).unwrap(),
        Vec::new(),
        None,
    )
    .unwrap();
    assert_eq!(
        boardstate
            .move_pawn_to_location(PawnLocation::build(76).unwrap())
            .unwrap(),
        GameStatus::Finished {
            won_by: Player::White,
            reason: VictoryReason::ReachedOppositeSide
        }
    )
}

#[test]
fn black_move_to_bottom_row_should_win() {
    let mut boardstate = Boardstate::start_from(
        PawnLocation::build(67).unwrap(),
        PawnLocation::build(14).unwrap(),
        Vec::new(),
        Some(Player::Black),
    )
    .unwrap();
    assert_eq!(
        boardstate
            .move_pawn_to_location(PawnLocation::build(5).unwrap())
            .unwrap(),
        GameStatus::Finished {
            won_by: Player::Black,
            reason: VictoryReason::ReachedOppositeSide
        }
    )
}

#[test]
#[should_panic]
fn move_pawn_to_center_from_starting_position() {
    let mut boardstate = Boardstate::new();
    boardstate
        .move_pawn_to_location(PawnLocation::build(40).unwrap())
        .unwrap();
}

#[test]
fn pawn_jump_over_other_player() {
    let boardstate = Boardstate::start_from(
        PawnLocation::build(40).unwrap(),
        PawnLocation::build(49).unwrap(),
        Vec::new(),
        None,
    )
    .unwrap();
    let possible_moves = boardstate.get_possible_pawn_moves();
    assert!(possible_moves.contains(&PawnLocation::build(58).unwrap()));
}

#[test]
fn pawn_jump_over_other_player_wall_behind() {
    let boardstate = Boardstate::start_from(
        PawnLocation::build(40).unwrap(),
        PawnLocation::build(49).unwrap(),
        vec![WallLocation::build(49, WallOrientation::Horizontal).unwrap()],
        None,
    )
    .unwrap();
    let possible_moves = boardstate.get_possible_pawn_moves();
    assert!(possible_moves.contains(&PawnLocation::build(48).unwrap()));
    assert!(possible_moves.contains(&PawnLocation::build(50).unwrap()));
}

#[test]
fn pawn_jump_over_other_player_wall_behind_and_side() {
    let boardstate = Boardstate::start_from(
        PawnLocation::build(40).unwrap(),
        PawnLocation::build(49).unwrap(),
        vec![
            WallLocation::build(49, WallOrientation::Horizontal).unwrap(),
            WallLocation::build(48, WallOrientation::Vertical).unwrap(),
        ],
        None,
    )
    .unwrap();
    let possible_moves = boardstate.get_possible_pawn_moves();
    assert!(!possible_moves.contains(&PawnLocation::build(48).unwrap()));
    assert!(possible_moves.contains(&PawnLocation::build(50).unwrap()));
}

#[test]
fn insert_wall_successfull() {
    let mut boardstate = Boardstate::new();
    boardstate
        .insert_wall_at_location(WallLocation::build(41, WallOrientation::Horizontal).unwrap())
        .unwrap();

    assert_eq!(
        boardstate.get_wall_positions()[41],
        Some(WallOrientation::Horizontal)
    );
}

#[test]
#[should_panic]
fn insert_wall_failed_same_location() {
    let mut boardstate = Boardstate::new();
    boardstate
        .insert_wall_at_location(WallLocation::build(41, WallOrientation::Horizontal).unwrap())
        .unwrap();
    boardstate
        .insert_wall_at_location(WallLocation::build(41, WallOrientation::Vertical).unwrap())
        .unwrap();
}

#[test]
#[should_panic]
fn insert_wall_failed_overlap() {
    let mut boardstate = Boardstate::new();
    boardstate
        .insert_wall_at_location(WallLocation::build(41, WallOrientation::Horizontal).unwrap())
        .unwrap();
    boardstate
        .insert_wall_at_location(WallLocation::build(42, WallOrientation::Horizontal).unwrap())
        .unwrap();
}

#[test]
fn apply_action_reports_win_on_goal_row() {
    let mut boardstate = Boardstate::start_from(
        PawnLocation::build(67).unwrap(),
        PawnLocation::build(14).unwrap(),
        Vec::new(),
        None,
    )
    .unwrap();
    let status = boardstate
        .apply_action(Action::Pawn(PawnLocation::build(76).unwrap()))
        .unwrap();
    assert_eq!(
        status,
        GameStatus::Finished {
            won_by: Player::White,
            reason: VictoryReason::ReachedOppositeSide
        }
    );
    assert_eq!(boardstate.get_position_white_pawn().get_square(), 76);
}

#[test]
fn illegal_destination_reported() {
    let mut boardstate = Boardstate::new();
    let result = boardstate.move_pawn_to_location(PawnLocation::build(40).unwrap());
    assert_eq!(result, Err(ActionError::IllegalDestination));
    assert_eq!(boardstate.get_position_white_pawn().get_square(), 4);
    assert_eq!(boardstate.get_active_player(), &Player::White);
}

#[test]
fn straight_jump_excludes_diagonals() {
    let boardstate = Boardstate::start_from(
        PawnLocation::build(40).unwrap(),
        PawnLocation::build(49).unwrap(),
        Vec::new(),
        None,
    )
    .unwrap();
    let possible_moves = boardstate.get_possible_pawn_moves();
    assert!(possible_moves.contains(&PawnLocation::build(58).unwrap()));
    assert!(!possible_moves.contains(&PawnLocation::build(48).unwrap()));
    assert!(!possible_moves.contains(&PawnLocation::build(50).unwrap()));
}

#[test]
fn wall_sealing_goal_row_rejected_and_state_unchanged() {
    // White boxed into the two bottom-left squares: a vertical wall on
    // anchor 0 closes the east side, and the horizontal wall on anchor 9
    // would close the roof, removing White's last path to row 8.
    let mut boardstate = Boardstate::start_from(
        PawnLocation::build(0).unwrap(),
        PawnLocation::build(80).unwrap(),
        vec![WallLocation::build(0, WallOrientation::Vertical).unwrap()],
        Some(Player::White),
    )
    .unwrap();
    assert!(boardstate.has_path(&Player::White));
    assert!(boardstate.has_path(&Player::Black));

    let walls_before = boardstate.get_wall_positions();
    let white_walls_before = *boardstate.get_available_walls_white_player();
    let black_walls_before = *boardstate.get_available_walls_black_player();
    let active_before = boardstate.get_active_player().clone();

    let result = boardstate
        .insert_wall_at_location(WallLocation::build(9, WallOrientation::Horizontal).unwrap());
    assert_eq!(result, Err(ActionError::WallBlocksPath));

    assert_eq!(boardstate.get_wall_positions(), walls_before);
    assert_eq!(
        *boardstate.get_available_walls_white_player(),
        white_walls_before
    );
    assert_eq!(
        *boardstate.get_available_walls_black_player(),
        black_walls_before
    );
    assert_eq!(boardstate.get_active_player(), &active_before);
    assert_eq!(boardstate.get_position_white_pawn().get_square(), 0);
    assert_eq!(boardstate.get_position_black_pawn().get_square(), 80);
    assert!(boardstate.has_path(&Player::White));
    assert!(boardstate.has_path(&Player::Black));
}

#[test]
fn overlap_rejected_but_crossing_wall_accepted() {
    let mut boardstate = Boardstate::new();
    boardstate
        .insert_wall_at_location(WallLocation::build(41, WallOrientation::Horizontal).unwrap())
        .unwrap();
    // A second horizontal wall on the neighbouring anchor doubly severs an
    // edge and is rejected; a vertical wall crossing at a different anchor
    // is legal.
    let overlap = boardstate
        .insert_wall_at_location(WallLocation::build(42, WallOrientation::Horizontal).unwrap());
    assert_eq!(overlap, Err(ActionError::Overlaps));
    boardstate
        .insert_wall_at_location(WallLocation::build(40, WallOrientation::Vertical).unwrap())
        .unwrap();
    assert_eq!(
        boardstate.get_wall_positions()[40],
        Some(WallOrientation::Vertical)
    );
}

#[test]
fn wall_counts_only_decrease_on_own_wall_placement() {
    let mut boardstate = Boardstate::new();
    assert_eq!(*boardstate.get_available_walls_white_player(), 10);
    assert_eq!(*boardstate.get_available_walls_black_player(), 10);

    // A pawn move changes no count.
    boardstate
        .apply_action(Action::Pawn(PawnLocation::build(13).unwrap()))
        .unwrap();
    assert_eq!(*boardstate.get_available_walls_white_player(), 10);
    assert_eq!(*boardstate.get_available_walls_black_player(), 10);

    // Black places a wall: only Black's count drops, by one.
    boardstate
        .apply_action(Action::Wall(
            WallLocation::build(60, WallOrientation::Horizontal).unwrap(),
        ))
        .unwrap();
    assert_eq!(*boardstate.get_available_walls_white_player(), 10);
    assert_eq!(*boardstate.get_available_walls_black_player(), 9);

    // A rejected wall changes no count.
    let rejected = boardstate.apply_action(Action::Wall(
        WallLocation::build(60, WallOrientation::Vertical).unwrap(),
    ));
    assert_eq!(rejected, Err(ActionError::AnchorOccupied));
    assert_eq!(*boardstate.get_available_walls_white_player(), 10);
    assert_eq!(*boardstate.get_available_walls_black_player(), 9);
}

#[test]
fn no_walls_remaining_rejected() {
    // Nineteen walls drain White to zero walls and Black to one.
    let mut walls = Vec::new();
    for x in 0..8u8 {
        walls.push(WallLocation::build(x, WallOrientation::Vertical).unwrap());
    }
    for x in 0..8u8 {
        walls.push(WallLocation::build(18 + x, WallOrientation::Vertical).unwrap());
    }
    for x in 0..3u8 {
        walls.push(WallLocation::build(36 + x, WallOrientation::Vertical).unwrap());
    }
    let mut boardstate = Boardstate::start_from(
        PawnLocation::build(4).unwrap(),
        PawnLocation::build(76).unwrap(),
        walls,
        Some(Player::White),
    )
    .unwrap();
    assert_eq!(*boardstate.get_available_walls_white_player(), 0);
    assert_eq!(*boardstate.get_available_walls_black_player(), 1);

    let rejected = boardstate.apply_action(Action::Wall(
        WallLocation::build(60, WallOrientation::Horizontal).unwrap(),
    ));
    assert_eq!(rejected, Err(ActionError::NoWallsRemaining));
}

#[test]
fn both_players_keep_a_path_through_a_game_prefix() {
    let mut boardstate = Boardstate::new();
    let actions = [
        Action::Pawn(PawnLocation::build(13).unwrap()),
        Action::Wall(WallLocation::build(31, WallOrientation::Horizontal).unwrap()),
        Action::Wall(WallLocation::build(40, WallOrientation::Vertical).unwrap()),
        Action::Pawn(PawnLocation::build(67).unwrap()),
        Action::Pawn(PawnLocation::build(22).unwrap()),
    ];
    for action in actions {
        boardstate.apply_action(action).unwrap();
        assert!(boardstate.has_path(&Player::White));
        assert!(boardstate.has_path(&Player::Black));
    }
}

#[test]
fn cloned_board_is_independent() {
    let boardstate = Boardstate::new();
    let mut copy = boardstate.clone();
    copy.apply_action(Action::Wall(
        WallLocation::build(41, WallOrientation::Horizontal).unwrap(),
    ))
    .unwrap();
    assert_eq!(boardstate.get_wall_positions()[41], None);
    assert_eq!(copy.get_wall_positions()[41], Some(WallOrientation::Horizontal));
    assert_eq!(*boardstate.get_available_walls_white_player(), 10);
    assert_eq!(*copy.get_available_walls_white_player(), 9);
}

#[test]
fn get_legal_actions_lists_start_moves() {
    let boardstate = Boardstate::new();
    let legal = boardstate.get_legal_actions();
    let pawn_actions = legal.get_pawn_actions();
    assert_eq!(pawn_actions.len(), 3);
    assert!(legal.get_wall_actions().is_empty());
    let actions = legal.get_actions();
    assert_eq!(actions.len(), 3);
    assert!(actions.contains(&Action::Pawn(PawnLocation::build(13).unwrap())));
}

#[test]
fn wall_at_coordinate_reports_orientation() {
    let mut boardstate = Boardstate::new();
    boardstate
        .insert_wall_at_location(WallLocation::build(41, WallOrientation::Horizontal).unwrap())
        .unwrap();
    let location = WallLocation::build(41, WallOrientation::Horizontal).unwrap();
    let coordinate = location.get_coordinate();
    assert_eq!(
        boardstate.wall_at_coordinate(&coordinate),
        Some(WallOrientation::Horizontal)
    );
    assert!(boardstate.horizontal_wall_at_coordinate(&coordinate));
    assert!(!boardstate.vertical_wall_at_coordinate(&coordinate));
}
