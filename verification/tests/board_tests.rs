use ironclad::board::Board;
use ironclad::board::Direction;
use ironclad::board::FireError;
use ironclad::board::MoveError;
use ironclad::board::SlideError;
use ironclad::grid::BOARD_HEIGHT;
use ironclad::grid::BOARD_WIDTH;
use ironclad::piece::Checker;
use ironclad::piece::Stone;
use ironclad::piece::EMPTY_PLAYER_ID;
use ironclad::piece::PLAYER_A_ID;
use ironclad::piece::PLAYER_B_ID;
use ironclad::vec::Vec2;

#[test]
fn vec_to_checker_idx() {
    assert_eq!(Board::vec_to_checker_idx(Vec2::new(1, 1)), 9);
    assert_eq!(Board::vec_to_checker_idx(Vec2::new(0, 1)), 8);
    assert_eq!(Board::vec_to_checker_idx(Vec2::new(1, 0)), 1);
    assert_eq!(Board::vec_to_checker_idx(Vec2::new(7, 5)), 47)
}

#[test]
fn vec_to_stone_idx() {
    assert_eq!(Board::vec_to_stone_idx(Vec2::new(1, 1)), 10);
    assert_eq!(Board::vec_to_stone_idx(Vec2::new(0, 5)), 45);
    assert_eq!(Board::vec_to_stone_idx(Vec2::new(8, 6)), 62);
}

#[test]
fn check_initial_board() {
    let board = Board::new();
    check_start_state(&board)
}

#[test]
fn board_reset() {
    let mut board = Board::new();
    board.place_stone_at(Vec2::new(0, 0), Stone::new(PLAYER_A_ID)).unwrap();
    board.place_checker_at(Vec2::new(4, 4), Checker::new(2, PLAYER_A_ID)).unwrap();
    board.reset();
    check_start_state(&board)
}

fn check_start_state(board: &Board) {
    // Board should be free of stones
    for x in 0..BOARD_WIDTH {
        for y in 0..BOARD_HEIGHT {
            let stone = board.stone_at(Vec2::new(x as i32, y as i32));
            assert_eq!(stone.unwrap().owner, EMPTY_PLAYER_ID)
        }
    }
    let empty_c = Checker::new(0, EMPTY_PLAYER_ID);
    // On the checkerboard,
    // [0, 1] and [0, 4] should have 2-stack player B pieces
    let b2 = Checker::new(2, PLAYER_B_ID);
    assert_eq!(*board.checker_at(Vec2::new(0, 1)).unwrap(), b2);
    assert_eq!(*board.checker_at(Vec2::new(0, 4)).unwrap(), b2);
    // [0, 2] and [0, 3] should have 3-stack player B pieces
    let b3 = Checker::new(3, PLAYER_B_ID);
    assert_eq!(*board.checker_at(Vec2::new(0, 2)).unwrap(), b3);
    assert_eq!(*board.checker_at(Vec2::new(0, 3)).unwrap(), b3);
    // [1, 2] and [1, 3] should have 1-stack player B pieces
    let b1 = Checker::new(1, PLAYER_B_ID);
    assert_eq!(*board.checker_at(Vec2::new(1, 2)).unwrap(), b1);
    assert_eq!(*board.checker_at(Vec2::new(1, 3)).unwrap(), b1);
    // [7, 1] and [7, 4] should have 2-stack player A pieces
    let a2 = Checker::new(2, PLAYER_A_ID);
    assert_eq!(*board.checker_at(Vec2::new(7, 1)).unwrap(), a2);
    assert_eq!(*board.checker_at(Vec2::new(7, 4)).unwrap(), a2);
    // [7, 2] and [7, 3] should have 3-stack player A pieces
    let a3 = Checker::new(3, PLAYER_A_ID);
    assert_eq!(*board.checker_at(Vec2::new(7, 2)).unwrap(), a3);
    assert_eq!(*board.checker_at(Vec2::new(7, 3)).unwrap(), a3);
    // [6, 2] and [6, 3] should have 1-stack player A pieces
    let a1 = Checker::new(1, PLAYER_A_ID);
    assert_eq!(*board.checker_at(Vec2::new(6, 2)).unwrap(), a1);
    assert_eq!(*board.checker_at(Vec2::new(6, 3)).unwrap(), a1);

    // Row 0 should be empty
    for xoff in 0..8 {
        assert_eq!(*board.checker_at(Vec2::new(xoff, 0)).unwrap(), empty_c);
    }
    // 1,1 to 6,1 should be empty
    for xoff in 1..7 {
        assert_eq!(*board.checker_at(Vec2::new(xoff, 1)).unwrap(), empty_c);
    }
    // 2,2 to 5,2 should be empty
    for xoff in 2..6 {
        assert_eq!(*board.checker_at(Vec2::new(xoff, 2)).unwrap(), empty_c);
    }
    // 2,3 to 5,3 should be empty
    for xoff in 2..6 {
        assert_eq!(*board.checker_at(Vec2::new(xoff, 3)).unwrap(), empty_c);
    }
    // 1,4 to 6,4 should be empty
    for xoff in 1..7 {
        assert_eq!(*board.checker_at(Vec2::new(xoff, 4)).unwrap(), empty_c);
    }
    // Row 5 should be empty
    for xoff in 0..8 {
        assert_eq!(*board.checker_at(Vec2::new(xoff, 5)).unwrap(), empty_c);
    }
}

#[test]
fn place_checker_at() {
    let c1 = Checker::new(1, PLAYER_A_ID);
    let mut board = Board::new();
    assert_eq!(board.place_checker_at(Vec2::new(1, 1), c1).unwrap(), ());
    match board.place_checker_at(Vec2::new(-1, -1), c1) {
        Err(MoveError::IndexError(_)) => (),
        Err(MoveError::NegationError) => panic!("Expected an IndexError, got a NegationError"),
        Err(MoveError::OccupiedError) => panic!("Expected an IndexError, got an OccupiedError"),
        Ok(()) => panic!("Expected an IndexError, no error"),
    }
    match board.place_checker_at(Vec2::new(1, 1), c1) {
        Err(MoveError::OccupiedError) => (),
        Err(MoveError::NegationError) => panic!("Expected an OccupiedError, got a NegationError"),
        Err(MoveError::IndexError(_)) => panic!("Expected an OccupiedError, got an IndexError"),
        Ok(()) => panic!("Expected an OccupiedError, no error"),
    }
    assert_eq!(*board.checker_at(Vec2::new(1, 1)).unwrap(), c1);
}

#[test]
fn place_stone_at() {
    let c1 = Checker::new(1, PLAYER_A_ID);
    let s1 = Stone::new(PLAYER_A_ID);
    let s1_pos = Vec2::new(3, 3);
    let mut board = Board::new();
    assert_eq!(board.place_stone_at(s1_pos, s1).unwrap(), ());
    assert_eq!(*board.stone_at(s1_pos).unwrap(), s1);
    match board.place_stone_at(s1_pos, s1) {
        // occupied error
        Err(MoveError::OccupiedError) => (),
        Err(MoveError::NegationError) => panic!("Expected an OccupiedError, got a NegationError"),
        Err(MoveError::IndexError(_)) => panic!("Expected an OccupiedError, got an IndexError"),
        Ok(()) => panic!("Expected an OccupiedError, got no error"),
    }
    board.place_checker_at(Vec2::new(4, 2), c1).unwrap();
    match board.place_stone_at(Vec2::new(4, 3), s1) {
        // expect negation error
        Err(MoveError::NegationError) => (),
        Err(MoveError::OccupiedError) => panic!("Expected a NegationError, got a OccupiedError"),
        Err(MoveError::IndexError(_)) => panic!("Expected a NegationError, got an IndexError"),
        Ok(()) => panic!("Expected an NegationError, got no error"),
    }
    // index error
    match board.place_stone_at(Vec2::new(-1, -1), s1) {
        Err(MoveError::IndexError(_)) => (),
        Err(MoveError::OccupiedError) => panic!("Expected an IndexError, got an OccupiedError"),
        Err(MoveError::NegationError) => panic!("Expected an IndexError, got a NegationError"),
        Ok(()) => panic!("Expected an IndexError, got no error"),
    }
}

#[test]
fn checker_neighbours_of_stone() {
    let neighbours = Board::checker_neigbours_of_stone(Vec2::new(1, 1));
    assert!(neighbours.contains(&Vec2::new(0, 0)));
    assert!(neighbours.contains(&Vec2::new(0, 1)));
    assert!(neighbours.contains(&Vec2::new(1, 0)));
    assert!(neighbours.contains(&Vec2::new(1, 1)));

    // Top left corner
    let nw_neighbours = Board::checker_neigbours_of_stone(Vec2::new(0, 0));
    assert!(nw_neighbours.contains(&Vec2::new(0, 0)));

    let ne_neighbours = Board::checker_neigbours_of_stone(Vec2::new(BOARD_WIDTH as i32, 0));
    assert!(ne_neighbours.contains(&Vec2::new((BOARD_WIDTH - 1) as i32, 0)));

    let sw_neighbours = Board::checker_neigbours_of_stone(Vec2::new(0, BOARD_HEIGHT as i32));
    assert!(sw_neighbours.contains(&Vec2::new(0, (BOARD_HEIGHT - 1) as i32)));

    let se_neighbours =
        Board::checker_neigbours_of_stone(Vec2::new(BOARD_WIDTH as i32, BOARD_HEIGHT as i32));
    assert!(se_neighbours
        .contains(&Vec2::new((BOARD_WIDTH - 1) as i32, (BOARD_HEIGHT - 1) as i32)));

    // Edge
    let edge_neighbours = Board::checker_neigbours_of_stone(Vec2::new(0, 3));
    assert!(edge_neighbours.contains(&Vec2::new(0, 2)));
    assert!(edge_neighbours.contains(&Vec2::new(0, 3)));
}

#[test]
fn stone_neighbours_of_checker() {
    let normal = Board::stone_neighbours_of_checker(Vec2::new(1, 1));
    assert!(normal.contains(&Vec2::new(1, 1)));
    assert!(normal.contains(&Vec2::new(1, 2)));
    assert!(normal.contains(&Vec2::new(2, 1)));
    assert!(normal.contains(&Vec2::new(2, 2)));

    // lower right corner
    let se_neighbours = Board::stone_neighbours_of_checker(Vec2::new(
        (BOARD_WIDTH - 1) as i32,
        (BOARD_HEIGHT - 1) as i32,
    ));
    assert!(se_neighbours
        .contains(&Vec2::new((BOARD_WIDTH - 1) as i32, (BOARD_HEIGHT - 1) as i32)));
    assert!(se_neighbours.contains(&Vec2::new(BOARD_WIDTH as i32, (BOARD_HEIGHT - 1) as i32)));
    assert!(se_neighbours.contains(&Vec2::new((BOARD_WIDTH - 1) as i32, BOARD_HEIGHT as i32)));
    assert!(se_neighbours.contains(&Vec2::new(BOARD_WIDTH as i32, BOARD_HEIGHT as i32)));
}

#[test]
fn checker_neighbours() {
    // Middle of board, 8 neighbours
    let mid_v = Vec2::new(3, 3);
    let middle = Board::checker_neighbours(mid_v);
    assert!(middle.contains(&mid_v.left()));
    assert!(middle.contains(&mid_v.right()));
    assert!(middle.contains(&mid_v.left().up()));
    assert!(middle.contains(&mid_v.left().down()));
    assert!(middle.contains(&mid_v.right().up()));
    assert!(middle.contains(&mid_v.right().down()));
    assert!(middle.contains(&mid_v.up()));
    assert!(middle.contains(&mid_v.down()));
    // Corner, 3 neighbours
    let cor_v = Vec2::new(0, 0);
    let corner = Board::checker_neighbours(cor_v);
    assert!(corner.contains(&cor_v.down()));
    assert!(corner.contains(&cor_v.right()));
    assert!(corner.contains(&cor_v.down().right()));
    // Edge, 5 neighbours
    let edge_v = Vec2::new(0, 3);
    let edge = Board::checker_neighbours(edge_v);
    assert!(edge.contains(&edge_v.down()));
    assert!(edge.contains(&edge_v.down().right()));
    assert!(edge.contains(&edge_v.right()));
    assert!(edge.contains(&edge_v.up()));
    assert!(edge.contains(&edge_v.up().right()));
}

#[test]
fn stone_neighbours() {
    // Middle of board, 4 neighbours
    let middle_vector = Vec2::new(3, 3);
    let middle_neighbours = Board::stone_neighbours(middle_vector);
    assert!(middle_neighbours.contains(&middle_vector.up()));
    assert!(middle_neighbours.contains(&middle_vector.down()));
    assert!(middle_neighbours.contains(&middle_vector.left()));
    assert!(middle_neighbours.contains(&middle_vector.right()));
    // Corner of board, 2 neighbours
    let corner_vector = Vec2::new(0, 0);
    let corner_neighbours = Board::stone_neighbours(corner_vector);
    assert!(corner_neighbours.contains(&corner_vector.down()));
    assert!(corner_neighbours.contains(&corner_vector.right()));
    // Edge of board, 3 neighbours
    let edge_vector = Vec2::new(0, 3);
    let edge_neighbours = Board::stone_neighbours(edge_vector);
    assert!(edge_neighbours.contains(&edge_vector.down()));
    assert!(edge_neighbours.contains(&edge_vector.right()));
    assert!(edge_neighbours.contains(&edge_vector.up()));
}

#[test]
fn stones_for_player() {
    // Create board, place some stones, verify that list contains all placed stones
    let mut board = Board::new();
    let positions = vec![Vec2::new(0, 0), Vec2::new(5, 5), Vec2::new(4, 2)];
    for pos in positions.iter() {
        board.place_stone_at(*pos, Stone::new(PLAYER_A_ID)).unwrap();
    }
    let stones = board.stones_for_player(PLAYER_A_ID);
    for pos in positions.iter() {
        assert!(stones.contains(pos))
    }
    assert!(stones.len() == positions.len())
}

#[test]
fn checkers_for_player() {
    let board = Board::new();
    let checkers_a = board.checkers_for_player(PLAYER_B_ID);
    let positions = vec![
        Vec2::new(0, 1),
        Vec2::new(0, 2),
        Vec2::new(0, 3),
        Vec2::new(0, 4),
        Vec2::new(1, 2),
        Vec2::new(1, 3),
    ];
    for pos in positions.iter() {
        assert!(checkers_a.contains(pos));
    }
    assert!(positions.len() == checkers_a.len())
}

#[test]
fn empty_stones() {
    let board = Board::new();
    let stones = board.empty_stones();

    assert!(stones.len() == (BOARD_HEIGHT + 1) * (BOARD_WIDTH + 1));
    for x in 0..=BOARD_WIDTH as i32 {
        for y in 0..=BOARD_HEIGHT as i32 {
            let pos = Vec2::new(x, y);
            assert!(stones.contains(&pos));
        }
    }
}

#[test]
fn slide_stone() {
    let mut board = Board::new();
    match board.slide_stone(Vec2::new(-1, -1), Direction::Up) {
        Err(SlideError::IndexError) => (),
        Err(SlideError::BlockedError) => panic!("Expected an IndexError, got a BlockedError"),
        Ok(_) => panic!("Expected an IndexError, got no error"),
    }

    board.place_stone_at(Vec2::new(4, 2), Stone::new(PLAYER_B_ID)).unwrap();
    board.place_stone_at(Vec2::new(3, 1), Stone::new(PLAYER_B_ID)).unwrap();
    board.place_stone_at(Vec2::new(3, 3), Stone::new(PLAYER_B_ID)).unwrap();
    board.place_stone_at(Vec2::new(3, 2), Stone::new(PLAYER_B_ID)).unwrap();
    match board.slide_stone(Vec2::new(3, 2), Direction::Up) {
        Err(SlideError::BlockedError) => (),
        Err(SlideError::IndexError) => panic!("Expected a BlockedError, got an IndexError"),
        Ok(_) => panic!("Expected a BlockedError, got an IndexError"),
    }

    // Normal case -- does it stop when hitting the edge of the board, and does it move?
    let board_edge_pos = Vec2::new(4, 2);
    board.slide_stone(board_edge_pos, Direction::Up).unwrap();
    // Previous position should be empty
    match board.stone_at(board_edge_pos) {
        Ok(stone) => assert_eq!(stone.owner, EMPTY_PLAYER_ID),
        Err(_) => panic!("Expected to slide stone at 2,2 upward, got error instead"),
    }
    // Board edge position should be occupied
    match board.stone_at(Vec2::new(4, 0)) {
        Ok(stone) => assert_eq!(stone.owner, PLAYER_B_ID),
        Err(_) => panic!("Expected to slide stone at 4,2 upward, got error instead"),
    }
    // Normal case -- does it stop when hitting another stone?
    let board_hit_pos = Vec2::new(4, 4);
    board.place_stone_at(board_hit_pos, Stone::new(PLAYER_B_ID)).unwrap();
    board.slide_stone(board_hit_pos, Direction::Up).unwrap();
    // (4, 4) should be empty
    assert_eq!(board.stone_at(board_hit_pos).unwrap().owner, EMPTY_PLAYER_ID);
    // Stone should slide to (4,1), because it is blocked by (4,0)
    assert_eq!(board.stone_at(Vec2::new(4, 1)).unwrap().owner, PLAYER_B_ID);
}

#[test]
fn slide_stone_result() {
    let mut board = Board::new();
    match board.slide_stone_result(Vec2::new(-1, -1), Direction::Up) {
        Err(SlideError::IndexError) => (),
        Err(SlideError::BlockedError) => panic!("Expected an IndexError, got a BlockedError"),
        Ok(_) => panic!("Expected an IndexError, got no error"),
    }

    board.place_stone_at(Vec2::new(4, 2), Stone::new(PLAYER_B_ID)).unwrap();
    board.place_stone_at(Vec2::new(3, 1), Stone::new(PLAYER_B_ID)).unwrap();
    board.place_stone_at(Vec2::new(3, 3), Stone::new(PLAYER_B_ID)).unwrap();
    board.place_stone_at(Vec2::new(3, 2), Stone::new(PLAYER_B_ID)).unwrap();
    match board.slide_stone_result(Vec2::new(3, 2), Direction::Up) {
        Err(SlideError::BlockedError) => (),
        Err(SlideError::IndexError) => panic!("Expected a BlockedError, got an IndexError"),
        Ok(_) => panic!("Expected a BlockedError, got an IndexError"),
    }

    // Normal case -- does it stop when hitting the edge of the board, and does it move?
    let board_edge_pos = Vec2::new(4, 2);
    match board.slide_stone_result(board_edge_pos, Direction::Up) {
        Err(SlideError::BlockedError) => {
            panic!("Expected to slide stone at 2,2 upward, got BlockedError instead")
        }
        Err(SlideError::IndexError) => {
            panic!("Expected to slide stone at 2,2 upward, got IndexError instead")
        }
        Ok(pos) => assert_eq!(pos, Vec2::new(4, 0)),
    }

    // Normal case -- does it stop when hitting another stone?
    let board_hit_pos = Vec2::new(4, 4);
    board.place_stone_at(board_hit_pos, Stone::new(PLAYER_B_ID)).unwrap();
    match board.slide_stone_result(board_hit_pos, Direction::Up) {
        Err(SlideError::BlockedError) => {
            panic!("Expected to slide stone at 2,2 upward, got BlockedError instead")
        }
        Err(SlideError::IndexError) => {
            panic!("Expected to slide stone at 2,2 upward, got IndexError instead")
        }
        // Stone should slide to (4,3), because it is blocked by (4,2)
        Ok(pos) => assert_eq!(pos, Vec2::new(4, 3)),
    }
}

#[test]
fn can_fire_checker_at() {
    let mut board = Board::new();
    // Normal case, checker takes damage and dies
    board.place_checker_at(Vec2::new(5, 2), Checker::new(3, PLAYER_B_ID)).unwrap();
    match board.can_fire_checker_at(Vec2::new(5, 2)) {
        Ok(num_attackers) => assert_eq!(num_attackers, 4),
        Err(_) => panic!("Got error when expecting no error"),
    }
    // IndexError case
    match board.can_fire_checker_at(Vec2::new(-1, -1)) {
        Ok(_) => panic!("Expected an IndexError, got no error"),
        Err(FireError::NoAttackersError) => {
            panic!("Expected an IndexError, got no a NoAttackersError")
        }
        Err(FireError::IndexError) => (),
    }

    board.reset();
    // Nothing in range case
    match board.can_fire_checker_at(Vec2::new(7, 1)) {
        Ok(_) => panic!("Expected a NoAttackersError, got no error"),
        Err(FireError::NoAttackersError) => (),
        Err(FireError::IndexError) => panic!("Expected an IndexError, got an IndexError"),
    }
}

#[test]
fn fire_checker_at() {
    let mut board = Board::from_seed([0; 32]);
    // Normal case, checker takes damage and dies
    board.place_checker_at(Vec2::new(5, 2), Checker::new(3, PLAYER_B_ID)).unwrap();
    board.fire_checker_at(Vec2::new(5, 2)).unwrap();
    let post_fire = board.checker_at(Vec2::new(5, 2)).unwrap();
    assert_eq!(post_fire.height, 0);
    assert_eq!(post_fire.owner, EMPTY_PLAYER_ID);

    // Place stones, normal case with terrain, expect a certain result based on RNG rolls
    let stone_pos = vec![Vec2::new(4, 2), Vec2::new(4, 3), Vec2::new(5, 2), Vec2::new(5, 3)];
    for pos in stone_pos.iter() {
        board.place_stone_at(*pos, Stone::new(PLAYER_B_ID)).unwrap();
    }
    board.place_checker_at(Vec2::new(4, 2), Checker::new(3, PLAYER_B_ID)).unwrap();
    board.fire_checker_at(Vec2::new(4, 2)).unwrap();
    let victim = board.checker_at(Vec2::new(4, 2)).unwrap();
    assert_eq!(victim.height, 2);
    assert_eq!(victim.owner, PLAYER_B_ID);

    // IndexError case
    match board.fire_checker_at(Vec2::new(-1, -1)) {
        Ok(_) => panic!("Expected an IndexError, got no error"),
        Err(FireError::NoAttackersError) => {
            panic!("Expected an IndexError, got no a NoAttackersError")
        }
        Err(FireError::IndexError) => (),
    }
    board.reset();
    // Nothing in range case
    match board.fire_checker_at(Vec2::new(7, 1)) {
        Ok(_) => panic!("Expected a NoAttackersError, got no error"),
        Err(FireError::NoAttackersError) => (),
        Err(FireError::IndexError) => panic!("Expected an IndexError, got an IndexError"),
    }
}

#[test]
fn move_checker() {
    let mut board = Board::new();
    // Normal case
    let start = Vec2::new(1, 2);
    let end = Vec2::new(2, 2);
    let start_checker = board.checker_at(start).unwrap().clone();
    board.move_checker(start, end).unwrap();
    // Start should not be occupied
    assert!(board.checker_at(start).unwrap().owner == EMPTY_PLAYER_ID);
    // End should contain start
    assert!(*board.checker_at(end).unwrap() == start_checker);

    // Trying to move to an occupied square
    match board.move_checker(Vec2::new(1, 3), Vec2::new(0, 3)) {
        Ok(_) => panic!("Expected an OccupiedError, got no error"),
        Err(MoveError::IndexError(_)) => panic!("Expected an OccupiedError, got IndexError"),
        Err(MoveError::NegationError) => panic!("Expected am OccupiedError, got NegationError"),
        Err(MoveError::OccupiedError) => (),
    }
    // Trying to move out of bounds
    match board.move_checker(Vec2::new(0, 2), Vec2::new(-1, 2)) {
        Ok(_) => panic!("Expected an IndexError, got no error"),
        Err(MoveError::IndexError(_)) => (),
        Err(MoveError::NegationError) => panic!("Expected a IndexError, got an NegationError"),
        Err(MoveError::OccupiedError) => panic!("Expected an IndexError, got an OccupiedError"),
    }
}

#[test]
fn as_string() {
    let mut board = Board::new();
    board.place_stone_at(Vec2::new(0, 0), Stone::new(PLAYER_A_ID)).unwrap();
    board.place_stone_at(Vec2::new(0, 6), Stone::new(PLAYER_B_ID)).unwrap();
    let expected = "a . . . . . . . . 
 _ _ _ _ _ _ _ _
. . . . . . . . . 
 2 _ _ _ _ _ _ B
. . . . . . . . . 
 3 1 _ _ _ _ A C
. . . . . . . . . 
 3 1 _ _ _ _ A C
. . . . . . . . . 
 2 _ _ _ _ _ _ B
. . . . . . . . . 
 _ _ _ _ _ _ _ _
b . . . . . . . . 
";
    let rep = board.as_string();
    assert_eq!(rep, expected);
}
