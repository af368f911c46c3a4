use ironclad::board::Direction;
use ironclad::game::Decide;
use ironclad::game::Game;
use ironclad::game::Intent;
use ironclad::game::Player;
use ironclad::grid::BOARD_HEIGHT;
use ironclad::piece::Checker;
use ironclad::piece::EMPTY_PLAYER_ID;
use ironclad::piece::PLAYER_A_ID;
use ironclad::piece::PLAYER_B_ID;
use ironclad::piece::STARTING_STONES;
use ironclad::vec::Vec2;

/// A source of moves that always answers with the same placement.
struct Idle;

impl Decide for Idle {
    fn choose_move(
        &self,
        _move_checkers: Vec<Intent>,
        _fire_checkers: Vec<Intent>,
        _place_stones: Vec<Intent>,
        _slide_stones: Vec<Intent>,
    ) -> Intent {
        Intent::PlaceStone(Vec2::new(0, 0))
    }
}

fn idle_player<'a>(id: i32, nstones: i32) -> Player<'a> {
    Player::new(id, nstones, &Idle)
}

#[test]
fn player_get_stone() {
    let mut player = Player::new(1, 1, &Idle);
    match player.get_stone() {
        None => panic!("Expecting to get a stone!"),
        Some(stone) => assert_eq!(stone.owner, 1),
    }
    assert_eq!(player.stones, 0);
    match player.get_stone() {
        None => (),
        Some(_) => panic!("Expecting to not get a stone!"),
    }
}

#[test]
fn check_for_win() {
    let mut player_a = idle_player(PLAYER_A_ID, STARTING_STONES);
    let mut player_b = idle_player(PLAYER_B_ID, STARTING_STONES);
    let mut game = Game::new(&mut player_a, &mut player_b);
    // Stones wins
    // -- normal case, straight line down the middle of the board
    for player_id in [PLAYER_A_ID, PLAYER_B_ID] {
        for yi in 0..=(BOARD_HEIGHT as i32) {
            let place_position = Vec2::new(4, yi);
            game.apply_move(player_id, Intent::PlaceStone(place_position));
        }
        assert_eq!(game.check_for_win(), Some(player_id));
        game.reset();
    }

    // Checker wins
    game.reset();
    assert_eq!(game.check_for_win(), None);

    game.reset();
    game.apply_move(PLAYER_A_ID, Intent::MoveChecker(Vec2::new(7, 1), Vec2::new(7, 0)));
    for xi in (1..=7).rev() {
        let from_position = Vec2::new(xi, 0);
        let to_position = Vec2::new(xi - 1, 0);
        game.apply_move(PLAYER_A_ID, Intent::MoveChecker(from_position, to_position));
    }

    assert_eq!(game.check_for_win(), Some(PLAYER_A_ID));

    game.reset();
    game.apply_move(PLAYER_B_ID, Intent::MoveChecker(Vec2::new(0, 1), Vec2::new(0, 0)));
    for xi in 0..=6 {
        let from_position = Vec2::new(xi, 0);
        let to_position = Vec2::new(xi + 1, 0);
        game.apply_move(PLAYER_B_ID, Intent::MoveChecker(from_position, to_position));
    }
    assert_eq!(game.check_for_win(), Some(PLAYER_B_ID));

    // Circularity wins
    game.reset();
    let from_position = Vec2::new(4, 0);
    let to_position = Vec2::new(4, BOARD_HEIGHT as i32);
    game.apply_move(PLAYER_A_ID, Intent::PlaceStone(from_position));
    game.apply_move(PLAYER_A_ID, Intent::SlideStone(from_position, Direction::Down));
    game.apply_move(PLAYER_A_ID, Intent::SlideStone(to_position, Direction::Up));
    assert_eq!(game.check_for_win(), Some(PLAYER_B_ID));

    game.reset();
    game.apply_move(PLAYER_B_ID, Intent::PlaceStone(from_position));
    game.apply_move(PLAYER_B_ID, Intent::SlideStone(from_position, Direction::Down));
    game.apply_move(PLAYER_B_ID, Intent::SlideStone(to_position, Direction::Up));
    assert_eq!(game.check_for_win(), Some(PLAYER_A_ID));
}

#[test]
fn checker_moves_for() {
    let mut player_a = idle_player(PLAYER_A_ID, STARTING_STONES);
    let mut player_b = idle_player(PLAYER_B_ID, STARTING_STONES);
    let game = Game::new(&mut player_a, &mut player_b);

    {
        let expected_a_moves = vec![
            Intent::MoveChecker(Vec2::new(7, 1), Vec2::new(7, 0)),
            Intent::MoveChecker(Vec2::new(7, 1), Vec2::new(6, 1)),
            Intent::MoveChecker(Vec2::new(7, 1), Vec2::new(6, 0)),
            Intent::MoveChecker(Vec2::new(7, 2), Vec2::new(6, 1)),
            Intent::MoveChecker(Vec2::new(7, 3), Vec2::new(6, 4)),
            Intent::MoveChecker(Vec2::new(7, 4), Vec2::new(7, 5)),
            Intent::MoveChecker(Vec2::new(7, 4), Vec2::new(6, 4)),
            Intent::MoveChecker(Vec2::new(7, 4), Vec2::new(6, 5)),
            Intent::MoveChecker(Vec2::new(6, 2), Vec2::new(6, 1)),
            Intent::MoveChecker(Vec2::new(6, 2), Vec2::new(5, 2)),
            Intent::MoveChecker(Vec2::new(6, 2), Vec2::new(5, 1)),
            Intent::MoveChecker(Vec2::new(6, 2), Vec2::new(5, 3)),
            Intent::MoveChecker(Vec2::new(6, 3), Vec2::new(6, 4)),
            Intent::MoveChecker(Vec2::new(6, 3), Vec2::new(5, 2)),
            Intent::MoveChecker(Vec2::new(6, 3), Vec2::new(5, 4)),
            Intent::MoveChecker(Vec2::new(6, 3), Vec2::new(5, 3)),
        ];
        let actual_a_moves = game.checker_moves_for(PLAYER_A_ID);

        for move_a in actual_a_moves.iter() {
            println!("{}", move_a.as_string());
        }

        for move_a in expected_a_moves.iter() {
            assert!(actual_a_moves.contains(&move_a));
        }
    }
    {
        let expected_b_moves = vec![
            Intent::MoveChecker(Vec2::new(0, 1), Vec2::new(0, 0)),
            Intent::MoveChecker(Vec2::new(0, 1), Vec2::new(1, 1)),
            Intent::MoveChecker(Vec2::new(0, 1), Vec2::new(1, 0)),
            Intent::MoveChecker(Vec2::new(0, 2), Vec2::new(1, 1)),
            Intent::MoveChecker(Vec2::new(0, 3), Vec2::new(1, 4)),
            Intent::MoveChecker(Vec2::new(0, 4), Vec2::new(0, 5)),
            Intent::MoveChecker(Vec2::new(0, 4), Vec2::new(1, 4)),
            Intent::MoveChecker(Vec2::new(0, 4), Vec2::new(1, 5)),
            Intent::MoveChecker(Vec2::new(1, 2), Vec2::new(1, 1)),
            Intent::MoveChecker(Vec2::new(1, 2), Vec2::new(2, 2)),
            Intent::MoveChecker(Vec2::new(1, 2), Vec2::new(2, 1)),
            Intent::MoveChecker(Vec2::new(1, 2), Vec2::new(2, 3)),
            Intent::MoveChecker(Vec2::new(1, 3), Vec2::new(1, 4)),
            Intent::MoveChecker(Vec2::new(1, 3), Vec2::new(2, 3)),
            Intent::MoveChecker(Vec2::new(1, 3), Vec2::new(2, 4)),
            Intent::MoveChecker(Vec2::new(1, 3), Vec2::new(2, 2)),
        ];
        let actual_b_moves = game.checker_moves_for(PLAYER_B_ID);
        for move_b in expected_b_moves.iter() {
            println!("{}", move_b.as_string());
            assert!(actual_b_moves.contains(&move_b));
        }
    }
}

#[test]
fn checker_fires_for() {
    let mut player_a = idle_player(PLAYER_A_ID, STARTING_STONES);
    let mut player_b = idle_player(PLAYER_B_ID, STARTING_STONES);
    let mut game = Game::new(&mut player_a, &mut player_b);

    {
        let fireable_positions = vec![Vec2::new(5, 2), Vec2::new(5, 3), Vec2::new(5, 5)];
        for pos in fireable_positions.iter() {
            game.board.place_checker_at(*pos, Checker::new(1, PLAYER_B_ID)).unwrap();
        }

        let expected =
            fireable_positions.iter().map(|pos| Intent::FireChecker(*pos)).collect::<Vec<Intent>>();
        let actual = game.checker_fires_for(PLAYER_A_ID);

        println!("Actual moves for Player A:");
        for move_a in actual.iter() {
            println!("{}", move_a.as_string());
        }

        for move_a in expected.iter() {
            assert!(actual.contains(move_a));
        }
    }
    game.reset();
    {
        let fireable_positions = vec![Vec2::new(3, 2), Vec2::new(3, 3), Vec2::new(3, 5)];
        for pos in fireable_positions.iter() {
            game.board.place_checker_at(*pos, Checker::new(1, PLAYER_A_ID)).unwrap();
        }

        let expected =
            fireable_positions.iter().map(|pos| Intent::FireChecker(*pos)).collect::<Vec<Intent>>();
        let actual = game.checker_fires_for(PLAYER_B_ID);

        println!("Actual moves for Player B:");
        for move_b in actual.iter() {
            println!("{}", move_b.as_string());
        }

        for move_b in expected.iter() {
            assert!(actual.contains(move_b));
        }
    }
}

#[test]
fn stone_places_for() {
    let mut player_a = idle_player(PLAYER_A_ID, STARTING_STONES);
    let mut player_b = idle_player(PLAYER_B_ID, STARTING_STONES);
    let game = Game::new(&mut player_a, &mut player_b);

    for player in vec![PLAYER_A_ID, PLAYER_B_ID] {
        // The expected number is 37, because the 6 checkers on each side border 2*13 unique
        // squares, and 63 - 26 = 37
        assert_eq!(game.stone_places_for(player).len(), 37);
    }
}

#[test]
fn stone_slides_for() {
    let mut player_a = idle_player(PLAYER_A_ID, STARTING_STONES);
    let mut player_b = idle_player(PLAYER_B_ID, STARTING_STONES);
    let mut game = Game::new(&mut player_a, &mut player_b);

    let stone_location = Vec2::new(0, 0);
    game.apply_move(PLAYER_A_ID, Intent::PlaceStone(stone_location));

    let expected = vec![
        Intent::SlideStone(stone_location, Direction::Down),
        Intent::SlideStone(stone_location, Direction::Right),
    ];
    let actual = game.stone_slides_for(PLAYER_A_ID);
    for move_actual in actual.iter() {
        println!("{}", move_actual.as_string());
    }
    for stone_slide in expected.iter() {
        assert!(actual.contains(stone_slide));
    }
}

#[test]
fn apply_move() {
    let mut player_a = idle_player(PLAYER_A_ID, STARTING_STONES);
    let mut player_b = idle_player(PLAYER_B_ID, STARTING_STONES);

    // Moving a checker
    let mut game = Game::new(&mut player_a, &mut player_b);

    let from_position = Vec2::new(7, 1);
    let to_position = Vec2::new(7, 0);

    println!("{}", game.board.as_string());
    game.apply_move(PLAYER_A_ID, Intent::MoveChecker(from_position, to_position));
    println!("{}", game.board.as_string());

    assert_eq!(game.board.checker_at(to_position).unwrap().owner, PLAYER_A_ID);
    assert_eq!(game.board.checker_at(from_position).unwrap().owner, EMPTY_PLAYER_ID);

    // Placing a stone
    game.reset();
    let stone_position = Vec2::new(4, 4);
    game.apply_move(PLAYER_A_ID, Intent::PlaceStone(stone_position));
    assert_eq!(game.board.stone_at(stone_position).unwrap().owner, PLAYER_A_ID);
    assert_eq!(game.player(0).stones, STARTING_STONES - 1);

    // Sliding a stone
    game.apply_move(PLAYER_A_ID, Intent::SlideStone(stone_position, Direction::Up));
    assert_eq!(game.board.stone_at(stone_position).unwrap().owner, EMPTY_PLAYER_ID);
    assert_eq!(game.board.stone_at(Vec2::new(4, 0)).unwrap().owner, PLAYER_A_ID);

    // Firing at a checker
    let fire_position = Vec2::new(2, 2);
    game.board.place_checker_at(fire_position, Checker::new(1, PLAYER_A_ID)).unwrap();
    game.apply_move(PLAYER_B_ID, Intent::FireChecker(fire_position));
    assert_eq!(game.board.checker_at(fire_position).unwrap().owner, EMPTY_PLAYER_ID);
}

#[test]
fn game_reset() {
    let mut player_a = idle_player(PLAYER_A_ID, STARTING_STONES);
    let mut player_b = idle_player(PLAYER_B_ID, STARTING_STONES);
    let mut game = Game::new(&mut player_a, &mut player_b);

    // Place some stones for a, b
    game.apply_move(PLAYER_A_ID, Intent::PlaceStone(Vec2::new(4, 4)));
    game.apply_move(PLAYER_B_ID, Intent::PlaceStone(Vec2::new(4, 3)));
    // Place checkers for a, b
    game.apply_move(PLAYER_A_ID, Intent::MoveChecker(Vec2::new(7, 1), Vec2::new(7, 0)));
    game.apply_move(PLAYER_B_ID, Intent::MoveChecker(Vec2::new(0, 1), Vec2::new(0, 0)));
    // reset
    game.reset();
    // Assert that stone_counters reset, stones not on board
    assert_eq!(game.board.stone_at(Vec2::new(4, 4)).unwrap().owner, EMPTY_PLAYER_ID);
    assert_eq!(game.board.stone_at(Vec2::new(4, 3)).unwrap().owner, EMPTY_PLAYER_ID);
    assert_eq!(game.player(0).stones, STARTING_STONES);
    assert_eq!(game.player(1).stones, STARTING_STONES);

    // Assert that checkers not on board.
    assert_eq!(game.board.checker_at(Vec2::new(7, 0)).unwrap().owner, EMPTY_PLAYER_ID);
    assert_eq!(game.board.checker_at(Vec2::new(0, 0)).unwrap().owner, EMPTY_PLAYER_ID);

    // Assert that last moves are empty
    for i in 0..2 {
        assert_eq!(game.last_two_slides_a()[i], None);
        assert_eq!(game.last_two_slides_b()[i], None);
    }
}

#[test]
fn reset() {
    // Number of stones should reset
    let mut player = idle_player(2, 5);
    player.get_stone();
    player.get_stone();
    player.reset();
    assert_eq!(player.stones, 5);
}

#[test]
fn get_stone() {
    let nstones = 5;
    let id = 2;
    let mut player = idle_player(id, nstones);
    let mut stone_counter = 0;
    while let Some(stone) = player.get_stone() {
        stone_counter += 1;
        assert_eq!(stone.owner, id);
    }
    assert_eq!(player.stones, 0);
    assert_eq!(stone_counter, nstones);
    if let Some(_stone) = player.get_stone() {
        panic!("Expected None, got Some");
    }
    assert_eq!(player.stones, 0);
}
