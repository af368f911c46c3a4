use crate::board::query::in_scan_order;
use crate::board::query::lemma_scan_order_no_duplicates;
use crate::board::Board;
use crate::board::BoardView;
use crate::board::Direction;
use crate::game::Game;
use crate::game::Intent;
use crate::grid::cell_valid;
use crate::grid::cells_adjacent;
use crate::grid::node_valid;
use crate::list::among;
use crate::list::lemma_among_all;
use crate::list::lemma_among_next;
use crate::list::push_item;
use crate::piece::EMPTY_PLAYER_ID;
use crate::piece::PLAYER_A_ID;
use crate::piece::PLAYER_B_ID;
use crate::vec::Vec2;
use vstd::prelude::*;

verus! {

/// The player on the other side of the board. Anyone but the first player
/// faces the first player.
pub open spec fn opponent_of(player: i32) -> i32 {
    if player == PLAYER_A_ID {
        PLAYER_B_ID
    } else {
        PLAYER_A_ID
    }
}

impl BoardView {
    /// Whether the intent moves a checker of `player` to an empty cell next
    /// to it.
    pub open spec fn offers_checker_move(self, player: i32, intent: Intent) -> bool {
        match intent {
            Intent::MoveChecker(from, to) => {
                &&& cell_valid(from@)
                &&& self.checker(from@).owner == player
                &&& cell_valid(to@)
                &&& cells_adjacent(to@, from@)
                &&& self.checker(to@).is_vacant()
            },
            _ => false,
        }
    }

    /// Whether the intent fires at a checker of the opponent of `player`
    /// that at least one checker attacks.
    pub open spec fn offers_checker_fire(self, player: i32, intent: Intent) -> bool {
        match intent {
            Intent::FireChecker(at) => {
                &&& cell_valid(at@)
                &&& self.checker(at@).owner == opponent_of(player)
                &&& self.attackers(at@) > 0
            },
            _ => false,
        }
    }

    /// Whether the intent places a stone on an empty node that touches no
    /// checker.
    pub open spec fn offers_stone_place(self, intent: Intent) -> bool {
        match intent {
            Intent::PlaceStone(at) => self.node_clear(at@) && !self.negated(at@),
            _ => false,
        }
    }

    /// Whether the intent slides a stone of `player` towards a node next to
    /// it that is empty.
    pub open spec fn offers_stone_slide(self, player: i32, intent: Intent) -> bool {
        match intent {
            Intent::SlideStone(from, dir) => {
                &&& node_valid(from@)
                &&& self.stone(from@).owner == player
                &&& !self.slide_blocked(from@, dir)
            },
            _ => false,
        }
    }

    /// Whether the four lists are the candidate moves of `player`: the
    /// checker moves, the fires, the placements and the slides that the
    /// board offers, each once.
    pub open spec fn candidates(
        self,
        player: i32,
        move_checkers: Seq<Intent>,
        fire_checkers: Seq<Intent>,
        place_stones: Seq<Intent>,
        slide_stones: Seq<Intent>,
    ) -> bool {
        &&& forall|intent: Intent|
            move_checkers.contains(intent) <==> self.offers_checker_move(player, intent)
        &&& forall|intent: Intent|
            fire_checkers.contains(intent) <==> self.offers_checker_fire(player, intent)
        &&& forall|intent: Intent| place_stones.contains(intent) <==> self.offers_stone_place(intent)
        &&& forall|intent: Intent|
            slide_stones.contains(intent) <==> self.offers_stone_slide(player, intent)
        &&& move_checkers.no_duplicates()
        &&& fire_checkers.no_duplicates()
        &&& place_stones.no_duplicates()
        &&& slide_stones.no_duplicates()
    }

    /// Whether the intent is one of the candidate moves of `player`.
    pub open spec fn offers(self, player: i32, intent: Intent) -> bool {
        ||| self.offers_checker_move(player, intent)
        ||| self.offers_checker_fire(player, intent)
        ||| self.offers_stone_place(intent)
        ||| self.offers_stone_slide(player, intent)
    }
}

/// The board accepts every candidate move: what the game offers to a player
/// can be applied.
pub proof fn lemma_candidates_are_permitted(board: BoardView, player: i32, intent: Intent)
    requires
        board.offers(player, intent),
    ensures
        board.permits(intent),
{
}

/// Appends a move from `from` to each of the targets.
fn push_checker_moves(moves: &mut Vec<Intent>, from: Vec2, targets: &Vec<Vec2>)
    requires
        targets@.no_duplicates(),
        old(moves)@.no_duplicates(),
        forall|to: Vec2| !old(moves)@.contains(Intent::MoveChecker(from, to)),
    ensures
        forall|intent: Intent|
            final(moves)@.contains(intent) <==> old(moves)@.contains(intent) || match intent {
                Intent::MoveChecker(origin, to) => origin == from && targets@.contains(to),
                _ => false,
            },
        final(moves)@.no_duplicates(),
{
    let mut k: usize = 0;
    while k < targets.len()
        invariant
            k <= targets.len(),
            targets@.no_duplicates(),
            moves@.no_duplicates(),
            forall|to: Vec2| !old(moves)@.contains(Intent::MoveChecker(from, to)),
            forall|intent: Intent|
                moves@.contains(intent) <==> old(moves)@.contains(intent) || match intent {
                    Intent::MoveChecker(origin, to) => origin == from && among(targets@, k as int, to),
                    _ => false,
                },
        decreases targets.len() - k,
    {
        let to = targets[k];
        push_item(moves, Intent::MoveChecker(from, to));
        proof {
            lemma_among_next(targets@, k as int);
        }
        k += 1;
    }
}

/// Appends a slide from `from` in each of the directions.
fn push_stone_slides(moves: &mut Vec<Intent>, from: Vec2, directions: &Vec<Direction>)
    requires
        directions@.no_duplicates(),
        old(moves)@.no_duplicates(),
        forall|dir: Direction| !old(moves)@.contains(Intent::SlideStone(from, dir)),
    ensures
        forall|intent: Intent|
            final(moves)@.contains(intent) <==> old(moves)@.contains(intent) || match intent {
                Intent::SlideStone(origin, dir) => origin == from && directions@.contains(dir),
                _ => false,
            },
        final(moves)@.no_duplicates(),
{
    let mut k: usize = 0;
    while k < directions.len()
        invariant
            k <= directions.len(),
            directions@.no_duplicates(),
            moves@.no_duplicates(),
            forall|dir: Direction| !old(moves)@.contains(Intent::SlideStone(from, dir)),
            forall|intent: Intent|
                moves@.contains(intent) <==> old(moves)@.contains(intent) || match intent {
                    Intent::SlideStone(origin, dir) => origin == from && among(directions@, k as int, dir),
                    _ => false,
                },
        decreases directions.len() - k,
    {
        let dir = directions[k];
        push_item(moves, Intent::SlideStone(from, dir));
        proof {
            lemma_among_next(directions@, k as int);
        }
        k += 1;
    }
}

impl<'a> Game<'a> {
    /// The moves of the checkers of a player: from each cell that holds a
    /// checker of the player to each empty cell next to it, each move once.
    pub fn checker_moves_for(&self, player: i32) -> (moves: Vec<Intent>)
        ensures
            forall|intent: Intent|
                moves@.contains(intent) <==> self@.board.offers_checker_move(player, intent),
            moves@.no_duplicates(),
    {
        let checkers = self.board.checkers_for_player(player);
        let mut moves: Vec<Intent> = Vec::new();
        let mut i: usize = 0;
        while i < checkers.len()
            invariant
                i <= checkers.len(),
                forall|c: Vec2|
                    checkers@.contains(c) <==> cell_valid(c@) && self@.board.checker(c@).owner
                        == player,
                in_scan_order(checkers@),
                moves@.no_duplicates(),
                forall|intent: Intent|
                    moves@.contains(intent) <==> self@.board.offers_checker_move(player, intent)
                        && match intent {
                        Intent::MoveChecker(from, to) => among(checkers@, i as int, from),
                        _ => false,
                    },
            decreases checkers.len() - i,
        {
            let checker_position = checkers[i];
            assert(checkers@.contains(checker_position));
            let targets = self.empty_checker_n_at(checker_position);
            proof {
                lemma_scan_order_no_duplicates(checkers@);
            }
            push_checker_moves(&mut moves, checker_position, &targets);
            proof {
            lemma_among_next(checkers@, i as int);
        }
        i += 1;
        }
        proof {
            lemma_among_all(checkers@);
        }
        moves
    }

    /// The fires open to a player: at each checker of the opponent that at
    /// least one checker attacks, each fire once.
    pub fn checker_fires_for(&self, player: i32) -> (moves: Vec<Intent>)
        ensures
            forall|intent: Intent|
                moves@.contains(intent) <==> self@.board.offers_checker_fire(player, intent),
            moves@.no_duplicates(),
    {
        let other_player = if player == PLAYER_A_ID {
            PLAYER_B_ID
        } else {
            PLAYER_A_ID
        };
        let mut moves: Vec<Intent> = Vec::new();
        let other_checkers = self.board.checkers_for_player(other_player);
        let mut i: usize = 0;
        while i < other_checkers.len()
            invariant
                i <= other_checkers.len(),
                other_player == opponent_of(player),
                forall|c: Vec2|
                    other_checkers@.contains(c) <==> cell_valid(c@) && self@.board.checker(
                        c@,
                    ).owner == other_player,
                in_scan_order(other_checkers@),
                moves@.no_duplicates(),
                forall|intent: Intent|
                    moves@.contains(intent) <==> self@.board.offers_checker_fire(player, intent)
                        && match intent {
                        Intent::FireChecker(at) => among(other_checkers@, i as int, at),
                        _ => false,
                    },
            decreases other_checkers.len() - i,
        {
            let checker_pos = other_checkers[i];
            assert(other_checkers@.contains(checker_pos));
            proof {
                lemma_scan_order_no_duplicates(other_checkers@);
            }
            if self.board.can_fire_checker_at(checker_pos).is_ok() {
                push_item(&mut moves, Intent::FireChecker(checker_pos));
            }
            proof {
            lemma_among_next(other_checkers@, i as int);
        }
        i += 1;
        }
        proof {
            lemma_among_all(other_checkers@);
        }
        moves
    }

    /// The placements open to any player: on each empty node that touches
    /// no checker, each placement once.
    pub fn stone_places_for(&self, _player: i32) -> (moves: Vec<Intent>)
        ensures
            forall|intent: Intent|
                moves@.contains(intent) <==> self@.board.offers_stone_place(intent),
            moves@.no_duplicates(),
    {
        let mut moves: Vec<Intent> = Vec::new();
        let places = self.valid_stone_places();
        let mut i: usize = 0;
        while i < places.len()
            invariant
                i <= places.len(),
                forall|n: Vec2|
                    places@.contains(n) <==> self@.board.node_clear(n@) && !self@.board.negated(n@),
                places@.no_duplicates(),
                moves@.no_duplicates(),
                forall|intent: Intent|
                    moves@.contains(intent) <==> match intent {
                        Intent::PlaceStone(at) => among(places@, i as int, at),
                        _ => false,
                    },
            decreases places.len() - i,
        {
            let stone_pos = places[i];
            push_item(&mut moves, Intent::PlaceStone(stone_pos));
            proof {
            lemma_among_next(places@, i as int);
        }
        i += 1;
        }
        proof {
            lemma_among_all(places@);
        }
        moves
    }

    /// The slides open to a player: of each stone of the player, in each
    /// direction in which the node next to it is empty, each slide once.
    pub fn stone_slides_for(&self, player: i32) -> (moves: Vec<Intent>)
        ensures
            forall|intent: Intent|
                moves@.contains(intent) <==> self@.board.offers_stone_slide(player, intent),
            moves@.no_duplicates(),
    {
        let mut moves: Vec<Intent> = Vec::new();
        let stone_positions = self.board.stones_for_player(player);
        let mut i: usize = 0;
        while i < stone_positions.len()
            invariant
                i <= stone_positions.len(),
                forall|n: Vec2|
                    stone_positions@.contains(n) <==> node_valid(n@) && self@.board.stone(
                        n@,
                    ).owner == player,
                in_scan_order(stone_positions@),
                moves@.no_duplicates(),
                forall|intent: Intent|
                    moves@.contains(intent) <==> self@.board.offers_stone_slide(player, intent)
                        && match intent {
                        Intent::SlideStone(from, dir) => among(stone_positions@, i as int, from),
                        _ => false,
                    },
            decreases stone_positions.len() - i,
        {
            let stone_position = stone_positions[i];
            assert(stone_positions@.contains(stone_position));
            let directions = self.empty_stone_n_at(stone_position);
            proof {
                lemma_scan_order_no_duplicates(stone_positions@);
            }
            push_stone_slides(&mut moves, stone_position, &directions);
            proof {
            lemma_among_next(stone_positions@, i as int);
        }
        i += 1;
        }
        proof {
            lemma_among_all(stone_positions@);
        }
        moves
    }

    /// The empty cells next to a cell.
    fn empty_checker_n_at(&self, pos: Vec2) -> (empty_neighbours: Vec<Vec2>)
        ensures
            forall|c: Vec2|
                empty_neighbours@.contains(c) <==> cell_valid(c@) && cells_adjacent(c@, pos@)
                    && self@.board.checker(c@).is_vacant(),
            empty_neighbours@.no_duplicates(),
    {
        let mut empty_neighbours: Vec<Vec2> = Vec::new();
        let neighbours = Board::checker_neighbours(pos);
        let mut k: usize = 0;
        while k < neighbours.len()
            invariant
                k <= neighbours.len(),
                forall|c: Vec2|
                    neighbours@.contains(c) <==> cell_valid(c@) && cells_adjacent(c@, pos@),
                neighbours@.no_duplicates(),
                empty_neighbours@.no_duplicates(),
                forall|c: Vec2|
                    empty_neighbours@.contains(c) <==> self@.board.checker(c@).is_vacant() && among(neighbours@, k as int, c),
            decreases neighbours.len() - k,
        {
            let npos = neighbours[k];
            assert(neighbours@.contains(npos));
            match self.board.checker_at(npos) {
                Ok(checker) => {
                    if checker.owner == EMPTY_PLAYER_ID {
                        push_item(&mut empty_neighbours, npos);
                    }
                },
                Err(_) => {},
            }
            proof {
            lemma_among_next(neighbours@, k as int);
        }
        k += 1;
        }
        proof {
            lemma_among_all(neighbours@);
        }
        empty_neighbours
    }

    /// The directions in which the node next to a node is empty.
    fn empty_stone_n_at(&self, pos: Vec2) -> (empty_directions: Vec<Direction>)
        requires
            node_valid(pos@),
        ensures
            forall|dir: Direction|
                empty_directions@.contains(dir) <==> !self@.board.slide_blocked(pos@, dir),
            empty_directions@.no_duplicates(),
    {
        let mut empty_directions: Vec<Direction> = Vec::new();
        self.push_if_open(&mut empty_directions, pos, Direction::Up);
        self.push_if_open(&mut empty_directions, pos, Direction::Down);
        self.push_if_open(&mut empty_directions, pos, Direction::Left);
        self.push_if_open(&mut empty_directions, pos, Direction::Right);
        empty_directions
    }

    /// Appends the direction when the node next to `pos` in that direction
    /// is empty.
    fn push_if_open(&self, out: &mut Vec<Direction>, pos: Vec2, dir: Direction)
        requires
            node_valid(pos@),
        ensures
            forall|other: Direction|
                final(out)@.contains(other) <==> old(out)@.contains(other) || (other == dir
                    && !self@.board.slide_blocked(pos@, dir)),
            old(out)@.no_duplicates() && !old(out)@.contains(dir) ==> final(out)@.no_duplicates(),
    {
        let npos = pos + dir.as_vec();
        if let Ok(stone) = self.board.stone_at(npos) {
            if stone.owner == EMPTY_PLAYER_ID {
                push_item(out, dir);
            }
        }
    }

    /// The empty nodes that touch no checker, in scanning order.
    fn valid_stone_places(&self) -> (valid_pos: Vec<Vec2>)
        ensures
            forall|n: Vec2|
                valid_pos@.contains(n) <==> self@.board.node_clear(n@) && !self@.board.negated(n@),
            valid_pos@.no_duplicates(),
    {
        let mut valid_pos: Vec<Vec2> = Vec::new();
        let empty = self.board.empty_stones();
        proof {
            lemma_scan_order_no_duplicates(empty@);
        }
        let mut i: usize = 0;
        while i < empty.len()
            invariant
                i <= empty.len(),
                forall|n: Vec2| empty@.contains(n) <==> self@.board.node_clear(n@),
                empty@.no_duplicates(),
                valid_pos@.no_duplicates(),
                forall|n: Vec2|
                    valid_pos@.contains(n) <==> !self@.board.negated(n@) && among(empty@, i as int, n),
            decreases empty.len() - i,
        {
            let pos = empty[i];
            assert(empty@.contains(pos));
            if !self.board.touches_checker(pos) {
                push_item(&mut valid_pos, pos);
            }
            proof {
            lemma_among_next(empty@, i as int);
        }
        i += 1;
        }
        proof {
            lemma_among_all(empty@);
        }
        valid_pos
    }
}

} // verus!
