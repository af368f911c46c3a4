use crate::board::Board;
use crate::board::BoardView;
use crate::board::Direction;
use crate::grid::cell_valid;
use crate::grid::node_valid;
use crate::piece::Stone;
use crate::piece::EMPTY_PLAYER_ID;
use crate::piece::PLAYER_A_ID;
use crate::piece::PLAYER_B_ID;
use crate::vec::Vec2;
use vstd::prelude::*;

pub mod moves;
pub mod win;

verus! {

/// A decision of a player: the only vocabulary in which a move is handed to
/// the game.
#[derive(Clone, Copy, Debug, PartialEq, Eq, Structural)]
pub enum Intent {
    /// Move the checker on the first cell to the second.
    MoveChecker(Vec2, Vec2),
    /// Fire at the checker on the cell.
    FireChecker(Vec2),
    /// Put a stone on the node.
    PlaceStone(Vec2),
    /// Slide the stone on the node in the direction.
    SlideStone(Vec2, Direction),
}

/// The capability to choose a move. It is handed the candidate moves of the
/// player to move, in four lists, and answers with one intent.
pub trait Decide {
    /// Whether `chosen` is an answer that this source of moves may give when
    /// it is handed the four lists. A source that says nothing else may give
    /// any answer.
    open spec fn may_choose(
        &self,
        move_checkers: Seq<Intent>,
        fire_checkers: Seq<Intent>,
        place_stones: Seq<Intent>,
        slide_stones: Seq<Intent>,
        chosen: Intent,
    ) -> bool {
        true
    }

    /// Chooses a move. The answer is meant to be one of the candidates;
    /// nothing here holds the chooser to that.
    fn choose_move(
        &self,
        move_checkers: Vec<Intent>,
        fire_checkers: Vec<Intent>,
        place_stones: Vec<Intent>,
        slide_stones: Vec<Intent>,
    ) -> (chosen: Intent)
        ensures
            self.may_choose(
                move_checkers@,
                fire_checkers@,
                place_stones@,
                slide_stones@,
                chosen,
            ),
    ;
}

/// A player: an identity, a supply of stones, and the source of its moves.
pub struct Player<'a> {
    pub id: i32,
    pub stones: i32,
    pub decider: &'a dyn Decide,
    pub max_stones: i32,
}

impl<'a> Player<'a> {
    /// A player with a full supply of `nstones` stones.
    pub fn new(_id: i32, nstones: i32, decide: &'a dyn Decide) -> (player: Player<'a>)
        ensures
            player.id == _id,
            player.stones == nstones,
            player.max_stones == nstones,
    {
        Player { id: _id, stones: nstones, decider: decide, max_stones: nstones }
    }

    /// The player as it is after one stone has been asked of it: one stone
    /// poorer, unless it had none.
    pub open spec fn debited(self) -> Player<'a> {
        if self.stones <= 0 {
            self
        } else {
            Player { stones: (self.stones - 1) as i32, ..self }
        }
    }

    /// The player with its full supply of stones.
    pub open spec fn refilled(self) -> Player<'a> {
        Player { stones: self.max_stones, ..self }
    }

    /// Takes one stone from the supply, if one is left.
    pub fn get_stone(&mut self) -> (stone: Option<Stone>)
        ensures
            *final(self) == old(self).debited(),
            stone == if old(self).stones <= 0 {
                None
            } else {
                Some(Stone { owner: old(self).id })
            },
    {
        if self.stones <= 0 {
            None
        } else {
            self.stones -= 1;
            Some(Stone::new(self.id))
        }
    }

    /// Restores the full supply of stones.
    pub fn reset(&mut self)
        ensures
            *final(self) == old(self).refilled(),
    {
        self.stones = self.max_stones;
    }
}

impl<'a> Decide for Player<'a> {
    /// A player may give the answers that its source of moves may give.
    open spec fn may_choose(
        &self,
        move_checkers: Seq<Intent>,
        fire_checkers: Seq<Intent>,
        place_stones: Seq<Intent>,
        slide_stones: Seq<Intent>,
        chosen: Intent,
    ) -> bool {
        self.decider.may_choose(move_checkers, fire_checkers, place_stones, slide_stones, chosen)
    }

    /// Asks the source of moves of the player.
    fn choose_move(
        &self,
        move_checkers: Vec<Intent>,
        fire_checkers: Vec<Intent>,
        place_stones: Vec<Intent>,
        slide_stones: Vec<Intent>,
    ) -> (chosen: Intent) {
        self.decider.choose_move(move_checkers, fire_checkers, place_stones, slide_stones)
    }
}

/// The list of candidates that a letter of the menu names: `M` the checker
/// moves, `A` the fires, `P` the placements, `S` the slides. No other
/// letter names a list.
pub open spec fn menu_list(
    letter: char,
    move_checkers: Seq<Intent>,
    fire_checkers: Seq<Intent>,
    place_stones: Seq<Intent>,
    slide_stones: Seq<Intent>,
) -> Option<Seq<Intent>> {
    if letter == 'M' {
        Some(move_checkers)
    } else if letter == 'A' {
        Some(fire_checkers)
    } else if letter == 'P' {
        Some(place_stones)
    } else if letter == 'S' {
        Some(slide_stones)
    } else {
        None
    }
}

/// The candidate that a choice on the menu stands for: the entry with the
/// given number of the list that the letter names. A letter that names no
/// list, or a number past the end of the list, stands for nothing.
pub open spec fn menu_choice(
    letter: char,
    number: int,
    move_checkers: Seq<Intent>,
    fire_checkers: Seq<Intent>,
    place_stones: Seq<Intent>,
    slide_stones: Seq<Intent>,
) -> Option<Intent> {
    match menu_list(letter, move_checkers, fire_checkers, place_stones, slide_stones) {
        Some(list) => if 0 <= number < list.len() {
            Some(list[number])
        } else {
            None
        },
        None => None,
    }
}

/// The list of candidates that a letter of the menu names.
pub fn select_list<'a>(
    letter: char,
    move_checkers: &'a Vec<Intent>,
    fire_checkers: &'a Vec<Intent>,
    place_stones: &'a Vec<Intent>,
    slide_stones: &'a Vec<Intent>,
) -> (list: Option<&'a Vec<Intent>>)
    ensures
        match list {
            Some(named) => Some(named@),
            None => None,
        } == menu_list(letter, move_checkers@, fire_checkers@, place_stones@, slide_stones@),
{
    if letter == 'M' {
        Some(move_checkers)
    } else if letter == 'A' {
        Some(fire_checkers)
    } else if letter == 'P' {
        Some(place_stones)
    } else if letter == 'S' {
        Some(slide_stones)
    } else {
        None
    }
}

/// The candidate that a choice on the menu stands for.
pub fn select_candidate(
    letter: char,
    number: usize,
    move_checkers: &Vec<Intent>,
    fire_checkers: &Vec<Intent>,
    place_stones: &Vec<Intent>,
    slide_stones: &Vec<Intent>,
) -> (chosen: Option<Intent>)
    ensures
        chosen == menu_choice(
            letter,
            number as int,
            move_checkers@,
            fire_checkers@,
            place_stones@,
            slide_stones@,
        ),
{
    match select_list(letter, move_checkers, fire_checkers, place_stones, slide_stones) {
        Some(list) => if number < list.len() {
            Some(list[number])
        } else {
            None
        },
        None => None,
    }
}

/// Whether a game is still being played.
#[derive(Clone, Copy, Debug, PartialEq, Eq, Structural)]
pub enum GameState {
    /// Nobody has been found to have won.
    InProgress,
    /// The player with this identity has won.
    Decided(i32),
}

/// The record of a player's latest intents: the latest first, then the one
/// before it.
pub open spec fn recorded(recent: Seq<Option<Intent>>, intent: Intent) -> Seq<Option<Intent>> {
    seq![Some(intent), recent[0]]
}

impl BoardView {
    /// Whether the board accepts the intent: the operation that carries it
    /// out reports no error.
    pub open spec fn permits(self, intent: Intent) -> bool {
        match intent {
            Intent::MoveChecker(from, to) => {
                &&& cell_valid(from@)
                &&& cell_valid(to@)
                &&& self.checker(to@).is_vacant()
            },
            Intent::FireChecker(at) => cell_valid(at@) && self.attackers(at@) > 0,
            Intent::PlaceStone(at) => {
                &&& node_valid(at@)
                &&& self.stone(at@).is_vacant()
                &&& !self.negated(at@)
            },
            Intent::SlideStone(from, dir) => node_valid(from@) && !self.slide_blocked(from@, dir),
        }
    }

    /// Whether `after` is a board that the intent of `player` can leave
    /// behind. Only a fire has more than one outcome: one for each way the
    /// dice can fall.
    pub open spec fn leads_to(self, player: i32, intent: Intent, after: BoardView) -> bool {
        match intent {
            Intent::MoveChecker(from, to) => after == self.with_checkers_swapped(to@, from@),
            Intent::FireChecker(at) => exists|rolls: Seq<u32>| #[trigger]
                self.fire_outcome(at@, rolls, after),
            Intent::PlaceStone(at) => after == self.with_stone(at@, Stone { owner: player }),
            Intent::SlideStone(from, dir) => after == self.with_stones_swapped(
                self.slide_target(from@, dir),
                from@,
            ),
        }
    }
}

/// The mathematical content of a game.
pub struct GameView<'a> {
    /// The content of the board.
    pub board: BoardView,
    /// The two players; the one in seat 0 moves first.
    pub players: Seq<Player<'a>>,
    /// The two latest intents of the first player, the latest first.
    pub recent_a: Seq<Option<Intent>>,
    /// The two latest intents of the second player, the latest first.
    pub recent_b: Seq<Option<Intent>>,
    /// Whether the game has been decided.
    pub state: GameState,
}

impl<'a> GameView<'a> {
    /// Both seats are taken and both records have their two entries.
    pub open spec fn shaped(self) -> bool {
        &&& self.board.shaped()
        &&& self.players.len() == 2
        &&& self.recent_a.len() == 2
        &&& self.recent_b.len() == 2
    }

    /// The game after `player` has made a move that left `board` behind. A
    /// stone that was placed has been taken from the supply of the player,
    /// where it is one of the two players of the game, and the intent has
    /// been put on record for that player.
    pub open spec fn moved(self, player: i32, intent: Intent, board: BoardView) -> GameView<'a> {
        GameView {
            board,
            players: seq![
                if intent is PlaceStone && player == PLAYER_A_ID {
                    self.players[0].debited()
                } else {
                    self.players[0]
                },
                if intent is PlaceStone && player == PLAYER_B_ID {
                    self.players[1].debited()
                } else {
                    self.players[1]
                },
            ],
            recent_a: if player == PLAYER_A_ID {
                recorded(self.recent_a, intent)
            } else {
                self.recent_a
            },
            recent_b: if player == PLAYER_B_ID {
                recorded(self.recent_b, intent)
            } else {
                self.recent_b
            },
            state: self.state,
        }
    }

    /// Whether a turn in which `player` chose `chosen` ends with the game
    /// `after` and the result `outcome`. An intent that the board accepts is
    /// carried out, the winner is looked for, and the intent is handed back
    /// with what was found. An intent that the board does not accept is
    /// handed back as an error, and the game is left as it was.
    pub open spec fn turn_ends(
        self,
        player: i32,
        chosen: Intent,
        after: GameView<'a>,
        outcome: Result<(Intent, Option<i32>), Intent>,
    ) -> bool {
        if self.board.permits(chosen) {
            let moved = self.moved(player, chosen, after.board);
            &&& self.board.leads_to(player, chosen, after.board)
            &&& after == moved.judged(moved.winner())
            &&& outcome == Ok::<(Intent, Option<i32>), Intent>((chosen, moved.winner()))
        } else {
            &&& after == self
            &&& outcome == Err::<(Intent, Option<i32>), Intent>(chosen)
        }
    }

    /// The game set back to its start: the starting position, both
    /// supplies full, nothing recorded, nothing decided.
    pub open spec fn restarted(self) -> GameView<'a> {
        GameView {
            board: BoardView::start(),
            players: seq![self.players[0].refilled(), self.players[1].refilled()],
            recent_a: seq![None, None],
            recent_b: seq![None, None],
            state: GameState::InProgress,
        }
    }
}

/// The rules and the course of one game: the board, the two players, and
/// what each of them did last.
pub struct Game<'a> {
    pub board: Board,
    players: [&'a mut Player<'a>; 2],
    // The latest intent is stored at 0.
    last_two_slides_a: [Option<Intent>; 2],
    last_two_slides_b: [Option<Intent>; 2],
    state: GameState,
}

impl<'a> View for Game<'a> {
    type V = GameView<'a>;

    closed spec fn view(&self) -> GameView<'a> {
        GameView {
            board: self.board@,
            players: seq![*self.players@[0], *self.players@[1]],
            recent_a: self.last_two_slides_a@,
            recent_b: self.last_two_slides_b@,
            state: self.state,
        }
    }
}

impl<'a> Game<'a> {
    /// The state of the dice of the board.
    pub closed spec fn dice(&self) -> rand::rngs::StdRng {
        self.board.dice()
    }

    /// Both seats of a game are always taken, and both records always have
    /// their two entries.
    pub proof fn lemma_shaped(&self)
        ensures
            self@.shaped(),
    {
        self.board.lemma_shaped();
    }

    /// A game in the starting position between two players, nothing
    /// recorded and nothing decided.
    pub fn new(player_a: &'a mut Player<'a>, player_b: &'a mut Player<'a>) -> (game: Game<'a>)
        ensures
            game@ == (GameView {
                board: BoardView::start(),
                players: seq![*old(player_a), *old(player_b)],
                recent_a: seq![None, None],
                recent_b: seq![None, None],
                state: GameState::InProgress,
            }),
            game@.board.wf(),
    {
        let game = Game {
            board: Board::new(),
            players: [player_a, player_b],
            last_two_slides_a: [None, None],
            last_two_slides_b: [None, None],
            state: GameState::InProgress,
        };
        assert(game@.recent_a =~= seq![None, None]);
        assert(game@.recent_b =~= seq![None, None]);
        game
    }

    /// Puts the board back into the starting position, refills the supply
    /// of both players, forgets what they did last, and reopens the game.
    /// The dice are left as they are.
    pub fn reset(&mut self)
        ensures
            final(self)@ == old(self)@.restarted(),
            final(self).dice() == old(self).dice(),
    {
        self.board.reset();
        self.players[0].reset();
        self.players[1].reset();
        self.last_two_slides_a = [None, None];
        self.last_two_slides_b = [None, None];
        self.state = GameState::InProgress;
        assert(self@.recent_a =~= seq![None, None]);
        assert(self@.recent_b =~= seq![None, None]);
        assert(self@.players =~= old(self)@.restarted().players);
    }

    /// The board of the game.
    pub fn board(&self) -> (board: &Board)
        ensures
            board@ == self@.board,
            board.dice() == self.dice(),
    {
        &self.board
    }

    /// Mutable access to the board of the game. Whatever the caller leaves
    /// on the board is what the game goes on with; nothing else changes.
    pub fn board_mut(&mut self) -> (board: &mut Board)
        ensures
            board@ == old(self)@.board,
            board.dice() == old(self).dice(),
            final(self)@ == (GameView { board: final(board)@, ..old(self)@ }),
            final(self).dice() == final(board).dice(),
    {
        &mut self.board
    }

    /// The player in a seat; the one in seat 0 moves first.
    pub fn player(&self, seat: usize) -> (player: &Player<'a>)
        requires
            seat < 2,
        ensures
            *player == self@.players[seat as int],
    {
        &*self.players[seat]
    }

    /// The two latest intents of the first player, the latest first.
    pub fn last_two_slides_a(&self) -> (recent: [Option<Intent>; 2])
        ensures
            recent@ == self@.recent_a,
    {
        self.last_two_slides_a
    }

    /// The two latest intents of the second player, the latest first.
    pub fn last_two_slides_b(&self) -> (recent: [Option<Intent>; 2])
        ensures
            recent@ == self@.recent_b,
    {
        self.last_two_slides_b
    }

    /// Whether the game has been decided, and for whom.
    pub fn state(&self) -> (state: GameState)
        ensures
            state == self@.state,
    {
        self.state
    }

    /// Whether the board accepts the intent, so that `apply_move` may be
    /// called with it.
    pub fn is_permitted(&self, intent: Intent) -> (permitted: bool)
        ensures
            permitted == self@.board.permits(intent),
    {
        match intent {
            Intent::FireChecker(position) => self.board.can_fire_checker_at(position).is_ok(),
            Intent::MoveChecker(from, to) => {
                if !Board::is_checker_vec_valid(from) {
                    false
                } else {
                    match self.board.checker_at(to) {
                        Ok(checker) => checker.owner == EMPTY_PLAYER_ID,
                        Err(_) => false,
                    }
                }
            },
            Intent::PlaceStone(at) => {
                match self.board.stone_at(at) {
                    Ok(stone) => stone.owner == EMPTY_PLAYER_ID && !self.board.touches_checker(at),
                    Err(_) => false,
                }
            },
            Intent::SlideStone(from, direction) => self.board.slide_stone_result(
                from,
                direction,
            ).is_ok(),
        }
    }

    /// What a turn comes to once the player has chosen. An intent that the
    /// board accepts is carried out and followed by the search for a winner;
    /// the intent is handed back with what the search found. An intent that
    /// the board does not accept is handed back as an error, and nothing
    /// changes.
    pub fn finish_turn(&mut self, player_id: i32, chosen: Intent) -> (outcome: Result<
        (Intent, Option<i32>),
        Intent,
    >)
        ensures
            old(self)@.turn_ends(player_id, chosen, final(self)@, outcome),
            !old(self)@.board.permits(chosen) ==> final(self).dice() == old(self).dice(),
    {
        if !self.is_permitted(chosen) {
            return Err(chosen);
        }
        self.apply_move(player_id, chosen);
        let win_state = self.check_for_win();
        Ok((chosen, win_state))
    }

    /// One turn of the player in a seat: the player is handed its candidate
    /// moves and chooses an intent, and the turn ends as `finish_turn` says.
    /// Nothing holds the player to the candidates: what it answers is only
    /// known to be an answer that it may give to them.
    pub fn play_turn(&mut self, seat: usize) -> (outcome: Result<(Intent, Option<i32>), Intent>)
        requires
            seat < 2,
        ensures
            ({
                let player = old(self)@.players[seat as int];
                let chosen = match outcome {
                    Ok((chosen, _)) => chosen,
                    Err(chosen) => chosen,
                };
                &&& old(self)@.turn_ends(player.id, chosen, final(self)@, outcome)
                &&& exists|
                    move_checkers: Seq<Intent>,
                    fire_checkers: Seq<Intent>,
                    place_stones: Seq<Intent>,
                    slide_stones: Seq<Intent>,
                |
                    {
                        &&& #[trigger] old(self)@.board.candidates(
                            player.id,
                            move_checkers,
                            fire_checkers,
                            place_stones,
                            slide_stones,
                        )
                        &&& player.may_choose(
                            move_checkers,
                            fire_checkers,
                            place_stones,
                            slide_stones,
                            chosen,
                        )
                    }
            }),
            !(outcome is Ok) ==> final(self).dice() == old(self).dice(),
    {
        let player_id = self.players[seat].id;
        let move_checkers = self.checker_moves_for(player_id);
        let fire_checkers = self.checker_fires_for(player_id);
        let place_stones = self.stone_places_for(player_id);
        let slide_stones = self.stone_slides_for(player_id);
        proof {
            assert(self@.board.candidates(
                player_id,
                move_checkers@,
                fire_checkers@,
                place_stones@,
                slide_stones@,
            ));
        }
        let chosen_move = self.players[seat].choose_move(
            move_checkers,
            fire_checkers,
            place_stones,
            slide_stones,
        );
        self.finish_turn(player_id, chosen_move)
    }

    /// Carries out the intent of a player on the board. A stone that is
    /// placed is taken from the supply of the player, where it is one of
    /// the two players of the game and has a stone left. The intent is then
    /// put on record for that player.
    pub fn apply_move(&mut self, current_player: i32, intent: Intent)
        requires
            old(self)@.board.permits(intent),
        ensures
            old(self)@.board.leads_to(current_player, intent, final(self)@.board),
            final(self)@ == old(self)@.moved(current_player, intent, final(self)@.board),
            !(intent is FireChecker) ==> final(self).dice() == old(self).dice(),
            old(self)@.board.wf() ==> final(self)@.board.wf(),
    {
        match intent {
            Intent::FireChecker(position) => {
                let fired = self.board.fire_checker_at(position);
                assert(fired is Ok);
            },
            Intent::MoveChecker(from, to) => {
                let moved = self.board.move_checker(from, to);
                assert(moved is Ok);
            },
            Intent::PlaceStone(at) => {
                if current_player == PLAYER_A_ID {
                    self.players[0].get_stone();
                } else if current_player == PLAYER_B_ID {
                    self.players[1].get_stone();
                }
                let placed = self.board.place_stone_at(at, Stone::new(current_player));
                assert(placed is Ok);
            },
            Intent::SlideStone(from, direction) => {
                let slid = self.board.slide_stone(from, direction);
                assert(slid is Ok);
            },
        }
        if current_player == PLAYER_A_ID {
            self.last_two_slides_a = [Some(intent), self.last_two_slides_a[0]];
        } else if current_player == PLAYER_B_ID {
            self.last_two_slides_b = [Some(intent), self.last_two_slides_b[0]];
        }
        proof {
            let goal = old(self)@.moved(current_player, intent, self@.board);
            assert(self@.recent_a =~= goal.recent_a);
            assert(self@.recent_b =~= goal.recent_b);
            assert(self@.players =~= goal.players);
        }
    }
}

} // verus!
