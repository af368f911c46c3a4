use crate::board::BoardView;
use crate::game::Game;
use crate::game::GameState;
use crate::game::GameView;
use crate::game::Intent;
use crate::grid::node_valid;
use crate::grid::BOARD_HEIGHT;
use crate::grid::BOARD_WIDTH;
use crate::piece::PLAYER_A_ID;
use crate::piece::PLAYER_B_ID;
use crate::vec::Coord;
use crate::vec::Vec2;
use vstd::prelude::*;

verus! {

/// The first of three verdicts that names a winner.
pub open spec fn first_winner(
    first: Option<i32>,
    second: Option<i32>,
    third: Option<i32>,
) -> Option<i32> {
    if first is Some {
        first
    } else if second is Some {
        second
    } else {
        third
    }
}

impl BoardView {
    /// Who has broken through in one row of cells: the first player with a
    /// checker in the leftmost column, else the second player with a checker
    /// in the rightmost column.
    pub open spec fn row_breakthrough(self, y: int) -> Option<i32> {
        if self.checker(Coord { x: 0, y }).owner == PLAYER_A_ID {
            Some(PLAYER_A_ID)
        } else if self.checker(Coord { x: BOARD_WIDTH - 1, y }).owner == PLAYER_B_ID {
            Some(PLAYER_B_ID)
        } else {
            None
        }
    }

    /// Who has broken through in the first `rows` rows of cells: the winner
    /// of the topmost row that has one.
    pub open spec fn breakthrough(self, rows: nat) -> Option<i32>
        decreases rows,
    {
        if rows == 0 {
            None
        } else {
            match self.breakthrough((rows - 1) as nat) {
                Some(winner) => Some(winner),
                None => self.row_breakthrough(rows - 1),
            }
        }
    }

    /// Who wins by breakthrough: a checker that stands in the column on the
    /// far side of the board wins the game for its owner.
    pub open spec fn checker_winner(self) -> Option<i32> {
        self.breakthrough(BOARD_HEIGHT as nat)
    }

    /// Whether the two latest intents of a player are slides of which the
    /// second undoes the first: seen from where the board stands now, a
    /// stone that slides from the origin of the latest slide in its
    /// direction, and then on in the direction of the slide before it, comes
    /// to rest on that origin again.
    pub open spec fn slides_in_circle(self, recent: Seq<Option<Intent>>) -> bool {
        match (recent[0], recent[1]) {
            (Some(Intent::SlideStone(from1, dir1)), Some(Intent::SlideStone(_, dir2))) => {
                let mid = self.slide_target(from1@, dir1);
                &&& node_valid(from1@)
                &&& !self.slide_blocked(from1@, dir1)
                &&& !self.slide_blocked(mid, dir2)
                &&& self.slide_target(mid, dir2) == from1@
            },
            _ => false,
        }
    }

    /// Who wins by circularity: a player whose slides go in a circle loses
    /// to the opponent. The first player is judged first.
    pub open spec fn circle_winner(
        self,
        recent_a: Seq<Option<Intent>>,
        recent_b: Seq<Option<Intent>>,
    ) -> Option<i32> {
        if self.slides_in_circle(recent_a) {
            Some(PLAYER_B_ID)
        } else if self.slides_in_circle(recent_b) {
            Some(PLAYER_A_ID)
        } else {
            None
        }
    }

    /// Who wins by connection: the player whose stones connect the top row
    /// of nodes with the bottom row. The first player is judged first.
    pub open spec fn stone_winner(self) -> Option<i32> {
        if self.connects(PLAYER_A_ID) {
            Some(PLAYER_A_ID)
        } else if self.connects(PLAYER_B_ID) {
            Some(PLAYER_B_ID)
        } else {
            None
        }
    }
}

impl<'a> GameView<'a> {
    /// Who has won, if anyone: by breakthrough, else by circularity, else by
    /// connection.
    pub open spec fn winner(self) -> Option<i32> {
        first_winner(
            self.board.checker_winner(),
            self.board.circle_winner(self.recent_a, self.recent_b),
            self.board.stone_winner(),
        )
    }

    /// The game once a winner has been looked for: decided if one was
    /// found, else unchanged.
    pub open spec fn judged(self, verdict: Option<i32>) -> GameView<'a> {
        match verdict {
            Some(winner) => GameView { state: GameState::Decided(winner), ..self },
            None => self,
        }
    }
}

/// Nobody wins by breakthrough exactly when no row has a winner: no checker
/// of the first player stands in the leftmost column, and no checker of the
/// second player stands in the rightmost column.
pub proof fn lemma_no_breakthrough(board: BoardView, rows: nat)
    ensures
        board.breakthrough(rows) is None <==> forall|y: int|
            0 <= y < rows ==> #[trigger] board.row_breakthrough(y) is None,
    decreases rows,
{
    if rows > 0 {
        lemma_no_breakthrough(board, (rows - 1) as nat);
        if board.breakthrough(rows) is None {
            assert forall|y: int| 0 <= y < rows implies #[trigger] board.row_breakthrough(
                y,
            ) is None by {
                if y == rows - 1 {
                    assert(board.row_breakthrough(rows - 1) is None);
                }
            }
        }
        if forall|y: int| 0 <= y < rows ==> #[trigger] board.row_breakthrough(y) is None {
            assert(board.row_breakthrough(rows - 1) is None);
            assert(board.breakthrough((rows - 1) as nat) is None);
        }
    }
}

/// Whoever wins by breakthrough is one of the two players and has a checker
/// in the column on the far side.
pub proof fn lemma_breakthrough_winner(board: BoardView, rows: nat)
    ensures
        board.breakthrough(rows) == Some(PLAYER_A_ID) ==> exists|y: int|
            0 <= y < rows && (#[trigger] board.checker(Coord { x: 0, y })).owner == PLAYER_A_ID,
        board.breakthrough(rows) == Some(PLAYER_B_ID) ==> exists|y: int|
            0 <= y < rows && (#[trigger] board.checker(Coord { x: BOARD_WIDTH - 1, y })).owner
                == PLAYER_B_ID,
        board.breakthrough(rows) is Some ==> board.breakthrough(rows) == Some(PLAYER_A_ID)
            || board.breakthrough(rows) == Some(PLAYER_B_ID),
    decreases rows,
{
    if rows > 0 {
        lemma_breakthrough_winner(board, (rows - 1) as nat);
        if board.breakthrough((rows - 1) as nat) is None {
            if board.row_breakthrough(rows - 1) == Some(PLAYER_A_ID) {
                assert(board.checker(Coord { x: 0, y: rows - 1 }).owner == PLAYER_A_ID);
            }
            if board.row_breakthrough(rows - 1) == Some(PLAYER_B_ID) {
                assert(board.checker(Coord { x: BOARD_WIDTH - 1, y: rows - 1 }).owner
                    == PLAYER_B_ID);
            }
        } else if board.breakthrough(rows) == Some(PLAYER_A_ID) {
            let y = choose|y: int|
                0 <= y < rows - 1 && (#[trigger] board.checker(Coord { x: 0, y })).owner
                    == PLAYER_A_ID;
            assert(0 <= y < rows && board.checker(Coord { x: 0, y }).owner == PLAYER_A_ID);
        } else {
            let y = choose|y: int|
                0 <= y < rows - 1 && (#[trigger] board.checker(
                    Coord { x: BOARD_WIDTH - 1, y },
                )).owner == PLAYER_B_ID;
            assert(0 <= y < rows && board.checker(Coord { x: BOARD_WIDTH - 1, y }).owner
                == PLAYER_B_ID);
        }
    }
}

impl<'a> Game<'a> {
    /// Looks for a winner: by breakthrough, else by circularity, else by
    /// connection. A game in which one is found is decided from then on;
    /// nothing else changes.
    pub fn check_for_win(&mut self) -> (verdict: Option<i32>)
        ensures
            verdict == old(self)@.winner(),
            final(self)@ == old(self)@.judged(verdict),
            final(self).dice() == old(self).dice(),
    {
        let by_checker = self.check_for_checker_win();
        let by_circle = self.check_for_circularity_win();
        let by_stone = self.check_for_stone_win();
        let verdict = if by_checker.is_some() {
            by_checker
        } else if by_circle.is_some() {
            by_circle
        } else {
            by_stone
        };
        if let Some(winner) = verdict {
            self.state = GameState::Decided(winner);
        }
        assert(self@.players =~= old(self)@.players);
        verdict
    }

    /// Whether the stones of a player connect the top row of nodes with the
    /// bottom row, along any chain of them.
    fn check_for_stone_win(&self) -> (verdict: Option<i32>)
        ensures
            verdict == self@.board.stone_winner(),
    {
        if self.board.connects_rows(PLAYER_A_ID) {
            Some(PLAYER_A_ID)
        } else if self.board.connects_rows(PLAYER_B_ID) {
            Some(PLAYER_B_ID)
        } else {
            None
        }
    }

    /// Whether a checker has reached the side of the board opposite to the
    /// one it started on.
    fn check_for_checker_win(&self) -> (verdict: Option<i32>)
        ensures
            verdict == self@.board.checker_winner(),
    {
        let mut yi: i32 = 0;
        while yi < BOARD_HEIGHT as i32
            invariant
                0 <= yi <= BOARD_HEIGHT,
                self@.board.breakthrough(yi as nat) is None,
            decreases BOARD_HEIGHT - yi,
        {
            proof {
                self.board.lemma_shaped();
                lemma_breakthrough_holds(self@.board, (yi + 1) as nat, BOARD_HEIGHT as nat);
            }
            let position_a = Vec2::new(0, yi);
            if let Ok(checker) = self.board.checker_at(position_a) {
                if checker.owner == PLAYER_A_ID {
                    return Some(PLAYER_A_ID);
                }
            }
            let position_b = Vec2::new(BOARD_WIDTH as i32 - 1, yi);
            if let Ok(checker) = self.board.checker_at(position_b) {
                if checker.owner == PLAYER_B_ID {
                    return Some(PLAYER_B_ID);
                }
            }
            yi += 1;
        }
        None
    }

    /// Whether the two latest intents of a player are slides that go in a
    /// circle, which hands the game to the opponent. The slides are followed
    /// by looking ahead on the board as it stands: no stone is moved, and
    /// nothing is taken back. A player whose slides cannot be followed,
    /// because one of them is blocked, has not gone in a circle.
    fn check_for_circularity_win(&self) -> (verdict: Option<i32>)
        ensures
            verdict == self@.board.circle_winner(self@.recent_a, self@.recent_b),
    {
        if self.slides_in_circle(&self.last_two_slides_a) {
            Some(PLAYER_B_ID)
        } else if self.slides_in_circle(&self.last_two_slides_b) {
            Some(PLAYER_A_ID)
        } else {
            None
        }
    }

    /// Whether two recorded intents are slides that go in a circle.
    fn slides_in_circle(&self, recent: &[Option<Intent>; 2]) -> (circle: bool)
        ensures
            circle == self@.board.slides_in_circle(recent@),
    {
        if let Some(Intent::SlideStone(from1, dir1)) = recent[0] {
            if let Some(Intent::SlideStone(_, dir2)) = recent[1] {
                if let Ok(mid_position) = self.board.slide_stone_result(from1, dir1) {
                    if let Ok(end_position) = self.board.slide_stone_result(mid_position, dir2) {
                        return from1 == end_position;
                    }
                }
            }
        }
        false
    }
}

/// A breakthrough in the first rows is a breakthrough in any larger number
/// of rows, with the same winner.
proof fn lemma_breakthrough_holds(board: BoardView, rows: nat, more: nat)
    requires
        rows <= more,
    ensures
        board.breakthrough(rows) is Some ==> board.breakthrough(more) == board.breakthrough(rows),
    decreases more,
{
    if rows < more {
        lemma_breakthrough_holds(board, rows, (more - 1) as nat);
    }
}

} // verus!
