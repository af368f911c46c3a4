use crate::dice::rng_from_entropy;
use crate::dice::rng_from_seed;
use crate::grid::cell_index;
use crate::grid::cell_of_index;
use crate::grid::cell_valid;
use crate::grid::node_index;
use crate::grid::node_valid;
use crate::grid::touches;
use crate::grid::BOARD_HEIGHT;
use crate::grid::BOARD_WIDTH;
use crate::grid::CELL_COUNT;
use crate::grid::NODE_COUNT;
use crate::piece::Checker;
use crate::piece::Stone;
use crate::piece::EMPTY_PLAYER_ID;
use crate::piece::PLAYER_A_ID;
use crate::piece::PLAYER_B_ID;
use crate::vec::unit_down;
use crate::vec::unit_left;
use crate::vec::unit_right;
use crate::vec::unit_up;
use crate::vec::Coord;
use crate::vec::Vec2;
use rand::rngs::StdRng;
use vstd::prelude::*;
use vstd::string::*;

pub mod combat;
pub mod connect;
pub mod neighbours;
pub mod query;
pub mod render;
pub mod slide;

verus! {

/// Why a piece could not be placed or a checker could not be moved.
#[derive(Clone, Debug)]
pub enum MoveError {
    /// A position lies outside its grid; the text says which bounds apply.
    IndexError(String),
    /// The destination already holds a piece.
    OccupiedError,
    /// A stone would touch a cell that holds a checker.
    NegationError,
}

impl MoveError {
    /// What the error says to a reader.
    pub open spec fn text(self) -> Seq<char> {
        match self {
            MoveError::IndexError(msg) => msg@,
            MoveError::OccupiedError => "Space is already occupied"@,
            MoveError::NegationError => "Cannot place a stone on a square with a checker."@,
        }
    }

    /// What the error says to a reader.
    pub fn message(&self) -> (message: String)
        ensures
            message@ == self.text(),
    {
        match self {
            MoveError::IndexError(msg) => msg.clone(),
            MoveError::OccupiedError => String::from_str("Space is already occupied"),
            MoveError::NegationError => String::from_str(
                "Cannot place a stone on a square with a checker.",
            ),
        }
    }
}

/// Why a checker could not be fired at.
#[derive(Clone, Debug)]
pub enum FireError {
    /// The target lies outside the cell grid.
    IndexError,
    /// No hostile checker is in range of the target.
    NoAttackersError,
}

/// Why a stone could not be slid.
#[derive(Clone, Debug)]
pub enum SlideError {
    /// The origin lies outside the intersection grid.
    IndexError,
    /// The stone cannot move even one step.
    BlockedError,
}

/// One of the four directions in which a stone slides.
#[derive(Clone, Copy, Debug, PartialEq, Eq, Structural)]
pub enum Direction {
    Up,
    Down,
    Left,
    Right,
}

impl Direction {
    /// The displacement of one step in this direction.
    pub open spec fn offset(self) -> Coord {
        match self {
            Direction::Up => Coord::up(),
            Direction::Down => Coord::down(),
            Direction::Left => Coord::left(),
            Direction::Right => Coord::right(),
        }
    }

    /// The displacement of one step in this direction.
    pub fn as_vec(&self) -> (v: Vec2)
        ensures
            v@ == self.offset(),
    {
        match self {
            Direction::Up => unit_up(),
            Direction::Down => unit_down(),
            Direction::Left => unit_left(),
            Direction::Right => unit_right(),
        }
    }
}

/// The mathematical content of a board: the checkers of the cell grid and
/// the stones of the intersection grid, both in row-major order.
pub struct BoardView {
    pub checkers: Seq<Checker>,
    pub stones: Seq<Stone>,
}

impl BoardView {
    /// Both grids have their full size.
    pub open spec fn shaped(self) -> bool {
        &&& self.checkers.len() == CELL_COUNT
        &&& self.stones.len() == NODE_COUNT
    }

    /// The checker on a cell.
    pub open spec fn checker(self, c: Coord) -> Checker
        recommends
            cell_valid(c),
    {
        self.checkers[cell_index(c)]
    }

    /// The stone on a node.
    pub open spec fn stone(self, c: Coord) -> Stone
        recommends
            node_valid(c),
    {
        self.stones[node_index(c)]
    }

    /// Whether a cell lies on the grid and holds a checker.
    pub open spec fn cell_occupied(self, c: Coord) -> bool {
        cell_valid(c) && !self.checker(c).is_vacant()
    }

    /// Whether a node lies on the grid and holds no stone.
    pub open spec fn node_clear(self, c: Coord) -> bool {
        node_valid(c) && self.stone(c).is_vacant()
    }

    /// Whether some cell that touches the node holds a checker.
    pub open spec fn negated(self, node: Coord) -> bool {
        exists|cell: Coord| touches(cell, node) && #[trigger] self.cell_occupied(cell)
    }

    /// The board with one cell overwritten.
    pub open spec fn with_checker(self, c: Coord, checker: Checker) -> BoardView {
        BoardView { checkers: self.checkers.update(cell_index(c), checker), stones: self.stones }
    }

    /// The board with one node overwritten.
    pub open spec fn with_stone(self, c: Coord, stone: Stone) -> BoardView {
        BoardView { checkers: self.checkers, stones: self.stones.update(node_index(c), stone) }
    }

    /// The board with the contents of two cells exchanged.
    pub open spec fn with_checkers_swapped(self, a: Coord, b: Coord) -> BoardView {
        self.with_checker(a, self.checker(b)).with_checker(b, self.checker(a))
    }

    /// The board with the contents of two nodes exchanged.
    pub open spec fn with_stones_swapped(self, a: Coord, b: Coord) -> BoardView {
        self.with_stone(a, self.stone(b)).with_stone(b, self.stone(a))
    }

    /// Every checker on the board is well formed.
    pub open spec fn wf(self) -> bool {
        &&& self.shaped()
        &&& forall|i: int| 0 <= i < self.checkers.len() ==> (#[trigger] self.checkers[i]).wf()
    }

    /// The checker that a cell holds when a game starts.
    pub open spec fn start_checker(c: Coord) -> Checker {
        if c.x == 6 && (c.y == 2 || c.y == 3) {
            Checker { height: 1, owner: PLAYER_A_ID }
        } else if c.x == 7 && (c.y == 1 || c.y == 4) {
            Checker { height: 2, owner: PLAYER_A_ID }
        } else if c.x == 7 && (c.y == 2 || c.y == 3) {
            Checker { height: 3, owner: PLAYER_A_ID }
        } else if c.x == 1 && (c.y == 2 || c.y == 3) {
            Checker { height: 1, owner: PLAYER_B_ID }
        } else if c.x == 0 && (c.y == 1 || c.y == 4) {
            Checker { height: 2, owner: PLAYER_B_ID }
        } else if c.x == 0 && (c.y == 2 || c.y == 3) {
            Checker { height: 3, owner: PLAYER_B_ID }
        } else {
            Checker::vacant()
        }
    }

    /// The starting position: six checkers for each player, no stones.
    pub open spec fn start() -> BoardView {
        BoardView {
            checkers: Seq::new(CELL_COUNT as nat, |i: int| Self::start_checker(cell_of_index(i))),
            stones: Seq::new(NODE_COUNT as nat, |i: int| Stone::vacant()),
        }
    }
}

/// The cell that faces a cell across the middle of the board.
pub open spec fn mirrored(c: Coord) -> Coord {
    Coord { x: BOARD_WIDTH - 1 - c.x, y: c.y }
}

/// Whether a cell holds a checker when a game starts: four cells of each
/// outer column and two cells of the column next to it, twelve in all.
pub open spec fn starts_occupied(c: Coord) -> bool {
    ||| ((c.x == 0 || c.x == BOARD_WIDTH - 1) && 1 <= c.y <= 4)
    ||| ((c.x == 1 || c.x == BOARD_WIDTH - 2) && 2 <= c.y <= 3)
}

/// The starting position is well formed, holds no stone, and holds a
/// checker on twelve cells. It is symmetric: the cell that faces a checker
/// of one player across the middle of the board holds a checker of the other
/// player, of the same height.
pub proof fn lemma_start_position()
    ensures
        BoardView::start().wf(),
        forall|n: Coord| node_valid(n) ==> (#[trigger] BoardView::start().stone(n)).is_vacant(),
        forall|c: Coord|
            cell_valid(c) ==> (!(#[trigger] BoardView::start().checker(c)).is_vacant()
                <==> starts_occupied(c)),
        forall|c: Coord|
            cell_valid(c) ==> (#[trigger] BoardView::start().checker(c)).height
                == BoardView::start().checker(mirrored(c)).height,
        forall|c: Coord|
            cell_valid(c) ==> ((#[trigger] BoardView::start().checker(c)).owner == PLAYER_A_ID
                <==> BoardView::start().checker(mirrored(c)).owner == PLAYER_B_ID),
{
    assert forall|c: Coord| cell_valid(c) implies #[trigger] BoardView::start().checker(c)
        == BoardView::start_checker(c) by {
        crate::grid::lemma_cell_index_inverse(c);
    }
    assert forall|c: Coord| cell_valid(c) implies cell_valid(mirrored(c)) by {}
    assert forall|i: int| 0 <= i < BoardView::start().checkers.len() implies (
    #[trigger] BoardView::start().checkers[i]).wf() by {}
}

/// The text carried by the index error of a checker placement.
pub open spec fn checker_index_message() -> Seq<char> {
    "{pos} not within 0,0 and {BOARD_WIDTH-1},{BOARD_HEIGHT-1}"@
}

/// The text carried by the index error of a stone placement.
pub open spec fn stone_index_message() -> Seq<char> {
    "{pos} not within 0,0 and {BOARD_WIDTH},{BOARD_HEIGHT}"@
}

/// The text carried by the index error of a checker move.
pub open spec fn move_index_message() -> Seq<char> {
    "{vec} is not a valid checker position"@
}

/// The two grids of the game and the dice used in combat.
pub struct Board {
    checker_board: [Checker; CELL_COUNT],
    stone_board: [Stone; NODE_COUNT],
    rng: StdRng,
}

impl View for Board {
    type V = BoardView;

    closed spec fn view(&self) -> BoardView {
        BoardView { checkers: self.checker_board@, stones: self.stone_board@ }
    }
}

impl Board {
    /// The state of the random source the board owns.
    pub closed spec fn dice(&self) -> StdRng {
        self.rng
    }

    /// Every checker on the board is well formed.
    pub open spec fn wf(&self) -> bool {
        self@.wf()
    }

    /// Both grids of a board always have their full size.
    pub proof fn lemma_shaped(&self)
        ensures
            self@.shaped(),
    {
    }

    /// A board in the starting position, with dice seeded from the
    /// operating system.
    pub fn new() -> (board: Board)
        ensures
            board@ == BoardView::start(),
            board.wf(),
    {
        let mut board = Board {
            checker_board: [Checker { height: 0, owner: EMPTY_PLAYER_ID }; CELL_COUNT],
            stone_board: [Stone { owner: EMPTY_PLAYER_ID }; NODE_COUNT],
            rng: rng_from_entropy(),
        };
        board.place_start_pieces();
        board
    }

    /// A board in the starting position, with the dice that rand makes of
    /// `seed`: boards made of the same seed roll the same dice.
    pub fn from_seed(seed: [u8; 32]) -> (board: Board)
        ensures
            board@ == BoardView::start(),
            board.wf(),
            board.dice() == crate::dice::seeded_dice(seed@),
    {
        let mut board = Board {
            checker_board: [Checker { height: 0, owner: EMPTY_PLAYER_ID }; CELL_COUNT],
            stone_board: [Stone { owner: EMPTY_PLAYER_ID }; NODE_COUNT],
            rng: rng_from_seed(seed),
        };
        board.place_start_pieces();
        board
    }

    /// Puts the board back into the starting position, whatever it holds.
    /// The dice are left as they are.
    pub fn reset(&mut self)
        ensures
            final(self)@ == BoardView::start(),
            final(self).wf(),
            final(self).dice() == old(self).dice(),
    {
        self.clear_board();
        self.place_start_pieces()
    }

    /// Puts the twelve checkers of the starting position on an empty board.
    fn place_start_pieces(&mut self)
        requires
            forall|i: int| 0 <= i < CELL_COUNT ==> old(self)@.checkers[i] == Checker::vacant(),
            forall|i: int| 0 <= i < NODE_COUNT ==> old(self)@.stones[i] == Stone::vacant(),
        ensures
            final(self)@ == BoardView::start(),
            final(self).wf(),
            final(self).dice() == old(self).dice(),
    {
        let a1 = self.place_checker_at(Vec2::new(6, 2), Checker::new(1, PLAYER_A_ID));
        let a2 = self.place_checker_at(Vec2::new(6, 3), Checker::new(1, PLAYER_A_ID));
        let a3 = self.place_checker_at(Vec2::new(7, 1), Checker::new(2, PLAYER_A_ID));
        let a4 = self.place_checker_at(Vec2::new(7, 4), Checker::new(2, PLAYER_A_ID));
        let a5 = self.place_checker_at(Vec2::new(7, 3), Checker::new(3, PLAYER_A_ID));
        let a6 = self.place_checker_at(Vec2::new(7, 2), Checker::new(3, PLAYER_A_ID));
        assert(a1 is Ok && a2 is Ok && a3 is Ok && a4 is Ok && a5 is Ok && a6 is Ok);

        let b1 = self.place_checker_at(Vec2::new(1, 2), Checker::new(1, PLAYER_B_ID));
        let b2 = self.place_checker_at(Vec2::new(1, 3), Checker::new(1, PLAYER_B_ID));
        let b3 = self.place_checker_at(Vec2::new(0, 1), Checker::new(2, PLAYER_B_ID));
        let b4 = self.place_checker_at(Vec2::new(0, 4), Checker::new(2, PLAYER_B_ID));
        let b5 = self.place_checker_at(Vec2::new(0, 3), Checker::new(3, PLAYER_B_ID));
        let b6 = self.place_checker_at(Vec2::new(0, 2), Checker::new(3, PLAYER_B_ID));
        assert(b1 is Ok && b2 is Ok && b3 is Ok && b4 is Ok && b5 is Ok && b6 is Ok);

        assert(self@.checkers =~= BoardView::start().checkers);
        assert(self@.stones =~= BoardView::start().stones);
    }

    /// Empties every cell and every node.
    fn clear_board(&mut self)
        ensures
            forall|i: int| 0 <= i < CELL_COUNT ==> final(self)@.checkers[i] == Checker::vacant(),
            forall|i: int| 0 <= i < NODE_COUNT ==> final(self)@.stones[i] == Stone::vacant(),
            final(self).dice() == old(self).dice(),
    {
        self.checker_board = [Checker::new(0, EMPTY_PLAYER_ID); CELL_COUNT];
        self.stone_board = [Stone::new(EMPTY_PLAYER_ID); NODE_COUNT];
    }

    /// Exchanges the contents of two cells, provided both lie on the grid
    /// and the destination is empty.
    pub fn move_checker(&mut self, from: Vec2, to: Vec2) -> (res: Result<(), MoveError>)
        ensures
            match res {
                Ok(()) => {
                    &&& cell_valid(from@)
                    &&& cell_valid(to@)
                    &&& old(self)@.checker(to@).is_vacant()
                    &&& final(self)@ == old(self)@.with_checkers_swapped(to@, from@)
                    &&& final(self).dice() == old(self).dice()
                },
                Err(MoveError::IndexError(msg)) => {
                    &&& !(cell_valid(from@) && cell_valid(to@))
                    &&& msg@ == move_index_message()
                    &&& *final(self) == *old(self)
                },
                Err(MoveError::OccupiedError) => {
                    &&& cell_valid(from@)
                    &&& cell_valid(to@)
                    &&& !old(self)@.checker(to@).is_vacant()
                    &&& *final(self) == *old(self)
                },
                Err(MoveError::NegationError) => false,
            },
            old(self).wf() ==> final(self).wf(),
    {
        if !Board::is_checker_vec_valid(from) || !Board::is_checker_vec_valid(to) {
            return Err(
                MoveError::IndexError(String::from_str("{vec} is not a valid checker position")),
            );
        }
        let to_idx = Board::vec_to_checker_idx(to);
        let from_idx = Board::vec_to_checker_idx(from);
        let to_checker = self.checker_board[to_idx];
        if to_checker.owner != EMPTY_PLAYER_ID {
            return Err(MoveError::OccupiedError);
        }
        let from_checker = self.checker_board[from_idx];
        self.checker_board[to_idx] = from_checker;
        self.checker_board[from_idx] = to_checker;
        assert(self@.checkers =~= old(self)@.with_checkers_swapped(to@, from@).checkers);
        Ok(())
    }

    /// Overwrites a cell. A checker cannot be put on top of another one; an
    /// empty checker can be put anywhere, which clears the cell.
    pub fn place_checker_at(&mut self, pos: Vec2, checker: Checker) -> (res: Result<(), MoveError>)
        ensures
            match res {
                Ok(()) => {
                    &&& cell_valid(pos@)
                    &&& (old(self)@.checker(pos@).is_vacant() || checker.is_vacant())
                    &&& final(self)@ == old(self)@.with_checker(pos@, checker)
                    &&& final(self).dice() == old(self).dice()
                },
                Err(MoveError::IndexError(msg)) => {
                    &&& !cell_valid(pos@)
                    &&& msg@ == checker_index_message()
                    &&& *final(self) == *old(self)
                },
                Err(MoveError::OccupiedError) => {
                    &&& cell_valid(pos@)
                    &&& !old(self)@.checker(pos@).is_vacant()
                    &&& !checker.is_vacant()
                    &&& *final(self) == *old(self)
                },
                Err(MoveError::NegationError) => false,
            },
            old(self).wf() && checker.wf() ==> final(self).wf(),
    {
        if !Board::is_checker_vec_valid(pos) {
            return Err(
                MoveError::IndexError(
                    String::from_str("{pos} not within 0,0 and {BOARD_WIDTH-1},{BOARD_HEIGHT-1}"),
                ),
            );
        }
        let idx = Board::vec_to_checker_idx(pos);
        let current_piece = &self.checker_board[idx];
        if current_piece.owner != EMPTY_PLAYER_ID && checker.owner != EMPTY_PLAYER_ID {
            return Err(MoveError::OccupiedError);
        }
        self.checker_board[idx] = checker;
        Ok(())
    }

    /// Puts a stone on a node. The node must lie on the grid, hold no stone,
    /// and touch no cell that holds a checker; the three conditions are
    /// tested in this order.
    pub fn place_stone_at(&mut self, pos: Vec2, stone: Stone) -> (res: Result<(), MoveError>)
        ensures
            match res {
                Ok(()) => {
                    &&& node_valid(pos@)
                    &&& old(self)@.stone(pos@).is_vacant()
                    &&& !old(self)@.negated(pos@)
                    &&& final(self)@ == old(self)@.with_stone(pos@, stone)
                    &&& final(self).dice() == old(self).dice()
                },
                Err(MoveError::IndexError(msg)) => {
                    &&& !node_valid(pos@)
                    &&& msg@ == stone_index_message()
                    &&& *final(self) == *old(self)
                },
                Err(MoveError::OccupiedError) => {
                    &&& node_valid(pos@)
                    &&& !old(self)@.stone(pos@).is_vacant()
                    &&& *final(self) == *old(self)
                },
                Err(MoveError::NegationError) => {
                    &&& node_valid(pos@)
                    &&& old(self)@.stone(pos@).is_vacant()
                    &&& old(self)@.negated(pos@)
                    &&& *final(self) == *old(self)
                },
            },
            old(self).wf() ==> final(self).wf(),
    {
        if !Board::is_stone_vec_valid(pos) {
            return Err(
                MoveError::IndexError(
                    String::from_str("{pos} not within 0,0 and {BOARD_WIDTH},{BOARD_HEIGHT}"),
                ),
            );
        }
        let idx = Board::vec_to_stone_idx(pos);
        let current_piece: Stone = self.stone_board[idx];
        if current_piece.owner != EMPTY_PLAYER_ID {
            return Err(MoveError::OccupiedError);
        }
        if self.touches_checker(pos) {
            return Err(MoveError::NegationError);
        }
        self.stone_board[idx] = stone;
        Ok(())
    }

    /// Whether some cell that touches the node holds a checker.
    pub fn touches_checker(&self, pos: Vec2) -> (negated: bool)
        ensures
            negated == self@.negated(pos@),
    {
        let neighbours = Board::checker_neigbours_of_stone(pos);
        let mut i: usize = 0;
        while i < neighbours.len()
            invariant
                i <= neighbours.len(),
                forall|c: Vec2| neighbours@.contains(c) <==> cell_valid(c@) && touches(c@, pos@),
                forall|j: int| 0 <= j < i ==> !self@.cell_occupied(#[trigger] neighbours@[j]@),
            decreases neighbours.len() - i,
        {
            let neighbour = neighbours[i];
            assert(neighbours@.contains(neighbour));
            let checker = self.checker_at_unsafe(neighbour);
            if checker.owner != EMPTY_PLAYER_ID {
                assert(touches(neighbour@, pos@) && self@.cell_occupied(neighbour@));
                return true;
            }
            i += 1;
        }
        assert forall|cell: Coord| touches(cell, pos@) implies !#[trigger] self@.cell_occupied(
            cell,
        ) by {
            if cell_valid(cell) {
                let v = Vec2 { x: cell.x as i32, y: cell.y as i32 };
                assert(v@ == cell);
                assert(neighbours@.contains(v));
                let j = choose|j: int| 0 <= j < neighbours@.len() && neighbours@[j] == v;
                assert(!self@.cell_occupied(neighbours@[j]@));
            }
        }
        false
    }

    /// The checker on a cell, or an error when the position lies outside the
    /// cell grid.
    pub fn checker_at<'a>(&'a self, pos: Vec2) -> (res: Result<&'a Checker, ()>)
        ensures
            match res {
                Ok(checker) => cell_valid(pos@) && *checker == self@.checker(pos@),
                Err(_) => !cell_valid(pos@),
            },
    {
        if !Board::is_checker_vec_valid(pos) {
            Err(())
        } else {
            let idx: usize = Board::vec_to_checker_idx(pos);
            Ok(&self.checker_board[idx])
        }
    }

    /// Mutable access to the checker on a cell, or an error when the
    /// position lies outside the cell grid. Whatever the caller leaves in the
    /// checker is what the cell holds afterwards.
    pub fn mut_checker_at<'a>(&'a mut self, pos: Vec2) -> (res: Result<&'a mut Checker, ()>)
        ensures
            match res {
                Ok(checker) => {
                    &&& cell_valid(pos@)
                    &&& *checker == old(self)@.checker(pos@)
                    &&& final(self)@ == old(self)@.with_checker(pos@, *final(checker))
                    &&& final(self).dice() == old(self).dice()
                },
                Err(_) => !cell_valid(pos@) && *final(self) == *old(self),
            },
    {
        if !Board::is_checker_vec_valid(pos) {
            Err(())
        } else {
            let idx: usize = Board::vec_to_checker_idx(pos);
            Ok(&mut self.checker_board[idx])
        }
    }

    /// The stone on a node, or an error when the position lies outside the
    /// intersection grid.
    pub fn stone_at<'a>(&'a self, pos: Vec2) -> (res: Result<&'a Stone, ()>)
        ensures
            match res {
                Ok(stone) => node_valid(pos@) && *stone == self@.stone(pos@),
                Err(_) => !node_valid(pos@),
            },
    {
        if !Board::is_stone_vec_valid(pos) {
            Err(())
        } else {
            let idx: usize = Board::vec_to_stone_idx(pos);
            Ok(&self.stone_board[idx])
        }
    }

    /// Mutable access to the stone on a node, or an error when the position
    /// lies outside the intersection grid. Whatever the caller leaves in the
    /// stone is what the node holds afterwards.
    pub fn mut_stone_at<'a>(&'a mut self, pos: Vec2) -> (res: Result<&'a mut Stone, ()>)
        ensures
            match res {
                Ok(stone) => {
                    &&& node_valid(pos@)
                    &&& *stone == old(self)@.stone(pos@)
                    &&& final(self)@ == old(self)@.with_stone(pos@, *final(stone))
                    &&& final(self).dice() == old(self).dice()
                },
                Err(_) => !node_valid(pos@) && *final(self) == *old(self),
            },
    {
        if !Board::is_stone_vec_valid(pos) {
            Err(())
        } else {
            let idx: usize = Board::vec_to_stone_idx(pos);
            Ok(&mut self.stone_board[idx])
        }
    }

    // Use when `pos` has already been bounds-checked.
    fn checker_at_unsafe<'a>(&'a self, pos: Vec2) -> (checker: &'a Checker)
        requires
            cell_valid(pos@),
        ensures
            *checker == self@.checker(pos@),
    {
        let idx: usize = Board::vec_to_checker_idx(pos);
        &self.checker_board[idx]
    }

    // Use when `pos` has already been bounds-checked.
    fn stone_at_unsafe<'a>(&'a self, pos: Vec2) -> (stone: &'a Stone)
        requires
            node_valid(pos@),
        ensures
            *stone == self@.stone(pos@),
    {
        let idx: usize = Board::vec_to_stone_idx(pos);
        &self.stone_board[idx]
    }

    /// Whether a position lies on the cell grid.
    pub fn is_checker_vec_valid(pos: Vec2) -> (valid: bool)
        ensures
            valid == cell_valid(pos@),
    {
        !(pos.x < 0 || pos.y < 0 || pos.x >= BOARD_WIDTH as i32 || pos.y >= BOARD_HEIGHT as i32)
    }

    /// Whether a position lies on the intersection grid.
    pub fn is_stone_vec_valid(pos: Vec2) -> (valid: bool)
        ensures
            valid == node_valid(pos@),
    {
        !(pos.x < 0 || pos.y < 0 || pos.x >= (BOARD_WIDTH + 1) as i32 || pos.y >= (BOARD_HEIGHT + 1)
            as i32)
    }

    /// The position of a valid cell in the cell grid.
    pub fn vec_to_checker_idx(pos: Vec2) -> (idx: usize)
        requires
            cell_valid(pos@),
        ensures
            idx == cell_index(pos@),
            idx < CELL_COUNT,
    {
        let x = pos.x as usize;
        let y = pos.y as usize;
        x + y * BOARD_WIDTH
    }

    /// The position of a valid node in the intersection grid.
    pub fn vec_to_stone_idx(pos: Vec2) -> (idx: usize)
        requires
            node_valid(pos@),
        ensures
            idx == node_index(pos@),
            idx < NODE_COUNT,
    {
        let x = pos.x as usize;
        let y = pos.y as usize;
        let stride: usize = BOARD_WIDTH + 1;
        assert(y * stride == y * 9) by (nonlinear_arith)
            requires
                stride == 9,
        ;
        x + y * stride
    }
}

} // verus!
