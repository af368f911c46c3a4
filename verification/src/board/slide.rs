use crate::board::Board;
use crate::board::BoardView;
use crate::board::Direction;
use crate::board::SlideError;
use crate::grid::node_valid;
use crate::grid::BOARD_HEIGHT;
use crate::grid::BOARD_WIDTH;
use crate::piece::EMPTY_PLAYER_ID;
use crate::vec::Coord;
use crate::vec::Vec2;
use vstd::prelude::*;

verus! {

impl BoardView {
    /// The number of steps from a node to the border in one direction.
    pub open spec fn room(c: Coord, dir: Direction) -> int {
        match dir {
            Direction::Up => c.y,
            Direction::Down => BOARD_HEIGHT - c.y,
            Direction::Left => c.x,
            Direction::Right => BOARD_WIDTH - c.x,
        }
    }

    /// The node reached from `from` by `steps` steps in one direction.
    pub open spec fn ahead(from: Coord, dir: Direction, steps: int) -> Coord {
        match dir {
            Direction::Up => Coord { x: from.x, y: from.y - steps },
            Direction::Down => Coord { x: from.x, y: from.y + steps },
            Direction::Left => Coord { x: from.x - steps, y: from.y },
            Direction::Right => Coord { x: from.x + steps, y: from.y },
        }
    }

    /// How far a stone slides: the length of the run of clear nodes that
    /// begins next to `from` in the given direction.
    pub open spec fn slide_len(self, from: Coord, dir: Direction) -> nat
        decreases Self::room(from, dir),
    {
        let next = from.plus(dir.offset());
        if self.node_clear(next) {
            1 + self.slide_len(next, dir)
        } else {
            0
        }
    }

    /// A slide is blocked when the node next to the origin lies off the
    /// board or holds a stone.
    pub open spec fn slide_blocked(self, from: Coord, dir: Direction) -> bool {
        !self.node_clear(from.plus(dir.offset()))
    }

    /// The node on which a stone that slides from `from` comes to rest.
    pub open spec fn slide_target(self, from: Coord, dir: Direction) -> Coord {
        Self::ahead(from, dir, self.slide_len(from, dir) as int)
    }
}

/// A slide passes over clear nodes only, and stops because the node after
/// its resting place lies off the board or holds a stone.
pub proof fn lemma_slide_stops_at_last_clear(view: BoardView, from: Coord, dir: Direction)
    ensures
        forall|k: int|
            1 <= k <= view.slide_len(from, dir) ==> view.node_clear(
                #[trigger] BoardView::ahead(from, dir, k),
            ),
        !view.node_clear(BoardView::ahead(from, dir, view.slide_len(from, dir) as int + 1)),
    decreases BoardView::room(from, dir),
{
    let next = from.plus(dir.offset());
    assert(BoardView::ahead(from, dir, 1) == next);
    if view.node_clear(next) {
        lemma_slide_stops_at_last_clear(view, next, dir);
        let n = view.slide_len(from, dir) as int;
        assert forall|k: int| 1 <= k <= n implies view.node_clear(
            #[trigger] BoardView::ahead(from, dir, k),
        ) by {
            if k > 1 {
                assert(BoardView::ahead(from, dir, k) == BoardView::ahead(next, dir, k - 1));
            }
        }
        assert(BoardView::ahead(from, dir, n + 1) == BoardView::ahead(next, dir, n - 1 + 1));
    }
}

/// The resting place of a slide is the only node of which
/// `lemma_slide_stops_at_last_clear` holds: a run of `steps` clear nodes
/// followed by a node that is not clear has exactly the slide's length.
pub proof fn lemma_slide_length_unique(view: BoardView, from: Coord, dir: Direction, steps: int)
    requires
        0 <= steps,
        forall|k: int|
            1 <= k <= steps ==> view.node_clear(#[trigger] BoardView::ahead(from, dir, k)),
        !view.node_clear(BoardView::ahead(from, dir, steps + 1)),
    ensures
        view.slide_len(from, dir) == steps,
    decreases steps,
{
    let next = from.plus(dir.offset());
    assert(BoardView::ahead(from, dir, 1) == next);
    if steps > 0 {
        assert(view.node_clear(BoardView::ahead(from, dir, 1)));
        assert forall|k: int| 1 <= k <= steps - 1 implies view.node_clear(
            #[trigger] BoardView::ahead(next, dir, k),
        ) by {
            assert(BoardView::ahead(next, dir, k) == BoardView::ahead(from, dir, k + 1));
        }
        assert(BoardView::ahead(next, dir, steps) == BoardView::ahead(from, dir, steps + 1));
        lemma_slide_length_unique(view, next, dir, steps - 1);
    }
}

impl Board {
    /// Where a stone that slides from `from` would come to rest. The board is
    /// not changed.
    pub fn slide_stone_result(&self, from: Vec2, dir: Direction) -> (res: Result<Vec2, SlideError>)
        ensures
            match res {
                Ok(to) => {
                    &&& node_valid(from@)
                    &&& !self@.slide_blocked(from@, dir)
                    &&& to@ == self@.slide_target(from@, dir)
                    &&& self@.node_clear(to@)
                },
                Err(SlideError::IndexError) => !node_valid(from@),
                Err(SlideError::BlockedError) => node_valid(from@) && self@.slide_blocked(
                    from@,
                    dir,
                ),
            },
    {
        if !Board::is_stone_vec_valid(from) {
            return Err(SlideError::IndexError);
        }
        let target = from + dir.as_vec();
        if !Board::is_stone_vec_valid(target) {
            return Err(SlideError::BlockedError);
        }
        let target_idx = Board::vec_to_stone_idx(target);
        if self.stone_board[target_idx].owner != EMPTY_PLAYER_ID {
            return Err(SlideError::BlockedError);
        }
        let mut last_free_position = target;
        let ghost mut steps: int = 1;
        loop
            invariant
                1 <= steps,
                last_free_position@ == BoardView::ahead(from@, dir, steps),
                self@.node_clear(last_free_position@),
                self@.slide_len(from@, dir) == steps + self@.slide_len(last_free_position@, dir),
            ensures
                last_free_position@ == self@.slide_target(from@, dir),
                self@.node_clear(last_free_position@),
            decreases BoardView::room(last_free_position@, dir),
        {
            let next_target = last_free_position + dir.as_vec();
            if !Board::is_stone_vec_valid(next_target) {
                break ;
            }
            let idx = Board::vec_to_stone_idx(next_target);
            if self.stone_board[idx].owner != EMPTY_PLAYER_ID {
                break ;
            }
            last_free_position = next_target;
            proof {
                steps = steps + 1;
            }
        }
        Ok(last_free_position)
    }

    /// Slides a stone as far as it goes: the contents of the origin and of
    /// the resting place are exchanged.
    pub fn slide_stone(&mut self, from: Vec2, dir: Direction) -> (res: Result<(), SlideError>)
        ensures
            match res {
                Ok(()) => {
                    &&& node_valid(from@)
                    &&& !old(self)@.slide_blocked(from@, dir)
                    &&& final(self)@ == old(self)@.with_stones_swapped(
                        old(self)@.slide_target(from@, dir),
                        from@,
                    )
                    &&& final(self).dice() == old(self).dice()
                },
                Err(SlideError::IndexError) => !node_valid(from@) && *final(self) == *old(self),
                Err(SlideError::BlockedError) => {
                    &&& node_valid(from@)
                    &&& old(self)@.slide_blocked(from@, dir)
                    &&& *final(self) == *old(self)
                },
            },
            old(self).wf() ==> final(self).wf(),
    {
        match self.slide_stone_result(from, dir) {
            Ok(last_free_position) => {
                let new_idx = Board::vec_to_stone_idx(last_free_position);
                let old_idx = Board::vec_to_stone_idx(from);
                let moved = self.stone_board[old_idx];
                let vacated = self.stone_board[new_idx];
                self.stone_board[new_idx] = moved;
                self.stone_board[old_idx] = vacated;
                assert(self@.stones =~= old(self)@.with_stones_swapped(
                    last_free_position@,
                    from@,
                ).stones);
                Ok(())
            },
            Err(e) => Err(e),
        }
    }
}

} // verus!
