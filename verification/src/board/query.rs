use crate::board::Board;
use crate::grid::cell_valid;
use crate::grid::node_valid;
use crate::list::push_item;
use crate::grid::BOARD_HEIGHT;
use crate::grid::BOARD_WIDTH;
use crate::piece::EMPTY_PLAYER_ID;
use crate::vec::Coord;
use crate::vec::Vec2;
use vstd::prelude::*;

verus! {

/// The order in which the grids are scanned: column by column, and from the
/// top of each column to its bottom.
pub open spec fn scanned_before(a: Coord, b: Coord) -> bool {
    a.x < b.x || (a.x == b.x && a.y < b.y)
}

/// Whether the positions of a list follow one another in scanning order.
/// Such a list holds no position twice.
pub open spec fn in_scan_order(list: Seq<Vec2>) -> bool {
    forall|i: int, j: int|
        0 <= i < j < list.len() ==> scanned_before(#[trigger] list[i]@, #[trigger] list[j]@)
}

impl Board {
    /// The nodes whose stone belongs to `player`, in scanning order. Asked
    /// for the owner of empty nodes, it lists the empty nodes.
    pub fn stones_for_player(&self, player: i32) -> (stones: Vec<Vec2>)
        ensures
            forall|n: Vec2|
                stones@.contains(n) <==> node_valid(n@) && self@.stone(n@).owner == player,
            in_scan_order(stones@),
    {
        let mut stones: Vec<Vec2> = Vec::new();
        let mut x: i32 = 0;
        while x <= BOARD_WIDTH as i32
            invariant
                0 <= x <= BOARD_WIDTH + 1,
                forall|n: Vec2|
                    stones@.contains(n) <==> node_valid(n@) && self@.stone(n@).owner == player
                        && n.x < x,
                in_scan_order(stones@),
            decreases BOARD_WIDTH + 1 - x,
        {
            let mut y: i32 = 0;
            while y <= BOARD_HEIGHT as i32
                invariant
                    0 <= x <= BOARD_WIDTH,
                    0 <= y <= BOARD_HEIGHT + 1,
                    forall|n: Vec2|
                        stones@.contains(n) <==> node_valid(n@) && self@.stone(n@).owner == player
                            && scanned_before(n@, Coord { x: x as int, y: y as int }),
                    in_scan_order(stones@),
                decreases BOARD_HEIGHT + 1 - y,
            {
                let pos = Vec2::new(x, y);
                if self.stone_at_unsafe(pos).owner == player {
                    assert forall|i: int| 0 <= i < stones@.len() implies scanned_before(
                        #[trigger] stones@[i]@,
                        pos@,
                    ) by {
                        assert(stones@.contains(stones@[i]));
                    }
                    push_item(&mut stones, pos);
                }
                y += 1;
            }
            x += 1;
        }
        stones
    }

    /// The cells whose checker belongs to `player`, in scanning order. Asked
    /// for the owner of empty cells, it lists the empty cells.
    pub fn checkers_for_player(&self, player: i32) -> (checkers: Vec<Vec2>)
        ensures
            forall|c: Vec2|
                checkers@.contains(c) <==> cell_valid(c@) && self@.checker(c@).owner == player,
            in_scan_order(checkers@),
    {
        let mut checkers: Vec<Vec2> = Vec::new();
        let mut x: i32 = 0;
        while x < BOARD_WIDTH as i32
            invariant
                0 <= x <= BOARD_WIDTH,
                forall|c: Vec2|
                    checkers@.contains(c) <==> cell_valid(c@) && self@.checker(c@).owner == player
                        && c.x < x,
                in_scan_order(checkers@),
            decreases BOARD_WIDTH - x,
        {
            let mut y: i32 = 0;
            while y < BOARD_HEIGHT as i32
                invariant
                    0 <= x < BOARD_WIDTH,
                    0 <= y <= BOARD_HEIGHT,
                    forall|c: Vec2|
                        checkers@.contains(c) <==> cell_valid(c@) && self@.checker(c@).owner
                            == player && scanned_before(c@, Coord { x: x as int, y: y as int }),
                    in_scan_order(checkers@),
                decreases BOARD_HEIGHT - y,
            {
                let pos = Vec2::new(x, y);
                if self.checker_at_unsafe(pos).owner == player {
                    assert forall|i: int| 0 <= i < checkers@.len() implies scanned_before(
                        #[trigger] checkers@[i]@,
                        pos@,
                    ) by {
                        assert(checkers@.contains(checkers@[i]));
                    }
                    push_item(&mut checkers, pos);
                }
                y += 1;
            }
            x += 1;
        }
        checkers
    }

    /// The nodes that hold no stone, in scanning order.
    pub fn empty_stones(&self) -> (stones: Vec<Vec2>)
        ensures
            forall|n: Vec2| stones@.contains(n) <==> self@.node_clear(n@),
            in_scan_order(stones@),
    {
        self.stones_for_player(EMPTY_PLAYER_ID)
    }
}

/// A list in scanning order holds no position twice.
pub proof fn lemma_scan_order_no_duplicates(list: Seq<Vec2>)
    requires
        in_scan_order(list),
    ensures
        list.no_duplicates(),
{
    assert forall|i: int, j: int| 0 <= i < list.len() && 0 <= j < list.len() && i != j implies list[i]
        != list[j] by {
        if i < j {
            assert(scanned_before(list[i]@, list[j]@));
        } else {
            assert(scanned_before(list[j]@, list[i]@));
        }
    }
}

} // verus!
