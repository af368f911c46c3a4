use crate::board::Board;
use crate::board::BoardView;
use crate::grid::lemma_node_index_inverse;
use crate::grid::lemma_node_index_unique;
use crate::grid::node_index;
use crate::grid::node_valid;
use crate::grid::nodes_adjacent;
use crate::grid::BOARD_HEIGHT;
use crate::grid::BOARD_WIDTH;
use crate::grid::NODE_COUNT;
use crate::vec::Coord;
use crate::vec::Vec2;
use vstd::prelude::*;

verus! {

impl BoardView {
    /// Whether the nodes of `path` form a chain of stones of `player`: each
    /// node holds a stone of the player, and each is joined to the next by
    /// one grid line.
    pub open spec fn is_chain(self, player: i32, path: Seq<Coord>) -> bool {
        &&& path.len() > 0
        &&& forall|i: int|
            0 <= i < path.len() ==> node_valid(#[trigger] path[i]) && self.stone(path[i]).owner
                == player
        &&& forall|i: int|
            0 <= i < path.len() - 1 ==> nodes_adjacent(#[trigger] path[i], path[i + 1])
    }

    /// Whether a chain of stones of `player` leads from the top row of
    /// nodes to `node`.
    pub open spec fn reached(self, player: i32, node: Coord) -> bool {
        exists|path: Seq<Coord>|
            #[trigger] self.is_chain(player, path) && path[0].y == 0 && path.last() == node
    }

    /// Whether the stones of `player` connect the top row of nodes with the
    /// bottom row: some chain of them, straight or not, begins in the one
    /// and ends in the other.
    pub open spec fn connects(self, player: i32) -> bool {
        exists|path: Seq<Coord>|
            #[trigger] self.is_chain(player, path) && path[0].y == 0 && path.last().y
                == BOARD_HEIGHT
    }
}

/// A stone of the player in the top row is reached by the chain that
/// consists of it alone.
proof fn lemma_reached_top(board: BoardView, player: i32, node: Coord)
    requires
        node_valid(node),
        node.y == 0,
        board.stone(node).owner == player,
    ensures
        board.reached(player, node),
{
    let path = seq![node];
    assert(board.is_chain(player, path) && path[0].y == 0 && path.last() == node);
}

/// A stone of the player next to a node that is reached is reached too.
proof fn lemma_reached_next(board: BoardView, player: i32, node: Coord, next: Coord)
    requires
        board.reached(player, node),
        node_valid(next),
        board.stone(next).owner == player,
        nodes_adjacent(node, next),
    ensures
        board.reached(player, next),
{
    let path = choose|path: Seq<Coord>|
        #[trigger] board.is_chain(player, path) && path[0].y == 0 && path.last() == node;
    let longer = path.push(next);
    assert forall|i: int| 0 <= i < longer.len() - 1 implies nodes_adjacent(
        #[trigger] longer[i],
        longer[i + 1],
    ) by {
        if i < path.len() - 1 {
            assert(nodes_adjacent(path[i], path[i + 1]));
        }
    }
    assert forall|i: int| 0 <= i < longer.len() implies node_valid(#[trigger] longer[i])
        && board.stone(longer[i]).owner == player by {
        if i < path.len() {
            assert(node_valid(path[i]));
        }
    }
    assert(board.is_chain(player, longer) && longer[0].y == 0 && longer.last() == next);
}

/// Whether a node carries a mark.
pub(crate) open spec fn marked(seen: Seq<bool>, node: Coord) -> bool {
    seen[node_index(node)]
}

/// Whether a node waits in the frontier.
pub(crate) open spec fn pending(frontier: Seq<Vec2>, node: Coord) -> bool {
    exists|i: int| 0 <= i < frontier.len() && (#[trigger] frontier[i])@ == node
}

/// A node is settled when it does not lie in the bottom row and every stone
/// of the player next to it carries a mark.
pub(crate) open spec fn settled(board: BoardView, player: i32, seen: Seq<bool>, node: Coord) -> bool {
    &&& node.y != BOARD_HEIGHT
    &&& forall|next: Coord|
        node_valid(next) && nodes_adjacent(node, next) && board.stone(next).owner == player
            ==> #[trigger] marked(seen, next)
}

/// What the search knows at every moment, but for the node `open` that it
/// is working on: the marks lie on nodes that are reached, the frontier
/// holds marked nodes, the top row has been marked, and every marked node
/// that no longer waits in the frontier is settled.
pub(crate) open spec fn search_inv(
    board: BoardView,
    player: i32,
    seen: Seq<bool>,
    frontier: Seq<Vec2>,
    open: Option<Coord>,
) -> bool {
    &&& seen.len() == NODE_COUNT
    &&& forall|i: int|
        0 <= i < frontier.len() ==> node_valid((#[trigger] frontier[i])@) && marked(
            seen,
            frontier[i]@,
        )
    &&& forall|node: Coord|
        node_valid(node) && #[trigger] marked(seen, node) ==> board.reached(player, node)
    &&& forall|node: Coord|
        node_valid(node) && node.y == 0 && board.stone(node).owner == player ==> #[trigger] marked(
            seen,
            node,
        )
    &&& forall|node: Coord|
        node_valid(node) && #[trigger] marked(seen, node) && !pending(frontier, node) && open
            != Some(node) ==> settled(board, player, seen, node)
}

/// Once nothing waits in the frontier, every node of a chain that begins
/// in the top row carries a mark.
proof fn lemma_chain_is_marked(
    board: BoardView,
    player: i32,
    seen: Seq<bool>,
    path: Seq<Coord>,
    upto: int,
)
    requires
        search_inv(board, player, seen, Seq::empty(), None),
        board.is_chain(player, path),
        path[0].y == 0,
        0 <= upto < path.len(),
    ensures
        marked(seen, path[upto]),
    decreases upto,
{
    assert(node_valid(path[upto]));
    if upto == 0 {
        assert(node_valid(path[0]));
    } else {
        lemma_chain_is_marked(board, player, seen, path, upto - 1);
        let before = path[upto - 1];
        assert(node_valid(before));
        assert(!pending(Seq::<Vec2>::empty(), before));
        assert(settled(board, player, seen, before));
        assert(nodes_adjacent(before, path[upto - 1 + 1]));
    }
}

/// The number of entries of a list of marks that are not set.
pub(crate) open spec fn unmarked(seen: Seq<bool>) -> nat
    decreases seen.len(),
{
    if seen.len() == 0 {
        0
    } else {
        unmarked(seen.drop_last()) + if seen.last() {
            0nat
        } else {
            1nat
        }
    }
}

/// Setting a mark that was not set leaves one unmarked entry less.
proof fn lemma_unmarked_after_mark(seen: Seq<bool>, at: int)
    requires
        0 <= at < seen.len(),
        !seen[at],
    ensures
        unmarked(seen.update(at, true)) + 1 == unmarked(seen),
    decreases seen.len(),
{
    let after = seen.update(at, true);
    if at == seen.len() - 1 {
        assert(after.drop_last() =~= seen.drop_last());
    } else {
        lemma_unmarked_after_mark(seen.drop_last(), at);
        assert(after.drop_last() =~= seen.drop_last().update(at, true));
    }
}

/// Marking a node that is reached, and putting it into the frontier, keeps
/// what the search knows. No mark is lost by it.
proof fn lemma_search_mark(
    board: BoardView,
    player: i32,
    seen: Seq<bool>,
    frontier: Seq<Vec2>,
    open: Option<Coord>,
    node: Vec2,
)
    requires
        search_inv(board, player, seen, frontier, open),
        node_valid(node@),
        board.reached(player, node@),
    ensures
        search_inv(
            board,
            player,
            seen.update(node_index(node@), true),
            frontier.push(node),
            open,
        ),
        marked(seen.update(node_index(node@), true), node@),
        forall|other: Coord|
            node_valid(other) && marked(seen, other) ==> #[trigger] marked(
                seen.update(node_index(node@), true),
                other,
            ),
{
    let seen_after = seen.update(node_index(node@), true);
    let frontier_after = frontier.push(node);
    assert forall|other: Coord| node_valid(other) implies #[trigger] marked(seen_after, other) == (
    marked(seen, other) || other == node@) by {}
    assert forall|other: Coord| pending(frontier, other) implies pending(frontier_after, other) by {
        let i = choose|i: int| 0 <= i < frontier.len() && (#[trigger] frontier[i])@ == other;
        assert(frontier_after[i]@ == other);
    }
    assert(pending(frontier_after, node@)) by {
        assert(frontier_after[frontier_after.len() - 1]@ == node@);
    }
    assert forall|i: int| 0 <= i < frontier_after.len() implies node_valid(
        (#[trigger] frontier_after[i])@,
    ) && marked(seen_after, frontier_after[i]@) by {
        if i < frontier.len() {
            assert(node_valid(frontier[i]@) && marked(seen, frontier[i]@));
        }
    }
    assert forall|other: Coord|
        node_valid(other) && #[trigger] marked(seen_after, other) && !pending(
            frontier_after,
            other,
        ) && open != Some(other) implies settled(board, player, seen_after, other) by {
        assert(marked(seen, other));
        assert(!pending(frontier, other));
        assert(settled(board, player, seen, other));
        assert forall|next: Coord|
            node_valid(next) && nodes_adjacent(other, next) && board.stone(next).owner
                == player implies #[trigger] marked(seen_after, next) by {
            assert(marked(seen, next));
        }
    }
}

/// Taking the last node out of the frontier to work on it keeps what the
/// search knows.
proof fn lemma_search_pop(board: BoardView, player: i32, seen: Seq<bool>, frontier: Seq<Vec2>)
    requires
        search_inv(board, player, seen, frontier, None),
        frontier.len() > 0,
    ensures
        search_inv(board, player, seen, frontier.drop_last(), Some(frontier.last()@)),
        node_valid(frontier.last()@),
        marked(seen, frontier.last()@),
        board.reached(player, frontier.last()@),
{
    let rest = frontier.drop_last();
    assert(node_valid(frontier[frontier.len() - 1]@));
    assert forall|i: int| 0 <= i < rest.len() implies node_valid((#[trigger] rest[i])@) && marked(
        seen,
        rest[i]@,
    ) by {
        assert(node_valid(frontier[i]@));
    }
    assert forall|other: Coord|
        node_valid(other) && #[trigger] marked(seen, other) && !pending(rest, other) && Some(
            frontier.last()@,
        ) != Some(other) implies settled(board, player, seen, other) by {
        if pending(frontier, other) {
            let i = choose|i: int| 0 <= i < frontier.len() && (#[trigger] frontier[i])@ == other;
            assert(rest[i]@ == other);
        }
    }
}

/// When the node that the search works on is settled, the search knows of
/// all nodes what it knew of the others.
proof fn lemma_search_close(
    board: BoardView,
    player: i32,
    seen: Seq<bool>,
    frontier: Seq<Vec2>,
    position: Coord,
)
    requires
        search_inv(board, player, seen, frontier, Some(position)),
        settled(board, player, seen, position),
    ensures
        search_inv(board, player, seen, frontier, None),
{
}

/// A search that has nowhere left to go, and has not met the bottom row,
/// shows that no chain leads there.
proof fn lemma_search_exhausted(board: BoardView, player: i32, seen: Seq<bool>)
    requires
        search_inv(board, player, seen, Seq::empty(), None),
    ensures
        !board.connects(player),
{
    if board.connects(player) {
        let path = choose|path: Seq<Coord>|
            #[trigger] board.is_chain(player, path) && path[0].y == 0 && path.last().y
                == BOARD_HEIGHT;
        lemma_chain_is_marked(board, player, seen, path, path.len() - 1);
        let end = path.last();
        assert(node_valid(path[path.len() - 1]));
        assert(!pending(Seq::<Vec2>::empty(), end));
        assert(settled(board, player, seen, end));
    }
}

impl Board {
    /// Marks a stone of `player` that is reached and puts it into the
    /// frontier.
    fn search_mark(
        &self,
        player: i32,
        node: Vec2,
        seen: &mut [bool; NODE_COUNT],
        frontier: &mut Vec<Vec2>,
        Ghost(open): Ghost<Option<Coord>>,
    )
        requires
            node_valid(node@),
            self@.reached(player, node@),
            !marked(old(seen)@, node@),
            search_inv(self@, player, old(seen)@, old(frontier)@, open),
        ensures
            search_inv(self@, player, final(seen)@, final(frontier)@, open),
            marked(final(seen)@, node@),
            forall|other: Coord|
                node_valid(other) && marked(old(seen)@, other) ==> #[trigger] marked(
                    final(seen)@,
                    other,
                ),
            2 * unmarked(final(seen)@) + final(frontier)@.len() + 1 == 2 * unmarked(old(seen)@)
                + old(frontier)@.len(),
    {
        let idx = Board::vec_to_stone_idx(node);
        proof {
            lemma_search_mark(self@, player, seen@, frontier@, open, node);
            lemma_unmarked_after_mark(seen@, idx as int);
        }
        seen[idx] = true;
        frontier.push(node);
    }

    /// Marks the stones of `player` in the top row of nodes and puts them
    /// into the frontier.
    fn search_start(&self, player: i32) -> (start: ([bool; NODE_COUNT], Vec<Vec2>))
        ensures
            search_inv(self@, player, start.0@, start.1@, None),
    {
        let mut seen: [bool; NODE_COUNT] = [false; NODE_COUNT];
        let mut frontier: Vec<Vec2> = Vec::new();
        let mut xi: i32 = 0;
        while xi <= BOARD_WIDTH as i32
            invariant
                0 <= xi <= BOARD_WIDTH + 1,
                seen@.len() == NODE_COUNT,
                forall|i: int|
                    0 <= i < frontier@.len() ==> node_valid((#[trigger] frontier@[i])@) && marked(
                        seen@,
                        frontier@[i]@,
                    ),
                forall|node: Coord|
                    node_valid(node) && #[trigger] marked(seen@, node) ==> node.y == 0
                        && self@.stone(node).owner == player && pending(frontier@, node),
                forall|node: Coord|
                    node_valid(node) && node.y == 0 && node.x < xi && self@.stone(node).owner
                        == player ==> #[trigger] marked(seen@, node),
            decreases BOARD_WIDTH + 1 - xi,
        {
            let position = Vec2::new(xi, 0);
            let stone = self.stone_at_unsafe(position);
            if stone.owner == player {
                let idx = Board::vec_to_stone_idx(position);
                let ghost seen_before = seen@;
                let ghost frontier_before = frontier@;
                seen[idx] = true;
                frontier.push(position);
                proof {
                    assert(seen@ =~= seen_before.update(node_index(position@), true));
                    assert forall|node: Coord| node_valid(node) implies #[trigger] marked(
                        seen@,
                        node,
                    ) == (marked(seen_before, node) || node == position@) by {
                        lemma_node_index_inverse(node);
                        lemma_node_index_inverse(position@);
                        if node != position@ {
                            if node_index(node) == node_index(position@) {
                                lemma_node_index_unique(node, position@);
                            }
                        }
                    }
                    assert forall|node: Coord| pending(frontier_before, node) implies pending(
                        frontier@,
                        node,
                    ) by {
                        let i = choose|i: int|
                            0 <= i < frontier_before.len() && (#[trigger] frontier_before[i])@
                                == node;
                        assert(frontier@[i]@ == node);
                    }
                    assert(pending(frontier@, position@)) by {
                        assert(frontier@[frontier@.len() - 1]@ == position@);
                    }
                    assert forall|i: int| 0 <= i < frontier@.len() implies node_valid(
                        (#[trigger] frontier@[i])@,
                    ) && marked(seen@, frontier@[i]@) by {
                        if i < frontier_before.len() {
                            assert(node_valid(frontier_before[i]@) && marked(
                                seen_before,
                                frontier_before[i]@,
                            ));
                        }
                    }
                }
            }
            xi += 1;
        }
        proof {
            assert forall|node: Coord|
                node_valid(node) && #[trigger] marked(seen@, node) implies self@.reached(
                player,
                node,
            ) by {
                lemma_reached_top(self@, player, node);
            }
        }
        (seen, frontier)
    }

    /// Marks the stones of `player` next to `position` that carry no mark
    /// yet, and puts them into the frontier.
    fn search_around(
        &self,
        player: i32,
        position: Vec2,
        seen: &mut [bool; NODE_COUNT],
        frontier: &mut Vec<Vec2>,
    )
        requires
            node_valid(position@),
            position.y != BOARD_HEIGHT,
            self@.reached(player, position@),
            search_inv(self@, player, old(seen)@, old(frontier)@, Some(position@)),
        ensures
            search_inv(self@, player, final(seen)@, final(frontier)@, None),
            2 * unmarked(final(seen)@) + final(frontier)@.len() <= 2 * unmarked(old(seen)@) + old(
                frontier,
            )@.len(),
    {
        let neighbours = Board::stone_neighbours(position);
        let mut k: usize = 0;
        while k < neighbours.len()
            invariant
                k <= neighbours.len(),
                node_valid(position@),
                self@.reached(player, position@),
                forall|n: Vec2|
                    neighbours@.contains(n) <==> node_valid(n@) && nodes_adjacent(n@, position@),
                search_inv(self@, player, seen@, frontier@, Some(position@)),
                forall|j: int|
                    0 <= j < k && self@.stone((#[trigger] neighbours@[j])@).owner == player
                        ==> marked(seen@, neighbours@[j]@),
                2 * unmarked(seen@) + frontier@.len() <= 2 * unmarked(old(seen)@) + old(
                    frontier,
                )@.len(),
            decreases neighbours.len() - k,
        {
            let neighbour = neighbours[k];
            assert(neighbours@.contains(neighbour));
            let stone = self.stone_at_unsafe(neighbour);
            let idx = Board::vec_to_stone_idx(neighbour);
            if stone.owner == player && !seen[idx] {
                proof {
                    lemma_reached_next(self@, player, position@, neighbour@);
                    assert forall|j: int| 0 <= j < k implies node_valid(
                        (#[trigger] neighbours@[j])@,
                    ) by {
                        assert(neighbours@.contains(neighbours@[j]));
                    }
                }
                self.search_mark(player, neighbour, seen, frontier, Ghost(Some(position@)));
            }
            k += 1;
        }
        proof {
            assert forall|next: Coord|
                node_valid(next) && nodes_adjacent(position@, next) && self@.stone(next).owner
                    == player implies #[trigger] marked(seen@, next) by {
                let n = Vec2 { x: next.x as i32, y: next.y as i32 };
                assert(n@ == next);
                assert(neighbours@.contains(n));
                let j = choose|j: int| 0 <= j < neighbours@.len() && neighbours@[j] == n;
                assert(marked(seen@, neighbours@[j]@));
            }
            assert(settled(self@, player, seen@, position@));
            lemma_search_close(self@, player, seen@, frontier@, position@);
        }
    }

    /// Whether the stones of `player` connect the top row of nodes with the
    /// bottom row. The search spreads from the stones of the top row to the
    /// stones next to them, and ends when it meets the bottom row or has
    /// nowhere left to go.
    pub fn connects_rows(&self, player: i32) -> (connected: bool)
        ensures
            connected == self@.connects(player),
    {
        let (mut seen, mut frontier) = self.search_start(player);
        loop
            invariant
                search_inv(self@, player, seen@, frontier@, None),
            decreases 2 * unmarked(seen@) + frontier@.len(),
        {
            proof {
                if frontier@.len() > 0 {
                    lemma_search_pop(self@, player, seen@, frontier@);
                } else {
                    assert(frontier@ =~= Seq::<Vec2>::empty());
                    lemma_search_exhausted(self@, player, seen@);
                }
            }
            match frontier.pop() {
                None => {
                    return false;
                },
                Some(position) => {
                    if position.y == BOARD_HEIGHT as i32 {
                        proof {
                            let path = choose|path: Seq<Coord>|
                                #[trigger] self@.is_chain(player, path) && path[0].y == 0
                                    && path.last() == position@;
                            assert(self@.is_chain(player, path) && path[0].y == 0 && path.last().y
                                == BOARD_HEIGHT);
                        }
                        return true;
                    }
                    self.search_around(player, position, &mut seen, &mut frontier);
                },
            }
        }
    }
}

} // verus!
