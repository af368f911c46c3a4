use crate::vec::Coord;
use vstd::prelude::*;

verus! {

/// The number of cell columns.
pub const BOARD_WIDTH: usize = 8;

/// The number of cell rows.
pub const BOARD_HEIGHT: usize = 6;

/// The number of cells: `BOARD_WIDTH * BOARD_HEIGHT`.
pub const CELL_COUNT: usize = 48;

/// The number of nodes: `(BOARD_WIDTH + 1) * (BOARD_HEIGHT + 1)`.
pub const NODE_COUNT: usize = 63;

/// A cell coordinate is valid when it lies on the cell grid.
pub open spec fn cell_valid(c: Coord) -> bool {
    0 <= c.x < BOARD_WIDTH && 0 <= c.y < BOARD_HEIGHT
}

/// A node coordinate is valid when it lies on the intersection grid, which
/// has one more row and one more column than the cell grid.
pub open spec fn node_valid(c: Coord) -> bool {
    0 <= c.x <= BOARD_WIDTH && 0 <= c.y <= BOARD_HEIGHT
}

/// The row-major position of a cell in the cell grid.
pub open spec fn cell_index(c: Coord) -> int {
    c.x + c.y * BOARD_WIDTH
}

/// The row-major position of a node in the intersection grid.
pub open spec fn node_index(c: Coord) -> int {
    c.x + c.y * (BOARD_WIDTH + 1)
}

/// The cell that has the given row-major position.
pub open spec fn cell_of_index(i: int) -> Coord {
    Coord { x: i % (BOARD_WIDTH as int), y: i / (BOARD_WIDTH as int) }
}

/// The node that has the given row-major position.
pub open spec fn node_of_index(i: int) -> Coord {
    Coord { x: i % (BOARD_WIDTH + 1), y: i / (BOARD_WIDTH + 1) }
}

/// Whether `node` is one of the four corners of `cell`.
pub open spec fn touches(cell: Coord, node: Coord) -> bool {
    &&& (node.x == cell.x || node.x == cell.x + 1)
    &&& (node.y == cell.y || node.y == cell.y + 1)
}

/// Whether two distinct cells share an edge or a corner.
pub open spec fn cells_adjacent(a: Coord, b: Coord) -> bool {
    &&& a != b
    &&& -1 <= a.x - b.x <= 1
    &&& -1 <= a.y - b.y <= 1
}

/// Whether two nodes are joined by one grid line.
pub open spec fn nodes_adjacent(a: Coord, b: Coord) -> bool {
    ||| (a.x == b.x && (a.y == b.y + 1 || a.y == b.y - 1))
    ||| (a.y == b.y && (a.x == b.x + 1 || a.x == b.x - 1))
}

/// Two valid cells with the same index are the same cell.
pub proof fn lemma_cell_index_unique(a: Coord, b: Coord)
    requires
        cell_valid(a),
        cell_valid(b),
        cell_index(a) == cell_index(b),
    ensures
        a == b,
{
}

/// The index of a valid cell lies below `CELL_COUNT`, and the cell is
/// recovered from it by `cell_of_index`.
pub proof fn lemma_cell_index_inverse(a: Coord)
    requires
        cell_valid(a),
    ensures
        0 <= cell_index(a) < CELL_COUNT,
        cell_of_index(cell_index(a)) == a,
{
}

/// Every index below `CELL_COUNT` is the index of exactly the valid cell
/// that `cell_of_index` names.
pub proof fn lemma_cell_index_onto(i: int)
    requires
        0 <= i < CELL_COUNT,
    ensures
        cell_valid(cell_of_index(i)),
        cell_index(cell_of_index(i)) == i,
{
}

/// Two valid nodes with the same index are the same node.
pub proof fn lemma_node_index_unique(a: Coord, b: Coord)
    requires
        node_valid(a),
        node_valid(b),
        node_index(a) == node_index(b),
    ensures
        a == b,
{
}

/// The index of a valid node lies below `NODE_COUNT`, and the node is
/// recovered from it by `node_of_index`.
pub proof fn lemma_node_index_inverse(a: Coord)
    requires
        node_valid(a),
    ensures
        0 <= node_index(a) < NODE_COUNT,
        node_of_index(node_index(a)) == a,
{
}

/// Every index below `NODE_COUNT` is the index of exactly the valid node
/// that `node_of_index` names.
pub proof fn lemma_node_index_onto(i: int)
    requires
        0 <= i < NODE_COUNT,
    ensures
        node_valid(node_of_index(i)),
        node_index(node_of_index(i)) == i,
{
}

} // verus!
