use crate::board::Board;
use crate::grid::cell_valid;
use crate::grid::cells_adjacent;
use crate::grid::node_valid;
use crate::grid::nodes_adjacent;
use crate::grid::touches;
use crate::list::push_item;
use crate::vec::Coord;
use crate::vec::Vec2;
use vstd::prelude::*;

verus! {

/// The position `pos` displaced by `(dx, dy)`, unless that leaves the range
/// of machine coordinates.
fn displaced(pos: Vec2, dx: i32, dy: i32) -> (moved: Option<Vec2>)
    ensures
        match moved {
            Some(v) => v@ == pos@.plus(Coord { x: dx as int, y: dy as int }),
            None => !pos@.plus(Coord { x: dx as int, y: dy as int }).fits(),
        },
{
    match pos.x.checked_add(dx) {
        Some(x) => match pos.y.checked_add(dy) {
            Some(y) => Some(Vec2::new(x, y)),
            None => None,
        },
        None => None,
    }
}

/// Appends the candidate to `out` when it is a valid cell.
fn push_if_cell(out: &mut Vec<Vec2>, candidate: Option<Vec2>)
    ensures
        forall|c: Vec2|
            final(out)@.contains(c) <==> old(out)@.contains(c) || (candidate == Some(c)
                && cell_valid(c@)),
        final(out)@.len() <= old(out)@.len() + 1,
        old(out)@.no_duplicates() && (candidate is Some ==> !old(out)@.contains(candidate->Some_0))
            ==> final(out)@.no_duplicates(),
{
    if let Some(v) = candidate {
        if Board::is_checker_vec_valid(v) {
            push_item(out, v);
        }
    }
}

/// Appends the candidate to `out` when it is a valid node.
fn push_if_node(out: &mut Vec<Vec2>, candidate: Option<Vec2>)
    ensures
        forall|c: Vec2|
            final(out)@.contains(c) <==> old(out)@.contains(c) || (candidate == Some(c)
                && node_valid(c@)),
        final(out)@.len() <= old(out)@.len() + 1,
        old(out)@.no_duplicates() && (candidate is Some ==> !old(out)@.contains(candidate->Some_0))
            ==> final(out)@.no_duplicates(),
{
    if let Some(v) = candidate {
        if Board::is_stone_vec_valid(v) {
            push_item(out, v);
        }
    }
}

impl Board {
    /// The cells that touch a node: those of the four cells around it that
    /// lie on the cell grid, each once.
    pub fn checker_neigbours_of_stone(pos: Vec2) -> (out: Vec<Vec2>)
        ensures
            forall|c: Vec2| out@.contains(c) <==> cell_valid(c@) && touches(c@, pos@),
            out@.no_duplicates(),
            out@.len() <= 4,
    {
        let mut out: Vec<Vec2> = Vec::new();
        push_if_cell(&mut out, displaced(pos, 0, -1));
        push_if_cell(&mut out, displaced(pos, -1, 0));
        push_if_cell(&mut out, displaced(pos, -1, -1));
        push_if_cell(&mut out, Some(pos));
        out
    }

    /// The nodes at the corners of a cell: those of the four that lie on the
    /// intersection grid, each once.
    pub fn stone_neighbours_of_checker(pos: Vec2) -> (out: Vec<Vec2>)
        ensures
            forall|n: Vec2| out@.contains(n) <==> node_valid(n@) && touches(pos@, n@),
            out@.no_duplicates(),
            out@.len() <= 4,
    {
        let mut out: Vec<Vec2> = Vec::new();
        push_if_node(&mut out, Some(pos));
        push_if_node(&mut out, displaced(pos, 1, 1));
        push_if_node(&mut out, displaced(pos, 1, 0));
        push_if_node(&mut out, displaced(pos, 0, 1));
        out
    }

    /// The cells around a cell: those of its eight neighbours that lie on
    /// the cell grid, each once.
    pub fn checker_neighbours(pos: Vec2) -> (out: Vec<Vec2>)
        ensures
            forall|c: Vec2| out@.contains(c) <==> cell_valid(c@) && cells_adjacent(c@, pos@),
            out@.no_duplicates(),
            out@.len() <= 8,
    {
        let mut out: Vec<Vec2> = Vec::new();
        push_if_cell(&mut out, displaced(pos, -1, 1));
        push_if_cell(&mut out, displaced(pos, 1, 1));
        push_if_cell(&mut out, displaced(pos, -1, 0));
        push_if_cell(&mut out, displaced(pos, 1, 0));
        push_if_cell(&mut out, displaced(pos, -1, -1));
        push_if_cell(&mut out, displaced(pos, 1, -1));
        push_if_cell(&mut out, displaced(pos, 0, 1));
        push_if_cell(&mut out, displaced(pos, 0, -1));
        out
    }

    /// The nodes next to a node: those of its four neighbours along the grid
    /// lines that lie on the intersection grid, each once.
    pub fn stone_neighbours(pos: Vec2) -> (out: Vec<Vec2>)
        ensures
            forall|n: Vec2| out@.contains(n) <==> node_valid(n@) && nodes_adjacent(n@, pos@),
            out@.no_duplicates(),
            out@.len() <= 4,
    {
        let mut out: Vec<Vec2> = Vec::new();
        push_if_node(&mut out, displaced(pos, 0, 1));
        push_if_node(&mut out, displaced(pos, 0, -1));
        push_if_node(&mut out, displaced(pos, -1, 0));
        push_if_node(&mut out, displaced(pos, 1, 0));
        out
    }
}

} // verus!
