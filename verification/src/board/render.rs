use crate::board::Board;
use crate::board::BoardView;
use crate::grid::BOARD_HEIGHT;
use crate::grid::BOARD_WIDTH;
use crate::piece::Checker;
use crate::piece::Stone;
use crate::piece::PLAYER_A_ID;
use crate::piece::PLAYER_B_ID;
use crate::vec::Coord;
use crate::vec::Vec2;
use vstd::prelude::*;

verus! {

/// The character that stands for a stone: `a` or `b` for the players, a dot
/// for an empty node.
pub open spec fn stone_glyph(stone: Stone) -> char {
    if stone.owner == PLAYER_A_ID {
        'a'
    } else if stone.owner == PLAYER_B_ID {
        'b'
    } else {
        '.'
    }
}

/// The character that stands for a stack of the first player.
pub open spec fn stack_glyph_a(height: usize) -> char {
    if height == 1 {
        'A'
    } else if height == 2 {
        'B'
    } else if height == 3 {
        'C'
    } else {
        '.'
    }
}

/// The character that stands for a stack of the second player.
pub open spec fn stack_glyph_b(height: usize) -> char {
    if height == 1 {
        '1'
    } else if height == 2 {
        '2'
    } else if height == 3 {
        '3'
    } else {
        '.'
    }
}

/// The character that stands for a checker: a letter for the first player,
/// a digit for the second, an underscore for an empty cell.
pub open spec fn checker_glyph(checker: Checker) -> char {
    if checker.owner == PLAYER_A_ID {
        stack_glyph_a(checker.height)
    } else if checker.owner == PLAYER_B_ID {
        stack_glyph_b(checker.height)
    } else {
        '_'
    }
}

impl BoardView {
    /// The line of text for one row of nodes: each stone followed by a
    /// space, then a line feed.
    pub open spec fn stone_line(self, y: int) -> Seq<char> {
        Seq::new(
            (2 * (BOARD_WIDTH + 1) + 1) as nat,
            |i: int|
                if i == 2 * (BOARD_WIDTH + 1) {
                    '\n'
                } else if i % 2 == 0 {
                    stone_glyph(self.stone(Coord { x: i / 2, y }))
                } else {
                    ' '
                },
        )
    }

    /// The line of text for one row of cells: each checker preceded by a
    /// space, then a line feed.
    pub open spec fn checker_line(self, y: int) -> Seq<char> {
        Seq::new(
            (2 * BOARD_WIDTH + 1) as nat,
            |i: int|
                if i == 2 * BOARD_WIDTH {
                    '\n'
                } else if i % 2 == 0 {
                    ' '
                } else {
                    checker_glyph(self.checker(Coord { x: i / 2, y }))
                },
        )
    }

    /// The text of the first `rows` rows of the board: for each of them the
    /// line of its nodes, then the line of its cells.
    pub open spec fn rows_text(self, rows: nat) -> Seq<char>
        decreases rows,
    {
        if rows == 0 {
            Seq::empty()
        } else {
            self.rows_text((rows - 1) as nat) + self.stone_line(rows - 1) + self.checker_line(
                rows - 1,
            )
        }
    }

    /// The canonical text of the board: node lines and cell lines in turn,
    /// closed by the line of the last row of nodes.
    pub open spec fn text(self) -> Seq<char> {
        self.rows_text(BOARD_HEIGHT as nat) + self.stone_line(BOARD_HEIGHT as int)
    }
}

/// The character for a stone.
fn glyph_of_stone(stone: Stone) -> (glyph: char)
    ensures
        glyph == stone_glyph(stone),
{
    if stone.owner == PLAYER_A_ID {
        'a'
    } else if stone.owner == PLAYER_B_ID {
        'b'
    } else {
        '.'
    }
}

/// The character for a checker.
fn glyph_of_checker(checker: Checker) -> (glyph: char)
    ensures
        glyph == checker_glyph(checker),
{
    if checker.owner == PLAYER_A_ID {
        match checker.height {
            1 => 'A',
            2 => 'B',
            3 => 'C',
            _ => '.',
        }
    } else if checker.owner == PLAYER_B_ID {
        match checker.height {
            1 => '1',
            2 => '2',
            3 => '3',
            _ => '.',
        }
    } else {
        '_'
    }
}

impl Board {
    /// Appends the line of one row of nodes.
    fn push_stone_line(&self, string: &mut String, yi: i32)
        requires
            0 <= yi <= BOARD_HEIGHT,
        ensures
            final(string)@ == old(string)@ + self@.stone_line(yi as int),
    {
        let mut xi: i32 = 0;
        while xi <= BOARD_WIDTH as i32
            invariant
                0 <= yi <= BOARD_HEIGHT,
                0 <= xi <= BOARD_WIDTH + 1,
                string@ == old(string)@ + self@.stone_line(yi as int).take(2 * xi),
            decreases BOARD_WIDTH + 1 - xi,
        {
            let stone = *self.stone_at_unsafe(Vec2::new(xi, yi));
            string.push(glyph_of_stone(stone));
            string.push(' ');
            assert(string@ =~= old(string)@ + self@.stone_line(yi as int).take(2 * (xi + 1)));
            xi += 1;
        }
        string.push('\n');
        assert(string@ =~= old(string)@ + self@.stone_line(yi as int));
    }

    /// Appends the line of one row of cells.
    fn push_checker_line(&self, string: &mut String, yi: i32)
        requires
            0 <= yi < BOARD_HEIGHT,
        ensures
            final(string)@ == old(string)@ + self@.checker_line(yi as int),
    {
        let mut xi: i32 = 0;
        while xi < BOARD_WIDTH as i32
            invariant
                0 <= yi < BOARD_HEIGHT,
                0 <= xi <= BOARD_WIDTH,
                string@ == old(string)@ + self@.checker_line(yi as int).take(2 * xi),
            decreases BOARD_WIDTH - xi,
        {
            let checker = *self.checker_at_unsafe(Vec2::new(xi, yi));
            string.push(' ');
            string.push(glyph_of_checker(checker));
            assert(string@ =~= old(string)@ + self@.checker_line(yi as int).take(2 * (xi + 1)));
            xi += 1;
        }
        string.push('\n');
        assert(string@ =~= old(string)@ + self@.checker_line(yi as int));
    }

    /// The canonical text of the board.
    pub fn as_string(&self) -> (string: String)
        ensures
            string@ == self@.text(),
    {
        let mut string = String::new();
        let mut yi: i32 = 0;
        while yi < BOARD_HEIGHT as i32
            invariant
                0 <= yi <= BOARD_HEIGHT,
                string@ == self@.rows_text(yi as nat),
            decreases BOARD_HEIGHT - yi,
        {
            self.push_stone_line(&mut string, yi);
            self.push_checker_line(&mut string, yi);
            yi += 1;
        }
        self.push_stone_line(&mut string, yi);
        string
    }
}

} // verus!
