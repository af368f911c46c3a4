use crate::board::Direction;
use crate::game::Intent;
use crate::vec::Vec2;
use vstd::prelude::*;
use vstd::string::*;

verus! {

/// `String::push` of std appends one character to the end of the string.
pub assume_specification[ String::push ](s: &mut String, ch: char)
    ensures
        final(s)@ == old(s)@.push(ch),
;

/// The character for a decimal digit.
pub open spec fn digit_glyph(digit: int) -> char {
    if digit == 0 {
        '0'
    } else if digit == 1 {
        '1'
    } else if digit == 2 {
        '2'
    } else if digit == 3 {
        '3'
    } else if digit == 4 {
        '4'
    } else if digit == 5 {
        '5'
    } else if digit == 6 {
        '6'
    } else if digit == 7 {
        '7'
    } else if digit == 8 {
        '8'
    } else {
        '9'
    }
}

/// A natural number in decimal notation, without leading zeros.
pub open spec fn natural_text(n: nat) -> Seq<char>
    decreases n,
{
    if n < 10 {
        seq![digit_glyph(n as int)]
    } else {
        natural_text(n / 10).push(digit_glyph((n % 10) as int))
    }
}

/// An integer in decimal notation, with a minus sign where it is negative.
pub open spec fn decimal_text(n: int) -> Seq<char> {
    if n < 0 {
        seq!['-'] + natural_text((-n) as nat)
    } else {
        natural_text(n as nat)
    }
}

/// The character for a decimal digit.
fn glyph_of_digit(digit: u64) -> (glyph: char)
    requires
        digit < 10,
    ensures
        glyph == digit_glyph(digit as int),
{
    if digit == 0 {
        '0'
    } else if digit == 1 {
        '1'
    } else if digit == 2 {
        '2'
    } else if digit == 3 {
        '3'
    } else if digit == 4 {
        '4'
    } else if digit == 5 {
        '5'
    } else if digit == 6 {
        '6'
    } else if digit == 7 {
        '7'
    } else if digit == 8 {
        '8'
    } else {
        '9'
    }
}

/// Appends a natural number in decimal notation.
fn push_natural(out: &mut String, n: u64)
    ensures
        final(out)@ == old(out)@ + natural_text(n as nat),
    decreases n,
{
    if n >= 10 {
        push_natural(out, n / 10);
    }
    out.push(glyph_of_digit(n % 10));
    assert(out@ =~= old(out)@ + natural_text(n as nat));
}

/// Appends an integer in decimal notation.
pub fn push_decimal(out: &mut String, n: i32)
    ensures
        final(out)@ == old(out)@ + decimal_text(n as int),
{
    let wide: i64 = n as i64;
    if wide < 0 {
        out.push('-');
        push_natural(out, (-wide) as u64);
        assert(out@ =~= old(out)@ + decimal_text(n as int));
    } else {
        push_natural(out, wide as u64);
    }
}

impl Vec2 {
    /// How a position reads: its name and its two components.
    pub open spec fn text(self) -> Seq<char> {
        "Vec2 x:"@ + decimal_text(self.x as int) + " y:"@ + decimal_text(self.y as int)
    }

    /// Appends how the position reads.
    pub fn push_text(&self, out: &mut String)
        ensures
            final(out)@ == old(out)@ + self.text(),
    {
        out.append("Vec2 x:");
        push_decimal(out, self.x);
        out.append(" y:");
        push_decimal(out, self.y);
        assert(out@ =~= old(out)@ + self.text());
    }

    /// How the position reads.
    pub fn as_string(&self) -> (string: String)
        ensures
            string@ == self.text(),
    {
        let mut string = String::new();
        self.push_text(&mut string);
        assert(string@ =~= self.text());
        string
    }
}

impl Direction {
    /// How a direction reads.
    pub open spec fn text(self) -> Seq<char> {
        match self {
            Direction::Up => "Up"@,
            Direction::Down => "Down"@,
            Direction::Left => "Left"@,
            Direction::Right => "Right"@,
        }
    }

    /// How the direction reads.
    pub fn as_str(&self) -> (name: &'static str)
        ensures
            name@ == self.text(),
    {
        match self {
            Direction::Up => "Up",
            Direction::Down => "Down",
            Direction::Left => "Left",
            Direction::Right => "Right",
        }
    }
}

impl Intent {
    /// How an intent reads: what is to be done, and where.
    pub open spec fn text(self) -> Seq<char> {
        match self {
            Intent::MoveChecker(from, to) => "MoveChecker from "@ + from.text() + " to "@
                + to.text(),
            Intent::FireChecker(at) => "FireChecker at "@ + at.text(),
            Intent::PlaceStone(at) => "PlaceStone at "@ + at.text(),
            Intent::SlideStone(from, direction) => "SlideStone from "@ + from.text()
                + " toward "@ + direction.text(),
        }
    }

    /// How the intent reads.
    pub fn as_string(&self) -> (string: String)
        ensures
            string@ == self.text(),
    {
        let mut string = String::new();
        match self {
            Intent::MoveChecker(from, to) => {
                string.append("MoveChecker from ");
                from.push_text(&mut string);
                string.append(" to ");
                to.push_text(&mut string);
            },
            Intent::FireChecker(at) => {
                string.append("FireChecker at ");
                at.push_text(&mut string);
            },
            Intent::PlaceStone(at) => {
                string.append("PlaceStone at ");
                at.push_text(&mut string);
            },
            Intent::SlideStone(from, direction) => {
                string.append("SlideStone from ");
                from.push_text(&mut string);
                string.append(" toward ");
                string.append(direction.as_str());
            },
        }
        assert(string@ =~= self.text());
        string
    }
}

} // verus!
