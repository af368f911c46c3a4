use vstd::prelude::*;

verus! {

/// The owner recorded on an empty cell or node.
pub const EMPTY_PLAYER_ID: i32 = -1;

/// The player who starts on the right-hand side and moves first.
pub const PLAYER_A_ID: i32 = 1;

/// The player who starts on the left-hand side.
pub const PLAYER_B_ID: i32 = 2;

/// The number of stones each player holds at the start of a game.
pub const STARTING_STONES: i32 = 32;

/// The tallest stack a checker can form.
pub const MAX_HEIGHT: usize = 3;

/// A stack of checkers on one cell, or the absence of one.
#[derive(Clone, Copy, Debug, PartialEq, Eq, Structural)]
pub struct Checker {
    pub height: usize,
    pub owner: i32,
}

impl Checker {
    /// The content of an empty cell.
    pub open spec fn vacant() -> Checker {
        Checker { height: 0, owner: EMPTY_PLAYER_ID }
    }

    /// Whether this value stands for an empty cell.
    pub open spec fn is_vacant(self) -> bool {
        self.owner == EMPTY_PLAYER_ID
    }

    /// A well-formed checker is at most three high, and has height zero
    /// exactly when nobody owns it.
    pub open spec fn wf(self) -> bool {
        &&& self.height <= MAX_HEIGHT
        &&& (self.height == 0 <==> self.owner == EMPTY_PLAYER_ID)
    }

    /// The checker that is left after `damage` points of damage: the height
    /// drops by `damage` but not below zero, and a stack that reaches zero
    /// leaves the cell empty.
    pub open spec fn damaged(self, damage: nat) -> Checker {
        if self.height <= damage {
            Checker::vacant()
        } else {
            Checker { height: (self.height - damage) as usize, owner: self.owner }
        }
    }

    /// A stack of height `h` that belongs to `o`.
    pub fn new(h: usize, o: i32) -> (c: Checker)
        ensures
            c.height == h,
            c.owner == o,
    {
        Checker { height: h, owner: o }
    }
}

/// Damage lowers the height of a checker by its amount, but not below zero.
/// A checker whose height reaches zero leaves an empty cell; any other keeps
/// its owner. A well-formed checker stays well formed.
pub proof fn lemma_damaged(checker: Checker, damage: nat)
    ensures
        checker.damaged(damage).height == if checker.height >= damage {
            checker.height - damage
        } else {
            0
        },
        checker.damaged(damage).height == 0 ==> checker.damaged(damage) == Checker::vacant(),
        checker.damaged(damage).height > 0 ==> checker.damaged(damage).owner == checker.owner,
        checker.wf() ==> checker.damaged(damage).wf(),
{
}

/// A stone on one node, or the absence of one.
#[derive(Clone, Copy, Debug, PartialEq, Eq, Structural)]
pub struct Stone {
    pub owner: i32,
}

impl Stone {
    /// The content of an empty node.
    pub open spec fn vacant() -> Stone {
        Stone { owner: EMPTY_PLAYER_ID }
    }

    /// Whether this value stands for an empty node.
    pub open spec fn is_vacant(self) -> bool {
        self.owner == EMPTY_PLAYER_ID
    }

    /// A stone that belongs to `o`.
    pub fn new(o: i32) -> (s: Stone)
        ensures
            s.owner == o,
    {
        Stone { owner: o }
    }
}

} // verus!
