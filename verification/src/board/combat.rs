use crate::board::Board;
use crate::board::BoardView;
use crate::board::FireError;
use crate::dice::all_faces;
use crate::dice::face_of;
use crate::dice::rng_next_u32;
use crate::grid::cell_valid;
use crate::piece::Checker;
use crate::piece::EMPTY_PLAYER_ID;
use crate::vec::Coord;
use crate::vec::Vec2;
use vstd::prelude::*;

verus! {

impl BoardView {
    /// Whether a cell lies on the grid and holds a checker that is hostile
    /// to `owner`: one that has an owner, and another one.
    pub open spec fn hostile(self, cell: Coord, owner: i32) -> bool {
        &&& cell_valid(cell)
        &&& self.checker(cell).owner != owner
        &&& self.checker(cell).owner != EMPTY_PLAYER_ID
    }

    /// One if the cell holds a checker hostile to `owner`, zero otherwise.
    pub open spec fn hostile_count(self, cell: Coord, owner: i32) -> nat {
        if self.hostile(cell, owner) {
            1
        } else {
            0
        }
    }

    /// The attackers of `target` along one of the eight rays: the hostile
    /// checkers one and two steps away in direction `(dx, dy)`.
    pub open spec fn ray_attackers(self, target: Coord, dx: int, dy: int) -> nat {
        let owner = self.checker(target).owner;
        self.hostile_count(Coord { x: target.x + dx, y: target.y + dy }, owner)
            + self.hostile_count(Coord { x: target.x + 2 * dx, y: target.y + 2 * dy }, owner)
    }

    /// The number of checkers that attack the one on `target`: the hostile
    /// checkers one or two steps away along a row, a column or a diagonal.
    pub open spec fn attackers(self, target: Coord) -> nat {
        self.ray_attackers(target, 0, -1) + self.ray_attackers(target, 0, 1)
            + self.ray_attackers(target, -1, 0) + self.ray_attackers(target, 1, 0)
            + self.ray_attackers(target, -1, -1) + self.ray_attackers(target, 1, -1)
            + self.ray_attackers(target, -1, 1) + self.ray_attackers(target, 1, 1)
    }

    /// One if the node holds a stone, zero otherwise.
    pub open spec fn stone_count(self, node: Coord) -> nat {
        if self.stone(node).is_vacant() {
            0
        } else {
            1
        }
    }

    /// The cover a checker takes from the terrain: the number of stones on
    /// the four corners of its cell.
    pub open spec fn terrain_bonus(self, target: Coord) -> nat {
        self.stone_count(target) + self.stone_count(Coord { x: target.x + 1, y: target.y })
            + self.stone_count(Coord { x: target.x, y: target.y + 1 }) + self.stone_count(
            Coord { x: target.x + 1, y: target.y + 1 },
        )
    }

    /// The damage done by a sequence of rolls against a terrain bonus: a
    /// roll below the bonus is absorbed, every other roll does one point.
    pub open spec fn damage(rolls: Seq<u32>, bonus: nat) -> nat
        decreases rolls.len(),
    {
        if rolls.len() == 0 {
            0
        } else {
            Self::damage(rolls.drop_last(), bonus) + if rolls.last() >= bonus {
                1nat
            } else {
                0nat
            }
        }
    }

    /// The board after the checker on `target` has taken `damage` points.
    pub open spec fn fired(self, target: Coord, damage: nat) -> BoardView {
        self.with_checker(target, self.checker(target).damaged(damage))
    }

    /// The board after the checker on `target` has been fired at with the
    /// given rolls.
    pub open spec fn hit_by(self, target: Coord, rolls: Seq<u32>) -> BoardView {
        self.fired(target, Self::damage(rolls, self.terrain_bonus(target)))
    }

    /// Whether `after` is what a fire at `target` leaves of the board when
    /// the dice show `rolls`: one roll for each attacker, each a face of a
    /// die.
    pub open spec fn fire_outcome(self, target: Coord, rolls: Seq<u32>, after: BoardView) -> bool {
        &&& rolls.len() == self.attackers(target)
        &&& all_faces(rolls)
        &&& after == self.hit_by(target, rolls)
    }
}

/// No sequence of rolls does more damage than it has rolls.
pub proof fn lemma_damage_at_most_rolls(rolls: Seq<u32>, bonus: nat)
    ensures
        BoardView::damage(rolls, bonus) <= rolls.len(),
    decreases rolls.len(),
{
    if rolls.len() > 0 {
        lemma_damage_at_most_rolls(rolls.drop_last(), bonus);
    }
}

/// Against a terrain bonus of at most one, every roll of a die does damage.
pub proof fn lemma_damage_without_cover(rolls: Seq<u32>, bonus: nat)
    requires
        all_faces(rolls),
        bonus <= 1,
    ensures
        BoardView::damage(rolls, bonus) == rolls.len(),
    decreases rolls.len(),
{
    if rolls.len() > 0 {
        lemma_damage_without_cover(rolls.drop_last(), bonus);
    }
}

impl Board {
    /// One if the cell displaced from `target` by `(dx, dy)` holds a checker
    /// hostile to `owner`, zero otherwise.
    fn hostile_at(&self, target: Vec2, owner: i32, dx: i32, dy: i32) -> (count: u32)
        requires
            cell_valid(target@),
            -2 <= dx <= 2,
            -2 <= dy <= 2,
        ensures
            count == self@.hostile_count(
                Coord { x: target.x + dx, y: target.y + dy },
                owner,
            ),
            count <= 1,
    {
        let neighbour_pos = Vec2::new(target.x + dx, target.y + dy);
        if !Board::is_checker_vec_valid(neighbour_pos) {
            return 0;
        }
        let neigh = self.checker_at_unsafe(neighbour_pos);
        if neigh.owner != owner && neigh.owner != EMPTY_PLAYER_ID {
            1
        } else {
            0
        }
    }

    /// The attackers of `target` one and two steps away in direction
    /// `(dx, dy)`.
    fn attackers_along(&self, target: Vec2, dx: i32, dy: i32) -> (count: u32)
        requires
            cell_valid(target@),
            -1 <= dx <= 1,
            -1 <= dy <= 1,
        ensures
            count == self@.ray_attackers(target@, dx as int, dy as int),
            count <= 2,
    {
        let owner = self.checker_at_unsafe(target).owner;
        self.hostile_at(target, owner, dx, dy) + self.hostile_at(target, owner, 2 * dx, 2 * dy)
    }

    /// One if the node holds a stone, zero otherwise.
    fn stone_count_at(&self, x: i32, y: i32) -> (count: u32)
        requires
            crate::grid::node_valid(Coord { x: x as int, y: y as int }),
        ensures
            count == self@.stone_count(Coord { x: x as int, y: y as int }),
            count <= 1,
    {
        if self.stone_at_unsafe(Vec2::new(x, y)).owner != EMPTY_PLAYER_ID {
            1
        } else {
            0
        }
    }

    /// The number of stones on the four corners of a cell.
    pub fn terrain_bonus_at(&self, pos: Vec2) -> (res: Result<u32, FireError>)
        ensures
            match res {
                Ok(bonus) => cell_valid(pos@) && bonus == self@.terrain_bonus(pos@) && bonus <= 4,
                Err(FireError::IndexError) => !cell_valid(pos@),
                Err(FireError::NoAttackersError) => false,
            },
    {
        if !Board::is_checker_vec_valid(pos) {
            return Err(FireError::IndexError);
        }
        Ok(
            self.stone_count_at(pos.x, pos.y) + self.stone_count_at(pos.x + 1, pos.y)
                + self.stone_count_at(pos.x, pos.y + 1) + self.stone_count_at(
                pos.x + 1,
                pos.y + 1,
            ),
        )
    }

    /// The number of checkers that attack the one on `pos`; an error when
    /// the position lies outside the cell grid or nothing attacks. Neither
    /// the board nor the dice are touched.
    pub fn can_fire_checker_at(&self, pos: Vec2) -> (res: Result<u32, FireError>)
        ensures
            match res {
                Ok(count) => {
                    &&& cell_valid(pos@)
                    &&& count == self@.attackers(pos@)
                    &&& 0 < count <= 16
                },
                Err(FireError::IndexError) => !cell_valid(pos@),
                Err(FireError::NoAttackersError) => cell_valid(pos@) && self@.attackers(pos@) == 0,
            },
    {
        if !Board::is_checker_vec_valid(pos) {
            return Err(FireError::IndexError);
        }
        let mut attackers: u32 = 0;
        attackers += self.attackers_along(pos, 0, -1);
        attackers += self.attackers_along(pos, 0, 1);
        attackers += self.attackers_along(pos, -1, 0);
        attackers += self.attackers_along(pos, 1, 0);
        attackers += self.attackers_along(pos, -1, -1);
        attackers += self.attackers_along(pos, 1, -1);
        attackers += self.attackers_along(pos, -1, 1);
        attackers += self.attackers_along(pos, 1, 1);
        if attackers == 0 {
            return Err(FireError::NoAttackersError);
        }
        Ok(attackers)
    }

    /// Rolls the board's dice `count` times. The pieces stay where they are.
    fn roll_dice(&mut self, count: u32) -> (rolls: Vec<u32>)
        ensures
            rolls@.len() == count,
            all_faces(rolls@),
            final(self)@ == old(self)@,
    {
        let mut rolls: Vec<u32> = Vec::new();
        let mut drawn: u32 = 0;
        while drawn < count
            invariant
                drawn <= count,
                rolls@.len() == drawn,
                all_faces(rolls@),
                self@ == old(self)@,
            decreases count - drawn,
        {
            let raw = rng_next_u32(&mut self.rng);
            rolls.push(face_of(raw));
            drawn += 1;
        }
        rolls
    }

    /// Applies the given rolls to the checker on `pos`: every roll that is
    /// not below the terrain bonus of the cell takes one point off its
    /// height, and a checker that loses all of its height leaves the cell
    /// empty. The dice are not touched.
    pub fn hit_checker_at(&mut self, pos: Vec2, rolls: &Vec<u32>) -> (res: Result<(), FireError>)
        ensures
            match res {
                Ok(()) => {
                    &&& cell_valid(pos@)
                    &&& final(self)@ == old(self)@.hit_by(pos@, rolls@)
                    &&& final(self).dice() == old(self).dice()
                },
                Err(FireError::IndexError) => !cell_valid(pos@) && *final(self) == *old(self),
                Err(FireError::NoAttackersError) => false,
            },
            old(self).wf() ==> final(self).wf(),
    {
        let terrain_bonus = match self.terrain_bonus_at(pos) {
            Ok(bonus) => bonus,
            Err(e) => {
                return Err(e);
            },
        };
        let mut dmg: usize = 0;
        let mut i: usize = 0;
        while i < rolls.len()
            invariant
                i <= rolls.len(),
                dmg <= i,
                dmg == BoardView::damage(rolls@.take(i as int), terrain_bonus as nat),
            decreases rolls.len() - i,
        {
            assert(rolls@.take(i + 1).drop_last() =~= rolls@.take(i as int));
            if rolls[i] >= terrain_bonus {
                dmg += 1;
            }
            i += 1;
        }
        assert(rolls@.take(i as int) =~= rolls@);
        let checker_idx = Board::vec_to_checker_idx(pos);
        let checker = self.checker_board[checker_idx];
        if checker.height <= dmg {
            self.checker_board[checker_idx] = Checker::new(0, EMPTY_PLAYER_ID);
        } else {
            self.checker_board[checker_idx] = Checker::new(checker.height - dmg, checker.owner);
        }
        Ok(())
    }

    /// Fires at the checker on `pos` with every checker that attacks it: one
    /// roll of the board's dice for each attacker, applied as
    /// `hit_checker_at` does. The result depends on the dice; whatever they
    /// show, the height drops by no more than the number of attackers, and
    /// by exactly that number where at most one stone covers the cell.
    pub fn fire_checker_at(&mut self, pos: Vec2) -> (res: Result<(), FireError>)
        ensures
            match res {
                Ok(()) => {
                    &&& cell_valid(pos@)
                    &&& old(self)@.attackers(pos@) > 0
                    &&& exists|rolls: Seq<u32>| #[trigger]
                        old(self)@.fire_outcome(pos@, rolls, final(self)@)
                    &&& exists|damage: nat|
                        {
                            &&& damage <= old(self)@.attackers(pos@)
                            &&& (old(self)@.terrain_bonus(pos@) <= 1 ==> damage == old(
                                self,
                            )@.attackers(pos@))
                            &&& final(self)@ == #[trigger] old(self)@.fired(pos@, damage)
                        }
                },
                Err(FireError::IndexError) => !cell_valid(pos@) && *final(self) == *old(self),
                Err(FireError::NoAttackersError) => {
                    &&& cell_valid(pos@)
                    &&& old(self)@.attackers(pos@) == 0
                    &&& *final(self) == *old(self)
                },
            },
            old(self).wf() ==> final(self).wf(),
    {
        let attackers = match self.can_fire_checker_at(pos) {
            Ok(count) => count,
            Err(e) => {
                return Err(e);
            },
        };
        let rolls = self.roll_dice(attackers);
        let ghost before = self@;
        let hit = self.hit_checker_at(pos, &rolls);
        proof {
            let bonus = before.terrain_bonus(pos@);
            let damage = BoardView::damage(rolls@, bonus);
            lemma_damage_at_most_rolls(rolls@, bonus);
            if bonus <= 1 {
                lemma_damage_without_cover(rolls@, bonus);
            }
            assert(before.fire_outcome(pos@, rolls@, self@));
            assert(self@ == before.fired(pos@, damage));
        }
        hit
    }
}

} // verus!
