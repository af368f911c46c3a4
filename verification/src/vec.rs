use vstd::prelude::*;

verus! {

/// A point of the integer plane: the mathematical value of a [`Vec2`].
pub struct Coord {
    pub x: int,
    pub y: int,
}

impl Coord {
    /// Componentwise sum.
    pub open spec fn plus(self, other: Coord) -> Coord {
        Coord { x: self.x + other.x, y: self.y + other.y }
    }

    /// Componentwise difference.
    pub open spec fn minus(self, other: Coord) -> Coord {
        Coord { x: self.x - other.x, y: self.y - other.y }
    }

    /// Both components multiplied by `factor`.
    pub open spec fn times(self, factor: int) -> Coord {
        Coord { x: self.x * factor, y: self.y * factor }
    }

    /// One step up, towards smaller y.
    pub open spec fn up() -> Coord {
        Coord { x: 0, y: -1 }
    }

    /// One step down, towards larger y.
    pub open spec fn down() -> Coord {
        Coord { x: 0, y: 1 }
    }

    /// One step to the left, towards smaller x.
    pub open spec fn left() -> Coord {
        Coord { x: -1, y: 0 }
    }

    /// One step to the right, towards larger x.
    pub open spec fn right() -> Coord {
        Coord { x: 1, y: 0 }
    }

    /// Whether both components fit a machine coordinate.
    pub open spec fn fits(self) -> bool {
        i32::MIN <= self.x <= i32::MAX && i32::MIN <= self.y <= i32::MAX
    }
}

/// A pair of machine integers, used both as a position and as a displacement.
/// The y axis grows downwards.
#[derive(Copy, Clone, Debug, PartialEq, Eq, Structural)]
pub struct Vec2 {
    pub x: i32,
    pub y: i32,
}

impl View for Vec2 {
    type V = Coord;

    open spec fn view(&self) -> Coord {
        Coord { x: self.x as int, y: self.y as int }
    }
}

/// The displacement of one step upwards, towards smaller y.
pub fn unit_up() -> (v: Vec2)
    ensures
        v@ == Coord::up(),
{
    Vec2 { x: 0, y: -1 }
}

/// The displacement of one step downwards, towards larger y.
pub fn unit_down() -> (v: Vec2)
    ensures
        v@ == Coord::down(),
{
    Vec2 { x: 0, y: 1 }
}

/// The displacement of one step to the left, towards smaller x.
pub fn unit_left() -> (v: Vec2)
    ensures
        v@ == Coord::left(),
{
    Vec2 { x: -1, y: 0 }
}

/// The displacement of one step to the right, towards larger x.
pub fn unit_right() -> (v: Vec2)
    ensures
        v@ == Coord::right(),
{
    Vec2 { x: 1, y: 0 }
}

impl Vec2 {
    /// The pair with the given components.
    pub fn new(xi: i32, yi: i32) -> (v: Vec2)
        ensures
            v.x == xi,
            v.y == yi,
    {
        Vec2 { x: xi, y: yi }
    }

    /// The position one step to the left.
    pub fn left(self) -> (v: Vec2)
        requires
            self.x > i32::MIN,
        ensures
            v@ == self@.plus(Coord::left()),
    {
        self + unit_left()
    }

    /// The position one step to the right.
    pub fn right(self) -> (v: Vec2)
        requires
            self.x < i32::MAX,
        ensures
            v@ == self@.plus(Coord::right()),
    {
        self + unit_right()
    }

    /// The position one step up.
    pub fn up(self) -> (v: Vec2)
        requires
            self.y > i32::MIN,
        ensures
            v@ == self@.plus(Coord::up()),
    {
        self + unit_up()
    }

    /// The position one step down.
    pub fn down(self) -> (v: Vec2)
        requires
            self.y < i32::MAX,
        ensures
            v@ == self@.plus(Coord::down()),
    {
        self + unit_down()
    }

    /// Both components multiplied by `factor`.
    pub fn scale(self, factor: i32) -> (v: Vec2)
        requires
            self@.times(factor as int).fits(),
        ensures
            v@ == self@.times(factor as int),
    {
        Vec2::new(self.x * factor, self.y * factor)
    }
}

/// `a + b` adds componentwise; the sum must fit the machine coordinates.
impl core::ops::Add for Vec2 {
    type Output = Vec2;

    /// The componentwise sum.
    fn add(self, other: Vec2) -> (v: Vec2)
        ensures
            v@ == self@.plus(other@),
    {
        Vec2 { x: self.x + other.x, y: self.y + other.y }
    }
}

impl vstd::std_specs::ops::AddSpecImpl for Vec2 {
    open spec fn obeys_add_spec() -> bool {
        true
    }

    open spec fn add_req(self, other: Vec2) -> bool {
        self@.plus(other@).fits()
    }

    open spec fn add_spec(self, other: Vec2) -> Vec2 {
        Vec2 { x: (self.x + other.x) as i32, y: (self.y + other.y) as i32 }
    }
}

/// `a - b` subtracts componentwise; the difference must fit the machine
/// coordinates.
impl core::ops::Sub for Vec2 {
    type Output = Vec2;

    /// The componentwise difference.
    fn sub(self, rhs: Vec2) -> (v: Vec2)
        ensures
            v@ == self@.minus(rhs@),
    {
        Vec2 { x: self.x - rhs.x, y: self.y - rhs.y }
    }
}

impl vstd::std_specs::ops::SubSpecImpl for Vec2 {
    open spec fn obeys_sub_spec() -> bool {
        true
    }

    open spec fn sub_req(self, rhs: Vec2) -> bool {
        self@.minus(rhs@).fits()
    }

    open spec fn sub_spec(self, rhs: Vec2) -> Vec2 {
        Vec2 { x: (self.x - rhs.x) as i32, y: (self.y - rhs.y) as i32 }
    }
}

} // verus!
