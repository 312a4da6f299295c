//! Directions and fixed-point positions.

use vstd::prelude::*;

verus! {

/// Number of position steps in one world unit.
pub const UNIT: i64 = 1000;

/// A signed coordinate, in steps of 1/[`UNIT`] world unit.
pub type Coord = i64;

/// Whether a mathematical integer is representable as a coordinate.
pub open spec fn fits(v: int) -> bool {
    i64::MIN <= v <= i64::MAX
}

/// One of the four axis-aligned unit vectors a segment can travel along.
#[derive(Clone, Copy, Debug, PartialEq, Eq, Structural)]
pub enum Direction {
    Up,
    Down,
    Left,
    Right,
}

impl Direction {
    /// The x component of a displacement of `dist` steps along `self`.
    pub open spec fn along_x(self, dist: int) -> int {
        match self {
            Direction::Left => -dist,
            Direction::Right => dist,
            _ => 0,
        }
    }

    /// The y component of a displacement of `dist` steps along `self`.
    pub open spec fn along_y(self, dist: int) -> int {
        match self {
            Direction::Up => dist,
            Direction::Down => -dist,
            _ => 0,
        }
    }

    /// The x component of the unit vector.
    pub open spec fn dx(self) -> int {
        self.along_x(1)
    }

    /// The y component of the unit vector.
    pub open spec fn dy(self) -> int {
        self.along_y(1)
    }

    /// The direction pointing the other way.
    pub open spec fn reversed(self) -> Direction {
        match self {
            Direction::Up => Direction::Down,
            Direction::Down => Direction::Up,
            Direction::Left => Direction::Right,
            Direction::Right => Direction::Left,
        }
    }

    /// Whether turning from `self` to `other` is a quarter turn, that is
    /// neither a repetition nor a reversal.
    pub open spec fn is_quarter_turn(self, other: Direction) -> bool {
        other != self && other != self.reversed()
    }

    /// The x component of the unit vector.
    pub fn x(self) -> (r: i64)
        ensures
            r == self.dx(),
    {
        match self {
            Direction::Left => -1,
            Direction::Right => 1,
            _ => 0,
        }
    }

    /// The y component of the unit vector.
    pub fn y(self) -> (r: i64)
        ensures
            r == self.dy(),
    {
        match self {
            Direction::Up => 1,
            Direction::Down => -1,
            _ => 0,
        }
    }

    /// The direction pointing the other way.
    pub fn opposite(self) -> (r: Direction)
        ensures
            r == self.reversed(),
    {
        match self {
            Direction::Up => Direction::Down,
            Direction::Down => Direction::Up,
            Direction::Left => Direction::Right,
            Direction::Right => Direction::Left,
        }
    }

    /// Whether turning from `self` to `other` changes the axis of travel.
    pub fn quarter_turn(self, other: Direction) -> (r: bool)
        ensures
            r == self.is_quarter_turn(other),
    {
        other != self && other != self.opposite()
    }
}

/// A point of the world. `z` is the drawing layer and takes no part in
/// distances.
#[derive(Clone, Copy, Debug, PartialEq, Eq, Structural)]
pub struct Position {
    pub x: Coord,
    pub y: Coord,
    pub z: Coord,
}

impl Position {
    /// Whether the point `dist` steps from `self` along `d` is representable.
    pub open spec fn can_shift(self, d: Direction, dist: int) -> bool {
        fits(self.x + d.along_x(dist)) && fits(self.y + d.along_y(dist))
    }

    /// The point `dist` steps from `self` along `d`, on the same layer.
    pub open spec fn shift(self, d: Direction, dist: int) -> Position {
        Position {
            x: (self.x + d.along_x(dist)) as i64,
            y: (self.y + d.along_y(dist)) as i64,
            z: self.z,
        }
    }

    /// The point `dist` steps from `self` along `d` where that point is
    /// representable, else `self`.
    pub open spec fn shifted(self, d: Direction, dist: int) -> Position {
        if self.can_shift(d, dist) {
            self.shift(d, dist)
        } else {
            self
        }
    }

    /// How far `self` lies beyond `from`, measured along `d`.
    pub open spec fn overshoot(self, d: Direction, from: Position) -> int {
        match d {
            Direction::Up => self.y - from.y,
            Direction::Down => from.y - self.y,
            Direction::Left => from.x - self.x,
            Direction::Right => self.x - from.x,
        }
    }

    /// Whether `self` lies strictly beyond `from` on the ray that leaves
    /// `from` in direction `d`: a traveller heading along `d` that is now at
    /// `self` has gone through `from`.
    pub open spec fn passed(self, d: Direction, from: Position) -> bool {
        &&& self.overshoot(d, from) > 0
        &&& match d {
            Direction::Up | Direction::Down => self.x == from.x,
            Direction::Left | Direction::Right => self.y == from.y,
        }
    }

    /// Whether `self` and `other` are less than `eps` steps apart in the
    /// plane.
    pub open spec fn within(self, other: Position, eps: int) -> bool {
        (self.x - other.x) * (self.x - other.x) + (self.y - other.y) * (self.y - other.y) < eps
            * eps
    }

    /// Whether `self` lies more than `radius` steps from the origin of the
    /// plane.
    pub open spec fn beyond(self, radius: int) -> bool {
        self.x * self.x + self.y * self.y > radius * radius
    }

    /// The point `dist` steps from `self` along `d`, or `None` where a
    /// coordinate of it is not representable.
    pub fn checked_shift(self, d: Direction, dist: i128) -> (r: Option<Position>)
        ensures
            r == if self.can_shift(d, dist as int) {
                Some(self.shift(d, dist as int))
            } else {
                None
            },
    {
        if dist < -0x1_0000_0000_0000_0000 || dist > 0x1_0000_0000_0000_0000 {
            return None;
        }
        let (nx, ny): (i128, i128) = match d {
            Direction::Up => (self.x as i128, self.y as i128 + dist),
            Direction::Down => (self.x as i128, self.y as i128 - dist),
            Direction::Left => (self.x as i128 - dist, self.y as i128),
            Direction::Right => (self.x as i128 + dist, self.y as i128),
        };
        if nx < i64::MIN as i128 || nx > i64::MAX as i128 || ny < i64::MIN as i128 || ny
            > i64::MAX as i128 {
            None
        } else {
            Some(Position { x: nx as i64, y: ny as i64, z: self.z })
        }
    }

    /// The point `dist` steps from `self` along `d` where that point is
    /// representable, else `self`.
    pub fn shift_or_stay(self, d: Direction, dist: i128) -> (r: Position)
        ensures
            r == self.shifted(d, dist as int),
    {
        match self.checked_shift(d, dist) {
            Some(p) => p,
            None => self,
        }
    }

    /// How far `self` lies beyond `from` along `d`, where it has passed
    /// `from`; `None` where it has not.
    pub fn checked_overshoot(self, d: Direction, from: Position) -> (r: Option<i128>)
        ensures
            r == if self.passed(d, from) {
                Some(self.overshoot(d, from) as i128)
            } else {
                None::<i128>
            },
    {
        let (along, across): (i128, bool) = match d {
            Direction::Up => (self.y as i128 - from.y as i128, self.x == from.x),
            Direction::Down => (from.y as i128 - self.y as i128, self.x == from.x),
            Direction::Left => (from.x as i128 - self.x as i128, self.y == from.y),
            Direction::Right => (self.x as i128 - from.x as i128, self.y == from.y),
        };
        if along > 0 && across {
            Some(along)
        } else {
            None
        }
    }

    /// Whether `self` and `other` are less than `eps` steps apart in the
    /// plane.
    pub fn is_within(self, other: Position, eps: u32) -> (r: bool)
        ensures
            r == self.within(other, eps as int),
    {
        let dx: i128 = self.x as i128 - other.x as i128;
        let dy: i128 = self.y as i128 - other.y as i128;
        let e: i128 = eps as i128;
        if dx >= e || dx <= -e || dy >= e || dy <= -e {
            proof {
                lemma_square_bound(dx as int, e as int);
                lemma_square_bound(dy as int, e as int);
                assert(dx * dx >= 0 && dy * dy >= 0) by (nonlinear_arith);
            }
            false
        } else {
            proof {
                lemma_square_small(dx as int, e as int);
                lemma_square_small(dy as int, e as int);
                assert(e * e <= 0x1_0000_0000 * 0x1_0000_0000) by (nonlinear_arith)
                    requires
                        0 <= e <= 0x1_0000_0000,
                ;
            }
            dx * dx + dy * dy < e * e
        }
    }

    /// Whether `self` lies more than `radius` steps from the origin of the
    /// plane.
    pub fn is_beyond(self, radius: u32) -> (r: bool)
        ensures
            r == self.beyond(radius as int),
    {
        let x: i128 = self.x as i128;
        let y: i128 = self.y as i128;
        let e: i128 = radius as i128;
        if x > e || x < -e || y > e || y < -e {
            proof {
                lemma_square_beyond(x as int, e as int);
                lemma_square_beyond(y as int, e as int);
            }
            true
        } else {
            proof {
                lemma_square_within(x as int, e as int);
                lemma_square_within(y as int, e as int);
                lemma_square_within(e as int, e as int);
            }
            x * x + y * y > e * e
        }
    }
}

/// A number more than `e` away from zero has a square above `e * e`, and
/// no square is negative.
proof fn lemma_square_beyond(v: int, e: int)
    requires
        e >= 0,
    ensures
        v * v >= 0,
        (v > e || v < -e) ==> v * v > e * e,
{
    assert(v * v >= 0) by (nonlinear_arith);
    assert((v > e || v < -e) ==> v * v > e * e) by (nonlinear_arith)
        requires
            e >= 0,
    ;
}

/// A number at most `e` away from zero, `e` below 2^32, has a square below
/// 2^64.
proof fn lemma_square_within(v: int, e: int)
    requires
        -e <= v <= e,
        e <= 0xffff_ffff,
    ensures
        0 <= v * v <= 0xffff_ffff * 0xffff_ffff,
{
    assert(0 <= v * v <= 0xffff_ffff * 0xffff_ffff) by (nonlinear_arith)
        requires
            -0xffff_ffff <= v <= 0xffff_ffff,
    ;
}

/// A number at least `e` away from zero has a square of at least `e * e`.
proof fn lemma_square_bound(v: int, e: int)
    requires
        e >= 0,
    ensures
        (v >= e || v <= -e) ==> v * v >= e * e,
{
    assert((v >= e || v <= -e) ==> v * v >= e * e) by (nonlinear_arith)
        requires
            e >= 0,
    ;
}

/// A number less than `e` away from zero has a square below `e * e`.
proof fn lemma_square_small(v: int, e: int)
    requires
        -e < v < e,
    ensures
        0 <= v * v < e * e,
{
    assert(0 <= v * v < e * e) by (nonlinear_arith)
        requires
            -e < v < e,
    ;
}

} // verus!
