//! Settings of a game.

use crate::geometry::Direction;
use vstd::prelude::*;

verus! {

/// How close, in steps, the tail has to come to a growth point for the
/// snake to grow there: one world unit.
pub const GROWTH_EPSILON: u32 = 1000;

/// Distance, in steps, from the origin to the edge of the arena.
pub const ARENA_RADIUS: u32 = 1000000;

/// Time between two snapshots of the local snake, in milliseconds.
pub const SNAPSHOT_PERIOD: u32 = 500;

/// Time between two pings, in milliseconds.
pub const PING_PERIOD: u32 = 1000;

/// Number of segments a snake starts with; the score counts those beyond.
pub const INITIAL_CELLS: usize = 3;

/// Settings shared by every rule of the simulation.
#[derive(Clone, Copy, Debug, PartialEq, Eq)]
pub struct GameConfig {
    /// Steps travelled per millisecond.
    pub speed: u32,
    /// Width and height of a segment, in steps.
    pub cell_size: (u32, u32),
    /// Width and height of the window, in pixels.
    pub game_size: (u32, u32),
}

impl Default for GameConfig {
    /// A hundred world units per second and segments twenty world units
    /// wide and high, with the size of the window yet to be learnt.
    fn default() -> (r: GameConfig)
        ensures
            r.speed == 100,
            r.cell_size == (20000u32, 20000u32),
            r.game_size == (0u32, 0u32),
    {
        GameConfig { speed: 100, cell_size: (20000, 20000), game_size: (0, 0) }
    }
}

impl GameConfig {
    /// The size of a segment measured along `d`: its width for a horizontal
    /// direction, its height for a vertical one.
    pub open spec fn extent(self, d: Direction) -> int {
        match d {
            Direction::Left | Direction::Right => self.cell_size.0 as int,
            Direction::Up | Direction::Down => self.cell_size.1 as int,
        }
    }

    /// The distance covered in `dt` milliseconds.
    pub open spec fn distance(self, dt: u32) -> int {
        self.speed * dt
    }

    /// The size of a segment measured along `d`.
    pub fn extent_along(&self, d: Direction) -> (r: u32)
        ensures
            r == self.extent(d),
    {
        match d {
            Direction::Left | Direction::Right => self.cell_size.0,
            Direction::Up | Direction::Down => self.cell_size.1,
        }
    }

    /// The distance covered in `dt` milliseconds.
    pub fn travelled(&self, dt: u32) -> (r: u64)
        ensures
            r == self.distance(dt),
    {
        assert(self.speed * dt <= 0xffff_ffff * 0xffff_ffff) by (nonlinear_arith)
            requires
                0 <= self.speed <= 0xffff_ffff,
                0 <= dt <= 0xffff_ffff,
        ;
        (self.speed as u64) * (dt as u64)
    }
}

} // verus!
