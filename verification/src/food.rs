//! Food.

use crate::game::{ConnectionState, Game, GameView};
use crate::geometry::{Coord, Position, UNIT};
use crate::networking::{SendMessage, TransportMessage, TransportMessageView};
use crate::rng::random_u32;
use vstd::prelude::*;

verus! {

/// The drawing layer of food, above the snakes.
pub const FOOD_LAYER: Coord = 2 * UNIT;

/// A food item: its id on the network and its place.
#[derive(Clone, Copy, Debug, PartialEq, Eq, Structural)]
pub struct Food {
    pub id: u32,
    pub position: Position,
}

/// The ids of `food`, in order.
pub open spec fn food_keys(food: Seq<Food>) -> Seq<int> {
    Seq::new(food.len(), |i: int| food[i].id as int)
}

/// The food item with the given id at the given place in the plane.
pub fn spawn_food(id: u32, pos_x: Coord, pos_y: Coord) -> (r: Food)
    ensures
        r == (Food { id, position: Position { x: pos_x, y: pos_y, z: FOOD_LAYER } }),
{
    Food { id, position: Position { x: pos_x, y: pos_y, z: FOOD_LAYER } }
}

impl GameView {
    /// Whether this client makes food now: it is the host, it is in a
    /// room, and there is no food.
    pub open spec fn makes_food(self) -> bool {
        self.host && self.connection is Some && self.food.len() == 0
    }

    /// The client after it has made the food item with the given id at the
    /// given place, where it makes food now.
    pub open spec fn with_food(self, id: u32, pos_x: Coord, pos_y: Coord) -> GameView {
        if self.makes_food() {
            GameView {
                food: self.food.push(
                    Food { id, position: Position { x: pos_x, y: pos_y, z: FOOD_LAYER } },
                ),
                ..self
            }
        } else {
            self
        }
    }
}

impl Game {
    /// Makes the food item with the given id at the given place if this
    /// client is the host and there is no food, and returns the news of it
    /// for the other players.
    pub fn place_food(&mut self, id: u32, pos_x: Coord, pos_y: Coord) -> (r: Option<SendMessage>)
        ensures
            final(self)@ == old(self)@.with_food(id, pos_x, pos_y),
            match r {
                Some(m) => old(self)@.makes_food() && m@ == TransportMessageView::SpawnFood(
                    id,
                    pos_x,
                    pos_y,
                ),
                None => !old(self)@.makes_food(),
            },
    {
        if !self.host || self.food.len() != 0 {
            return None;
        }
        match &self.connection {
            ConnectionState::NotConnected => None,
            ConnectionState::Connected(_) => {
                self.food.push(spawn_food(id, pos_x, pos_y));
                Some(SendMessage::TransportMessage(TransportMessage::SpawnFood(id, pos_x, pos_y)))
            },
        }
    }

    /// Makes a food item with a randomly drawn id at the given place if
    /// this client is the host and there is no food, and returns the news
    /// of it for the other players.
    pub fn spawn_food_system(&mut self, pos_x: Coord, pos_y: Coord) -> (r: Option<SendMessage>)
        ensures
            exists|id: u32|
                final(self)@ == #[trigger] old(self)@.with_food(id, pos_x, pos_y) && match r {
                    Some(m) => old(self)@.makes_food() && m@ == TransportMessageView::SpawnFood(
                        id,
                        pos_x,
                        pos_y,
                    ),
                    None => !old(self)@.makes_food(),
                },
    {
        let id = random_u32();
        self.place_food(id, pos_x, pos_y)
    }
}

} // verus!
