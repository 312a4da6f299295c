//! What contacts between colliders mean for the game.

use crate::config::{GameConfig, ARENA_RADIUS};
use crate::game::{snake_index, ConnectionState, Game, GameView, KillSnake};
use crate::geometry::{Coord, Direction, Position, UNIT};
use crate::networking::{sent_view, SendMessage, TransportMessage, TransportMessageView};
use crate::snek::{CellTag, SnakeTag, SnakeView};
use vstd::prelude::*;

verus! {

/// What a collider stands for in the game.
#[derive(Clone, Copy, Debug, PartialEq, Eq, Structural)]
pub enum ColliderRole {
    /// The food item with this id.
    Food(u32),
    /// The sensor in front of the head of this snake.
    HeadSensor(SnakeTag),
    /// A segment of this snake with this tag; `head` tells whether it is
    /// the first of the chain.
    BodySegment { snake: SnakeTag, cell: CellTag, head: bool },
    /// The edge of the arena.
    Boundary,
}

/// What a contact leads to.
#[derive(Clone, Copy, Debug, PartialEq, Eq, Structural)]
pub enum DomainEvent {
    /// The snake has eaten the food item.
    FoodEaten { snake: SnakeTag, food_id: u32 },
    /// The snake dies.
    KillSnake(SnakeTag),
}

/// What the contact of a head sensor of snake `snake` with `other` leads
/// to: food is eaten; a segment of any snake, but for the snake's own
/// head, and the edge of the arena are fatal; two sensors pass.
pub open spec fn sensed(snake: SnakeTag, other: ColliderRole) -> Seq<DomainEvent> {
    match other {
        ColliderRole::Food(id) => seq![DomainEvent::FoodEaten { snake, food_id: id }],
        ColliderRole::BodySegment { snake: owner, cell, head } => if owner == snake && head {
            Seq::empty()
        } else {
            seq![DomainEvent::KillSnake(snake)]
        },
        ColliderRole::Boundary => seq![DomainEvent::KillSnake(snake)],
        ColliderRole::HeadSensor(_) => Seq::empty(),
    }
}

/// What a contact of two colliders leads to, whichever of the two is named
/// first. Only a contact of a head sensor leads to anything.
pub open spec fn resolved(a: ColliderRole, b: ColliderRole) -> Seq<DomainEvent> {
    match (a, b) {
        (ColliderRole::HeadSensor(s), other) => sensed(s, other),
        (other, ColliderRole::HeadSensor(s)) => sensed(s, other),
        _ => Seq::empty(),
    }
}

/// What a contact of two colliders leads to.
pub fn resolve_collision(a: ColliderRole, b: ColliderRole) -> (r: Vec<DomainEvent>)
    ensures
        r@ == resolved(a, b),
{
    let mut out: Vec<DomainEvent> = Vec::new();
    let (snake, other) = match (a, b) {
        (ColliderRole::HeadSensor(s), other) => (s, other),
        (other, ColliderRole::HeadSensor(s)) => (s, other),
        _ => {
            assert(out@ =~= resolved(a, b));
            return out;
        },
    };
    match other {
        ColliderRole::Food(id) => {
            out.push(DomainEvent::FoodEaten { snake, food_id: id });
        },
        ColliderRole::BodySegment { snake: owner, cell: _, head } => {
            if !(owner == snake && head) {
                out.push(DomainEvent::KillSnake(snake));
            }
        },
        ColliderRole::Boundary => {
            out.push(DomainEvent::KillSnake(snake));
        },
        ColliderRole::HeadSensor(_) => {},
    }
    assert(out@ =~= resolved(a, b));
    out
}

/// Shape and place of the sensor in front of a head.
#[derive(Clone, Copy, Debug, PartialEq, Eq)]
pub struct HeadSensor {
    /// Half the width and half the height of the sensor, in steps.
    pub half_extents: (u32, u32),
    /// Where the centre of the sensor lies, seen from the centre of the
    /// head.
    pub offset: (Coord, Coord),
}

/// The sensor of a head that heads along `d`: a strip one world unit thick
/// across the front edge of the head.
pub open spec fn sensor_for(config: GameConfig, d: Direction) -> HeadSensor {
    match d {
        Direction::Right => HeadSensor {
            half_extents: (UNIT as u32, config.cell_size.1 / 2),
            offset: ((config.cell_size.0 / 2) as i64, 0),
        },
        Direction::Left => HeadSensor {
            half_extents: (UNIT as u32, config.cell_size.1 / 2),
            offset: (-(config.cell_size.0 / 2) as i64, 0),
        },
        Direction::Up => HeadSensor {
            half_extents: (config.cell_size.0 / 2, UNIT as u32),
            offset: (0, (config.cell_size.0 / 2) as i64),
        },
        Direction::Down => HeadSensor {
            half_extents: (config.cell_size.0 / 2, UNIT as u32),
            offset: (0, -(config.cell_size.0 / 2) as i64),
        },
    }
}

/// The sensor of a head that turns to `direction`.
pub fn update_head_sensor(config: &GameConfig, direction: Direction) -> (r: HeadSensor)
    ensures
        r == sensor_for(*config, direction),
{
    let reach: i64 = (config.cell_size.0 / 2) as i64;
    match direction {
        Direction::Right => HeadSensor {
            half_extents: (UNIT as u32, config.cell_size.1 / 2),
            offset: (reach, 0),
        },
        Direction::Left => HeadSensor {
            half_extents: (UNIT as u32, config.cell_size.1 / 2),
            offset: (-reach, 0),
        },
        Direction::Up => HeadSensor {
            half_extents: (config.cell_size.0 / 2, UNIT as u32),
            offset: (0, reach),
        },
        Direction::Down => HeadSensor {
            half_extents: (config.cell_size.0 / 2, UNIT as u32),
            offset: (0, -reach),
        },
    }
}

impl SnakeView {
    /// Where the sensor in front of the head is: half a segment width ahead
    /// of the head.
    pub open spec fn sensor_position(self, config: GameConfig) -> Position {
        self.cells[0].position.shifted(self.cells[0].direction, (config.cell_size.0 / 2) as int)
    }
}

impl GameView {
    /// The client after the head of the snake with the given tag has
    /// eaten: growth is queued where the head is.
    pub open spec fn fed(self, tag: SnakeTag) -> GameView {
        let si = snake_index(self.snakes, tag);
        if si < self.snakes.len() {
            GameView { snakes: self.snakes.update(si, self.snakes[si].fed()), ..self }
        } else {
            self
        }
    }

    /// The client after an event of the game.
    pub open spec fn after_event(self, e: DomainEvent) -> GameView {
        match e {
            DomainEvent::FoodEaten { snake, food_id } => self.food_removed(food_id).fed(snake),
            DomainEvent::KillSnake(tag) => self.killed(tag),
        }
    }

    /// What the client tells the other players of an event, if it is in a
    /// room: that the food is gone, or that its own snake has died. The
    /// death of a mirror is its owner's to tell.
    pub open spec fn notice(self, e: DomainEvent) -> Option<TransportMessageView> {
        if self.connection is None {
            None
        } else {
            match e {
                DomainEvent::FoodEaten { snake, food_id } => Some(
                    TransportMessageView::DespawnFood(food_id),
                ),
                DomainEvent::KillSnake(tag) => if tag == SnakeTag::SelfPlayerSnake {
                    Some(TransportMessageView::KillSnake)
                } else {
                    None
                },
            }
        }
    }

    /// Whether the local snake has left the arena: the sensor in front of
    /// its head lies more than [`ARENA_RADIUS`] from the origin.
    pub open spec fn out_of_bounds(self) -> bool {
        let si = snake_index(self.snakes, SnakeTag::SelfPlayerSnake);
        si < self.snakes.len() && self.snakes[si].cells.len() > 0 && self.snakes[si].sensor_position(
            self.config,
        ).beyond(ARENA_RADIUS as int)
    }
}

impl Game {
    /// Applies an event of the game and returns what the other players
    /// have to be told of it.
    pub fn handle_event(&mut self, e: DomainEvent) -> (r: Option<SendMessage>)
        requires
            old(self)@.wf(),
        ensures
            final(self)@ == old(self)@.after_event(e),
            final(self)@.wf(),
            sent_view(r) == old(self)@.notice(e),
    {
        let connected = match &self.connection {
            ConnectionState::Connected(_) => true,
            ConnectionState::NotConnected => false,
        };
        match e {
            DomainEvent::FoodEaten { snake, food_id } => {
                self.despawn_food(food_id);
                match self.find_snake(snake) {
                    Some(si) => {
                        assert(self@.snakes[si as int].wf());
                        self.snakes[si].feed();
                        assert(self@.snakes =~= old(self)@.after_event(e).snakes);
                    },
                    None => {},
                }
                if connected {
                    Some(SendMessage::TransportMessage(TransportMessage::DespawnFood(food_id)))
                } else {
                    None
                }
            },
            DomainEvent::KillSnake(tag) => {
                self.handle_kill_snake(KillSnake { snake_id: tag });
                if connected && tag == SnakeTag::SelfPlayerSnake {
                    Some(SendMessage::TransportMessage(TransportMessage::KillSnake))
                } else {
                    None
                }
            },
        }
    }

    /// Handles the start of a contact between two colliders: the head
    /// sensor on food eats it, the head sensor on a body or on the edge of
    /// the arena kills its snake. Returns what came of the contact, and
    /// what the other players have to be told.
    pub fn handle_food_collision(&mut self, a: ColliderRole, b: ColliderRole) -> (r: (
        Vec<DomainEvent>,
        Option<SendMessage>,
    ))
        requires
            old(self)@.wf(),
        ensures
            r.0@ == resolved(a, b),
            final(self)@.wf(),
            resolved(a, b).len() <= 1,
            resolved(a, b).len() == 0 ==> final(self)@ == old(self)@ && r.1 is None,
            resolved(a, b).len() == 1 ==> final(self)@ == old(self)@.after_event(resolved(a, b)[0])
                && sent_view(r.1) == old(self)@.notice(resolved(a, b)[0]),
    {
        let events = resolve_collision(a, b);
        if events.len() == 0 {
            return (events, None);
        }
        let sent = self.handle_event(events[0]);
        (events, sent)
    }

    /// Kills the local snake once the sensor in front of its head has left
    /// the arena. Returns the death, and the notice of it for the other
    /// players.
    pub fn check_snek_position(&mut self) -> (r: (Option<KillSnake>, Option<SendMessage>))
        requires
            old(self)@.wf(),
        ensures
            final(self)@.wf(),
            final(self)@ == if old(self)@.out_of_bounds() {
                old(self)@.killed(SnakeTag::SelfPlayerSnake)
            } else {
                old(self)@
            },
            r.0 == if old(self)@.out_of_bounds() {
                Some(KillSnake { snake_id: SnakeTag::SelfPlayerSnake })
            } else {
                None
            },
            sent_view(r.1) == if old(self)@.out_of_bounds() && old(self)@.connection is Some {
                Some(TransportMessageView::KillSnake)
            } else {
                None
            },
    {
        let out = match self.find_snake(SnakeTag::SelfPlayerSnake) {
            Some(si) => {
                if self.snakes[si].cells.len() == 0 {
                    false
                } else {
                    let head = self.snakes[si].cells[0];
                    let reach = (self.config.cell_size.0 / 2) as i128;
                    head.position.shift_or_stay(head.direction, reach).is_beyond(ARENA_RADIUS)
                }
            },
            None => false,
        };
        if out {
            let sent = self.handle_event(DomainEvent::KillSnake(SnakeTag::SelfPlayerSnake));
            (Some(KillSnake { snake_id: SnakeTag::SelfPlayerSnake }), sent)
        } else {
            (None, None)
        }
    }
}

} // verus!
