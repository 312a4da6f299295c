//! The state of one client: the room, the snakes it simulates and the
//! food, with the rules that change them.

use crate::config::GameConfig;
use crate::food::{food_keys, Food};
use crate::geometry::Direction;
use crate::lookup::{index_of, lemma_index_from, lemma_index_of_is};
use crate::networking::{PlayerProp, PointInTime, SendMessage, TransportMessage, TransportMessageView};
use crate::rng::random_u32;
use crate::snek::{
    lemma_advanced_wf, lemma_tick_monotonic, lemma_turned_wf, Move, Snake, SnakeTag, SnakeView,
};
use vstd::prelude::*;

verus! {

/// The screens of the game.
#[derive(Clone, Copy, Debug, PartialEq, Eq, Structural)]
pub enum GameStates {
    EntryMenu,
    Lobby,
    GamePlay,
    GameOver,
}

impl GameStates {
    /// Whether this is the entry menu.
    #[must_use]
    pub fn is_entry_menu(&self) -> (r: bool)
        ensures
            r == (*self is EntryMenu),
    {
        matches!(self, GameStates::EntryMenu)
    }
}

impl Default for GameStates {
    fn default() -> (r: GameStates)
        ensures
            r == GameStates::EntryMenu,
    {
        GameStates::EntryMenu
    }
}

/// What the player asks of the snake.
#[derive(Clone, Copy, Debug, PartialEq, Eq, Structural)]
pub enum InputsActions {
    Up,
    Down,
    Left,
    Right,
}

impl InputsActions {
    /// The direction asked for.
    pub open spec fn heading(self) -> Direction {
        match self {
            InputsActions::Up => Direction::Up,
            InputsActions::Down => Direction::Down,
            InputsActions::Left => Direction::Left,
            InputsActions::Right => Direction::Right,
        }
    }

    /// The direction asked for.
    pub fn direction(self) -> (r: Direction)
        ensures
            r == self.heading(),
    {
        match self {
            InputsActions::Up => Direction::Up,
            InputsActions::Down => Direction::Down,
            InputsActions::Left => Direction::Left,
            InputsActions::Right => Direction::Right,
        }
    }
}

/// The head of the local snake is about to turn.
#[derive(Clone, Copy, Debug, PartialEq, Eq, Structural)]
pub struct ChangeDirection {
    pub direction: Direction,
}

/// A snake has to go.
#[derive(Clone, Copy, Debug, PartialEq, Eq, Structural)]
pub struct KillSnake {
    pub snake_id: SnakeTag,
}

/// What is known of the room once a connection has been asked for.
#[derive(Clone, Debug, PartialEq, Eq)]
pub struct ConnectionHandler {
    /// The id that the relay gave this client.
    pub self_id: Option<u32>,
    pub players: Vec<PlayerProp>,
}

impl ConnectionHandler {
    /// The index of the first player with the given id.
    pub fn find_player(&self, user_id: u32) -> (r: Option<usize>)
        ensures
            match r {
                Some(i) => i < self.players@.len() && player_index(self.players@, user_id) == i
                    && self.players@[i as int].user_id == user_id,
                None => player_index(self.players@, user_id) == self.players@.len(),
            },
    {
        let n = self.players.len();
        let mut i: usize = 0;
        while i < n
            invariant
                0 <= i <= n,
                n == self.players@.len(),
                forall|j: int| 0 <= j < i ==> self.players@[j].user_id != user_id,
            decreases n - i,
        {
            if self.players[i].user_id == user_id {
                proof {
                    lemma_index_of_is(player_keys(self.players@), user_id as int, i as int);
                }
                return Some(i);
            }
            i += 1;
        }
        proof {
            lemma_index_of_is(player_keys(self.players@), user_id as int, n as int);
        }
        None
    }
}

/// Whether a connection has been asked for, and what is known of the room.
#[derive(Clone, Debug, PartialEq, Eq)]
pub enum ConnectionState {
    NotConnected,
    Connected(ConnectionHandler),
}

/// The room as a mathematical value.
pub struct ConnectionView {
    pub self_id: Option<u32>,
    pub players: Seq<PlayerProp>,
}

impl View for ConnectionState {
    type V = Option<ConnectionView>;

    open spec fn view(&self) -> Option<ConnectionView> {
        match *self {
            ConnectionState::NotConnected => None,
            ConnectionState::Connected(c) => Some(
                ConnectionView { self_id: c.self_id, players: c.players@ },
            ),
        }
    }
}

/// The ids of `players`, in order.
pub open spec fn player_keys(players: Seq<PlayerProp>) -> Seq<int> {
    Seq::new(players.len(), |i: int| players[i].user_id as int)
}

/// The index of the first of `players` with the given id; their number
/// where there is none.
pub open spec fn player_index(players: Seq<PlayerProp>, user_id: u32) -> int {
    index_of(player_keys(players), user_id as int)
}

/// The number that stands for a snake's tag when snakes are looked up.
pub open spec fn tag_key(tag: SnakeTag) -> int {
    match tag {
        SnakeTag::SelfPlayerSnake => -1,
        SnakeTag::OtherPlayerSnake(id) => id as int,
    }
}

/// The tags of `snakes`, in order.
pub open spec fn snake_keys(snakes: Seq<SnakeView>) -> Seq<int> {
    Seq::new(snakes.len(), |i: int| tag_key(snakes[i].tag))
}

/// The index of the first of `snakes` with the given tag; their number
/// where there is none.
pub open spec fn snake_index(snakes: Seq<SnakeView>, tag: SnakeTag) -> int {
    index_of(snake_keys(snakes), tag_key(tag))
}

/// The index of the first of `food` with the given id; the number of items
/// where there is none.
pub open spec fn food_index(food: Seq<Food>, id: u32) -> int {
    index_of(food_keys(food), id as int)
}

/// Whether every segment that `before` has is still there in `after`, under
/// its tag, and the id of the last turn it has taken has not gone down.
pub open spec fn turns_kept(before: GameView, after: GameView) -> bool {
    &&& after.snakes.len() == before.snakes.len()
    &&& forall|i: int, j: int|
        0 <= i < before.snakes.len() && 0 <= j < before.snakes[i].cells.len() ==> j
            < after.snakes[i].cells.len() && (#[trigger] after.snakes[i].cells[j]).move_id
            >= before.snakes[i].cells[j].move_id && after.snakes[i].cells[j].cell_tag
            == before.snakes[i].cells[j].cell_tag
}

/// Over a tick of the simulation no segment of any snake goes back in the
/// turns it has taken.
pub proof fn lemma_tick_never_goes_back(g: GameView, dt: u32, seeds: Seq<u32>)
    requires
        g.wf(),
        seeds.len() == g.snakes.len(),
    ensures
        turns_kept(g, g.turned().moved(dt).grown(seeds)),
{
    let after = g.turned().moved(dt).grown(seeds);
    assert forall|i: int, j: int|
        0 <= i < g.snakes.len() && 0 <= j < g.snakes[i].cells.len() implies j
        < after.snakes[i].cells.len() && (#[trigger] after.snakes[i].cells[j]).move_id
        >= g.snakes[i].cells[j].move_id && after.snakes[i].cells[j].cell_tag
        == g.snakes[i].cells[j].cell_tag by {
        assert(g.snakes[i].wf());
        lemma_tick_monotonic(g.snakes[i], g.config, g.config.distance(dt), seeds[i]);
    }
}

/// The snakes as mathematical values.
pub open spec fn snake_views(snakes: Seq<Snake>) -> Seq<SnakeView> {
    Seq::new(snakes.len(), |i: int| snakes[i]@)
}

/// A client as a mathematical value.
pub struct GameView {
    pub config: GameConfig,
    pub state: GameStates,
    pub host: bool,
    pub connection: Option<ConnectionView>,
    pub snakes: Seq<SnakeView>,
    pub food: Seq<Food>,
}

impl GameView {
    /// Well-formedness: every snake is well-formed and no two have the
    /// same tag.
    pub open spec fn wf(self) -> bool {
        &&& forall|i: int| 0 <= i < self.snakes.len() ==> (#[trigger] self.snakes[i]).wf()
        &&& forall|i: int, j: int|
            0 <= i < j < self.snakes.len() ==> self.snakes[i].tag != self.snakes[j].tag
    }

    /// A client that has just started: on the entry menu, ready to host,
    /// knowing of no room, no snake and no food.
    pub open spec fn initial(config: GameConfig) -> GameView {
        GameView {
            config,
            state: GameStates::EntryMenu,
            host: true,
            connection: None,
            snakes: Seq::empty(),
            food: Seq::empty(),
        }
    }

    /// The client after the snake with the given tag has been removed, all
    /// its segments with it. Where there is no such snake nothing changes.
    pub open spec fn killed(self, tag: SnakeTag) -> GameView {
        let si = snake_index(self.snakes, tag);
        if si < self.snakes.len() {
            GameView { snakes: self.snakes.remove(si), ..self }
        } else {
            self
        }
    }

    /// The client after the food item with the given id has been removed.
    /// Where there is no such item nothing changes.
    pub open spec fn food_removed(self, id: u32) -> GameView {
        let fi = food_index(self.food, id);
        if fi < self.food.len() {
            GameView { food: self.food.remove(fi), ..self }
        } else {
            self
        }
    }

    /// The client after one tick of turn propagation in every snake.
    pub open spec fn turned(self) -> GameView {
        GameView {
            snakes: Seq::new(self.snakes.len(), |i: int| self.snakes[i].turned()),
            ..self
        }
    }

    /// The client after every segment of every snake has travelled for
    /// `dt` milliseconds.
    pub open spec fn moved(self, dt: u32) -> GameView {
        GameView {
            snakes: Seq::new(
                self.snakes.len(),
                |i: int| self.snakes[i].advanced(self.config.distance(dt)),
            ),
            ..self
        }
    }

    /// The client after one tick of growth in every snake, `seeds` holding
    /// the wish for the tag of each snake's new segment.
    pub open spec fn grown(self, seeds: Seq<u32>) -> GameView {
        GameView {
            snakes: Seq::new(
                self.snakes.len(),
                |i: int| self.snakes[i].grown(self.config, seeds[i]),
            ),
            ..self
        }
    }

    /// Whether the local snake can be set up: the relay has given this
    /// client an id, a player with that id is on the roster, and there is
    /// no local snake yet.
    pub open spec fn can_set_up(self) -> bool {
        &&& self.connection matches Some(c)
        &&& c.self_id matches Some(id)
        &&& player_index(c.players, id) < c.players.len()
        &&& snake_index(self.snakes, SnakeTag::SelfPlayerSnake) == self.snakes.len()
    }

    /// The client after the local snake has been set up with tags drawn
    /// from `seeds`.
    pub open spec fn set_up(self, seeds: (u32, u32, u32)) -> GameView {
        if self.can_set_up() {
            GameView {
                snakes: self.snakes.push(SnakeView::initial(self.config, seeds)),
                ..self
            }
        } else {
            self
        }
    }

    /// Whether an input makes the local snake turn.
    pub open spec fn steers(self, action: InputsActions) -> bool {
        let si = snake_index(self.snakes, SnakeTag::SelfPlayerSnake);
        si < self.snakes.len() && self.snakes[si].steers(action.heading())
    }

    /// The client after an input: the local snake records the turn, if the
    /// input makes it take one.
    pub open spec fn steered(self, action: InputsActions) -> GameView {
        let si = snake_index(self.snakes, SnakeTag::SelfPlayerSnake);
        if self.steers(action) {
            GameView {
                snakes: self.snakes.update(si, self.snakes[si].steered(action.heading())),
                ..self
            }
        } else {
            self
        }
    }

    /// The turn that an input makes the local snake record.
    pub open spec fn steering_move(self, action: InputsActions) -> Move {
        self.snakes[snake_index(self.snakes, SnakeTag::SelfPlayerSnake)].next_move(
            action.heading(),
        )
    }

    /// The client after it has asked for a connection: it knows of an
    /// empty room and has no id yet.
    pub open spec fn connecting(self) -> GameView {
        GameView {
            connection: Some(ConnectionView { self_id: None, players: Seq::empty() }),
            ..self
        }
    }
}

/// The state of one client.
#[derive(Clone, Debug, PartialEq, Eq)]
pub struct Game {
    pub config: GameConfig,
    pub state: GameStates,
    /// Whether this client is the one that makes food.
    pub host: bool,
    pub connection: ConnectionState,
    pub snakes: Vec<Snake>,
    pub food: Vec<Food>,
}

impl View for Game {
    type V = GameView;

    open spec fn view(&self) -> GameView {
        GameView {
            config: self.config,
            state: self.state,
            host: self.host,
            connection: self.connection@,
            snakes: snake_views(self.snakes@),
            food: self.food@,
        }
    }
}

impl Game {
    /// A client that has just started.
    pub fn new(config: GameConfig) -> (r: Game)
        ensures
            r@ == GameView::initial(config),
            r@.wf(),
    {
        let r = Game {
            config,
            state: GameStates::EntryMenu,
            host: true,
            connection: ConnectionState::NotConnected,
            snakes: Vec::new(),
            food: Vec::new(),
        };
        assert(r@.snakes =~= Seq::empty());
        r
    }

    /// Notes that a connection has been asked for.
    pub fn connect(&mut self)
        ensures
            final(self)@ == old(self)@.connecting(),
    {
        self.connection = ConnectionState::Connected(
            ConnectionHandler { self_id: None, players: Vec::new() },
        );
    }

    /// The index of the snake with the given tag.
    pub fn find_snake(&self, tag: SnakeTag) -> (r: Option<usize>)
        ensures
            match r {
                Some(i) => i < self@.snakes.len() && snake_index(self@.snakes, tag) == i
                    && self@.snakes[i as int].tag == tag,
                None => snake_index(self@.snakes, tag) == self@.snakes.len(),
            },
    {
        let n = self.snakes.len();
        let mut i: usize = 0;
        while i < n
            invariant
                0 <= i <= n,
                n == self.snakes@.len(),
                forall|j: int| 0 <= j < i ==> self.snakes@[j].tag != tag,
            decreases n - i,
        {
            if self.snakes[i].tag == tag {
                proof {
                    lemma_index_of_is(snake_keys(self@.snakes), tag_key(tag), i as int);
                }
                return Some(i);
            }
            i += 1;
        }
        proof {
            lemma_index_of_is(snake_keys(self@.snakes), tag_key(tag), n as int);
        }
        None
    }

    /// The index of the first food item with the given id.
    pub fn find_food(&self, id: u32) -> (r: Option<usize>)
        ensures
            match r {
                Some(i) => i < self@.food.len() && food_index(self@.food, id) == i
                    && self@.food[i as int].id == id,
                None => food_index(self@.food, id) == self@.food.len(),
            },
    {
        let n = self.food.len();
        let mut i: usize = 0;
        while i < n
            invariant
                0 <= i <= n,
                n == self.food@.len(),
                forall|j: int| 0 <= j < i ==> self.food@[j].id != id,
            decreases n - i,
        {
            if self.food[i].id == id {
                proof {
                    lemma_index_of_is(food_keys(self.food@), id as int, i as int);
                }
                return Some(i);
            }
            i += 1;
        }
        proof {
            lemma_index_of_is(food_keys(self.food@), id as int, n as int);
        }
        None
    }

    /// Removes the snake that the event names, all its segments with it.
    pub fn handle_kill_snake(&mut self, event: KillSnake)
        requires
            old(self)@.wf(),
        ensures
            final(self)@ == old(self)@.killed(event.snake_id),
            final(self)@.wf(),
    {
        match self.find_snake(event.snake_id) {
            Some(si) => {
                let _ = self.snakes.remove(si);
                assert(self@.snakes =~= old(self)@.snakes.remove(si as int));
            },
            None => {},
        }
    }

    /// Removes the food item with the given id.
    pub fn despawn_food(&mut self, id: u32)
        ensures
            final(self)@ == old(self)@.food_removed(id),
    {
        match self.find_food(id) {
            Some(fi) => {
                let _ = self.food.remove(fi);
            },
            None => {},
        }
    }

    /// Turn propagation, one tick, in every snake.
    pub fn update_cell_direction(&mut self)
        requires
            old(self)@.wf(),
        ensures
            final(self)@ == old(self)@.turned(),
            final(self)@.wf(),
    {
        let n = self.snakes.len();
        let mut i: usize = 0;
        while i < n
            invariant
                0 <= i <= n,
                n == self.snakes@.len(),
                n == old(self).snakes@.len(),
                old(self)@.wf(),
                self.config == old(self).config,
                self.state == old(self).state,
                self.host == old(self).host,
                self.connection == old(self).connection,
                self.food == old(self).food,
                forall|j: int| 0 <= j < i ==> self.snakes@[j]@ == old(self).snakes@[j]@.turned(),
                forall|j: int| i <= j < n ==> self.snakes@[j] == old(self).snakes@[j],
            decreases n - i,
        {
            assert(old(self)@.snakes[i as int].wf());
            self.snakes[i].update_cell_direction();
            i += 1;
        }
        assert(self@.snakes =~= old(self)@.turned().snakes);
        proof {
            assert forall|j: int| 0 <= j < self@.snakes.len() implies (#[trigger] self@.snakes[j]).wf() by {
                lemma_turned_wf(old(self)@.snakes[j]);
            }
        }
    }

    /// Movement, one tick: every segment of every snake travels for `dt`
    /// milliseconds.
    pub fn move_cells(&mut self, dt: u32)
        requires
            old(self)@.wf(),
        ensures
            final(self)@ == old(self)@.moved(dt),
            final(self)@.wf(),
    {
        let dist = self.config.travelled(dt);
        let n = self.snakes.len();
        let mut i: usize = 0;
        while i < n
            invariant
                0 <= i <= n,
                n == self.snakes@.len(),
                n == old(self).snakes@.len(),
                self.config == old(self).config,
                self.state == old(self).state,
                self.host == old(self).host,
                self.connection == old(self).connection,
                self.food == old(self).food,
                forall|j: int|
                    0 <= j < i ==> self.snakes@[j]@ == old(self).snakes@[j]@.advanced(dist as int),
                forall|j: int| i <= j < n ==> self.snakes@[j] == old(self).snakes@[j],
            decreases n - i,
        {
            self.snakes[i].advance(dist);
            i += 1;
        }
        assert(self@.snakes =~= old(self)@.moved(dt).snakes);
        proof {
            assert forall|j: int| 0 <= j < self@.snakes.len() implies (#[trigger] self@.snakes[j]).wf() by {
                assert(old(self)@.snakes[j].wf());
                lemma_advanced_wf(old(self)@.snakes[j], dist as int);
            }
        }
    }

    /// Whether the local snake can be set up.
    pub fn ready_to_set_up(&self) -> (r: bool)
        ensures
            r == self@.can_set_up(),
    {
        if self.find_snake(SnakeTag::SelfPlayerSnake).is_some() {
            return false;
        }
        match &self.connection {
            ConnectionState::NotConnected => false,
            ConnectionState::Connected(c) => match c.self_id {
                Some(id) => c.find_player(id).is_some(),
                None => false,
            },
        }
    }

    /// Sets up the local snake with tags drawn from `seeds`.
    pub fn set_up_snake(&mut self, seeds: (u32, u32, u32)) -> (r: bool)
        requires
            old(self)@.wf(),
        ensures
            r == old(self)@.can_set_up(),
            final(self)@ == old(self)@.set_up(seeds),
            final(self)@.wf(),
    {
        if !self.ready_to_set_up() {
            return false;
        }
        proof {
            lemma_index_from(snake_keys(self@.snakes), tag_key(SnakeTag::SelfPlayerSnake), 0);
            assert forall|i: int| 0 <= i < self@.snakes.len() implies (#[trigger] self@.snakes[i]).tag
                != SnakeTag::SelfPlayerSnake by {
                assert(snake_keys(self@.snakes)[i] != tag_key(SnakeTag::SelfPlayerSnake));
            }
        }
        let snake = Snake::player(&self.config, seeds);
        self.snakes.push(snake);
        assert(self@.snakes =~= old(self)@.set_up(seeds).snakes);
        true
    }

    /// Sets up the local snake, with randomly drawn tags, once the client
    /// is in a room and knows its id.
    pub fn setup_snek(&mut self) -> (r: bool)
        requires
            old(self)@.wf(),
        ensures
            r == old(self)@.can_set_up(),
            exists|seeds: (u32, u32, u32)| final(self)@ == #[trigger] old(self)@.set_up(seeds),
            final(self)@.wf(),
    {
        let seeds = (random_u32(), random_u32(), random_u32());
        self.set_up_snake(seeds)
    }

    /// Handles an input: where it makes the local snake turn, the turn is
    /// recorded, announced to the head sensor, and, in a room, to the other
    /// players with the local clock `now`.
    pub fn handle_input_event(&mut self, action: InputsActions, now: PointInTime) -> (r: (
        Option<ChangeDirection>,
        Option<SendMessage>,
    ))
        requires
            old(self)@.wf(),
        ensures
            final(self)@ == old(self)@.steered(action),
            final(self)@.wf(),
            r.0 == if old(self)@.steers(action) {
                Some(ChangeDirection { direction: action.heading() })
            } else {
                None
            },
            match r.1 {
                Some(m) => old(self)@.steers(action) && old(self)@.connection is Some && m@
                    == TransportMessageView::AddMove(now, old(self)@.steering_move(action)),
                None => !(old(self)@.steers(action) && old(self)@.connection is Some),
            },
    {
        let d = action.direction();
        match self.find_snake(SnakeTag::SelfPlayerSnake) {
            Some(si) => {
                assert(old(self)@.snakes[si as int].wf());
                match self.snakes[si].steer(d) {
                    Some(m) => {
                        assert(self@.snakes =~= old(self)@.steered(action).snakes);
                        let sent = match &self.connection {
                            ConnectionState::Connected(_) => Some(
                                SendMessage::TransportMessage(TransportMessage::AddMove(now, m)),
                            ),
                            ConnectionState::NotConnected => None,
                        };
                        (Some(ChangeDirection { direction: d }), sent)
                    },
                    None => {
                        assert(self@.snakes =~= old(self)@.snakes);
                        (None, None)
                    },
                }
            },
            None => (None, None),
        }
    }

    /// Growth, one tick, in every snake: a snake whose tail has reached its
    /// oldest growth point gets a new tail with a randomly drawn tag.
    pub fn spawn_new_cell(&mut self)
        requires
            old(self)@.wf(),
        ensures
            exists|seeds: Seq<u32>|
                seeds.len() == old(self)@.snakes.len() && final(self)@ == #[trigger] old(
                    self,
                )@.grown(seeds),
            final(self)@.wf(),
    {
        let n = self.snakes.len();
        let mut i: usize = 0;
        let ghost mut seeds: Seq<u32> = Seq::empty();
        while i < n
            invariant
                0 <= i <= n,
                n == self.snakes@.len(),
                n == old(self).snakes@.len(),
                old(self)@.wf(),
                seeds.len() == i,
                self.config == old(self).config,
                self.state == old(self).state,
                self.host == old(self).host,
                self.connection == old(self).connection,
                self.food == old(self).food,
                forall|j: int|
                    0 <= j < i ==> self.snakes@[j]@ == old(self).snakes@[j]@.grown(
                        self.config,
                        seeds[j],
                    ),
                forall|j: int| 0 <= j < i ==> (#[trigger] self.snakes@[j])@.wf(),
                forall|j: int| i <= j < n ==> self.snakes@[j] == old(self).snakes@[j],
            decreases n - i,
        {
            let seed = random_u32();
            let config = self.config;
            assert(old(self)@.snakes[i as int].wf());
            let _ = self.snakes[i].grow(&config, seed);
            proof {
                seeds = seeds.push(seed);
            }
            i += 1;
        }
        assert(self@.snakes =~= old(self)@.grown(seeds).snakes);
        assert forall|a: int, b: int| 0 <= a < b < self@.snakes.len() implies self@.snakes[a].tag
            != self@.snakes[b].tag by {
            assert(old(self)@.snakes[a].tag != old(self)@.snakes[b].tag);
        }
    }

    /// Whether the local snake is alive.
    pub fn alive(&self) -> (r: bool)
        ensures
            r == (snake_index(self@.snakes, SnakeTag::SelfPlayerSnake) < self@.snakes.len()),
    {
        self.find_snake(SnakeTag::SelfPlayerSnake).is_some()
    }

    /// One tick of the simulation, `dt` milliseconds long: turns are
    /// propagated, then every segment travels, then snakes grow.
    pub fn tick(&mut self, dt: u32)
        requires
            old(self)@.wf(),
        ensures
            exists|seeds: Seq<u32>|
                seeds.len() == old(self)@.snakes.len() && final(self)@ == #[trigger] old(
                    self,
                )@.turned().moved(dt).grown(seeds),
            final(self)@.wf(),
            turns_kept(old(self)@, final(self)@),
    {
        self.update_cell_direction();
        self.move_cells(dt);
        self.spawn_new_cell();
        proof {
            let seeds = choose|seeds: Seq<u32>|
                seeds.len() == old(self)@.snakes.len() && self@ == #[trigger] old(
                    self,
                )@.turned().moved(dt).grown(seeds);
            lemma_tick_never_goes_back(old(self)@, dt, seeds);
        }
    }

    /// Whether the client is well-formed.
    pub fn is_well_formed(&self) -> (r: bool)
        ensures
            r == self@.wf(),
    {
        let n = self.snakes.len();
        let mut j: usize = 0;
        while j < n
            invariant
                0 <= j <= n,
                n == self.snakes@.len(),
                forall|a: int| 0 <= a < j ==> (#[trigger] self@.snakes[a]).wf(),
                forall|a: int, b: int| 0 <= a < b < j ==> self@.snakes[a].tag != self@.snakes[b].tag,
            decreases n - j,
        {
            if !self.snakes[j].is_well_formed() {
                assert(!self@.snakes[j as int].wf());
                return false;
            }
            let tag = self.snakes[j].tag;
            let mut i: usize = 0;
            while i < j
                invariant
                    0 <= i <= j < n,
                    n == self.snakes@.len(),
                    tag == self@.snakes[j as int].tag,
                    forall|a: int| 0 <= a < i ==> self@.snakes[a].tag != tag,
                decreases j - i,
            {
                if self.snakes[i].tag == tag {
                    assert(self@.snakes[i as int].tag == self@.snakes[j as int].tag);
                    return false;
                }
                i += 1;
            }
            j += 1;
        }
        true
    }
}

} // verus!
