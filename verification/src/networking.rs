//! The messages that peers exchange, and the roster of players.

use crate::codec::{decode, decoded};
use crate::food::{spawn_food, Food, FOOD_LAYER};
use crate::game::{
    player_index, snake_index, ConnectionState, ConnectionView, Game, GameStates, GameView,
    KillSnake,
};
use crate::geometry::{Coord, Direction, Position};
use crate::reconcile::lemma_stale_snapshot_ignored;
use crate::snek::{CellTag, Move, MoveId, Moves, SnakeCell, SnakeTag, SnakeView, SpawnDetail};
use crate::timer::Interval;
use vstd::prelude::*;

verus! {

/// A reading of some player's clock, in milliseconds.
pub type PointInTime = u32;

/// What a snapshot says of one segment.
#[derive(Clone, Copy, Debug, PartialEq, Eq, Structural)]
pub struct SnakeCellDetails {
    pub cell_tag: CellTag,
    pub transform: Position,
    pub move_id: MoveId,
    pub direction: Direction,
}

/// A snapshot of a snake: where it is, the turns its segments have still
/// to take, and every segment.
#[derive(Clone, Debug, PartialEq, Eq)]
pub struct SnakeDetails {
    pub transform: Position,
    pub moves: Moves,
    pub cells: Vec<SnakeCellDetails>,
}

/// A snapshot as a mathematical value.
pub struct SnakeDetailsView {
    pub transform: Position,
    pub moves: Seq<Move>,
    pub cells: Seq<SnakeCellDetails>,
}

impl View for SnakeDetails {
    type V = SnakeDetailsView;

    open spec fn view(&self) -> SnakeDetailsView {
        SnakeDetailsView { transform: self.transform, moves: self.moves@, cells: self.cells@ }
    }
}

/// A message from one player to the others.
#[derive(Clone, Debug, PartialEq, Eq)]
pub enum TransportMessage {
    Noop,
    /// The sender's clock and a snapshot of its snake.
    SnakeUpdate(PointInTime, SnakeDetails),
    /// The sender's clock and a turn of its snake.
    AddMove(PointInTime, Move),
    StartGame(PointInTime),
    /// The id of a new food item and its place in the plane.
    SpawnFood(u32, Coord, Coord),
    /// The sender's snake has died.
    KillSnake,
    DespawnFood(u32),
    Ping(PointInTime),
    Pong(PointInTime),
}

/// A message as a mathematical value.
pub enum TransportMessageView {
    Noop,
    SnakeUpdate(PointInTime, SnakeDetailsView),
    AddMove(PointInTime, Move),
    StartGame(PointInTime),
    SpawnFood(u32, Coord, Coord),
    KillSnake,
    DespawnFood(u32),
    Ping(PointInTime),
    Pong(PointInTime),
}

impl View for TransportMessage {
    type V = TransportMessageView;

    open spec fn view(&self) -> TransportMessageView {
        match *self {
            TransportMessage::Noop => TransportMessageView::Noop,
            TransportMessage::SnakeUpdate(t, d) => TransportMessageView::SnakeUpdate(t, d@),
            TransportMessage::AddMove(t, m) => TransportMessageView::AddMove(t, m),
            TransportMessage::StartGame(t) => TransportMessageView::StartGame(t),
            TransportMessage::SpawnFood(id, x, y) => TransportMessageView::SpawnFood(id, x, y),
            TransportMessage::KillSnake => TransportMessageView::KillSnake,
            TransportMessage::DespawnFood(id) => TransportMessageView::DespawnFood(id),
            TransportMessage::Ping(t) => TransportMessageView::Ping(t),
            TransportMessage::Pong(t) => TransportMessageView::Pong(t),
        }
    }
}

/// Something for the network task to send.
#[derive(Clone, Debug, PartialEq, Eq)]
pub enum SendMessage {
    TransportMessage(TransportMessage),
}

impl View for SendMessage {
    type V = TransportMessageView;

    open spec fn view(&self) -> TransportMessageView {
        match *self {
            SendMessage::TransportMessage(m) => m@,
        }
    }
}

/// What the relay delivers: news of the room, or the payload that a
/// player sent.
#[derive(Clone, Debug, PartialEq, Eq)]
pub enum RelayMessage {
    /// The id given to this client, and the players already in the room.
    RoomJoined(u32, Vec<u32>),
    /// The player who came, and everybody now in the room.
    UserConnected(u32, Vec<u32>),
    /// The player who left, and those who remain.
    UserDisconnected(u32, Vec<u32>),
    /// The sender and the encoded [`TransportMessage`].
    UserMessage(u32, Vec<u8>),
}

/// What is known of a player.
#[derive(Clone, Copy, Debug, PartialEq, Eq)]
pub struct PlayerProp {
    /// The sender's clock on the latest message accepted from this player.
    pub last_update_time: Option<PointInTime>,
    /// The player's clock and the local clock at one and the same moment.
    pub start_time: Option<(PointInTime, PointInTime)>,
    pub user_id: u32,
    pub score: u32,
    pub highest_score: u32,
}

impl PlayerProp {
    /// A player of whom nothing is known but the id.
    pub open spec fn fresh(user_id: u32) -> PlayerProp {
        PlayerProp {
            last_update_time: None,
            start_time: None,
            user_id,
            score: 0,
            highest_score: 0,
        }
    }

    /// A player of whom nothing is known but the id.
    pub fn new(user_id: u32) -> (r: PlayerProp)
        ensures
            r == PlayerProp::fresh(user_id),
    {
        PlayerProp { last_update_time: None, start_time: None, user_id, score: 0, highest_score: 0 }
    }
}

/// A snapshot of a player's snake has arrived.
#[derive(Clone, Debug, PartialEq, Eq)]
pub struct SnakeUpdate {
    /// The sender's clock when the snapshot was made.
    pub update_time: PointInTime,
    pub user_id: u32,
    pub snake_details: SnakeDetails,
}

/// A turn of a player's snake has arrived.
#[derive(Clone, Copy, Debug, PartialEq, Eq)]
pub struct AddMove {
    pub user_id: u32,
    pub _move: Move,
}

/// A growth point of a player's snake has arrived.
#[derive(Clone, Copy, Debug, PartialEq, Eq)]
pub struct AddSpawn {
    pub user_id: u32,
    pub spawn: SpawnDetail,
}

/// What the network task hands to the simulation.
#[derive(Clone, Debug, PartialEq, Eq)]
pub enum ReceiveMessage {
    ConnectionEstablished,
    DatagramReceived(RelayMessage),
    ConnectionError,
    ChannelReceiveError,
}

/// What came of a message from the network task.
#[derive(Clone, Debug, PartialEq, Eq)]
pub struct Received {
    /// What has to be sent in answer.
    pub reply: Option<SendMessage>,
    /// Whether the roster may have changed.
    pub players_changed: bool,
    /// How long the ping that a peer has echoed was on its way there and
    /// back, in milliseconds.
    pub round_trip: Option<PointInTime>,
}

/// The view of a message that may be missing.
pub open spec fn sent_view(m: Option<SendMessage>) -> Option<TransportMessageView> {
    match m {
        Some(m) => Some(m@),
        None => None,
    }
}

/// Players of whom nothing is known but their ids.
pub open spec fn fresh_players(users: Seq<u32>) -> Seq<PlayerProp> {
    Seq::new(users.len(), |i: int| PlayerProp::fresh(users[i]))
}

/// The least of `users`; zero where there are none.
pub open spec fn lowest(users: Seq<u32>) -> u32
    decreases users.len(),
{
    if users.len() == 0 {
        0
    } else if users.len() == 1 {
        users[0]
    } else if users.last() < lowest(users.drop_last()) {
        users.last()
    } else {
        lowest(users.drop_last())
    }
}

/// The least of `users` is one of them, and none of them is less.
pub proof fn lemma_lowest(users: Seq<u32>)
    requires
        users.len() > 0,
    ensures
        exists|i: int| 0 <= i < users.len() && users[i] == lowest(users),
        forall|i: int| 0 <= i < users.len() ==> lowest(users) <= users[i],
    decreases users.len(),
{
    if users.len() > 1 {
        let init = users.drop_last();
        lemma_lowest(init);
        let k = choose|i: int| 0 <= i < init.len() && init[i] == lowest(init);
        assert(users[k] == init[k]);
        if users.last() < lowest(init) {
            assert(users[users.len() - 1] == lowest(users));
        } else {
            assert(users[k] == lowest(users));
        }
        assert forall|i: int| 0 <= i < users.len() implies lowest(users) <= users[i] by {
            if i < init.len() {
                assert(init[i] == users[i]);
            }
        }
    } else {
        assert(users[0] == lowest(users));
    }
}

/// What a snapshot says of a segment.
pub open spec fn details_of(cell: SnakeCell) -> SnakeCellDetails {
    SnakeCellDetails {
        cell_tag: cell.cell_tag,
        transform: cell.position,
        move_id: cell.move_id,
        direction: cell.direction,
    }
}

/// The snapshot of a snake: where it is, every turn still in its log, and
/// every segment.
pub open spec fn snapshot_of(s: SnakeView) -> SnakeDetailsView {
    SnakeDetailsView {
        transform: s.position,
        moves: s.moves,
        cells: Seq::new(s.cells.len(), |i: int| details_of(s.cells[i])),
    }
}

impl GameView {
    /// The client in a room after the relay has told it its id and who is
    /// in the room already: it enters itself on an empty roster, then the
    /// others, and is no host where others were there before it.
    pub open spec fn joined(self, user_id: u32, users: Seq<u32>) -> GameView {
        let c = self.connection.unwrap();
        let own = if c.players.len() == 0 {
            seq![PlayerProp::fresh(user_id)]
        } else {
            Seq::empty()
        };
        GameView {
            host: self.host && users.len() == 0,
            connection: Some(
                ConnectionView {
                    self_id: Some(user_id),
                    players: c.players + own + fresh_players(users),
                },
            ),
            ..self
        }
    }

    /// The client in a room after a player has come: the player is entered
    /// on the roster.
    pub open spec fn user_connected(self, id: u32) -> GameView {
        let c = self.connection.unwrap();
        GameView {
            connection: Some(ConnectionView { players: c.players.push(PlayerProp::fresh(id)), ..c }),
            ..self
        }
    }

    /// The client in a room after the player `id` has left, `users` being
    /// those who remain: the player leaves the roster and the mirror of the
    /// player's snake goes. The client becomes the host where its id is the
    /// lowest of those who remain.
    pub open spec fn user_disconnected(self, id: u32, users: Seq<u32>) -> GameView {
        let c = self.connection.unwrap();
        let pi = player_index(c.players, id);
        GameView {
            host: self.host || (users.len() > 0 && c.self_id == Some(lowest(users))),
            connection: Some(
                ConnectionView {
                    players: if pi < c.players.len() {
                        c.players.remove(pi)
                    } else {
                        c.players
                    },
                    ..c
                },
            ),
            ..self
        }.killed(SnakeTag::OtherPlayerSnake(id))
    }

    /// The client after the stamp `t` of a turn reported by `user_id` has
    /// been looked at: the stamp is remembered where a snapshot with it
    /// would be accepted, that is unless a later one has been accepted from
    /// that player.
    pub open spec fn stamped(self, user_id: u32, t: PointInTime) -> GameView {
        if self.accepts(user_id, t) {
            let c = self.connection.unwrap();
            let pi = player_index(c.players, user_id);
            GameView {
                connection: Some(
                    ConnectionView {
                        players: c.players.update(
                            pi,
                            PlayerProp { last_update_time: Some(t), ..c.players[pi] },
                        ),
                        ..c
                    },
                ),
                ..self
            }
        } else {
            self
        }
    }

    /// The client after it has heard the message `m` from the player
    /// `user_id` at local time `now`.
    pub open spec fn heard(self, user_id: u32, m: TransportMessageView, now: PointInTime)
        -> GameView {
        match m {
            TransportMessageView::Noop => self,
            TransportMessageView::SnakeUpdate(t, d) => GameView {
                state: GameStates::GamePlay,
                ..self
            }.snapshot_applied(user_id, t, d, now),
            TransportMessageView::AddMove(t, mv) => self.stamped(user_id, t).move_added(
                user_id,
                mv,
            ),
            TransportMessageView::StartGame(_) => GameView { state: GameStates::GamePlay, ..self },
            TransportMessageView::SpawnFood(id, x, y) => GameView {
                food: self.food.push(Food { id, position: Position { x, y, z: FOOD_LAYER } }),
                ..self
            },
            TransportMessageView::KillSnake => self.killed(SnakeTag::OtherPlayerSnake(user_id)),
            TransportMessageView::DespawnFood(id) => self.food_removed(id),
            TransportMessageView::Ping(_) => self,
            TransportMessageView::Pong(_) => self,
        }
    }

    /// The client after a message from the network task has been handled
    /// at local time `now`. Outside a room, and on a payload that decodes
    /// to no message, nothing changes.
    pub open spec fn received(self, msg: ReceiveMessage, now: PointInTime) -> GameView {
        if self.connection is None {
            self
        } else {
            match msg {
                ReceiveMessage::ConnectionEstablished => GameView {
                    state: GameStates::Lobby,
                    ..self
                },
                ReceiveMessage::DatagramReceived(RelayMessage::RoomJoined(id, users)) => self.joined(
                    id,
                    users@,
                ),
                ReceiveMessage::DatagramReceived(
                    RelayMessage::UserConnected(id, _),
                ) => self.user_connected(id),
                ReceiveMessage::DatagramReceived(
                    RelayMessage::UserDisconnected(id, users),
                ) => self.user_disconnected(id, users@),
                ReceiveMessage::DatagramReceived(
                    RelayMessage::UserMessage(id, payload),
                ) => match decoded(payload@) {
                    Some(m) => self.heard(id, m, now),
                    None => self,
                },
                ReceiveMessage::ConnectionError => self,
                ReceiveMessage::ChannelReceiveError => self,
            }
        }
    }

    /// What the client answers to a message from the network task: in a
    /// room it greets the relay that let it in and returns a ping.
    pub open spec fn reply(self, msg: ReceiveMessage) -> Option<TransportMessageView> {
        if self.connection is None {
            None
        } else {
            match msg {
                ReceiveMessage::DatagramReceived(RelayMessage::RoomJoined(_, _)) => Some(
                    TransportMessageView::Noop,
                ),
                ReceiveMessage::DatagramReceived(
                    RelayMessage::UserMessage(_, payload),
                ) => match decoded(payload@) {
                    Some(TransportMessageView::Ping(t)) => Some(TransportMessageView::Pong(t)),
                    _ => None,
                },
                _ => None,
            }
        }
    }

    /// The time that a ping took there and back, where the message from
    /// the network task is the echo of a ping that this client stamped
    /// with a time not later than `now`.
    pub open spec fn round_trip(self, msg: ReceiveMessage, now: PointInTime) -> Option<
        PointInTime,
    > {
        if self.connection is None {
            None
        } else {
            match msg {
                ReceiveMessage::DatagramReceived(
                    RelayMessage::UserMessage(_, payload),
                ) => match decoded(payload@) {
                    Some(TransportMessageView::Pong(t)) => if t <= now {
                        Some((now - t) as u32)
                    } else {
                        None
                    },
                    _ => None,
                },
                _ => None,
            }
        }
    }

    /// Whether a message from the network task is news of the room.
    pub open spec fn roster_news(self, msg: ReceiveMessage) -> bool {
        self.connection is Some && (msg matches ReceiveMessage::DatagramReceived(r) && !(
        r is UserMessage))
    }

    /// The snapshot of the local snake that the client sends at local time
    /// `now`, if it is in a room and has a snake.
    pub open spec fn snapshot(self, now: PointInTime) -> Option<TransportMessageView> {
        let si = snake_index(self.snakes, SnakeTag::SelfPlayerSnake);
        if self.connection is Some && si < self.snakes.len() {
            Some(TransportMessageView::SnakeUpdate(now, snapshot_of(self.snakes[si])))
        } else {
            None
        }
    }
}

/// Of two snapshot messages from one player, the one with the older stamp
/// changes nothing once the one with the newer stamp has been heard,
/// whenever each of them arrives.
pub proof fn lemma_late_snapshot_message_ignored(
    g: GameView,
    user_id: u32,
    newer: PointInTime,
    first: SnakeDetailsView,
    first_at: PointInTime,
    older: PointInTime,
    second: SnakeDetailsView,
    second_at: PointInTime,
)
    requires
        older < newer,
    ensures
        g.heard(user_id, TransportMessageView::SnakeUpdate(newer, first), first_at).heard(
            user_id,
            TransportMessageView::SnakeUpdate(older, second),
            second_at,
        ) == g.heard(user_id, TransportMessageView::SnakeUpdate(newer, first), first_at),
{
    let playing = GameView { state: GameStates::GamePlay, ..g };
    lemma_stale_snapshot_ignored(
        playing,
        user_id,
        newer,
        first,
        first_at,
        older,
        second,
        second_at,
    );
    let after = playing.snapshot_applied(user_id, newer, first, first_at);
    assert(after.state == GameStates::GamePlay);
    assert((GameView { state: GameStates::GamePlay, ..after }) == after);
}

/// The least of `users`; zero where there are none.
pub fn lowest_id(users: &Vec<u32>) -> (r: u32)
    ensures
        r == lowest(users@),
{
    let n = users.len();
    if n == 0 {
        return 0;
    }
    let mut least = users[0];
    let mut i: usize = 1;
    assert(users@.take(1) =~= seq![users@[0]]);
    while i < n
        invariant
            1 <= i <= n,
            n == users@.len(),
            least == lowest(users@.take(i as int)),
        decreases n - i,
    {
        proof {
            let next = users@.take(i + 1);
            assert(next.drop_last() =~= users@.take(i as int));
            assert(next.last() == users@[i as int]);
        }
        if users[i] < least {
            least = users[i];
        }
        i += 1;
    }
    assert(users@.take(n as int) =~= users@);
    least
}

impl Game {
    /// Lets `dt` milliseconds go by on the timer of the pings and, where
    /// it fires and the client is in a room, returns the ping to send,
    /// stamped with the local time `now`.
    pub fn ping_send(&self, timer: &mut Interval, dt: u32, now: PointInTime) -> (r: Option<
        SendMessage,
    >)
        ensures
            *final(timer) == old(timer).after(dt),
            sent_view(r) == if old(timer).fires(dt) && self@.connection is Some {
                Some(TransportMessageView::Ping(now))
            } else {
                None
            },
    {
        if !timer.tick(dt) {
            return None;
        }
        match &self.connection {
            ConnectionState::Connected(_) => Some(
                SendMessage::TransportMessage(TransportMessage::Ping(now)),
            ),
            ConnectionState::NotConnected => None,
        }
    }

    /// Starts the game from the lobby: in a room, the client tells the
    /// others and goes on to play.
    pub fn start_game(&mut self, now: PointInTime) -> (r: Option<SendMessage>)
        ensures
            final(self)@ == if old(self)@.connection is Some {
                GameView { state: GameStates::GamePlay, ..old(self)@ }
            } else {
                old(self)@
            },
            sent_view(r) == if old(self)@.connection is Some {
                Some(TransportMessageView::StartGame(now))
            } else {
                None
            },
    {
        match &self.connection {
            ConnectionState::Connected(_) => {
                self.state = GameStates::GamePlay;
                Some(SendMessage::TransportMessage(TransportMessage::StartGame(now)))
            },
            ConnectionState::NotConnected => None,
        }
    }

    /// Lets `dt` milliseconds go by on the timer of the snapshots and,
    /// where it fires, returns the snapshot of the local snake to send,
    /// stamped with the local time `now`, if the client is in a room and
    /// has a snake.
    pub fn send_snake_send(&self, timer: &mut Interval, dt: u32, now: PointInTime) -> (r: Option<
        SendMessage,
    >)
        ensures
            *final(timer) == old(timer).after(dt),
            sent_view(r) == if old(timer).fires(dt) {
                self@.snapshot(now)
            } else {
                None
            },
    {
        if !timer.tick(dt) {
            return None;
        }
        self.take_snapshot(now)
    }

    /// The snapshot of the local snake, stamped with the local time `now`,
    /// if the client is in a room and has a snake.
    pub fn take_snapshot(&self, now: PointInTime) -> (r: Option<SendMessage>)
        ensures
            sent_view(r) == self@.snapshot(now),
    {
        match &self.connection {
            ConnectionState::NotConnected => {
                return None;
            },
            ConnectionState::Connected(_) => {},
        }
        match self.find_snake(SnakeTag::SelfPlayerSnake) {
            None => None,
            Some(si) => {
                let snake = &self.snakes[si];
                let mut moves: Vec<Move> = Vec::new();
                let mut i: usize = 0;
                while i < snake.moves.moves.len()
                    invariant
                        0 <= i <= snake.moves.moves@.len(),
                        moves@ == snake.moves.moves@.take(i as int),
                    decreases snake.moves.moves@.len() - i,
                {
                    moves.push(snake.moves.moves[i]);
                    assert(moves@ =~= snake.moves.moves@.take(i + 1));
                    i += 1;
                }
                assert(moves@ =~= snake.moves.moves@);
                let mut cells: Vec<SnakeCellDetails> = Vec::new();
                let mut k: usize = 0;
                while k < snake.cells.len()
                    invariant
                        0 <= k <= snake.cells@.len(),
                        cells@.len() == k,
                        forall|j: int| 0 <= j < k ==> cells@[j] == details_of(snake.cells@[j]),
                    decreases snake.cells@.len() - k,
                {
                    let cell = snake.cells[k];
                    cells.push(
                        SnakeCellDetails {
                            cell_tag: cell.cell_tag,
                            transform: cell.position,
                            move_id: cell.move_id,
                            direction: cell.direction,
                        },
                    );
                    k += 1;
                }
                assert(cells@ =~= snapshot_of(snake@).cells);
                Some(
                    SendMessage::TransportMessage(
                        TransportMessage::SnakeUpdate(
                            now,
                            SnakeDetails { transform: snake.position, moves: Moves { moves }, cells },
                        ),
                    ),
                )
            },
        }
    }

    /// Enters on the roster what the relay tells a client that has joined a
    /// room: its own id and the players who were there before it.
    fn join_room(&mut self, user_id: u32, users: &Vec<u32>)
        requires
            old(self)@.connection is Some,
        ensures
            final(self)@ == old(self)@.joined(user_id, users@),
    {
        match &mut self.connection {
            ConnectionState::NotConnected => {},
            ConnectionState::Connected(c) => {
                c.self_id = Some(user_id);
                if c.players.len() == 0 {
                    c.players.push(PlayerProp::new(user_id));
                }
                let ghost base = c.players@;
                let n = users.len();
                let mut i: usize = 0;
                assert(c.players@ =~= base + fresh_players(users@.take(0)));
                while i < n
                    invariant
                        0 <= i <= n,
                        n == users@.len(),
                        c.self_id == Some(user_id),
                        c.players@ == base + fresh_players(users@.take(i as int)),
                    decreases n - i,
                {
                    c.players.push(PlayerProp::new(users[i]));
                    assert(c.players@ =~= base + fresh_players(users@.take(i + 1)));
                    i += 1;
                }
                assert(users@.take(n as int) =~= users@);
                assert(c.players@ =~= old(self)@.joined(user_id, users@).connection.unwrap().players);
            },
        }
        if users.len() != 0 {
            self.host = false;
        }
    }

    /// Takes the player who has left off the roster, removes the mirror of
    /// the player's snake, and makes this client the host where its id is
    /// the lowest of those who remain.
    fn leave_room(&mut self, id: u32, users: &Vec<u32>)
        requires
            old(self)@.wf(),
            old(self)@.connection is Some,
        ensures
            final(self)@ == old(self)@.user_disconnected(id, users@),
            final(self)@.wf(),
    {
        let least = lowest_id(users);
        let mut heir = false;
        match &mut self.connection {
            ConnectionState::NotConnected => {},
            ConnectionState::Connected(c) => {
                heir = users.len() > 0 && match c.self_id {
                    Some(own) => own == least,
                    None => false,
                };
                match c.find_player(id) {
                    Some(pi) => {
                        let _ = c.players.remove(pi);
                    },
                    None => {},
                }
            },
        }
        if heir {
            self.host = true;
        }
        self.handle_kill_snake(KillSnake { snake_id: SnakeTag::OtherPlayerSnake(id) });
    }

    /// Remembers the stamp of a turn that a player reports, unless a later
    /// one has been accepted from that player.
    fn stamp(&mut self, user_id: u32, t: PointInTime)
        ensures
            final(self)@ == old(self)@.stamped(user_id, t),
    {
        match &mut self.connection {
            ConnectionState::NotConnected => {},
            ConnectionState::Connected(c) => {
                match c.find_player(user_id) {
                    Some(pi) => {
                        let p = c.players[pi];
                        let late = match p.last_update_time {
                            Some(last) => t < last,
                            None => false,
                        };
                        if !late {
                            c.players[pi] = PlayerProp { last_update_time: Some(t), ..p };
                        }
                    },
                    None => {},
                }
            },
        }
    }

    /// Handles the message `m` that the player `user_id` sent, at local
    /// time `now`, and returns the answer to it.
    pub fn hear(&mut self, user_id: u32, m: TransportMessage, now: PointInTime) -> (r: Option<
        SendMessage,
    >)
        requires
            old(self)@.wf(),
        ensures
            final(self)@ == old(self)@.heard(user_id, m@, now),
            final(self)@.wf(),
            sent_view(r) == match m@ {
                TransportMessageView::Ping(t) => Some(TransportMessageView::Pong(t)),
                _ => None,
            },
    {
        match m {
            TransportMessage::Noop => None,
            TransportMessage::Ping(t) => Some(
                SendMessage::TransportMessage(TransportMessage::Pong(t)),
            ),
            TransportMessage::Pong(_) => None,
            TransportMessage::SnakeUpdate(update_time, snake_details) => {
                self.state = GameStates::GamePlay;
                self.update_snake(SnakeUpdate { update_time, user_id, snake_details }, now);
                None
            },
            TransportMessage::AddMove(t, _move) => {
                self.stamp(user_id, t);
                self.sync_add_move(AddMove { user_id, _move });
                None
            },
            TransportMessage::StartGame(_) => {
                self.state = GameStates::GamePlay;
                None
            },
            TransportMessage::SpawnFood(id, x, y) => {
                self.food.push(spawn_food(id, x, y));
                None
            },
            TransportMessage::DespawnFood(id) => {
                self.despawn_food(id);
                None
            },
            TransportMessage::KillSnake => {
                self.handle_kill_snake(KillSnake { snake_id: SnakeTag::OtherPlayerSnake(user_id) });
                None
            },
        }
    }

    /// Handles one message from the network task at local time `now`: the
    /// news of the room go to the roster, and what a player sent is decoded
    /// and applied. Returns the answer to send, and whether the roster may
    /// have changed.
    pub fn receive_msgs(&mut self, msg: ReceiveMessage, now: PointInTime) -> (r: Received)
        requires
            old(self)@.wf(),
        ensures
            final(self)@ == old(self)@.received(msg, now),
            final(self)@.wf(),
            sent_view(r.reply) == old(self)@.reply(msg),
            r.players_changed == old(self)@.roster_news(msg),
            r.round_trip == old(self)@.round_trip(msg, now),
    {
        match &self.connection {
            ConnectionState::NotConnected => {
                return Received { reply: None, players_changed: false, round_trip: None };
            },
            ConnectionState::Connected(_) => {},
        }
        match msg {
            ReceiveMessage::ConnectionEstablished => {
                self.state = GameStates::Lobby;
                Received { reply: None, players_changed: false, round_trip: None }
            },
            ReceiveMessage::DatagramReceived(RelayMessage::RoomJoined(user_id, users)) => {
                self.join_room(user_id, &users);
                Received {
                    reply: Some(SendMessage::TransportMessage(TransportMessage::Noop)),
                    players_changed: true,
                    round_trip: None,
                }
            },
            ReceiveMessage::DatagramReceived(RelayMessage::UserConnected(id, _users)) => {
                match &mut self.connection {
                    ConnectionState::NotConnected => {},
                    ConnectionState::Connected(c) => {
                        c.players.push(PlayerProp::new(id));
                    },
                }
                Received { reply: None, players_changed: true, round_trip: None }
            },
            ReceiveMessage::DatagramReceived(RelayMessage::UserDisconnected(id, users)) => {
                self.leave_room(id, &users);
                Received { reply: None, players_changed: true, round_trip: None }
            },
            ReceiveMessage::DatagramReceived(RelayMessage::UserMessage(user_id, payload)) => {
                match decode(payload.as_slice()) {
                    Some(m) => {
                        let round_trip = match &m {
                            TransportMessage::Pong(t) => if *t <= now {
                                Some(now - *t)
                            } else {
                                None
                            },
                            _ => None,
                        };
                        let reply = self.hear(user_id, m, now);
                        Received { reply, players_changed: false, round_trip }
                    },
                    None => Received { reply: None, players_changed: false, round_trip: None },
                }
            },
            ReceiveMessage::ConnectionError => Received { reply: None, players_changed: false, round_trip: None },
            ReceiveMessage::ChannelReceiveError => Received {
                reply: None,
                players_changed: false,
                round_trip: None,
            },
        }
    }
}

} // verus!
