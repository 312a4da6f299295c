use snek::codec::encode;
use snek::collision::{resolve_collision, update_head_sensor, ColliderRole, DomainEvent, HeadSensor};
use snek::config::{GameConfig, ARENA_RADIUS, PING_PERIOD, SNAPSHOT_PERIOD};
use snek::food::{spawn_food, Food, FOOD_LAYER};
use snek::game::{
    ChangeDirection, ConnectionHandler, ConnectionState, Game, GameStates, InputsActions, KillSnake,
};
use snek::geometry::{Direction, Position};
use snek::input::{handle_touch, keyboard_input};
use snek::networking::{
    PlayerProp, ReceiveMessage, Received, RelayMessage, SendMessage, SnakeCellDetails,
    SnakeDetails, TransportMessage,
};
use snek::snek::{Move, Moves, SnakeTag, SpawnDetail};
use snek::timer::Interval;

fn sent(m: TransportMessage) -> Option<SendMessage> {
    Some(SendMessage::TransportMessage(m))
}

fn relay(m: RelayMessage) -> ReceiveMessage {
    ReceiveMessage::DatagramReceived(m)
}

fn from_player(user_id: u32, m: &TransportMessage) -> ReceiveMessage {
    relay(RelayMessage::UserMessage(user_id, encode(m)))
}

fn handler(g: &Game) -> &ConnectionHandler {
    match &g.connection {
        ConnectionState::Connected(c) => c,
        ConnectionState::NotConnected => panic!("not in a room"),
    }
}

fn ids(g: &Game) -> Vec<u32> {
    handler(g).players.iter().map(|p| p.user_id).collect()
}

/// A client in a room as player 1 with player 2, playing, with its snake.
fn playing() -> Game {
    let mut g = Game::new(GameConfig::default());
    g.connect();
    g.receive_msgs(ReceiveMessage::ConnectionEstablished, 0);
    g.receive_msgs(relay(RelayMessage::RoomJoined(1, vec![2])), 0);
    g.start_game(0);
    assert!(g.setup_snek());
    g
}

fn local(g: &Game) -> &snek::snek::Snake {
    g.snakes.iter().find(|s| s.tag == SnakeTag::SelfPlayerSnake).expect("no local snake")
}

#[test]
fn a_new_client_is_on_the_entry_menu() {
    let g = Game::new(GameConfig::default());
    assert!(g.state.is_entry_menu());
    assert_eq!(GameStates::default(), GameStates::EntryMenu);
    assert!(!GameStates::Lobby.is_entry_menu());
    assert!(g.host);
    assert_eq!(g.connection, ConnectionState::NotConnected);
    assert!(g.snakes.is_empty());
    assert!(g.food.is_empty());
    assert!(!g.alive());
}

#[test]
fn nothing_is_received_outside_a_room() {
    let mut g = Game::new(GameConfig::default());
    let kept = g.clone();
    let r = g.receive_msgs(relay(RelayMessage::RoomJoined(1, vec![2])), 5);
    assert_eq!(r, Received { reply: None, players_changed: false, round_trip: None });
    let r = g.receive_msgs(ReceiveMessage::ConnectionEstablished, 5);
    assert_eq!(r, Received { reply: None, players_changed: false, round_trip: None });
    assert_eq!(g, kept);
    assert_eq!(g.ping_send(&mut Interval::new(0), 0, 5), None);
    assert_eq!(g.start_game(5), None);
    assert_eq!(g.take_snapshot(5), None);
    assert!(!g.setup_snek());
    assert_eq!(g, kept);
}

#[test]
fn connection_leads_to_the_lobby() {
    let mut g = Game::new(GameConfig::default());
    g.connect();
    assert_eq!(g.connection, ConnectionState::Connected(ConnectionHandler { self_id: None, players: vec![] }));
    let r = g.receive_msgs(ReceiveMessage::ConnectionEstablished, 0);
    assert_eq!(r, Received { reply: None, players_changed: false, round_trip: None });
    assert_eq!(g.state, GameStates::Lobby);
    let kept = g.clone();
    g.receive_msgs(ReceiveMessage::ConnectionError, 0);
    g.receive_msgs(ReceiveMessage::ChannelReceiveError, 0);
    assert_eq!(g, kept);
}

#[test]
fn joining_an_empty_room_keeps_the_host() {
    let mut g = Game::new(GameConfig::default());
    g.connect();
    let r = g.receive_msgs(relay(RelayMessage::RoomJoined(7, vec![])), 0);
    assert_eq!(r, Received { reply: sent(TransportMessage::Noop), players_changed: true, round_trip: None });
    assert!(g.host);
    assert_eq!(handler(&g).self_id, Some(7));
    assert_eq!(
        handler(&g).players,
        vec![PlayerProp { last_update_time: None, start_time: None, user_id: 7, score: 0, highest_score: 0 }]
    );
}

#[test]
fn joining_a_room_with_others_enters_them_and_gives_up_the_host() {
    let mut g = Game::new(GameConfig::default());
    g.connect();
    g.receive_msgs(relay(RelayMessage::RoomJoined(7, vec![3, 5])), 0);
    assert!(!g.host);
    assert_eq!(ids(&g), vec![7, 3, 5]);
    g.receive_msgs(relay(RelayMessage::UserConnected(9, vec![3, 5, 7, 9])), 0);
    assert_eq!(ids(&g), vec![7, 3, 5, 9]);
    // On a roster that is not empty the client does not enter itself again.
    g.receive_msgs(relay(RelayMessage::RoomJoined(8, vec![4])), 0);
    assert_eq!(ids(&g), vec![7, 3, 5, 9, 4]);
    assert_eq!(handler(&g).self_id, Some(8));
}

#[test]
fn lowest_id_that_remains_becomes_the_host() {
    let mut g = Game::new(GameConfig::default());
    g.connect();
    g.receive_msgs(relay(RelayMessage::RoomJoined(5, vec![3, 9])), 0);
    assert!(!g.host);
    // Player 9 leaves: 3 is the lowest, not this client.
    let r = g.receive_msgs(relay(RelayMessage::UserDisconnected(9, vec![5, 3])), 0);
    assert_eq!(r, Received { reply: None, players_changed: true, round_trip: None });
    assert!(!g.host);
    assert_eq!(ids(&g), vec![5, 3]);
    // Player 3 leaves: this client is the lowest of those who remain.
    g.receive_msgs(relay(RelayMessage::UserDisconnected(3, vec![8, 5])), 0);
    assert!(g.host);
    assert_eq!(ids(&g), vec![5]);
    // Somebody unknown leaves: the roster stays, and so does the host.
    g.receive_msgs(relay(RelayMessage::UserDisconnected(77, vec![])), 0);
    assert!(g.host);
    assert_eq!(ids(&g), vec![5]);
}

#[test]
fn nobody_becomes_host_of_an_empty_room() {
    let mut g = Game::new(GameConfig::default());
    g.connect();
    g.receive_msgs(relay(RelayMessage::RoomJoined(0, vec![3])), 0);
    g.receive_msgs(relay(RelayMessage::UserDisconnected(3, vec![])), 0);
    assert!(!g.host);
}

#[test]
fn disconnect_removes_the_mirror_of_the_player() {
    let mut g = playing();
    let snapshot = TransportMessage::SnakeUpdate(
        1,
        SnakeDetails {
            transform: Position { x: 0, y: 0, z: 0 },
            moves: Moves { moves: vec![] },
            cells: vec![],
        },
    );
    g.receive_msgs(from_player(2, &snapshot), 1);
    assert_eq!(g.snakes.len(), 2);
    g.receive_msgs(relay(RelayMessage::UserDisconnected(2, vec![1])), 2);
    assert_eq!(g.snakes.len(), 1);
    assert!(g.alive());
    assert_eq!(ids(&g), vec![1]);
}

#[test]
fn ping_is_answered_with_pong() {
    let mut g = playing();
    let kept = g.clone();
    let r = g.receive_msgs(from_player(2, &TransportMessage::Ping(4321)), 9);
    assert_eq!(r, Received { reply: sent(TransportMessage::Pong(4321)), players_changed: false, round_trip: None });
    // The echo of a ping stamped 4321 comes back 79 ms later.
    let r = g.receive_msgs(from_player(2, &TransportMessage::Pong(4321)), 4400);
    assert_eq!(r, Received { reply: None, players_changed: false, round_trip: Some(79) });
    let r = g.receive_msgs(from_player(2, &TransportMessage::Pong(4321)), 4321);
    assert_eq!(r.round_trip, Some(0));
    let r = g.receive_msgs(from_player(2, &TransportMessage::Pong(4321)), 9);
    assert_eq!(r, Received { reply: None, players_changed: false, round_trip: None });
    let r = g.receive_msgs(from_player(2, &TransportMessage::Noop), 9);
    assert_eq!(r, Received { reply: None, players_changed: false, round_trip: None });
    assert_eq!(g, kept);
    assert_eq!(g.ping_send(&mut Interval::new(0), 0, 77), sent(TransportMessage::Ping(77)));
}

#[test]
fn payload_that_does_not_decode_is_dropped() {
    let mut g = playing();
    let kept = g.clone();
    let r = g.receive_msgs(relay(RelayMessage::UserMessage(2, vec![])), 9);
    assert_eq!(r, Received { reply: None, players_changed: false, round_trip: None });
    g.receive_msgs(relay(RelayMessage::UserMessage(2, vec![7, 1, 2])), 9);
    g.receive_msgs(relay(RelayMessage::UserMessage(2, vec![42, 0, 0, 0, 0])), 9);
    assert_eq!(g, kept);
}

#[test]
fn start_game_goes_on_to_play() {
    let mut g = Game::new(GameConfig::default());
    g.connect();
    g.receive_msgs(relay(RelayMessage::RoomJoined(1, vec![2])), 0);
    g.receive_msgs(from_player(2, &TransportMessage::StartGame(5)), 0);
    assert_eq!(g.state, GameStates::GamePlay);
    let mut h = Game::new(GameConfig::default());
    h.connect();
    assert_eq!(h.start_game(12), sent(TransportMessage::StartGame(12)));
    assert_eq!(h.state, GameStates::GamePlay);
}

#[test]
fn snapshot_over_the_wire_starts_play_and_makes_a_mirror() {
    let mut g = Game::new(GameConfig::default());
    g.connect();
    g.receive_msgs(relay(RelayMessage::RoomJoined(1, vec![2])), 0);
    let details = SnakeDetails {
        transform: Position { x: 1, y: 2, z: 3 },
        moves: Moves { moves: vec![] },
        cells: vec![SnakeCellDetails {
            cell_tag: 4,
            transform: Position { x: 5, y: 6, z: 7 },
            move_id: 8,
            direction: Direction::Left,
        }],
    };
    g.receive_msgs(from_player(2, &TransportMessage::SnakeUpdate(100, details)), 200);
    assert_eq!(g.state, GameStates::GamePlay);
    assert_eq!(g.snakes.len(), 1);
    assert_eq!(g.snakes[0].tag, SnakeTag::OtherPlayerSnake(2));
    assert_eq!(g.snakes[0].cells[0].position, Position { x: 5, y: 6, z: 7 });
    assert_eq!(handler(&g).players[1].start_time, Some((100, 200)));
}

#[test]
fn remote_turn_is_appended_and_its_stamp_never_goes_back() {
    let mut g = playing();
    g.receive_msgs(
        from_player(
            2,
            &TransportMessage::SnakeUpdate(
                50,
                SnakeDetails {
                    transform: Position { x: 0, y: 0, z: 0 },
                    moves: Moves { moves: vec![] },
                    cells: vec![],
                },
            ),
        ),
        60,
    );
    let first = Move { id: 1, position: Position { x: 1, y: 0, z: 0 }, direction: Direction::Up };
    let second = Move { id: 2, position: Position { x: 1, y: 9, z: 0 }, direction: Direction::Left };
    g.receive_msgs(from_player(2, &TransportMessage::AddMove(70, second)), 80);
    assert_eq!(handler(&g).players[1].last_update_time, Some(70));
    // A turn with an older stamp still joins the log; the stamp is discarded.
    g.receive_msgs(from_player(2, &TransportMessage::AddMove(65, first)), 90);
    assert_eq!(handler(&g).players[1].last_update_time, Some(70));
    assert_eq!(g.snakes[1].moves.moves, vec![second, first]);
    // The local snake is not touched.
    assert!(local(&g).moves.moves.is_empty());
}

#[test]
fn remote_food_comes_and_goes() {
    let mut g = playing();
    g.receive_msgs(from_player(2, &TransportMessage::SpawnFood(11, -5, 6)), 0);
    g.receive_msgs(from_player(2, &TransportMessage::SpawnFood(12, 7, 8)), 0);
    assert_eq!(
        g.food,
        vec![
            Food { id: 11, position: Position { x: -5, y: 6, z: FOOD_LAYER } },
            Food { id: 12, position: Position { x: 7, y: 8, z: FOOD_LAYER } },
        ]
    );
    assert_eq!(spawn_food(11, -5, 6), g.food[0]);
    assert_eq!(FOOD_LAYER, 2000);
    // An id that is not there is no error.
    g.receive_msgs(from_player(2, &TransportMessage::DespawnFood(99)), 0);
    assert_eq!(g.food.len(), 2);
    g.receive_msgs(from_player(2, &TransportMessage::DespawnFood(11)), 0);
    assert_eq!(g.food, vec![Food { id: 12, position: Position { x: 7, y: 8, z: FOOD_LAYER } }]);
}

#[test]
fn remote_kill_removes_the_mirror_only() {
    let mut g = playing();
    let empty = SnakeDetails {
        transform: Position { x: 0, y: 0, z: 0 },
        moves: Moves { moves: vec![] },
        cells: vec![],
    };
    g.receive_msgs(from_player(2, &TransportMessage::SnakeUpdate(1, empty)), 1);
    assert_eq!(g.snakes.len(), 2);
    let r = g.receive_msgs(from_player(2, &TransportMessage::KillSnake), 2);
    assert_eq!(r, Received { reply: None, players_changed: false, round_trip: None });
    assert_eq!(g.snakes.len(), 1);
    assert!(g.alive());
    // A second notice finds nothing to remove.
    g.receive_msgs(from_player(2, &TransportMessage::KillSnake), 3);
    assert_eq!(g.snakes.len(), 1);
}

#[test]
fn setup_needs_an_id_on_the_roster_and_no_snake() {
    let mut g = Game::new(GameConfig::default());
    g.connect();
    assert!(!g.ready_to_set_up());
    assert!(!g.setup_snek());
    g.receive_msgs(relay(RelayMessage::RoomJoined(1, vec![])), 0);
    assert!(g.ready_to_set_up());
    assert!(g.set_up_snake((4, 5, 6)));
    assert!(g.alive());
    assert_eq!(local(&g).cells.len(), 3);
    assert_eq!(local(&g).cells[0].cell_tag, 4);
    // There is one local snake at most.
    assert!(!g.ready_to_set_up());
    assert!(!g.setup_snek());
    assert_eq!(g.snakes.len(), 1);
}

#[test]
fn randomly_drawn_tags_are_distinct() {
    for _ in 0..50 {
        let mut g = playing();
        let tail = local(&g).cells[2].position;
        g.snakes[0].spawners.spawners.push(SpawnDetail { position: tail, direction: Direction::Right });
        g.spawn_new_cell();
        let cells = &local(&g).cells;
        assert_eq!(cells.len(), 4);
        for i in 0..cells.len() {
            for j in 0..i {
                assert_ne!(cells[i].cell_tag, cells[j].cell_tag);
            }
        }
    }
}

#[test]
fn random_numbers_vary() {
    // Sixteen food ids in a row that are all the same would be a wonder.
    let mut first = None;
    let mut varied = false;
    for _ in 0..16 {
        let mut g = playing();
        g.host = true;
        match g.spawn_food_system(0, 0) {
            Some(SendMessage::TransportMessage(TransportMessage::SpawnFood(id, 0, 0))) => {
                assert_eq!(g.food, vec![spawn_food(id, 0, 0)]);
                if first.is_some() && first != Some(id) {
                    varied = true;
                }
                first = Some(id);
            }
            other => panic!("unexpected {:?}", other),
        }
    }
    assert!(varied);
}

#[test]
fn only_the_host_makes_food_and_only_one_item() {
    let mut g = playing();
    assert!(!g.host);
    assert_eq!(g.place_food(1, 2, 3), None);
    assert!(g.food.is_empty());
    g.host = true;
    assert_eq!(g.place_food(1, 2, 3), sent(TransportMessage::SpawnFood(1, 2, 3)));
    assert_eq!(g.food, vec![Food { id: 1, position: Position { x: 2, y: 3, z: 2000 } }]);
    assert_eq!(g.place_food(4, 5, 6), None);
    assert_eq!(g.spawn_food_system(5, 6), None);
    assert_eq!(g.food.len(), 1);
    let mut alone = Game::new(GameConfig::default());
    assert_eq!(alone.place_food(1, 2, 3), None);
    assert!(alone.food.is_empty());
}

#[test]
fn input_turns_the_local_snake_and_tells_the_others() {
    let mut g = playing();
    let (change, message) = g.handle_input_event(InputsActions::Up, 1234);
    assert_eq!(change, Some(ChangeDirection { direction: Direction::Up }));
    let m = Move { id: 1, position: Position { x: 1000, y: 0, z: 1000 }, direction: Direction::Up };
    assert_eq!(message, sent(TransportMessage::AddMove(1234, m)));
    assert_eq!(local(&g).moves.moves, vec![m]);
    assert_eq!(local(&g).lastmove, 1);
    // Right is where the head is heading, left is the way back.
    assert_eq!(g.handle_input_event(InputsActions::Right, 1235), (None, None));
    assert_eq!(g.handle_input_event(InputsActions::Left, 1235), (None, None));
    assert_eq!(local(&g).moves.moves.len(), 1);
}

#[test]
fn input_without_a_snake_does_nothing() {
    let mut g = Game::new(GameConfig::default());
    g.connect();
    let kept = g.clone();
    assert_eq!(g.handle_input_event(InputsActions::Down, 1), (None, None));
    assert_eq!(g, kept);
}

#[test]
fn actions_name_directions() {
    assert_eq!(InputsActions::Up.direction(), Direction::Up);
    assert_eq!(InputsActions::Down.direction(), Direction::Down);
    assert_eq!(InputsActions::Left.direction(), Direction::Left);
    assert_eq!(InputsActions::Right.direction(), Direction::Right);
}

#[test]
fn keys_and_swipes() {
    assert_eq!(keyboard_input(true, true, true, true), Some(InputsActions::Up));
    assert_eq!(keyboard_input(false, true, true, true), Some(InputsActions::Down));
    assert_eq!(keyboard_input(false, false, true, true), Some(InputsActions::Left));
    assert_eq!(keyboard_input(false, false, false, true), Some(InputsActions::Right));
    assert_eq!(keyboard_input(false, false, false, false), None);
    assert_eq!(handle_touch(51, 0), Some(InputsActions::Right));
    assert_eq!(handle_touch(-51, 50), Some(InputsActions::Left));
    assert_eq!(handle_touch(50, 0), None);
    // The screen's y axis points down.
    assert_eq!(handle_touch(0, 51), Some(InputsActions::Down));
    assert_eq!(handle_touch(0, -51), Some(InputsActions::Up));
    assert_eq!(handle_touch(60, 60), Some(InputsActions::Down));
    assert_eq!(handle_touch(60, -61), Some(InputsActions::Up));
    assert_eq!(handle_touch(40, 50), None);
    assert_eq!(handle_touch(i32::MIN, i32::MAX), Some(InputsActions::Left));
    assert_eq!(handle_touch(i32::MIN + 1, i32::MIN), Some(InputsActions::Up));
}

#[test]
fn kill_on_self_collision() {
    let sensor = ColliderRole::HeadSensor(SnakeTag::SelfPlayerSnake);
    let body = ColliderRole::BodySegment { snake: SnakeTag::SelfPlayerSnake, cell: 3, head: false };
    assert_eq!(resolve_collision(sensor, body), vec![DomainEvent::KillSnake(SnakeTag::SelfPlayerSnake)]);
    assert_eq!(resolve_collision(body, sensor), vec![DomainEvent::KillSnake(SnakeTag::SelfPlayerSnake)]);
    let mut g = playing();
    let (events, message) = g.handle_food_collision(sensor, body);
    assert_eq!(events, vec![DomainEvent::KillSnake(SnakeTag::SelfPlayerSnake)]);
    assert_eq!(message, sent(TransportMessage::KillSnake));
    assert!(g.snakes.is_empty());
    assert!(!g.alive());
}

#[test]
fn collisions_resolve_by_role() {
    let me = SnakeTag::SelfPlayerSnake;
    let them = SnakeTag::OtherPlayerSnake(2);
    let sensor = ColliderRole::HeadSensor(me);
    let kill = vec![DomainEvent::KillSnake(me)];
    // The sensor always touches the head it sits on.
    let own_head = ColliderRole::BodySegment { snake: me, cell: 1, head: true };
    assert_eq!(resolve_collision(sensor, own_head), vec![]);
    assert_eq!(resolve_collision(own_head, sensor), vec![]);
    // Any segment of another snake is fatal, its head too.
    let their_head = ColliderRole::BodySegment { snake: them, cell: 1, head: true };
    assert_eq!(resolve_collision(sensor, their_head), kill);
    let their_body = ColliderRole::BodySegment { snake: them, cell: 2, head: false };
    assert_eq!(resolve_collision(their_body, sensor), kill);
    assert_eq!(resolve_collision(sensor, ColliderRole::Boundary), kill);
    assert_eq!(resolve_collision(ColliderRole::Boundary, sensor), kill);
    let eaten = vec![DomainEvent::FoodEaten { snake: me, food_id: 9 }];
    assert_eq!(resolve_collision(sensor, ColliderRole::Food(9)), eaten);
    assert_eq!(resolve_collision(ColliderRole::Food(9), sensor), eaten);
    // Without a head sensor nothing happens.
    assert_eq!(resolve_collision(ColliderRole::Food(9), their_body), vec![]);
    assert_eq!(resolve_collision(their_body, own_head), vec![]);
    assert_eq!(resolve_collision(ColliderRole::Boundary, ColliderRole::Boundary), vec![]);
    assert_eq!(resolve_collision(sensor, ColliderRole::HeadSensor(them)), vec![]);
    // The sensor of another snake kills that snake.
    assert_eq!(
        resolve_collision(ColliderRole::HeadSensor(them), own_head),
        vec![DomainEvent::KillSnake(them)]
    );
}

#[test]
fn eating_removes_the_food_and_queues_growth_at_the_head() {
    let mut g = playing();
    g.host = true;
    g.place_food(31, 10000, 0);
    g.move_cells(30);
    let (events, message) = g.handle_food_collision(
        ColliderRole::Food(31),
        ColliderRole::HeadSensor(SnakeTag::SelfPlayerSnake),
    );
    assert_eq!(events, vec![DomainEvent::FoodEaten { snake: SnakeTag::SelfPlayerSnake, food_id: 31 }]);
    assert_eq!(message, sent(TransportMessage::DespawnFood(31)));
    assert!(g.food.is_empty());
    assert_eq!(
        local(&g).spawners.spawners,
        vec![SpawnDetail { position: Position { x: 3000, y: 0, z: 1000 }, direction: Direction::Right }]
    );
    assert_eq!(local(&g).cells.len(), 3);
    // The tail is 40 world units behind the head: it gets there after 400 ms.
    for _ in 0..39 {
        g.tick(10);
        assert_eq!(local(&g).cells.len(), 3);
    }
    g.tick(10);
    assert_eq!(local(&g).cells.len(), 4);
    assert_eq!(local(&g).cells[2].position, Position { x: 3000, y: 0, z: 1000 });
    assert_eq!(local(&g).cells[3].position, Position { x: -17000, y: 0, z: 1000 });
    assert!(local(&g).cells[3].tail);
    assert!(!local(&g).cells[2].tail);
    assert!(local(&g).spawners.spawners.is_empty());
    g.sync_scores();
    assert_eq!(handler(&g).players[0].score, 1);
}

#[test]
fn death_of_a_mirror_is_not_ours_to_tell() {
    let mut g = playing();
    let empty = SnakeDetails {
        transform: Position { x: 0, y: 0, z: 0 },
        moves: Moves { moves: vec![] },
        cells: vec![],
    };
    g.receive_msgs(from_player(2, &TransportMessage::SnakeUpdate(1, empty)), 1);
    let message = g.handle_event(DomainEvent::KillSnake(SnakeTag::OtherPlayerSnake(2)));
    assert_eq!(message, None);
    assert_eq!(g.snakes.len(), 1);
    g.handle_kill_snake(KillSnake { snake_id: SnakeTag::OtherPlayerSnake(2) });
    g.handle_kill_snake(KillSnake { snake_id: SnakeTag::SelfPlayerSnake });
    assert!(g.snakes.is_empty());
}

#[test]
fn leaving_the_arena_kills_the_local_snake() {
    let mut g = playing();
    assert_eq!(g.check_snek_position(), (None, None));
    // The sensor is 10 world units ahead of the head: 990 from the origin is still inside,
    g.snakes[0].cells[0].position = Position { x: ARENA_RADIUS as i64 - 10000, y: 0, z: 1000 };
    assert_eq!(g.check_snek_position(), (None, None));
    assert!(g.alive());
    // one step more is outside.
    g.snakes[0].cells[0].position.x += 1;
    assert_eq!(
        g.check_snek_position(),
        (Some(KillSnake { snake_id: SnakeTag::SelfPlayerSnake }), sent(TransportMessage::KillSnake))
    );
    assert!(!g.alive());
    assert_eq!(g.check_snek_position(), (None, None));
}

#[test]
fn arena_is_round() {
    let mut g = playing();
    // 600 and 800 world units: the sensor, 10 units ahead along x, is outside,
    g.snakes[0].cells[0].position = Position { x: 600000, y: 800000, z: 0 };
    assert!(g.check_snek_position().0.is_some());
    let mut g = playing();
    // heading left it is inside.
    g.snakes[0].cells[0].position = Position { x: 600000, y: 800000, z: 0 };
    g.snakes[0].cells[0].direction = Direction::Left;
    assert!(g.check_snek_position().0.is_none());
    assert!(Position { x: 600000, y: 800001, z: 0 }.is_beyond(ARENA_RADIUS));
    assert!(!Position { x: 600000, y: 800000, z: 0 }.is_beyond(ARENA_RADIUS));
    assert!(Position { x: i64::MIN, y: i64::MIN, z: 0 }.is_beyond(u32::MAX));
    assert!(!Position { x: 0, y: -(u32::MAX as i64), z: 0 }.is_beyond(u32::MAX));
}

#[test]
fn head_sensor_sits_across_the_front_of_the_head() {
    let config = GameConfig { speed: 100, cell_size: (20000, 14000), game_size: (0, 0) };
    assert_eq!(
        update_head_sensor(&config, Direction::Right),
        HeadSensor { half_extents: (1000, 7000), offset: (10000, 0) }
    );
    assert_eq!(
        update_head_sensor(&config, Direction::Left),
        HeadSensor { half_extents: (1000, 7000), offset: (-10000, 0) }
    );
    assert_eq!(
        update_head_sensor(&config, Direction::Up),
        HeadSensor { half_extents: (10000, 1000), offset: (0, 10000) }
    );
    assert_eq!(
        update_head_sensor(&config, Direction::Down),
        HeadSensor { half_extents: (10000, 1000), offset: (0, -10000) }
    );
}

#[test]
fn scores_count_segments_beyond_the_first_three() {
    let mut g = playing();
    g.sync_scores();
    assert_eq!(handler(&g).players[0].score, 0);
    let tail = local(&g).cells[2];
    for k in 0..4u32 {
        let mut extra = tail;
        extra.cell_tag = 1_000_000 + k;
        extra.tail = false;
        g.snakes[0].cells.insert(1, extra);
    }
    g.sync_scores();
    assert_eq!(handler(&g).players[0].score, 4);
    assert_eq!(handler(&g).players[0].highest_score, 4);
    assert_eq!(handler(&g).players[1].score, 0);
    // After a respawn the score starts again and the highest one stays.
    g.handle_kill_snake(KillSnake { snake_id: SnakeTag::SelfPlayerSnake });
    assert!(g.setup_snek());
    g.sync_scores();
    assert_eq!(handler(&g).players[0].score, 0);
    assert_eq!(handler(&g).players[0].highest_score, 4);
}

#[test]
fn score_of_a_mirror_goes_to_its_owner() {
    let mut g = playing();
    let cells = (0..5u32)
        .map(|k| SnakeCellDetails {
            cell_tag: k,
            transform: Position { x: 0, y: 0, z: 0 },
            move_id: 0,
            direction: Direction::Up,
        })
        .collect();
    let details =
        SnakeDetails { transform: Position { x: 0, y: 0, z: 0 }, moves: Moves { moves: vec![] }, cells };
    g.receive_msgs(from_player(2, &TransportMessage::SnakeUpdate(1, details)), 1);
    g.sync_scores();
    assert_eq!(handler(&g).players[1].score, 2);
    assert_eq!(handler(&g).players[1].highest_score, 2);
    assert_eq!(handler(&g).players[0].score, 0);
}

#[test]
fn snake_with_fewer_than_three_segments_does_not_count() {
    let mut g = playing();
    g.snakes[0].cells.truncate(2);
    match &mut g.connection {
        ConnectionState::Connected(c) => c.players[0].score = 9,
        ConnectionState::NotConnected => unreachable!(),
    }
    g.sync_scores();
    assert_eq!(handler(&g).players[0].score, 9);
}

#[test]
fn snapshot_of_the_local_snake_lists_everything() {
    let mut g = playing();
    g.handle_input_event(InputsActions::Down, 5);
    g.snakes[0].position = Position { x: 3, y: 4, z: 5 };
    let s = local(&g).clone();
    match g.take_snapshot(777) {
        Some(SendMessage::TransportMessage(TransportMessage::SnakeUpdate(t, d))) => {
            assert_eq!(t, 777);
            assert_eq!(d.transform, Position { x: 3, y: 4, z: 5 });
            assert_eq!(d.moves, s.moves);
            assert_eq!(d.cells.len(), 3);
            for i in 0..3 {
                assert_eq!(d.cells[i].cell_tag, s.cells[i].cell_tag);
                assert_eq!(d.cells[i].transform, s.cells[i].position);
                assert_eq!(d.cells[i].move_id, s.cells[i].move_id);
                assert_eq!(d.cells[i].direction, s.cells[i].direction);
            }
        }
        other => panic!("unexpected {:?}", other),
    }
    g.handle_kill_snake(KillSnake { snake_id: SnakeTag::SelfPlayerSnake });
    assert_eq!(g.take_snapshot(778), None);
}

#[test]
fn two_clients_converge() {
    // What one client sends, the other mirrors.
    let mut a = playing();
    let mut b = Game::new(GameConfig::default());
    b.connect();
    b.receive_msgs(relay(RelayMessage::RoomJoined(2, vec![1])), 0);
    a.tick(100);
    let (_, turn) = a.handle_input_event(InputsActions::Up, 100);
    let snapshot = a.take_snapshot(100).expect("a snapshot");
    let SendMessage::TransportMessage(snapshot) = snapshot;
    b.receive_msgs(relay(RelayMessage::UserMessage(1, encode(&snapshot))), 5000);
    let SendMessage::TransportMessage(turn) = turn.expect("a turn");
    // The snapshot holds the turn already; sent again it is appended again.
    b.receive_msgs(relay(RelayMessage::UserMessage(1, encode(&turn))), 5000);
    assert_eq!(b.snakes.len(), 1);
    assert_eq!(b.snakes[0].tag, SnakeTag::OtherPlayerSnake(1));
    assert_eq!(b.snakes[0].moves.moves.len(), 2);
    for i in 0..3 {
        assert_eq!(b.snakes[0].cells[i].position, local(&a).cells[i].position);
        assert_eq!(b.snakes[0].cells[i].cell_tag, local(&a).cells[i].cell_tag);
    }
    // Both simulate on: the mirror takes the turn where the snake it mirrors does.
    for _ in 0..5 {
        a.tick(10);
        b.tick(10);
    }
    assert_eq!(local(&a).cells[0].direction, Direction::Up);
    for i in 0..3 {
        assert_eq!(b.snakes[0].cells[i].position, local(&a).cells[i].position);
        assert_eq!(b.snakes[0].cells[i].direction, local(&a).cells[i].direction);
        assert_eq!(b.snakes[0].cells[i].move_id, local(&a).cells[i].move_id);
    }
}

#[test]
fn tick_turns_then_moves_then_grows() {
    let mut g = playing();
    g.handle_input_event(InputsActions::Up, 0);
    // The turning point is one world unit ahead: the head is not past it yet,
    g.tick(20);
    assert_eq!(local(&g).cells[0].position, Position { x: 2000, y: 0, z: 1000 });
    assert_eq!(local(&g).cells[0].direction, Direction::Right);
    // in the next tick it is, turns and moves on upwards.
    g.tick(20);
    assert_eq!(local(&g).cells[0].direction, Direction::Up);
    assert_eq!(local(&g).cells[0].position, Position { x: 1000, y: 3000, z: 1000 });
    assert_eq!(local(&g).cells[1].position, Position { x: -16000, y: 0, z: 1000 });
}

#[test]
fn default_config() {
    let c = GameConfig::default();
    assert_eq!(c.speed, 100);
    assert_eq!(c.cell_size, (20000, 20000));
    assert_eq!(c.game_size, (0, 0));
    assert_eq!(c.travelled(16), 1600);
    assert_eq!(c.extent_along(Direction::Up), 20000);
    let wide = GameConfig { speed: u32::MAX, cell_size: (1, 2), game_size: (0, 0) };
    assert_eq!(wide.travelled(u32::MAX), (u32::MAX as u64) * (u32::MAX as u64));
    assert_eq!(wide.extent_along(Direction::Left), 1);
    assert_eq!(wide.extent_along(Direction::Down), 2);
}

#[test]
fn out_of_order_snapshot_over_the_wire_is_rejected() {
    let mut g = playing();
    let details = |x: i64, d: Direction| SnakeDetails {
        transform: Position { x, y: 0, z: 0 },
        moves: Moves { moves: vec![] },
        cells: vec![SnakeCellDetails {
            cell_tag: 1,
            transform: Position { x, y: 0, z: 0 },
            move_id: 0,
            direction: d,
        }],
    };
    let newer = TransportMessage::SnakeUpdate(10000, details(100, Direction::Right));
    let older = TransportMessage::SnakeUpdate(9500, details(95, Direction::Up));
    g.receive_msgs(from_player(2, &newer), 20000);
    let kept = g.clone();
    g.receive_msgs(from_player(2, &older), 20010);
    assert_eq!(g, kept);
    assert_eq!(g.snakes[1].cells[0].position, Position { x: 100, y: 0, z: 0 });
    assert_eq!(handler(&g).players[1].last_update_time, Some(10000));
}

#[test]
fn pings_and_snapshots_go_out_at_their_intervals() {
    let g = playing();
    let mut pings = Interval::new(PING_PERIOD);
    let mut snapshots = Interval::new(SNAPSHOT_PERIOD);
    let mut ping_times = vec![];
    let mut snapshot_times = vec![];
    let mut now = 0;
    for _ in 0..200 {
        now += 16;
        if let Some(m) = g.ping_send(&mut pings, 16, now) {
            assert_eq!(m, SendMessage::TransportMessage(TransportMessage::Ping(now)));
            ping_times.push(now);
        }
        if let Some(SendMessage::TransportMessage(TransportMessage::SnakeUpdate(t, _))) =
            g.send_snake_send(&mut snapshots, 16, now)
        {
            assert_eq!(t, now);
            snapshot_times.push(now);
        }
    }
    // The first tick at or after each whole second, and each half second.
    assert_eq!(ping_times, vec![1008, 2000, 3008]);
    assert_eq!(snapshot_times, vec![512, 1008, 1504, 2000, 2512, 3008]);
}

#[test]
fn timers_run_outside_a_room_too() {
    let g = Game::new(GameConfig::default());
    let mut pings = Interval::new(PING_PERIOD);
    assert_eq!(g.ping_send(&mut pings, 999, 999), None);
    assert_eq!(pings, Interval { period: 1000, elapsed: 999 });
    assert_eq!(g.ping_send(&mut pings, 1, 1000), None);
    assert_eq!(pings, Interval { period: 1000, elapsed: 0 });
    let mut snapshots = Interval::new(SNAPSHOT_PERIOD);
    assert_eq!(g.send_snake_send(&mut snapshots, 700, 700), None);
    assert_eq!(snapshots.elapsed, 200);
}

#[test]
fn interval_fires_when_a_period_ends() {
    let mut t = Interval::new(500);
    assert!(!t.tick(499));
    assert!(t.tick(1));
    assert_eq!(t.elapsed, 0);
    assert!(t.tick(1250));
    assert_eq!(t.elapsed, 250);
    assert!(!t.tick(0));
    assert!(t.tick(u32::MAX));
    assert_eq!(t.elapsed, ((250u64 + u32::MAX as u64) % 500) as u32);
    let mut always = Interval::new(0);
    assert!(always.tick(0));
    assert!(always.tick(7));
    assert_eq!(always.elapsed, 0);
    assert_eq!((SNAPSHOT_PERIOD, PING_PERIOD), (500, 1000));
}
