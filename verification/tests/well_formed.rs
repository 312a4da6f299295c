use snek::config::GameConfig;
use snek::game::Game;
use snek::networking::{ReceiveMessage, RelayMessage};
use snek::snek::{Snake, SnakeTag};

fn player() -> Snake {
    Snake::player(&GameConfig::default(), (1, 2, 3))
}

#[test]
fn a_new_snake_is_well_formed() {
    assert!(player().is_well_formed());
    let mut empty = player();
    empty.cells.clear();
    assert!(empty.is_well_formed());
}

#[test]
fn a_tag_used_twice_is_not_well_formed() {
    let mut s = player();
    s.cells[2].cell_tag = 1;
    assert!(!s.is_well_formed());
    s.cells[2].cell_tag = 2;
    assert!(!s.is_well_formed());
    s.cells[2].cell_tag = 4;
    assert!(s.is_well_formed());
}

#[test]
fn the_tail_mark_belongs_at_the_end() {
    let mut s = player();
    s.cells[0].tail = true;
    assert!(!s.is_well_formed());
    s.cells[0].tail = false;
    s.cells[1].tail = true;
    assert!(!s.is_well_formed());
    s.cells[1].tail = false;
    s.cells[2].tail = false;
    assert!(s.is_well_formed());
}

#[test]
fn a_mirror_has_no_tail() {
    let mut s = player();
    s.tag = SnakeTag::OtherPlayerSnake(1);
    assert!(!s.is_well_formed());
    s.cells[2].tail = false;
    assert!(s.is_well_formed());
}

#[test]
fn a_client_is_well_formed_if_its_snakes_are_and_differ_in_tag() {
    let mut g = Game::new(GameConfig::default());
    assert!(g.is_well_formed());
    g.connect();
    g.receive_msgs(ReceiveMessage::DatagramReceived(RelayMessage::RoomJoined(1, vec![])), 0);
    assert!(g.setup_snek());
    assert!(g.is_well_formed());
    let mut mirror = player();
    mirror.tag = SnakeTag::OtherPlayerSnake(2);
    mirror.cells[2].tail = false;
    g.snakes.push(mirror.clone());
    assert!(g.is_well_formed());
    g.snakes.push(mirror);
    assert!(!g.is_well_formed());
    g.snakes.pop();
    g.snakes[1].cells[0].tail = true;
    assert!(!g.is_well_formed());
    g.snakes.pop();
    g.snakes.push(player());
    assert!(!g.is_well_formed());
}

#[test]
fn a_client_stays_well_formed_while_it_plays() {
    let mut g = Game::new(GameConfig::default());
    g.connect();
    g.receive_msgs(ReceiveMessage::DatagramReceived(RelayMessage::RoomJoined(1, vec![2])), 0);
    g.setup_snek();
    let actions = [
        snek::game::InputsActions::Up,
        snek::game::InputsActions::Left,
        snek::game::InputsActions::Down,
        snek::game::InputsActions::Right,
    ];
    for t in 0..200u32 {
        let before: Vec<(u32, u32)> =
            g.snakes[0].cells.iter().map(|c| (c.cell_tag, c.move_id)).collect();
        if t % 17 == 0 {
            g.handle_input_event(actions[(t / 17) as usize % 4], t);
        }
        if t % 40 == 0 {
            g.snakes[0].feed();
        }
        g.tick(16);
        assert!(g.is_well_formed());
        // Over a tick no segment is lost, and none goes back in the turns it has taken.
        for (i, (tag, id)) in before.iter().enumerate() {
            assert_eq!(g.snakes[0].cells[i].cell_tag, *tag);
            assert!(g.snakes[0].cells[i].move_id >= *id);
        }
    }
    assert_eq!(g.snakes[0].cells.len() + g.snakes[0].spawners.spawners.len(), 3 + 5);
}
