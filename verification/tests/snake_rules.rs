use snek::config::{GameConfig, GROWTH_EPSILON};
use snek::geometry::{Direction, Position};
use snek::snek::{Move, Moves, Snake, SnakeCell, SnakeTag, SpawnDetail, Spawner, Step};

fn pos(x: i64, y: i64) -> Position {
    Position { x, y, z: 0 }
}

fn cell(tag: u32, x: i64, y: i64, direction: Direction, move_id: u32, tail: bool) -> SnakeCell {
    SnakeCell { cell_tag: tag, position: pos(x, y), direction, move_id, tail }
}

/// Three segments at x = 0, -20, -40 world units, all heading right.
fn line_snake() -> Snake {
    Snake {
        tag: SnakeTag::SelfPlayerSnake,
        position: pos(0, 0),
        lastmove: 0,
        moves: Moves { moves: vec![] },
        spawners: Spawner { spawners: vec![] },
        cells: vec![
            cell(1, 0, 0, Direction::Right, 0, false),
            cell(2, -20000, 0, Direction::Right, 0, false),
            cell(3, -40000, 0, Direction::Right, 0, true),
        ],
    }
}

fn tick(s: &mut Snake, dist: u64) {
    s.update_cell_direction();
    s.advance(dist);
}

#[test]
fn single_turn_propagation() {
    let mut s = line_snake();
    s.moves.moves.push(Move { id: 1, position: pos(0, 0), direction: Direction::Up });
    // When each segment is seen turned for the first time, after which tick.
    let mut turned_at = [0u32; 3];
    for t in 1..=10u32 {
        let before: Vec<SnakeCell> = s.cells.clone();
        s.update_cell_direction();
        for i in 0..3 {
            if s.cells[i].direction == Direction::Up && before[i].direction == Direction::Right {
                // It turns only once it has gone past x = 0 on the old line,
                assert!(before[i].position.x > 0);
                assert_eq!(before[i].position.y, 0);
                // and lands as far up the new line as it had overshot.
                assert_eq!(s.cells[i].position, pos(0, before[i].position.x));
                assert_eq!(s.cells[i].move_id, 1);
                turned_at[i] = t;
            } else {
                assert_eq!(s.cells[i], before[i]);
            }
        }
        s.advance(5000);
    }
    assert_eq!(turned_at, [2, 6, 10]);
    assert_eq!(s.cells[0].position, pos(0, 50000));
    assert_eq!(s.cells[1].position, pos(0, 30000));
    assert_eq!(s.cells[2].position, pos(0, 10000));
    assert!(s.cells.iter().all(|c| c.direction == Direction::Up));
    // The tail has drained the log.
    assert!(s.moves.moves.is_empty());
}

#[test]
fn segment_on_the_turning_point_waits() {
    let mut s = line_snake();
    s.moves.moves.push(Move { id: 1, position: pos(0, 0), direction: Direction::Up });
    s.update_cell_direction();
    assert_eq!(s.cells[0], cell(1, 0, 0, Direction::Right, 0, false));
    assert_eq!(s.moves.moves.len(), 1);
}

#[test]
fn segment_off_the_line_of_the_turning_point_is_blocked() {
    let mut s = line_snake();
    s.moves.moves.push(Move { id: 1, position: pos(-5000, 1), direction: Direction::Up });
    s.moves.moves.push(Move { id: 2, position: pos(-1000, 0), direction: Direction::Down });
    s.update_cell_direction();
    // The first entry that was not taken yet blocks the later one.
    assert_eq!(s.cells[0], cell(1, 0, 0, Direction::Right, 0, false));
}

#[test]
fn two_turns_in_sequence_keep_their_order() {
    let mut s = line_snake();
    s.moves.moves.push(Move { id: 1, position: pos(10000, 0), direction: Direction::Up });
    s.moves.moves.push(Move { id: 2, position: pos(10000, 30000), direction: Direction::Left });
    let mut last_ids = [0u32; 3];
    for _ in 0..40 {
        tick(&mut s, 2500);
        // A segment never takes a turn before the one ahead of it,
        assert!(s.cells[0].move_id >= s.cells[1].move_id);
        assert!(s.cells[1].move_id >= s.cells[2].move_id);
        for i in 0..3 {
            // and the id of its last turn never goes down.
            assert!(s.cells[i].move_id >= last_ids[i]);
            last_ids[i] = s.cells[i].move_id;
        }
    }
    assert_eq!(last_ids, [2, 2, 2]);
    assert!(s.cells.iter().all(|c| c.direction == Direction::Left));
    assert!(s.cells.iter().all(|c| c.position.y == 30000));
    // The segments are still one segment size apart.
    assert_eq!(s.cells[0].position.x + 20000, s.cells[1].position.x);
    assert_eq!(s.cells[1].position.x + 20000, s.cells[2].position.x);
    assert!(s.moves.moves.is_empty());
}

#[test]
fn two_turns_at_one_place_take_two_ticks() {
    let mut s = line_snake();
    s.cells[0].position = pos(3000, 0);
    s.moves.moves.push(Move { id: 1, position: pos(0, 0), direction: Direction::Up });
    s.moves.moves.push(Move { id: 2, position: pos(0, 0), direction: Direction::Left });
    s.update_cell_direction();
    assert_eq!(s.cells[0], cell(1, 0, 3000, Direction::Up, 1, false));
    s.update_cell_direction();
    assert_eq!(s.cells[0], cell(1, -3000, 0, Direction::Left, 2, false));
}

#[test]
fn only_the_tail_drains_the_log() {
    let mut s = line_snake();
    for c in s.cells.iter_mut() {
        c.position.x += 41000;
    }
    s.moves.moves.push(Move { id: 1, position: pos(0, 0), direction: Direction::Down });
    s.moves.moves.push(Move { id: 2, position: pos(0, -90000), direction: Direction::Right });
    s.update_cell_direction();
    assert_eq!(s.cells[0], cell(1, 0, -41000, Direction::Down, 1, false));
    assert_eq!(s.cells[1], cell(2, 0, -21000, Direction::Down, 1, false));
    assert_eq!(s.cells[2], cell(3, 0, -1000, Direction::Down, 1, true));
    assert_eq!(
        s.moves.moves,
        vec![Move { id: 2, position: pos(0, -90000), direction: Direction::Right }]
    );
}

#[test]
fn log_is_scanned_in_log_order() {
    let mut s = line_snake();
    s.cells[0].position = pos(5000, 0);
    // The entry with the higher id comes first in the log and is the one taken.
    s.moves.moves.push(Move { id: 7, position: pos(1000, 0), direction: Direction::Up });
    s.moves.moves.push(Move { id: 3, position: pos(2000, 0), direction: Direction::Down });
    assert_eq!(s.moves.candidate(0), Some(0));
    assert_eq!(s.moves.candidate(3), Some(0));
    assert_eq!(s.moves.candidate(7), None);
    s.update_cell_direction();
    assert_eq!(s.cells[0], cell(1, 1000, 4000, Direction::Up, 7, false));
}

#[test]
fn advance_moves_each_segment_along_its_own_heading() {
    let mut s = line_snake();
    s.cells[1].direction = Direction::Down;
    s.cells[2].direction = Direction::Left;
    s.advance(1500);
    assert_eq!(s.cells[0].position, pos(1500, 0));
    assert_eq!(s.cells[1].position, pos(-20000, -1500));
    assert_eq!(s.cells[2].position, pos(-41500, 0));
}

#[test]
fn segment_at_the_edge_of_the_plane_stays() {
    let mut s = line_snake();
    s.cells[0].position = pos(i64::MAX - 10, 0);
    s.advance(11);
    assert_eq!(s.cells[0].position, pos(i64::MAX - 10, 0));
    assert_eq!(s.cells[1].position, pos(-19989, 0));
    s.advance(10);
    assert_eq!(s.cells[0].position, pos(i64::MAX, 0));
}

#[test]
fn food_growth() {
    let config = GameConfig::default();
    let mut s = line_snake();
    s.spawners.spawners.push(SpawnDetail { position: pos(0, 0), direction: Direction::Right });
    // The tail is 40 world units short of the growth point: 8 ticks of 5.
    for _ in 0..7 {
        s.advance(5000);
        assert!(!s.grow(&config, 77));
        assert_eq!(s.cells.len(), 3);
    }
    s.advance(5000);
    assert_eq!(s.cells[2].position, pos(0, 0));
    assert!(s.grow(&config, 77));
    assert_eq!(s.cells.len(), 4);
    // The old tail is a body segment now,
    assert_eq!(s.cells[2], cell(3, 0, 0, Direction::Right, 0, false));
    // and the new tail lies one segment size behind it.
    assert_eq!(s.cells[3], cell(77, -20000, 0, Direction::Right, 0, true));
    assert!(s.spawners.spawners.is_empty());
    assert!(!s.grow(&config, 78));
}

#[test]
fn growth_waits_for_the_tail_to_come_within_epsilon() {
    let config = GameConfig::default();
    let mut s = line_snake();
    let eps = GROWTH_EPSILON as i64;
    s.spawners.spawners.push(SpawnDetail {
        position: pos(-40000 + eps, 0),
        direction: Direction::Right,
    });
    assert!(!s.grow(&config, 9));
    s.advance(1);
    assert!(s.grow(&config, 9));
    assert_eq!(s.cells[3].position, pos(-59999, 0));
}

#[test]
fn growth_measures_the_distance_in_the_plane() {
    let config = GameConfig::default();
    let mut s = line_snake();
    // 600 and 800 steps off: exactly one world unit away.
    s.spawners.spawners.push(SpawnDetail {
        position: pos(-40600, 800),
        direction: Direction::Right,
    });
    assert!(!s.grow(&config, 9));
    s.spawners.spawners[0].position = pos(-40600, 799);
    assert!(s.grow(&config, 9));
}

#[test]
fn growth_follows_the_heading_and_height_of_the_tail() {
    let config = GameConfig { speed: 100, cell_size: (20000, 12000), game_size: (0, 0) };
    let mut s = line_snake();
    s.cells[2] = cell(3, 500, 700, Direction::Up, 4, true);
    s.spawners.spawners.push(SpawnDetail { position: pos(500, 700), direction: Direction::Up });
    s.spawners.spawners.push(SpawnDetail { position: pos(0, 0), direction: Direction::Left });
    assert!(s.grow(&config, 3));
    // The wished tag is taken, so the least free one is used.
    assert_eq!(s.cells[3], cell(0, 500, -11300, Direction::Up, 4, true));
    assert_eq!(
        s.spawners.spawners,
        vec![SpawnDetail { position: pos(0, 0), direction: Direction::Left }]
    );
}

#[test]
fn only_one_growth_per_tick_and_oldest_first() {
    let config = GameConfig::default();
    let mut s = line_snake();
    s.spawners.spawners.push(SpawnDetail { position: pos(0, 0), direction: Direction::Right });
    s.spawners.spawners.push(SpawnDetail { position: pos(-40000, 0), direction: Direction::Right });
    // The tail is at the second point, but only the first is looked at.
    assert!(!s.grow(&config, 9));
    assert_eq!(s.spawners.spawners.len(), 2);
}

#[test]
fn mirror_without_tail_does_not_grow() {
    let config = GameConfig::default();
    let mut s = line_snake();
    s.tag = SnakeTag::OtherPlayerSnake(4);
    s.cells[2].tail = false;
    s.spawners.spawners.push(SpawnDetail { position: pos(-40000, 0), direction: Direction::Right });
    assert!(!s.grow(&config, 9));
    assert_eq!(s.cells.len(), 3);
}

#[test]
fn eating_k_times_grows_by_k() {
    let config = GameConfig::default();
    let mut s = Snake::player(&config, (10, 11, 12));
    let k = 5;
    let mut eaten = 0;
    let mut grown = 0;
    for t in 0..400u32 {
        s.apply(&config, Step::Turn);
        s.apply(&config, Step::Advance(500));
        if t % 30 == 0 && eaten < k {
            s.apply(&config, Step::Feed);
            eaten += 1;
        }
        let before = s.cells.len();
        s.apply(&config, Step::Grow(1000 + t));
        if s.cells.len() > before {
            grown += 1;
            assert_eq!(s.cells.len(), before + 1);
        }
        assert_eq!(s.cells.len() + s.spawners.spawners.len(), 3 + eaten);
    }
    assert_eq!(eaten, k);
    assert_eq!(grown, k);
    assert_eq!(s.cells.len(), 3 + k);
    assert!(s.spawners.spawners.is_empty());
    // Exactly one tail, at the end, and all tags differ.
    assert_eq!(s.cells.iter().filter(|c| c.tail).count(), 1);
    assert!(s.cells[s.cells.len() - 1].tail);
    for i in 0..s.cells.len() {
        for j in 0..i {
            assert_ne!(s.cells[i].cell_tag, s.cells[j].cell_tag);
        }
    }
}

#[test]
fn new_player_snake() {
    let config = GameConfig::default();
    let s = Snake::player(&config, (5, 6, 7));
    assert_eq!(s.tag, SnakeTag::SelfPlayerSnake);
    assert_eq!(s.lastmove, 0);
    assert!(s.moves.moves.is_empty());
    assert!(s.spawners.spawners.is_empty());
    let at = |x: i64| Position { x, y: 0, z: 1000 };
    assert_eq!(
        s.cells,
        vec![
            SnakeCell { cell_tag: 5, position: at(0), direction: Direction::Right, move_id: 0, tail: false },
            SnakeCell { cell_tag: 6, position: at(-20000), direction: Direction::Right, move_id: 0, tail: false },
            SnakeCell { cell_tag: 7, position: at(-40000), direction: Direction::Right, move_id: 0, tail: true },
        ]
    );
}

#[test]
fn new_player_snake_with_equal_seeds_gets_distinct_tags() {
    let config = GameConfig::default();
    let s = Snake::player(&config, (0, 0, 0));
    let tags: Vec<u32> = s.cells.iter().map(|c| c.cell_tag).collect();
    assert_eq!(tags, vec![0, 1, 2]);
    let s = Snake::player(&config, (1, 1, 0));
    let tags: Vec<u32> = s.cells.iter().map(|c| c.cell_tag).collect();
    assert_eq!(tags, vec![1, 0, 2]);
}

#[test]
fn pick_tag_prefers_the_seed() {
    let s = line_snake();
    assert_eq!(s.pick_tag(9), Some(9));
    assert_eq!(s.pick_tag(2), Some(0));
    assert_eq!(s.find_cell(2), Some(1));
    assert_eq!(s.find_cell(9), None);
}

#[test]
fn steering_records_a_turn_one_unit_ahead_of_the_head() {
    let mut s = line_snake();
    let m = s.steer(Direction::Up);
    let expected = Move { id: 1, position: pos(1000, 0), direction: Direction::Up };
    assert_eq!(m, Some(expected));
    assert_eq!(s.lastmove, 1);
    assert_eq!(s.moves.moves, vec![expected]);
    // The head itself turns only when it comes past the turning point.
    assert_eq!(s.cells[0].direction, Direction::Right);
    let m = s.steer(Direction::Down);
    assert_eq!(m, Some(Move { id: 2, position: pos(1000, 0), direction: Direction::Down }));
}

#[test]
fn steering_ignores_repetition_and_reversal() {
    let mut s = line_snake();
    assert_eq!(s.steer(Direction::Right), None);
    assert_eq!(s.steer(Direction::Left), None);
    assert_eq!(s.lastmove, 0);
    assert!(s.moves.moves.is_empty());
}

#[test]
fn steering_stops_when_ids_run_out_or_there_is_no_head() {
    let mut s = line_snake();
    s.lastmove = u32::MAX;
    assert_eq!(s.steer(Direction::Up), None);
    s.lastmove = u32::MAX - 1;
    assert_eq!(s.steer(Direction::Up).map(|m| m.id), Some(u32::MAX));
    let mut empty = line_snake();
    empty.cells.clear();
    assert_eq!(empty.steer(Direction::Up), None);
    empty.feed();
    assert!(empty.spawners.spawners.is_empty());
}

#[test]
fn feeding_queues_the_place_of_the_head() {
    let mut s = line_snake();
    s.cells[0].position = pos(4, 5);
    s.cells[0].direction = Direction::Down;
    s.feed();
    assert_eq!(
        s.spawners.spawners,
        vec![SpawnDetail { position: pos(4, 5), direction: Direction::Down }]
    );
    assert_eq!(s.cells.len(), 3);
}
