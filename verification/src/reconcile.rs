//! Bringing the mirror of another player's snake in line with what its
//! owner reports.

use crate::game::{
    player_index, player_keys, snake_index, snake_keys, tag_key, ConnectionState, ConnectionView,
    Game, GameView,
};
use crate::lookup::lemma_index_from;
use crate::networking::{
    AddMove, AddSpawn, PlayerProp, PointInTime, SnakeCellDetails, SnakeDetailsView, SnakeUpdate,
};
use crate::snek::{
    cell_index, lemma_cell_index, tag_used, Move, Snake, SnakeCell, SnakeTag, SnakeView,
    SpawnDetail, Spawner,
};
use vstd::prelude::*;

verus! {

/// How long ago, in milliseconds, a report stamped `update_time` on its
/// sender's clock was made: the local time gone by since the clocks were
/// paired less the sender's time gone by, and never less than nothing.
/// Without a pairing it is nothing.
pub open spec fn lag(
    pairing: Option<(PointInTime, PointInTime)>,
    update_time: PointInTime,
    now: PointInTime,
) -> int {
    match pairing {
        Some((theirs, ours)) => if (now - ours) - (update_time - theirs) > 0 {
            (now - ours) - (update_time - theirs)
        } else {
            0
        },
        None => 0,
    }
}

/// Whether a report stamped `update_time` seems to come from the future of
/// the pairing, so that the clocks have to be paired anew.
pub open spec fn outruns(
    pairing: Option<(PointInTime, PointInTime)>,
    update_time: PointInTime,
    now: PointInTime,
) -> bool {
    match pairing {
        Some((theirs, ours)) => (now - ours) - (update_time - theirs) < 0,
        None => false,
    }
}

/// The age of a report, by which its positions are carried forward.
pub fn compensation_time(
    pairing: Option<(PointInTime, PointInTime)>,
    update_time: PointInTime,
    now: PointInTime,
) -> (r: u64)
    ensures
        r == lag(pairing, update_time, now),
        r >= 0,
{
    match pairing {
        Some((theirs, ours)) => {
            let extra: i64 = (now as i64 - ours as i64) - (update_time as i64 - theirs as i64);
            if extra > 0 {
                extra as u64
            } else {
                0
            }
        },
        None => 0,
    }
}

/// Whether the clocks have to be paired anew.
pub fn needs_new_pairing(
    pairing: Option<(PointInTime, PointInTime)>,
    update_time: PointInTime,
    now: PointInTime,
) -> (r: bool)
    ensures
        r == outruns(pairing, update_time, now),
{
    match pairing {
        Some((theirs, ours)) => (now as i64 - ours as i64) - (update_time as i64 - theirs as i64)
            < 0,
        None => false,
    }
}

/// The segment that a report `u` makes of `cell`: place, heading and last
/// turn are the reported ones, the place carried `dist` steps forward.
pub open spec fn cell_updated(cell: SnakeCell, u: SnakeCellDetails, dist: int) -> SnakeCell {
    SnakeCell {
        position: u.transform.shifted(u.direction, dist),
        direction: u.direction,
        move_id: u.move_id,
        ..cell
    }
}

/// The segment that a report `u` adds to a chain that has none with its
/// tag.
pub open spec fn cell_reported(u: SnakeCellDetails, dist: int) -> SnakeCell {
    SnakeCell {
        cell_tag: u.cell_tag,
        position: u.transform.shifted(u.direction, dist),
        direction: u.direction,
        move_id: u.move_id,
        tail: false,
    }
}

/// `cells` after the report `u`: the segment with its tag is overwritten;
/// where there is none, one is appended.
pub open spec fn merge_cell(cells: Seq<SnakeCell>, u: SnakeCellDetails, dist: int) -> Seq<
    SnakeCell,
> {
    let at = cell_index(cells, u.cell_tag);
    if at < cells.len() {
        cells.update(at, cell_updated(cells[at], u, dist))
    } else {
        cells.push(cell_reported(u, dist))
    }
}

/// `cells` after the reports `us`, taken in order.
pub open spec fn merge_cells(cells: Seq<SnakeCell>, us: Seq<SnakeCellDetails>, dist: int) -> Seq<
    SnakeCell,
>
    decreases us.len(),
{
    if us.len() == 0 {
        cells
    } else {
        merge_cell(merge_cells(cells, us.drop_last(), dist), us.last(), dist)
    }
}

/// Whether no segment of `cells` is marked as the tail.
pub open spec fn no_tail(cells: Seq<SnakeCell>) -> bool {
    forall|i: int| 0 <= i < cells.len() ==> !(#[trigger] cells[i]).tail
}

/// Whether no two segments of `cells` share a tag.
pub open spec fn distinct(cells: Seq<SnakeCell>) -> bool {
    forall|i: int, j: int| 0 <= i < j < cells.len() ==> cells[i].cell_tag != cells[j].cell_tag
}

/// A report keeps the tags of a chain distinct and adds no tail mark; it
/// never removes a segment, and afterwards the chain has a segment with the
/// reported tag.
pub proof fn lemma_merge_cell(cells: Seq<SnakeCell>, u: SnakeCellDetails, dist: int)
    requires
        distinct(cells),
    ensures
        distinct(merge_cell(cells, u, dist)),
        no_tail(cells) ==> no_tail(merge_cell(cells, u, dist)),
        merge_cell(cells, u, dist).len() >= cells.len(),
        tag_used(merge_cell(cells, u, dist), u.cell_tag),
{
    lemma_cell_index(cells, u.cell_tag);
    let after = merge_cell(cells, u, dist);
    let at = cell_index(cells, u.cell_tag);
    if at < cells.len() {
        assert forall|i: int, j: int| 0 <= i < j < after.len() implies after[i].cell_tag
            != after[j].cell_tag by {
            assert(after[i].cell_tag == cells[i].cell_tag);
            assert(after[j].cell_tag == cells[j].cell_tag);
        }
        assert(after[at].cell_tag == u.cell_tag);
    } else {
        assert forall|i: int, j: int| 0 <= i < j < after.len() implies after[i].cell_tag
            != after[j].cell_tag by {
            assert(after[i].cell_tag == cells[i].cell_tag);
            if j < cells.len() {
                assert(after[j].cell_tag == cells[j].cell_tag);
            }
        }
        assert(after[cells.len() as int].cell_tag == u.cell_tag);
    }
}

/// Reports keep the tags of a chain distinct and add no tail mark.
pub proof fn lemma_merge_cells(cells: Seq<SnakeCell>, us: Seq<SnakeCellDetails>, dist: int)
    requires
        distinct(cells),
    ensures
        distinct(merge_cells(cells, us, dist)),
        no_tail(cells) ==> no_tail(merge_cells(cells, us, dist)),
        merge_cells(cells, us, dist).len() >= cells.len(),
    decreases us.len(),
{
    if us.len() > 0 {
        lemma_merge_cells(cells, us.drop_last(), dist);
        lemma_merge_cell(merge_cells(cells, us.drop_last(), dist), us.last(), dist);
    }
}

impl SnakeView {
    /// The snake after its segments have been brought in line with the
    /// reports `us`, each carried `dist` steps forward.
    pub open spec fn merged(self, us: Seq<SnakeCellDetails>, dist: int) -> SnakeView {
        SnakeView { cells: merge_cells(self.cells, us, dist), ..self }
    }
}

impl Snake {
    /// Brings the segments in line with the reports `us`, each carried
    /// `dist` steps forward along its heading.
    pub fn merge(&mut self, us: &Vec<SnakeCellDetails>, dist: i128)
        ensures
            final(self)@ == old(self)@.merged(us@, dist as int),
            old(self)@.wf() && no_tail(old(self)@.cells) ==> final(self)@.wf() && no_tail(
                final(self)@.cells,
            ),
    {
        proof {
            if old(self)@.wf() {
                lemma_merge_cells(old(self)@.cells, us@, dist as int);
            }
        }
        let n = us.len();
        let mut k: usize = 0;
        assert(us@.take(0) =~= Seq::<SnakeCellDetails>::empty());
        while k < n
            invariant
                0 <= k <= n,
                n == us@.len(),
                self.tag == old(self).tag,
                self.position == old(self).position,
                self.lastmove == old(self).lastmove,
                self.spawners == old(self).spawners,
                self.moves == old(self).moves,
                self.cells@ == merge_cells(old(self).cells@, us@.take(k as int), dist as int),
            decreases n - k,
        {
            let u = us[k];
            let placed = u.transform.shift_or_stay(u.direction, dist);
            proof {
                let next = us@.take(k + 1);
                assert(next.drop_last() =~= us@.take(k as int));
                assert(next.last() == u);
            }
            match self.find_cell(u.cell_tag) {
                Some(i) => {
                    let cell = self.cells[i];
                    self.cells[i] = SnakeCell {
                        position: placed,
                        direction: u.direction,
                        move_id: u.move_id,
                        ..cell
                    };
                },
                None => {
                    self.cells.push(
                        SnakeCell {
                            cell_tag: u.cell_tag,
                            position: placed,
                            direction: u.direction,
                            move_id: u.move_id,
                            tail: false,
                        },
                    );
                },
            }
            k += 1;
        }
        assert(us@.take(n as int) =~= us@);
    }
}

/// The distance covered in `lag` milliseconds at `speed` steps per
/// millisecond.
fn scaled(lag: u64, speed: u32) -> (r: i128)
    ensures
        r == lag * speed,
{
    assert(lag * speed <= 0xffff_ffff_ffff_ffff * 0xffff_ffff) by (nonlinear_arith)
        requires
            0 <= lag <= 0xffff_ffff_ffff_ffff,
            0 <= speed <= 0xffff_ffff,
    ;
    assert(0 <= lag * speed) by (nonlinear_arith)
        requires
            0 <= lag,
            0 <= speed,
    ;
    (lag as i128) * (speed as i128)
}

/// Whether a report stamped `t` is older than the latest one accepted from
/// the player.
pub open spec fn stale(p: PlayerProp, t: PointInTime) -> bool {
    p.last_update_time matches Some(last) && t < last
}

/// The player after a report stamped `t` has been accepted at local time
/// `now`, `seen` telling whether a mirror of the player's snake existed:
/// the stamp is remembered, and the clocks are paired at first sight and
/// whenever the report outruns the pairing.
pub open spec fn player_heard(p: PlayerProp, t: PointInTime, now: PointInTime, seen: bool)
    -> PlayerProp {
    PlayerProp {
        last_update_time: Some(t),
        start_time: if !seen || outruns(p.start_time, t, now) {
            Some((t, now))
        } else {
            p.start_time
        },
        ..p
    }
}

/// The mirror that the first snapshot of a player's snake gives rise to.
pub open spec fn first_mirror(user_id: u32, d: SnakeDetailsView) -> SnakeView {
    SnakeView {
        tag: SnakeTag::OtherPlayerSnake(user_id),
        position: d.transform,
        lastmove: 0,
        moves: d.moves,
        spawners: Seq::empty(),
        cells: merge_cells(Seq::empty(), d.cells, 0),
    }
}

impl GameView {
    /// Whether a snapshot from `user_id` stamped `t` is accepted: a room is
    /// known, the sender is on its roster, and nothing newer has been
    /// accepted from the sender.
    pub open spec fn accepts(self, user_id: u32, t: PointInTime) -> bool {
        self.connection matches Some(c) && player_index(c.players, user_id) < c.players.len()
            && !stale(c.players[player_index(c.players, user_id)], t)
    }

    /// The client after a snapshot of the snake of `user_id`, stamped `t`
    /// by its sender, has arrived at local time `now`. A snapshot that is
    /// not accepted changes nothing. An accepted one overwrites the mirror
    /// of the snake, each reported segment carried forward along its
    /// heading by the distance covered during the lag; where there is no
    /// mirror yet, it makes one as reported.
    pub open spec fn snapshot_applied(
        self,
        user_id: u32,
        t: PointInTime,
        d: SnakeDetailsView,
        now: PointInTime,
    ) -> GameView {
        if !self.accepts(user_id, t) {
            self
        } else {
            let c = self.connection.unwrap();
            let pi = player_index(c.players, user_id);
            let p = c.players[pi];
            let si = snake_index(self.snakes, SnakeTag::OtherPlayerSnake(user_id));
            let seen = si < self.snakes.len();
            GameView {
                connection: Some(
                    ConnectionView { players: c.players.update(pi, player_heard(p, t, now, seen)), ..c },
                ),
                snakes: if seen {
                    self.snakes.update(
                        si,
                        SnakeView { position: d.transform, moves: d.moves, ..self.snakes[si] }.merged(
                            d.cells,
                            lag(p.start_time, t, now) * self.config.speed,
                        ),
                    )
                } else {
                    self.snakes.push(first_mirror(user_id, d))
                },
                ..self
            }
        }
    }

    /// The client after a turn of the snake of `user_id` has arrived: the
    /// turn joins the log of the mirror, if there is one.
    pub open spec fn move_added(self, user_id: u32, m: Move) -> GameView {
        let si = snake_index(self.snakes, SnakeTag::OtherPlayerSnake(user_id));
        if si < self.snakes.len() {
            GameView {
                snakes: self.snakes.update(
                    si,
                    SnakeView { moves: self.snakes[si].moves.push(m), ..self.snakes[si] },
                ),
                ..self
            }
        } else {
            self
        }
    }

    /// The client after a growth point of the snake of `user_id` has
    /// arrived: the point joins the growth queue of the mirror, if there is
    /// one.
    pub open spec fn spawn_added(self, user_id: u32, spawn: SpawnDetail) -> GameView {
        let si = snake_index(self.snakes, SnakeTag::OtherPlayerSnake(user_id));
        if si < self.snakes.len() {
            GameView {
                snakes: self.snakes.update(
                    si,
                    SnakeView { spawners: self.snakes[si].spawners.push(spawn), ..self.snakes[si] },
                ),
                ..self
            }
        } else {
            self
        }
    }
}

/// Of two snapshots from one sender, the one with the older stamp changes
/// nothing once the one with the newer stamp has arrived: whatever came of
/// the newer one is retained.
pub proof fn lemma_stale_snapshot_ignored(
    g: GameView,
    user_id: u32,
    newer: PointInTime,
    first: SnakeDetailsView,
    first_at: PointInTime,
    older: PointInTime,
    second: SnakeDetailsView,
    second_at: PointInTime,
)
    requires
        older < newer,
    ensures
        g.snapshot_applied(user_id, newer, first, first_at).snapshot_applied(
            user_id,
            older,
            second,
            second_at,
        ) == g.snapshot_applied(user_id, newer, first, first_at),
{
    let after = g.snapshot_applied(user_id, newer, first, first_at);
    if g.accepts(user_id, newer) {
        let c = g.connection.unwrap();
        let pi = player_index(c.players, user_id);
        let d = after.connection.unwrap();
        lemma_index_from(player_keys(c.players), user_id as int, 0);
        assert(player_keys(d.players) =~= player_keys(c.players));
        assert(stale(d.players[pi], older));
    }
}

/// The lag is never negative, so neither is the distance by which a
/// reported segment is carried forward, and the segment is never placed
/// behind the place reported for it.
pub proof fn lemma_compensation_not_negative(
    pairing: Option<(PointInTime, PointInTime)>,
    update_time: PointInTime,
    now: PointInTime,
    speed: u32,
    u: SnakeCellDetails,
)
    ensures
        lag(pairing, update_time, now) >= 0,
        lag(pairing, update_time, now) * speed >= 0,
        cell_reported(u, lag(pairing, update_time, now) * speed).position.overshoot(
            u.direction,
            u.transform,
        ) >= 0,
{
    let l = lag(pairing, update_time, now);
    assert(l * speed >= 0) by (nonlinear_arith)
        requires
            l >= 0,
            speed >= 0,
    ;
}

/// No snake before the index that `snake_index` gives has the tag looked
/// for, and where the index is the number of snakes none has it.
pub proof fn lemma_snake_index(snakes: Seq<SnakeView>, tag: SnakeTag)
    ensures
        0 <= snake_index(snakes, tag) <= snakes.len(),
        snake_index(snakes, tag) < snakes.len() ==> snakes[snake_index(snakes, tag)].tag == tag,
        forall|i: int| 0 <= i < snake_index(snakes, tag) ==> (#[trigger] snakes[i]).tag != tag,
{
    lemma_index_from(snake_keys(snakes), tag_key(tag), 0);
    assert forall|i: int| 0 <= i < snake_index(snakes, tag) implies (#[trigger] snakes[i]).tag
        != tag by {
        assert(snake_keys(snakes)[i] != tag_key(tag));
    }
    if snake_index(snakes, tag) < snakes.len() {
        assert(snake_keys(snakes)[snake_index(snakes, tag)] == tag_key(tag));
    }
}

impl Game {
    /// Applies a snapshot of another player's snake that arrived at local
    /// time `now`.
    pub fn update_snake(&mut self, event: SnakeUpdate, now: PointInTime)
        requires
            old(self)@.wf(),
        ensures
            final(self)@ == old(self)@.snapshot_applied(
                event.user_id,
                event.update_time,
                event.snake_details@,
                now,
            ),
            final(self)@.wf(),
    {
        let SnakeUpdate { update_time, user_id, snake_details } = event;
        let tag = SnakeTag::OtherPlayerSnake(user_id);
        let found = self.find_snake(tag);
        let mut lagged: u64 = 0;
        match &mut self.connection {
            ConnectionState::NotConnected => {
                return ;
            },
            ConnectionState::Connected(c) => {
                match c.find_player(user_id) {
                    None => {
                        return ;
                    },
                    Some(pi) => {
                        let p = c.players[pi];
                        match p.last_update_time {
                            Some(last) => {
                                if update_time < last {
                                    return ;
                                }
                            },
                            None => {},
                        }
                        lagged = compensation_time(p.start_time, update_time, now);
                        let pair_anew = found.is_none() || needs_new_pairing(
                            p.start_time,
                            update_time,
                            now,
                        );
                        c.players[pi] = PlayerProp {
                            last_update_time: Some(update_time),
                            start_time: if pair_anew {
                                Some((update_time, now))
                            } else {
                                p.start_time
                            },
                            ..p
                        };
                    },
                }
            },
        }
        proof {
            lemma_snake_index(old(self)@.snakes, tag);
        }
        match found {
            Some(si) => {
                let dist = scaled(lagged, self.config.speed);
                self.snakes[si].position = snake_details.transform;
                self.snakes[si].moves = snake_details.moves;
                self.snakes[si].merge(&snake_details.cells, dist);
                assert(self@.snakes =~= old(self)@.snapshot_applied(
                    user_id,
                    update_time,
                    snake_details@,
                    now,
                ).snakes);
            },
            None => {
                let mut mirror = Snake {
                    tag,
                    position: snake_details.transform,
                    lastmove: 0,
                    moves: snake_details.moves,
                    spawners: Spawner::new(),
                    cells: Vec::new(),
                };
                mirror.merge(&snake_details.cells, 0);
                self.snakes.push(mirror);
                assert(self@.snakes =~= old(self)@.snapshot_applied(
                    user_id,
                    update_time,
                    snake_details@,
                    now,
                ).snakes);
            },
        }
    }

    /// Appends a turn that another player reports to the log of the mirror
    /// of that player's snake.
    pub fn sync_add_move(&mut self, event: AddMove)
        requires
            old(self)@.wf(),
        ensures
            final(self)@ == old(self)@.move_added(event.user_id, event._move),
            final(self)@.wf(),
    {
        match self.find_snake(SnakeTag::OtherPlayerSnake(event.user_id)) {
            Some(si) => {
                self.snakes[si].moves.moves.push(event._move);
                assert(self@.snakes =~= old(self)@.move_added(event.user_id, event._move).snakes);
            },
            None => {},
        }
    }

    /// Appends a growth point that another player reports to the growth
    /// queue of the mirror of that player's snake.
    pub fn sync_add_spawner(&mut self, event: AddSpawn)
        requires
            old(self)@.wf(),
        ensures
            final(self)@ == old(self)@.spawn_added(event.user_id, event.spawn),
            final(self)@.wf(),
    {
        match self.find_snake(SnakeTag::OtherPlayerSnake(event.user_id)) {
            Some(si) => {
                self.snakes[si].spawners.spawners.push(event.spawn);
                assert(self@.snakes =~= old(self)@.spawn_added(event.user_id, event.spawn).snakes);
            },
            None => {},
        }
    }
}

} // verus!
