//! Turn fidelity: every segment of a snake follows the path that its head
//! has laid down, turn after turn, and loses no distance on the way.

use crate::geometry::{Direction, Position};
use crate::snek::{
    cell_moved, cell_turned, first_after, lemma_first_after_is, turn_of, Move, SnakeCell,
    SnakeView,
};
use vstd::prelude::*;

verus! {

/// Coordinates and distances up to this size leave room for every sum that
/// a turn takes.
pub const TRACK_LIMIT: i64 = 0x2000_0000_0000_0000;

/// The path of a head: the heading on which it came to its first turning
/// point, and its turns in order. Leg 0 of the path leads into the first
/// turning point, and leg `j` leads on from the `j`-th.
pub struct Path {
    pub approach: Direction,
    pub turns: Seq<Move>,
}

impl Path {
    /// The heading along leg `leg`.
    pub open spec fn heading(self, leg: int) -> Direction {
        if leg <= 0 {
            self.approach
        } else {
            self.turns[leg - 1].direction
        }
    }

    /// The coordinate on the path of the turning point of turn `j`: how far
    /// along the path it lies from the first turning point.
    pub open spec fn mark(self, j: int) -> int
        decreases j,
    {
        if j <= 0 {
            0
        } else {
            self.mark(j - 1) + self.turns[j].position.overshoot(
                self.turns[j - 1].direction,
                self.turns[j - 1].position,
            )
        }
    }

    /// The turning point from which leg `leg` is measured: the one it
    /// leaves, and for leg 0 the one it leads to.
    pub open spec fn anchor(self, leg: int) -> Position {
        if leg <= 0 {
            self.turns[0].position
        } else {
            self.turns[leg - 1].position
        }
    }

    /// The coordinate on the path of the anchor of leg `leg`.
    pub open spec fn anchor_mark(self, leg: int) -> int {
        if leg <= 0 {
            0
        } else {
            self.mark(leg - 1)
        }
    }

    /// Whether the turning point of turn `j` lies ahead of the one before
    /// it on the heading taken there.
    pub open spec fn leads_on(self, j: int) -> bool {
        self.turns[j].position.passed(self.turns[j - 1].direction, self.turns[j - 1].position)
    }

    /// Whether the turns hang together as a path: there is one at least,
    /// their ids go up, and each turning point lies ahead of the one
    /// before it on the heading taken there.
    pub open spec fn consistent(self) -> bool {
        &&& self.turns.len() > 0
        &&& forall|i: int, j: int|
            0 <= i < j < self.turns.len() ==> self.turns[i].id < self.turns[j].id
        &&& forall|j: int| 0 < j < self.turns.len() ==> #[trigger] self.leads_on(j)
    }
}

/// Whether `c` stands on leg `leg` of `path` at the path coordinate `q`:
/// it has taken the turns before that leg and no other, heads along the
/// leg, and lies on the line of the leg as far from the anchor of the leg
/// as the coordinate says, be it short of the next turning point or
/// already past it.
pub open spec fn placed(c: SnakeCell, path: Path, leg: int, q: int) -> bool {
    &&& 0 <= leg <= path.turns.len()
    &&& if leg == 0 {
        c.move_id < path.turns[0].id
    } else {
        c.move_id == path.turns[leg - 1].id && q > path.mark(leg - 1)
    }
    &&& c.direction == path.heading(leg)
    &&& c.position.x == path.anchor(leg).x + path.heading(leg).along_x(q - path.anchor_mark(leg))
    &&& c.position.y == path.anchor(leg).y + path.heading(leg).along_y(q - path.anchor_mark(leg))
}

/// Whether the snake `s` is on `path`, its segments standing on the legs
/// `legs` at the path coordinates `q`, the head foremost, and its log
/// holding the turns that its last segment has still to take.
pub open spec fn on_path(s: SnakeView, path: Path, legs: Seq<int>, q: Seq<int>) -> bool {
    &&& path.consistent()
    &&& legs.len() == s.cells.len()
    &&& q.len() == s.cells.len()
    &&& forall|i: int| 0 <= i < s.cells.len() ==> placed(#[trigger] s.cells[i], path, legs[i], q[i])
    &&& forall|i: int, j: int| 0 <= i < j < q.len() ==> q[i] >= q[j] && legs[i] >= legs[j]
    &&& s.moves.len() <= path.turns.len()
    &&& s.moves == path.turns.skip(path.turns.len() - s.moves.len())
    &&& forall|i: int|
        0 <= i < legs.len() ==> path.turns.len() - s.moves.len() <= #[trigger] legs[i]
    &&& s.has_tail() ==> path.turns.len() - s.moves.len() == legs[legs.len() - 1]
}

/// Whether the turning points of `path`, and the distances of the path
/// coordinates `q` from them, also after `room` more steps, are within
/// [`TRACK_LIMIT`].
pub open spec fn in_limits(path: Path, q: Seq<int>, room: int) -> bool {
    &&& 0 <= room
    &&& forall|j: int|
        0 <= j < path.turns.len() ==> -TRACK_LIMIT <= (#[trigger] path.turns[j]).position.x
            <= TRACK_LIMIT && -TRACK_LIMIT <= path.turns[j].position.y <= TRACK_LIMIT
    &&& forall|i: int, j: int|
        #![trigger q[i], path.mark(j)]
        0 <= i < q.len() && 0 <= j < path.turns.len() ==> -TRACK_LIMIT <= q[i] - path.mark(j)
            && q[i] + room - path.mark(j) <= TRACK_LIMIT
}

/// The path coordinates `q`, each `dist` further on.
pub open spec fn further(q: Seq<int>, dist: int) -> Seq<int> {
    Seq::new(q.len(), |i: int| q[i] + dist)
}

/// The legs that segments stand on after a tick which found them on the
/// legs `legs` at the path coordinates `q`: a segment that has gone past
/// the turning point at the end of its leg is on the next one.
pub open spec fn next_legs(path: Path, legs: Seq<int>, q: Seq<int>) -> Seq<int> {
    Seq::new(
        legs.len(),
        |i: int|
            if legs[i] < path.turns.len() && q[i] > path.mark(legs[i]) {
                legs[i] + 1
            } else {
                legs[i]
            },
    )
}

/// The snake after one tick: turns are propagated, then every segment
/// travels `dist` steps.
pub open spec fn ticked(s: SnakeView, dist: int) -> SnakeView {
    s.turned().advanced(dist)
}

/// The snake after a tick for each of `dists`, each as long as it says.
pub open spec fn ticked_all(s: SnakeView, dists: Seq<u64>) -> SnakeView
    decreases dists.len(),
{
    if dists.len() == 0 {
        s
    } else {
        ticked(ticked_all(s, dists.drop_last()), dists.last() as int)
    }
}

/// The sum of `dists`.
pub open spec fn total(dists: Seq<u64>) -> int
    decreases dists.len(),
{
    if dists.len() == 0 {
        0
    } else {
        total(dists.drop_last()) + dists.last()
    }
}

/// The legs that segments stand on after a tick for each of `dists`.
pub open spec fn legs_after(path: Path, legs: Seq<int>, q: Seq<int>, dists: Seq<u64>) -> Seq<int>
    decreases dists.len(),
{
    if dists.len() == 0 {
        legs
    } else {
        next_legs(
            path,
            legs_after(path, legs, q, dists.drop_last()),
            further(q, total(dists.drop_last())),
        )
    }
}

/// The first turn that a segment on a path has not taken yet is the one at
/// the end of its leg, wherever in the history of the path the log starts.
pub proof fn lemma_candidate_on_path(c: SnakeCell, path: Path, leg: int, q: int, skipped: int)
    requires
        path.consistent(),
        placed(c, path, leg, q),
        0 <= skipped <= leg,
    ensures
        first_after(path.turns.skip(skipped), c.move_id) == leg - skipped,
{
    let log = path.turns.skip(skipped);
    assert forall|j: int| 0 <= j < leg - skipped implies log[j].id <= c.move_id by {
        assert(log[j] == path.turns[j + skipped]);
    }
    if leg < path.turns.len() {
        assert(log[leg - skipped] == path.turns[leg]);
    }
    lemma_first_after_is(log, c.move_id, leg - skipped);
}

/// Turn propagation on a path: a segment that takes a turn comes to stand
/// on the next leg at the path coordinate it had, and a segment takes the
/// turn at the end of its leg exactly where it has gone past it.
pub proof fn lemma_turn_on_path(c: SnakeCell, path: Path, leg: int, q: int, skipped: int)
    requires
        path.consistent(),
        placed(c, path, leg, q),
        0 <= skipped <= leg,
        forall|j: int|
            0 <= j < path.turns.len() ==> -TRACK_LIMIT <= (#[trigger] path.turns[j]).position.x
                <= TRACK_LIMIT && -TRACK_LIMIT <= path.turns[j].position.y <= TRACK_LIMIT,
        forall|j: int|
            0 <= j < path.turns.len() ==> -TRACK_LIMIT <= q - #[trigger] path.mark(j) <= TRACK_LIMIT,
    ensures
        turn_of(c, path.turns.skip(skipped)) == if leg < path.turns.len() && q > path.mark(leg) {
            Some(leg - skipped)
        } else {
            None
        },
        placed(
            cell_turned(c, path.turns.skip(skipped)),
            path,
            if leg < path.turns.len() && q > path.mark(leg) {
                leg + 1
            } else {
                leg
            },
            q,
        ),
{
    let log = path.turns.skip(skipped);
    lemma_candidate_on_path(c, path, leg, q, skipped);
    if leg < path.turns.len() {
        let m = path.turns[leg];
        assert(log[leg - skipped] == m);
        assert(-TRACK_LIMIT <= q - path.mark(leg) <= TRACK_LIMIT);
        if leg > 0 {
            assert(path.leads_on(leg));
            assert(path.mark(leg) == path.mark(leg - 1) + m.position.overshoot(
                path.turns[leg - 1].direction,
                path.turns[leg - 1].position,
            ));
        }
        assert(c.position.overshoot(c.direction, m.position) == q - path.mark(leg));
        assert(c.position.passed(c.direction, m.position) <==> q > path.mark(leg));
        assert(path.mark(leg) == path.anchor_mark(leg + 1));
    }
}

/// Turn propagation keeps a snake on its path: the segments that have
/// gone past the turning point at the end of their leg come to stand on the
/// next leg, at the path coordinate they had, and the log gives up the turn
/// that the tail has taken.
pub proof fn lemma_turn_keeps_path(s: SnakeView, path: Path, legs: Seq<int>, q: Seq<int>)
    requires
        on_path(s, path, legs, q),
        in_limits(path, q, 0),
    ensures
        on_path(s.turned(), path, next_legs(path, legs, q), q),
{
    let skipped = path.turns.len() - s.moves.len();
    let n = s.cells.len() as int;
    let t = s.turned();
    let new_legs = next_legs(path, legs, q);
    assert forall|i: int| 0 <= i < n implies placed(#[trigger] t.cells[i], path, new_legs[i], q[i])
        && (turn_of(s.cells[i], s.moves) is Some <==> new_legs[i] == legs[i] + 1) && (turn_of(
        s.cells[i],
        s.moves,
    ) matches Some(k) ==> k == legs[i] - skipped) by {
        assert(placed(s.cells[i], path, legs[i], q[i]));
        assert(skipped <= legs[i]);
        assert forall|j: int| 0 <= j < path.turns.len() implies -TRACK_LIMIT <= q[i]
            - #[trigger] path.mark(j) <= TRACK_LIMIT by {
            assert(q[i] + 0 - path.mark(j) <= TRACK_LIMIT);
        }
        lemma_turn_on_path(s.cells[i], path, legs[i], q[i], skipped);
    }
    assert forall|i: int, j: int| 0 <= i < j < n implies q[i] >= q[j] && new_legs[i]
        >= new_legs[j] by {
        assert(q[i] >= q[j] && legs[i] >= legs[j]);
    }
    assert(t.has_tail() == s.has_tail()) by {
        if n > 0 {
            assert(t.cells[n - 1].tail == s.cells[n - 1].tail);
        }
    }
    if s.has_tail() && turn_of(s.cells.last(), s.moves) is Some {
        assert(turn_of(s.cells[n - 1], s.moves) == Some(0int));
        assert(t.moves =~= path.turns.skip(skipped + 1));
        assert(new_legs[n - 1] == skipped + 1);
        assert forall|i: int| 0 <= i < n implies skipped + 1 <= #[trigger] new_legs[i] by {
            if i < n - 1 {
                assert(new_legs[i] >= new_legs[n - 1]);
            }
        }
    } else {
        assert(t.moves == s.moves);
        assert forall|i: int| 0 <= i < n implies skipped <= #[trigger] new_legs[i] by {
            assert(skipped <= legs[i]);
        }
        if s.has_tail() {
            assert(new_legs[n - 1] == legs[n - 1]);
        }
    }
}

/// Movement keeps a snake on its path: every segment comes as many steps
/// further on its leg as it travels.
pub proof fn lemma_advance_keeps_path(
    s: SnakeView,
    path: Path,
    legs: Seq<int>,
    q: Seq<int>,
    dist: int,
)
    requires
        on_path(s, path, legs, q),
        in_limits(path, q, dist),
    ensures
        on_path(s.advanced(dist), path, legs, further(q, dist)),
        in_limits(path, further(q, dist), 0),
{
    let n = s.cells.len() as int;
    let a = s.advanced(dist);
    let r = further(q, dist);
    assert forall|i: int| 0 <= i < n implies placed(#[trigger] a.cells[i], path, legs[i], r[i]) by {
        let c = s.cells[i];
        assert(placed(c, path, legs[i], q[i]));
        assert(a.cells[i] == cell_moved(c, dist));
        if legs[i] > 0 {
            assert(-TRACK_LIMIT <= q[i] - path.mark(legs[i] - 1));
            assert(q[i] + dist - path.mark(legs[i] - 1) <= TRACK_LIMIT);
            assert(-TRACK_LIMIT <= path.turns[legs[i] - 1].position.x <= TRACK_LIMIT);
        } else {
            assert(-TRACK_LIMIT <= q[i] - path.mark(0));
            assert(q[i] + dist - path.mark(0) <= TRACK_LIMIT);
            assert(-TRACK_LIMIT <= path.turns[0].position.x <= TRACK_LIMIT);
        }
        assert(c.position.can_shift(c.direction, dist));
    }
    assert(a.has_tail() == s.has_tail()) by {
        if n > 0 {
            assert(a.cells[n - 1].tail == s.cells[n - 1].tail);
        }
    }
    assert forall|i: int, j: int| 0 <= i < j < n implies r[i] >= r[j] && legs[i] >= legs[j] by {
        assert(q[i] >= q[j] && legs[i] >= legs[j]);
    }
    assert forall|i: int, j: int|
        #![trigger r[i], path.mark(j)]
        0 <= i < r.len() && 0 <= j < path.turns.len() implies -TRACK_LIMIT <= r[i] - path.mark(j)
        && r[i] + 0 - path.mark(j) <= TRACK_LIMIT by {
        assert(-TRACK_LIMIT <= q[i] - path.mark(j) && q[i] + dist - path.mark(j) <= TRACK_LIMIT);
    }
}

/// Over a tick every segment of a snake on a path comes as many steps
/// further on the path as the tick is long: it travels along its leg up to
/// the turning point and along the next leg from there, and what it had
/// overshot the turning point by before it turned is not lost. A segment
/// takes a turn only once it has gone past the turning point, and never
/// before the segment ahead of it; the segments keep their order and their
/// distances on the path, whatever the path and the length of the tick.
pub proof fn lemma_tick_keeps_path(
    s: SnakeView,
    path: Path,
    legs: Seq<int>,
    q: Seq<int>,
    dist: int,
)
    requires
        on_path(s, path, legs, q),
        in_limits(path, q, dist),
    ensures
        on_path(ticked(s, dist), path, next_legs(path, legs, q), further(q, dist)),
        in_limits(path, further(q, dist), 0),
{
    assert(in_limits(path, q, 0)) by {
        assert forall|i: int, j: int|
            #![trigger q[i], path.mark(j)]
            0 <= i < q.len() && 0 <= j < path.turns.len() implies -TRACK_LIMIT <= q[i]
            - path.mark(j) && q[i] + 0 - path.mark(j) <= TRACK_LIMIT by {
            assert(-TRACK_LIMIT <= q[i] - path.mark(j) && q[i] + dist - path.mark(j)
                <= TRACK_LIMIT);
        }
    }
    lemma_turn_keeps_path(s, path, legs, q);
    lemma_advance_keeps_path(s.turned(), path, next_legs(path, legs, q), q, dist);
}

/// A sum of distances is not negative.
pub proof fn lemma_total_not_negative(dists: Seq<u64>)
    ensures
        total(dists) >= 0,
    decreases dists.len(),
{
    if dists.len() > 0 {
        lemma_total_not_negative(dists.drop_last());
    }
}

/// Over any number of ticks every segment of a snake on a path comes as
/// many steps further on the path as the ticks are long together: the
/// chain follows the path of its head through every turn, in order, and
/// without drift.
pub proof fn lemma_ticks_keep_path(
    s: SnakeView,
    path: Path,
    legs: Seq<int>,
    q: Seq<int>,
    dists: Seq<u64>,
)
    requires
        on_path(s, path, legs, q),
        in_limits(path, q, total(dists)),
    ensures
        on_path(
            ticked_all(s, dists),
            path,
            legs_after(path, legs, q, dists),
            further(q, total(dists)),
        ),
        in_limits(path, further(q, total(dists)), 0),
    decreases dists.len(),
{
    if dists.len() == 0 {
        assert(further(q, 0) =~= q);
    } else {
        let init = dists.drop_last();
        let step = dists.last() as int;
        lemma_total_not_negative(init);
        assert(in_limits(path, q, total(init))) by {
            assert forall|i: int, j: int|
                #![trigger q[i], path.mark(j)]
                0 <= i < q.len() && 0 <= j < path.turns.len() implies -TRACK_LIMIT <= q[i]
                - path.mark(j) && q[i] + total(init) - path.mark(j) <= TRACK_LIMIT by {
                assert(-TRACK_LIMIT <= q[i] - path.mark(j) && q[i] + total(dists) - path.mark(j)
                    <= TRACK_LIMIT);
            }
        }
        lemma_ticks_keep_path(s, path, legs, q, init);
        let mid = further(q, total(init));
        assert(in_limits(path, mid, step)) by {
            assert forall|i: int, j: int|
                #![trigger mid[i], path.mark(j)]
                0 <= i < mid.len() && 0 <= j < path.turns.len() implies -TRACK_LIMIT <= mid[i]
                - path.mark(j) && mid[i] + step - path.mark(j) <= TRACK_LIMIT by {
                assert(-TRACK_LIMIT <= q[i] - path.mark(j) && q[i] + total(dists) - path.mark(j)
                    <= TRACK_LIMIT);
            }
        }
        lemma_tick_keeps_path(
            ticked_all(s, init),
            path,
            legs_after(path, legs, q, init),
            mid,
            step,
        );
        assert(further(mid, step) =~= further(q, total(dists)));
    }
}

} // verus!
