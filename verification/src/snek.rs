//! A snake: its chain of segments, its log of turns and its queue of pending
//! growth, with the per-tick rules that move, turn and extend it.

use crate::config::{GameConfig, GROWTH_EPSILON};
use crate::geometry::{Direction, Position, UNIT};
use crate::lookup::{index_of, lemma_index_from, lemma_index_of_is};
use crate::rng::random_u32;
use vstd::prelude::*;
use vstd::set_lib::{lemma_int_range, lemma_len_subset, set_int_range};

verus! {

/// Identity of a segment, stable across the network.
pub type CellTag = u32;

/// Sequence number of a turn, unique and increasing per snake.
pub type MoveId = u32;

/// A turn of the head: at `position` the snake took `direction`.
#[derive(Clone, Copy, Debug, PartialEq, Eq, Structural)]
pub struct Move {
    pub id: MoveId,
    pub position: Position,
    pub direction: Direction,
}

/// Where the head was, and where it was heading, when food was eaten.
#[derive(Clone, Copy, Debug, PartialEq, Eq, Structural)]
pub struct SpawnDetail {
    pub position: Position,
    pub direction: Direction,
}

/// One body segment.
#[derive(Clone, Copy, Debug, PartialEq, Eq, Structural)]
pub struct SnakeCell {
    pub cell_tag: CellTag,
    pub position: Position,
    pub direction: Direction,
    /// Id of the last turn this segment has taken.
    pub move_id: MoveId,
    pub tail: bool,
}

/// Whose snake this is.
#[derive(Clone, Copy, Debug, PartialEq, Eq, Structural)]
pub enum SnakeTag {
    SelfPlayerSnake,
    OtherPlayerSnake(u32),
}

/// The index of the first entry of `log`, at or after `from`, whose id
/// exceeds `after`; the length of `log` where there is none.
pub open spec fn first_after_from(log: Seq<Move>, after: MoveId, from: int) -> int
    decreases log.len() - from,
{
    if from < 0 || from >= log.len() {
        log.len() as int
    } else if log[from].id > after {
        from
    } else {
        first_after_from(log, after, from + 1)
    }
}

/// The index of the first entry of `log`, in log order, whose id exceeds
/// `after`; the length of `log` where there is none.
pub open spec fn first_after(log: Seq<Move>, after: MoveId) -> int {
    first_after_from(log, after, 0)
}

/// `first_after_from` finds an entry that exceeds `after`, and skips only
/// entries that do not.
pub proof fn lemma_first_after_from(log: Seq<Move>, after: MoveId, from: int)
    requires
        0 <= from <= log.len(),
    ensures
        from <= first_after_from(log, after, from) <= log.len(),
        first_after_from(log, after, from) < log.len() ==> log[first_after_from(
            log,
            after,
            from,
        )].id > after,
        forall|j: int| from <= j < first_after_from(log, after, from) ==> log[j].id <= after,
    decreases log.len() - from,
{
    if from < log.len() && log[from].id <= after {
        lemma_first_after_from(log, after, from + 1);
    }
}

/// An index is the one `first_after` gives if the entry there exceeds
/// `after` and none before it does, or if it is the length of the log and
/// no entry does.
pub proof fn lemma_first_after_is(log: Seq<Move>, after: MoveId, at: int)
    requires
        0 <= at <= log.len(),
        at < log.len() ==> log[at].id > after,
        forall|j: int| 0 <= j < at ==> log[j].id <= after,
    ensures
        first_after(log, after) == at,
{
    lemma_first_after_from(log, after, 0);
}

/// The entry that `cell` takes this tick: the first one it has not taken
/// yet, provided the segment has gone past the turning point while heading
/// the old way and its place on the new leg is representable.
pub open spec fn turn_of(cell: SnakeCell, log: Seq<Move>) -> Option<int> {
    let i = first_after(log, cell.move_id);
    if i < log.len() && cell.position.passed(cell.direction, log[i].position)
        && log[i].position.can_shift(
        log[i].direction,
        cell.position.overshoot(cell.direction, log[i].position),
    ) {
        Some(i)
    } else {
        None
    }
}

/// `cell` after it has taken the turn `m`: it heads the new way, as far
/// beyond the turning point as it had overshot it.
pub open spec fn cell_after(cell: SnakeCell, m: Move) -> SnakeCell {
    SnakeCell {
        position: m.position.shift(
            m.direction,
            cell.position.overshoot(cell.direction, m.position),
        ),
        direction: m.direction,
        move_id: m.id,
        ..cell
    }
}

/// `cell` after one tick of turn propagation against `log`.
pub open spec fn cell_turned(cell: SnakeCell, log: Seq<Move>) -> SnakeCell {
    match turn_of(cell, log) {
        Some(i) => cell_after(cell, log[i]),
        None => cell,
    }
}

/// `cell` after travelling `dist` steps the way it heads. A segment that
/// would leave the representable plane stays where it is.
pub open spec fn cell_moved(cell: SnakeCell, dist: int) -> SnakeCell {
    SnakeCell { position: cell.position.shifted(cell.direction, dist), ..cell }
}

/// Whether some segment of `cells` carries `tag`.
pub open spec fn tag_used(cells: Seq<SnakeCell>, tag: CellTag) -> bool {
    exists|i: int| 0 <= i < cells.len() && (#[trigger] cells[i]).cell_tag == tag
}

/// The tags of `cells`, in order.
pub open spec fn cell_keys(cells: Seq<SnakeCell>) -> Seq<int> {
    Seq::new(cells.len(), |i: int| cells[i].cell_tag as int)
}

/// The index of the first segment of `cells` that carries `tag`; the
/// number of segments where none does.
pub open spec fn cell_index(cells: Seq<SnakeCell>, tag: CellTag) -> int {
    index_of(cell_keys(cells), tag as int)
}

/// A tag is in use exactly where `cell_index` finds a segment for it.
pub proof fn lemma_cell_index(cells: Seq<SnakeCell>, tag: CellTag)
    ensures
        0 <= cell_index(cells, tag) <= cells.len(),
        tag_used(cells, tag) <==> cell_index(cells, tag) < cells.len(),
        cell_index(cells, tag) < cells.len() ==> cells[cell_index(cells, tag)].cell_tag == tag,
{
    lemma_index_from(cell_keys(cells), tag as int, 0);
    let at = cell_index(cells, tag);
    if at < cells.len() {
        assert(cells[at].cell_tag == tag);
    }
    if tag_used(cells, tag) {
        let i = choose|i: int| 0 <= i < cells.len() && (#[trigger] cells[i]).cell_tag == tag;
        assert(cell_keys(cells)[i] == tag as int);
    }
}

/// The least number, at least `from`, that is the tag of no segment of
/// `cells`; one more than the greatest tag where there is none.
pub open spec fn unused_from(cells: Seq<SnakeCell>, from: int) -> int
    decreases 0x1_0000_0000 - from,
{
    if from < 0 || from > u32::MAX {
        0x1_0000_0000
    } else if !tag_used(cells, from as u32) {
        from
    } else {
        unused_from(cells, from + 1)
    }
}

/// The tag for a new segment next to `cells`: `seed` where no segment has
/// it, else the least tag that no segment has; `None` where every tag is
/// taken.
pub open spec fn fresh_tag(cells: Seq<SnakeCell>, seed: CellTag) -> Option<CellTag> {
    if !tag_used(cells, seed) {
        Some(seed)
    } else if unused_from(cells, 0) <= u32::MAX {
        Some(unused_from(cells, 0) as u32)
    } else {
        None
    }
}

/// `unused_from` returns a tag that is free, and passes over taken ones
/// only.
pub proof fn lemma_unused_from(cells: Seq<SnakeCell>, from: int)
    requires
        0 <= from <= 0x1_0000_0000,
    ensures
        from <= unused_from(cells, from) <= 0x1_0000_0000,
        unused_from(cells, from) <= u32::MAX ==> !tag_used(
            cells,
            unused_from(cells, from) as u32,
        ),
        forall|t: u32| from <= t < unused_from(cells, from) ==> tag_used(cells, t),
    decreases 0x1_0000_0000 - from,
{
    if from <= u32::MAX && tag_used(cells, from as u32) {
        lemma_unused_from(cells, from + 1);
    }
}

/// Fewer segments than tags leave a tag free: the least free tag is at most
/// the number of segments.
pub proof fn lemma_free_tag_exists(cells: Seq<SnakeCell>)
    requires
        cells.len() <= u32::MAX,
    ensures
        unused_from(cells, 0) <= cells.len(),
        forall|seed: CellTag| fresh_tag(cells, seed) is Some,
{
    lemma_unused_from(cells, 0);
    let n = cells.len() as int;
    if unused_from(cells, 0) > n {
        let tags = Seq::new(cells.len(), |i: int| cells[i].cell_tag as int);
        let low = set_int_range(0, n + 1);
        assert forall|t: int| low.contains(t) implies tags.to_set().contains(t) by {
            assert(tag_used(cells, t as u32));
            let i = choose|i: int| 0 <= i < cells.len() && (#[trigger] cells[i]).cell_tag == t as u32;
            assert(tags[i] == t);
        }
        lemma_int_range(0, n + 1);
        tags.lemma_cardinality_of_set();
        lemma_len_subset(low, tags.to_set());
    }
}

/// The tag that `fresh_tag` picks is the tag of no segment.
pub proof fn lemma_fresh_tag_is_free(cells: Seq<SnakeCell>, seed: CellTag)
    ensures
        fresh_tag(cells, seed) matches Some(t) ==> !tag_used(cells, t),
{
    lemma_unused_from(cells, 0);
}

/// The `index`-th segment, counted from the head, of a snake that has just
/// been set up: the head at the origin on layer one, each further segment
/// one width behind, all heading right.
pub open spec fn initial_cell(config: GameConfig, index: int, tag: CellTag) -> SnakeCell {
    SnakeCell {
        cell_tag: tag,
        position: Position { x: (-index * config.cell_size.0) as i64, y: 0, z: UNIT },
        direction: Direction::Right,
        move_id: 0,
        tail: index == 2,
    }
}

/// The three segments of a snake that has just been set up, with tags
/// drawn from the three seeds.
pub open spec fn initial_cells(config: GameConfig, seeds: (u32, u32, u32)) -> Seq<SnakeCell> {
    let one = seq![initial_cell(config, 0, seeds.0)];
    let two = one.push(initial_cell(config, 1, fresh_tag(one, seeds.1).unwrap()));
    two.push(initial_cell(config, 2, fresh_tag(two, seeds.2).unwrap()))
}

/// The ordered log of turns that the segments of a snake still have to take.
#[derive(Clone, Debug, PartialEq, Eq)]
pub struct Moves {
    pub moves: Vec<Move>,
}

impl View for Moves {
    type V = Seq<Move>;

    open spec fn view(&self) -> Seq<Move> {
        self.moves@
    }
}

impl Moves {
    /// An empty log.
    pub fn new() -> (r: Moves)
        ensures
            r@ == Seq::<Move>::empty(),
    {
        Moves { moves: Vec::new() }
    }

    /// The index of the first entry, in log order, whose id exceeds `after`.
    pub fn candidate(&self, after: MoveId) -> (r: Option<usize>)
        ensures
            match r {
                Some(k) => k == first_after(self@, after) && k < self@.len(),
                None => first_after(self@, after) == self@.len(),
            },
    {
        let n = self.moves.len();
        let mut i: usize = 0;
        while i < n
            invariant
                n == self.moves@.len(),
                0 <= i <= n,
                first_after(self@, after) == first_after_from(self@, after, i as int),
            decreases n - i,
        {
            if self.moves[i].id > after {
                return Some(i);
            }
            i += 1;
        }
        None
    }
}

/// The queue of growth points that the tail has still to reach, oldest
/// first.
#[derive(Clone, Debug, PartialEq, Eq)]
pub struct Spawner {
    pub spawners: Vec<SpawnDetail>,
}

impl View for Spawner {
    type V = Seq<SpawnDetail>;

    open spec fn view(&self) -> Seq<SpawnDetail> {
        self.spawners@
    }
}

impl Spawner {
    /// An empty queue.
    pub fn new() -> (r: Spawner)
        ensures
            r@ == Seq::<SpawnDetail>::empty(),
    {
        Spawner { spawners: Vec::new() }
    }
}

/// A snake as a mathematical value.
pub struct SnakeView {
    pub tag: SnakeTag,
    pub position: Position,
    pub lastmove: MoveId,
    pub moves: Seq<Move>,
    pub spawners: Seq<SpawnDetail>,
    pub cells: Seq<SnakeCell>,
}

impl SnakeView {
    /// No two segments share a tag.
    pub open spec fn tags_distinct(self) -> bool {
        forall|i: int, j: int|
            0 <= i < j < self.cells.len() ==> self.cells[i].cell_tag != self.cells[j].cell_tag
    }

    /// Only the last segment of the chain may be marked as the tail.
    pub open spec fn tail_is_last(self) -> bool {
        forall|i: int| 0 <= i < self.cells.len() - 1 ==> !(#[trigger] self.cells[i]).tail
    }

    /// The mirror of another player's snake carries no tail mark: it grows
    /// by what its owner reports, not by itself.
    pub open spec fn mirror_has_no_tail(self) -> bool {
        self.tag is OtherPlayerSnake ==> forall|i: int|
            0 <= i < self.cells.len() ==> !(#[trigger] self.cells[i]).tail
    }

    /// Well-formedness: segments are told apart by their tags, the tail
    /// mark sits at the end of the chain, and only the local snake has one.
    pub open spec fn wf(self) -> bool {
        self.tags_distinct() && self.tail_is_last() && self.mirror_has_no_tail()
    }

    /// Whether the chain ends in a segment marked as the tail.
    pub open spec fn has_tail(self) -> bool {
        self.cells.len() > 0 && self.cells.last().tail
    }

    /// The log entry that the tail consumes this tick, if any.
    pub open spec fn consumed(self) -> Option<int> {
        if self.has_tail() {
            turn_of(self.cells.last(), self.moves)
        } else {
            None
        }
    }

    /// The snake after one tick of turn propagation: every segment takes at
    /// most one turn, and an entry taken by the tail leaves the log.
    pub open spec fn turned(self) -> SnakeView {
        SnakeView {
            cells: Seq::new(self.cells.len(), |i: int| cell_turned(self.cells[i], self.moves)),
            moves: match self.consumed() {
                Some(k) => self.moves.remove(k),
                None => self.moves,
            },
            ..self
        }
    }

    /// The snake after every segment has travelled `dist` steps the way it
    /// heads.
    pub open spec fn advanced(self, dist: int) -> SnakeView {
        SnakeView {
            cells: Seq::new(self.cells.len(), |i: int| cell_moved(self.cells[i], dist)),
            ..self
        }
    }

    /// The snake of the local player as it is set up: three segments, no
    /// turn taken or pending, no growth due.
    pub open spec fn initial(config: GameConfig, seeds: (u32, u32, u32)) -> SnakeView {
        SnakeView {
            tag: SnakeTag::SelfPlayerSnake,
            position: Position { x: 0, y: 0, z: 0 },
            lastmove: 0,
            moves: Seq::empty(),
            spawners: Seq::empty(),
            cells: initial_cells(config, seeds),
        }
    }

    /// Whether an input asking for direction `d` makes the snake turn: the
    /// head exists and heads along the other axis, an id is left for the
    /// turn, and the turning point, one world unit ahead of the head, is
    /// representable.
    pub open spec fn steers(self, d: Direction) -> bool {
        &&& self.cells.len() > 0
        &&& self.cells[0].direction.is_quarter_turn(d)
        &&& self.lastmove < u32::MAX
        &&& self.cells[0].position.can_shift(self.cells[0].direction, UNIT as int)
    }

    /// The turn that an input asking for direction `d` records.
    pub open spec fn next_move(self, d: Direction) -> Move {
        Move {
            id: (self.lastmove + 1) as u32,
            position: self.cells[0].position.shift(self.cells[0].direction, UNIT as int),
            direction: d,
        }
    }

    /// The snake after an input asking for direction `d`.
    pub open spec fn steered(self, d: Direction) -> SnakeView {
        if self.steers(d) {
            SnakeView {
                lastmove: (self.lastmove + 1) as u32,
                moves: self.moves.push(self.next_move(d)),
                ..self
            }
        } else {
            self
        }
    }

    /// The snake after its head has eaten: where the head is, and where it
    /// heads, joins the growth queue.
    pub open spec fn fed(self) -> SnakeView {
        if self.cells.len() > 0 {
            SnakeView {
                spawners: self.spawners.push(
                    SpawnDetail {
                        position: self.cells[0].position,
                        direction: self.cells[0].direction,
                    },
                ),
                ..self
            }
        } else {
            self
        }
    }

    /// Whether the snake grows this tick: growth is due, the tail has come
    /// within [`GROWTH_EPSILON`] of the oldest growth point, and the new
    /// segment has a place and a tag.
    pub open spec fn grows(self, config: GameConfig, seed: CellTag) -> bool {
        &&& self.spawners.len() > 0
        &&& self.has_tail()
        &&& self.cells.last().position.within(self.spawners[0].position, GROWTH_EPSILON as int)
        &&& self.cells.last().position.can_shift(
            self.cells.last().direction,
            -config.extent(self.cells.last().direction),
        )
        &&& fresh_tag(self.cells, seed) is Some
    }

    /// The segment that growth appends: one segment size behind the tail,
    /// with the direction and the last turn of the tail, and marked as the
    /// tail.
    pub open spec fn new_tail(self, config: GameConfig, seed: CellTag) -> SnakeCell {
        let tail = self.cells.last();
        SnakeCell {
            cell_tag: fresh_tag(self.cells, seed).unwrap(),
            position: tail.position.shift(tail.direction, -config.extent(tail.direction)),
            direction: tail.direction,
            move_id: tail.move_id,
            tail: true,
        }
    }

    /// The snake after one tick of growth: where it grows, the old tail
    /// loses its mark, the new tail joins the chain and the oldest growth
    /// point leaves the queue.
    pub open spec fn grown(self, config: GameConfig, seed: CellTag) -> SnakeView {
        if self.grows(config, seed) {
            SnakeView {
                cells: self.cells.update(
                    self.cells.len() - 1,
                    SnakeCell { tail: false, ..self.cells.last() },
                ).push(self.new_tail(config, seed)),
                spawners: self.spawners.remove(0),
                ..self
            }
        } else {
            self
        }
    }

    /// Segments in the chain plus growth still due.
    pub open spec fn mass(self) -> nat {
        self.cells.len() + self.spawners.len()
    }
}

/// A snake: the chain of its segments from head to tail, the turns they
/// have still to take and the growth that is still due.
#[derive(Clone, Debug, PartialEq, Eq)]
pub struct Snake {
    pub tag: SnakeTag,
    pub position: Position,
    /// The id given to the latest turn of this snake.
    pub lastmove: MoveId,
    pub moves: Moves,
    pub spawners: Spawner,
    pub cells: Vec<SnakeCell>,
}

impl View for Snake {
    type V = SnakeView;

    open spec fn view(&self) -> SnakeView {
        SnakeView {
            tag: self.tag,
            position: self.position,
            lastmove: self.lastmove,
            moves: self.moves@,
            spawners: self.spawners@,
            cells: self.cells@,
        }
    }
}

impl Snake {
    /// Turn propagation, one tick: each segment looks up the first turn it
    /// has not taken and takes it once it has gone past the turning point.
    pub fn update_cell_direction(&mut self)
        requires
            old(self)@.wf(),
        ensures
            final(self)@ == old(self)@.turned(),
            final(self)@.wf(),
            final(self)@.cells.len() == old(self)@.cells.len(),
            forall|i: int|
                0 <= i < old(self)@.cells.len() ==> (#[trigger] final(self)@.cells[i]).move_id
                    >= old(self)@.cells[i].move_id,
    {
        proof {
            lemma_turned_wf(old(self)@);
            assert forall|i: int| 0 <= i < old(self)@.cells.len() implies (#[trigger] old(
                self,
            )@.turned().cells[i]).move_id >= old(self)@.cells[i].move_id by {
                lemma_turn_monotonic(old(self)@, i);
            }
        }
        let n = self.cells.len();
        let mut i: usize = 0;
        while i < n
            invariant
                0 <= i <= n,
                n == old(self).cells@.len(),
                old(self)@.wf(),
                self.cells@.len() == n,
                self.tag == old(self).tag,
                self.position == old(self).position,
                self.lastmove == old(self).lastmove,
                self.spawners == old(self).spawners,
                forall|j: int| 0 <= j < i ==> self.cells@[j] == cell_turned(old(self).cells@[j], old(self).moves@),
                forall|j: int| i <= j < n ==> self.cells@[j] == old(self).cells@[j],
                i < n ==> self.moves@ == old(self).moves@,
                i == n ==> self.moves@ == old(self)@.turned().moves,
            decreases n - i,
        {
            let cell = self.cells[i];
            let mut taken: Option<usize> = None;
            match self.moves.candidate(cell.move_id) {
                Some(k) => {
                    let m = self.moves.moves[k];
                    match cell.position.checked_overshoot(cell.direction, m.position) {
                        Some(over) => {
                            match m.position.checked_shift(m.direction, over) {
                                Some(p) => {
                                    self.cells[i] = SnakeCell {
                                        position: p,
                                        direction: m.direction,
                                        move_id: m.id,
                                        ..cell
                                    };
                                    taken = Some(k);
                                },
                                None => {},
                            }
                        },
                        None => {},
                    }
                },
                None => {},
            }
            assert(match turn_of(cell, old(self).moves@) {
                Some(k) => taken == Some(k as usize),
                None => taken.is_none(),
            });
            if cell.tail {
                match taken {
                    Some(k) => {
                        self.moves.moves.remove(k);
                    },
                    None => {},
                }
            }
            i += 1;
        }
        assert(self@.cells =~= old(self)@.turned().cells);
    }

    /// Movement, one tick: every segment travels `dist` steps the way it
    /// heads.
    pub fn advance(&mut self, dist: u64)
        ensures
            final(self)@ == old(self)@.advanced(dist as int),
            old(self)@.wf() ==> final(self)@.wf(),
    {
        proof {
            if old(self)@.wf() {
                lemma_advanced_wf(old(self)@, dist as int);
            }
        }
        let n = self.cells.len();
        let mut i: usize = 0;
        while i < n
            invariant
                0 <= i <= n,
                n == old(self).cells@.len(),
                self.cells@.len() == n,
                self.tag == old(self).tag,
                self.position == old(self).position,
                self.lastmove == old(self).lastmove,
                self.spawners == old(self).spawners,
                self.moves == old(self).moves,
                forall|j: int|
                    0 <= j < i ==> self.cells@[j] == cell_moved(old(self).cells@[j], dist as int),
                forall|j: int| i <= j < n ==> self.cells@[j] == old(self).cells@[j],
            decreases n - i,
        {
            let cell = self.cells[i];
            self.cells[i] = SnakeCell {
                position: cell.position.shift_or_stay(cell.direction, dist as i128),
                ..cell
            };
            i += 1;
        }
        assert(self@.cells =~= old(self)@.advanced(dist as int).cells);
    }

    /// Whether the snake is well-formed.
    pub fn is_well_formed(&self) -> (r: bool)
        ensures
            r == self@.wf(),
    {
        let n = self.cells.len();
        let mirror = match self.tag {
            SnakeTag::SelfPlayerSnake => false,
            SnakeTag::OtherPlayerSnake(_) => true,
        };
        let mut j: usize = 0;
        while j < n
            invariant
                0 <= j <= n,
                n == self.cells@.len(),
                mirror == (self.tag is OtherPlayerSnake),
                forall|a: int, b: int|
                    0 <= a < b < j ==> self.cells@[a].cell_tag != self.cells@[b].cell_tag,
                forall|a: int| 0 <= a < j && a < n - 1 ==> !(#[trigger] self.cells@[a]).tail,
                mirror ==> forall|a: int| 0 <= a < j ==> !(#[trigger] self.cells@[a]).tail,
            decreases n - j,
        {
            let cell = self.cells[j];
            if cell.tail && (mirror || j + 1 < n) {
                return false;
            }
            let mut i: usize = 0;
            while i < j
                invariant
                    0 <= i <= j < n,
                    n == self.cells@.len(),
                    cell == self.cells@[j as int],
                    forall|a: int| 0 <= a < i ==> self.cells@[a].cell_tag != cell.cell_tag,
                decreases j - i,
            {
                if self.cells[i].cell_tag == cell.cell_tag {
                    return false;
                }
                i += 1;
            }
            j += 1;
        }
        true
    }

    /// The snake of the local player, set up with tags drawn from `seeds`.
    pub fn player(config: &GameConfig, seeds: (u32, u32, u32)) -> (r: Snake)
        ensures
            r@ == SnakeView::initial(*config, seeds),
            r@.wf(),
    {
        let mut snake = Snake {
            tag: SnakeTag::SelfPlayerSnake,
            position: Position { x: 0, y: 0, z: 0 },
            lastmove: 0,
            moves: Moves::new(),
            spawners: Spawner::new(),
            cells: Vec::new(),
        };
        let width: i64 = config.cell_size.0 as i64;
        let origin = Position { x: 0, y: 0, z: UNIT };
        snake.cells.push(
            SnakeCell {
                cell_tag: seeds.0,
                position: origin,
                direction: Direction::Right,
                move_id: 0,
                tail: false,
            },
        );
        let ghost one = seq![initial_cell(*config, 0, seeds.0)];
        assert(snake.cells@ =~= one);
        proof {
            lemma_free_tag_exists(one);
            lemma_fresh_tag_is_free(one, seeds.1);
        }
        let second = match snake.pick_tag(seeds.1) {
            Some(t) => t,
            None => seeds.1,
        };
        snake.cells.push(
            SnakeCell {
                cell_tag: second,
                position: Position { x: -width, y: 0, z: UNIT },
                direction: Direction::Right,
                move_id: 0,
                tail: false,
            },
        );
        let ghost two = one.push(initial_cell(*config, 1, second));
        assert(snake.cells@ =~= two);
        proof {
            lemma_free_tag_exists(two);
            lemma_fresh_tag_is_free(two, seeds.2);
        }
        let third = match snake.pick_tag(seeds.2) {
            Some(t) => t,
            None => seeds.2,
        };
        snake.cells.push(
            SnakeCell {
                cell_tag: third,
                position: Position { x: -(width + width), y: 0, z: UNIT },
                direction: Direction::Right,
                move_id: 0,
                tail: true,
            },
        );
        assert(snake.cells@ =~= initial_cells(*config, seeds));
        snake
    }

    /// The index of the segment that carries `tag`.
    pub fn find_cell(&self, tag: CellTag) -> (r: Option<usize>)
        ensures
            match r {
                Some(i) => i < self.cells@.len() && self.cells@[i as int].cell_tag == tag
                    && cell_index(self.cells@, tag) == i,
                None => !tag_used(self.cells@, tag) && cell_index(self.cells@, tag)
                    == self.cells@.len(),
            },
    {
        proof {
            lemma_cell_index(self.cells@, tag);
        }
        let n = self.cells.len();
        let mut i: usize = 0;
        while i < n
            invariant
                0 <= i <= n,
                n == self.cells@.len(),
                forall|j: int| 0 <= j < i ==> self.cells@[j].cell_tag != tag,
            decreases n - i,
        {
            if self.cells[i].cell_tag == tag {
                proof {
                    lemma_index_of_is(cell_keys(self.cells@), tag as int, i as int);
                }
                return Some(i);
            }
            i += 1;
        }
        proof {
            lemma_index_of_is(cell_keys(self.cells@), tag as int, n as int);
        }
        None
    }

    /// A tag for a new segment: `seed` where it is free, else the least
    /// free tag.
    pub fn pick_tag(&self, seed: CellTag) -> (r: Option<CellTag>)
        ensures
            r == fresh_tag(self.cells@, seed),
    {
        if self.find_cell(seed).is_none() {
            return Some(seed);
        }
        let mut t: u32 = 0;
        loop
            invariant
                unused_from(self.cells@, 0) == unused_from(self.cells@, t as int),
                tag_used(self.cells@, seed),
            decreases u32::MAX - t,
        {
            if self.find_cell(t).is_none() {
                return Some(t);
            }
            if t == u32::MAX {
                assert(unused_from(self.cells@, t + 1) == 0x1_0000_0000);
                return None;
            }
            t += 1;
        }
    }

    /// Records the turn that an input asking for direction `d` causes, and
    /// returns it; `None` where the input causes none.
    pub fn steer(&mut self, d: Direction) -> (r: Option<Move>)
        ensures
            final(self)@ == old(self)@.steered(d),
            r == if old(self)@.steers(d) {
                Some(old(self)@.next_move(d))
            } else {
                None
            },
            old(self)@.wf() ==> final(self)@.wf(),
    {
        if self.cells.len() == 0 {
            return None;
        }
        let head = self.cells[0];
        if !head.direction.quarter_turn(d) || self.lastmove == u32::MAX {
            return None;
        }
        match head.position.checked_shift(head.direction, UNIT as i128) {
            Some(p) => {
                self.lastmove = self.lastmove + 1;
                let m = Move { id: self.lastmove, position: p, direction: d };
                self.moves.moves.push(m);
                Some(m)
            },
            None => None,
        }
    }

    /// Queues growth at the place where the head is.
    pub fn feed(&mut self)
        ensures
            final(self)@ == old(self)@.fed(),
            old(self)@.wf() ==> final(self)@.wf(),
    {
        if self.cells.len() > 0 {
            let head = self.cells[0];
            self.spawners.spawners.push(
                SpawnDetail { position: head.position, direction: head.direction },
            );
        }
    }

    /// Growth, one tick, with `seed` as the wish for the new segment's tag.
    pub fn grow(&mut self, config: &GameConfig, seed: CellTag) -> (r: bool)
        ensures
            r == old(self)@.grows(*config, seed),
            final(self)@ == old(self)@.grown(*config, seed),
            old(self)@.wf() ==> final(self)@.wf(),
    {
        proof {
            if old(self)@.wf() {
                lemma_grown_wf(old(self)@, *config, seed);
            }
        }
        let n = self.cells.len();
        if self.spawners.spawners.len() == 0 || n == 0 {
            return false;
        }
        let tail = self.cells[n - 1];
        if !tail.tail || !tail.position.is_within(self.spawners.spawners[0].position, GROWTH_EPSILON) {
            return false;
        }
        let back: i128 = -(config.extent_along(tail.direction) as i128);
        match tail.position.checked_shift(tail.direction, back) {
            Some(p) => {
                match self.pick_tag(seed) {
                    Some(t) => {
                        self.cells[n - 1] = SnakeCell { tail: false, ..tail };
                        self.cells.push(
                            SnakeCell {
                                cell_tag: t,
                                position: p,
                                direction: tail.direction,
                                move_id: tail.move_id,
                                tail: true,
                            },
                        );
                        self.spawners.spawners.remove(0);
                        true
                    },
                    None => false,
                }
            },
            None => false,
        }
    }

    /// Growth, one tick: where the tail has reached the oldest growth
    /// point, a new tail with a randomly drawn tag is appended.
    pub fn spawn_new_cell(&mut self, config: &GameConfig) -> (r: bool)
        ensures
            exists|seed: CellTag|
                r == old(self)@.grows(*config, seed) && final(self)@ == #[trigger] old(self)@.grown(
                    *config,
                    seed,
                ),
            old(self)@.wf() ==> final(self)@.wf(),
    {
        let seed = random_u32();
        self.grow(config, seed)
    }

    /// Applies one event to the snake.
    pub fn apply(&mut self, config: &GameConfig, e: Step)
        requires
            old(self)@.wf(),
        ensures
            final(self)@ == step(old(self)@, *config, e),
            final(self)@.wf(),
    {
        match e {
            Step::Turn => {
                self.update_cell_direction();
            },
            Step::Advance(dist) => {
                self.advance(dist);
            },
            Step::Steer(d) => {
                let _ = self.steer(d);
            },
            Step::Feed => {
                self.feed();
            },
            Step::Grow(seed) => {
                let _ = self.grow(config, seed);
            },
        }
    }
}

/// One event in the life of a snake.
#[derive(Clone, Copy, Debug, PartialEq, Eq)]
pub enum Step {
    /// A tick of turn propagation.
    Turn,
    /// A tick of movement over so many steps.
    Advance(u64),
    /// An input asking for a direction.
    Steer(Direction),
    /// The head eats.
    Feed,
    /// A tick of growth, with the wish for the new segment's tag.
    Grow(CellTag),
}

/// The snake after one event.
pub open spec fn step(s: SnakeView, config: GameConfig, e: Step) -> SnakeView {
    match e {
        Step::Turn => s.turned(),
        Step::Advance(dist) => s.advanced(dist as int),
        Step::Steer(d) => s.steered(d),
        Step::Feed => s.fed(),
        Step::Grow(seed) => s.grown(config, seed),
    }
}

/// The snake after a series of events, first to last.
pub open spec fn run(s: SnakeView, config: GameConfig, steps: Seq<Step>) -> SnakeView
    decreases steps.len(),
{
    if steps.len() == 0 {
        s
    } else {
        step(run(s, config, steps.drop_last()), config, steps.last())
    }
}

/// How many times the head eats in a series of events.
pub open spec fn meals(steps: Seq<Step>) -> nat
    decreases steps.len(),
{
    if steps.len() == 0 {
        0
    } else {
        meals(steps.drop_last()) + if steps.last() is Feed {
            1nat
        } else {
            0nat
        }
    }
}

/// Turn propagation keeps a snake well-formed and the length of its chain.
pub proof fn lemma_turned_wf(s: SnakeView)
    requires
        s.wf(),
    ensures
        s.turned().wf(),
        s.turned().cells.len() == s.cells.len(),
{
    let t = s.turned();
    assert forall|i: int, j: int| 0 <= i < j < t.cells.len() implies t.cells[i].cell_tag
        != t.cells[j].cell_tag by {
        assert(t.cells[i].cell_tag == s.cells[i].cell_tag);
        assert(t.cells[j].cell_tag == s.cells[j].cell_tag);
    }
    assert forall|i: int| 0 <= i < t.cells.len() implies (#[trigger] t.cells[i]).tail
        == s.cells[i].tail by {}
}

/// Over a tick of turn propagation the id of the last turn that a segment
/// has taken never goes down, and where it goes up it goes to an entry of
/// the log.
pub proof fn lemma_turn_monotonic(s: SnakeView, i: int)
    requires
        0 <= i < s.cells.len(),
    ensures
        s.turned().cells[i].move_id >= s.cells[i].move_id,
        s.turned().cells[i].cell_tag == s.cells[i].cell_tag,
        s.turned().cells[i].move_id > s.cells[i].move_id ==> exists|k: int|
            0 <= k < s.moves.len() && (#[trigger] s.moves[k]).id == s.turned().cells[i].move_id,
{
    lemma_first_after_from(s.moves, s.cells[i].move_id, 0);
}

/// Over a whole tick, that is turn propagation, movement and growth, every
/// segment stays in the chain under its tag, and the id of the last turn it
/// has taken never goes down.
pub proof fn lemma_tick_monotonic(s: SnakeView, config: GameConfig, dist: int, seed: CellTag)
    requires
        s.wf(),
    ensures
        s.turned().advanced(dist).grown(config, seed).cells.len() >= s.cells.len(),
        forall|i: int|
            0 <= i < s.cells.len() ==> (#[trigger] s.turned().advanced(dist).grown(
                config,
                seed,
            ).cells[i]).move_id >= s.cells[i].move_id && s.turned().advanced(dist).grown(
                config,
                seed,
            ).cells[i].cell_tag == s.cells[i].cell_tag,
{
    let t = s.turned();
    let a = t.advanced(dist);
    let g = a.grown(config, seed);
    lemma_turned_wf(s);
    lemma_advanced_wf(t, dist);
    lemma_grown_wf(a, config, seed);
    assert forall|i: int| 0 <= i < s.cells.len() implies (#[trigger] g.cells[i]).move_id
        >= s.cells[i].move_id && g.cells[i].cell_tag == s.cells[i].cell_tag by {
        lemma_turn_monotonic(s, i);
        assert(a.cells[i].move_id == t.cells[i].move_id);
        assert(a.cells[i].cell_tag == t.cells[i].cell_tag);
        assert(g.cells[i].move_id == a.cells[i].move_id);
    }
}

/// A segment takes a turn only after it has gone through the turning point:
/// it lies `k > 0` steps beyond the point on its old heading, the entry is
/// one it had not taken, and it comes to lie `k` steps beyond the point on
/// the new heading, so that no distance is lost.
pub proof fn lemma_turn_goes_through(cell: SnakeCell, log: Seq<Move>)
    requires
        turn_of(cell, log) is Some,
    ensures
        ({
            let m = log[turn_of(cell, log).unwrap()];
            let k = cell.position.overshoot(cell.direction, m.position);
            &&& 0 <= turn_of(cell, log).unwrap() < log.len()
            &&& m.id > cell.move_id
            &&& forall|j: int| 0 <= j < turn_of(cell, log).unwrap() ==> log[j].id <= cell.move_id
            &&& k > 0
            &&& cell.position.x == m.position.x + cell.direction.along_x(k)
            &&& cell.position.y == m.position.y + cell.direction.along_y(k)
            &&& cell_turned(cell, log).position.x == m.position.x + m.direction.along_x(k)
            &&& cell_turned(cell, log).position.y == m.position.y + m.direction.along_y(k)
            &&& cell_turned(cell, log).position.z == m.position.z
            &&& cell_turned(cell, log).direction == m.direction
            &&& cell_turned(cell, log).move_id == m.id
        }),
{
    lemma_first_after_from(log, cell.move_id, 0);
}

/// Whether `follower` trails `leader` on the same leg of the path: both
/// have taken the same turns, head the same way, and the leader lies `gap`
/// steps ahead.
pub open spec fn trails(follower: SnakeCell, leader: SnakeCell, gap: int) -> bool {
    &&& gap >= 0
    &&& follower.move_id == leader.move_id
    &&& follower.direction == leader.direction
    &&& leader.position.x == follower.position.x + follower.direction.along_x(gap)
    &&& leader.position.y == follower.position.y + follower.direction.along_y(gap)
}

/// A segment that trails another on the same leg never takes a turn before
/// the one ahead of it: where the follower turns this tick, the leader
/// turns at the same entry, and the follower trails it again, by the same
/// gap, on the new leg. The leader's place on the new leg is taken to be
/// representable.
pub proof fn lemma_follower_turns_after_leader(
    follower: SnakeCell,
    leader: SnakeCell,
    gap: int,
    log: Seq<Move>,
)
    requires
        trails(follower, leader, gap),
        turn_of(follower, log) is Some,
        log[turn_of(follower, log).unwrap()].position.can_shift(
            log[turn_of(follower, log).unwrap()].direction,
            leader.position.overshoot(leader.direction, log[turn_of(follower, log).unwrap()].position),
        ),
    ensures
        turn_of(leader, log) == turn_of(follower, log),
        trails(cell_turned(follower, log), cell_turned(leader, log), gap),
{
    lemma_first_after_from(log, follower.move_id, 0);
}

/// Movement keeps a snake well-formed and the length of its chain.
pub proof fn lemma_advanced_wf(s: SnakeView, dist: int)
    requires
        s.wf(),
    ensures
        s.advanced(dist).wf(),
        s.advanced(dist).cells.len() == s.cells.len(),
{
    let t = s.advanced(dist);
    assert forall|i: int, j: int| 0 <= i < j < t.cells.len() implies t.cells[i].cell_tag
        != t.cells[j].cell_tag by {
        assert(t.cells[i].cell_tag == s.cells[i].cell_tag);
        assert(t.cells[j].cell_tag == s.cells[j].cell_tag);
    }
    assert forall|i: int| 0 <= i < t.cells.len() implies (#[trigger] t.cells[i]).tail
        == s.cells[i].tail by {}
}

/// Growth keeps a snake well-formed. It adds one segment or none, and one
/// only where the tail has come within [`GROWTH_EPSILON`] of the oldest
/// growth point; segments and growth due, taken together, stay as many.
pub proof fn lemma_grown_wf(s: SnakeView, config: GameConfig, seed: CellTag)
    requires
        s.wf(),
    ensures
        s.grown(config, seed).wf(),
        s.grown(config, seed).mass() == s.mass(),
        s.grown(config, seed).cells.len() == s.cells.len() + if s.grows(config, seed) {
            1int
        } else {
            0int
        },
        s.grows(config, seed) ==> s.cells.last().position.within(
            s.spawners[0].position,
            GROWTH_EPSILON as int,
        ),
        forall|i: int| 0 <= i < s.cells.len() ==> (#[trigger] s.grown(config, seed).cells[i]).cell_tag == s.cells[i].cell_tag,
{
    let t = s.grown(config, seed);
    if s.grows(config, seed) {
        lemma_fresh_tag_is_free(s.cells, seed);
        let n = s.cells.len() as int;
        assert forall|i: int, j: int| 0 <= i < j < t.cells.len() implies t.cells[i].cell_tag
            != t.cells[j].cell_tag by {
            assert(t.cells[i].cell_tag == s.cells[i].cell_tag);
            if j < n {
                assert(t.cells[j].cell_tag == s.cells[j].cell_tag);
            }
        }
        assert forall|i: int| 0 <= i < t.cells.len() - 1 implies !(#[trigger] t.cells[i]).tail by {
            if i < n - 1 {
                assert(t.cells[i].tail == s.cells[i].tail);
            }
        }
    }
}

/// A snake that has a head has, after any series of events, as many
/// segments and pending growth points together as it had at first plus one
/// for each time it ate; it stays well-formed and never loses a segment.
/// So a snake that ate `k` times has grown by `k` segments once its queue
/// is empty again.
pub proof fn lemma_growth_exact(s: SnakeView, config: GameConfig, steps: Seq<Step>)
    requires
        s.wf(),
        s.cells.len() > 0,
    ensures
        run(s, config, steps).wf(),
        run(s, config, steps).cells.len() >= s.cells.len(),
        run(s, config, steps).mass() == s.mass() + meals(steps),
    decreases steps.len(),
{
    if steps.len() > 0 {
        lemma_growth_exact(s, config, steps.drop_last());
        let before = run(s, config, steps.drop_last());
        match steps.last() {
            Step::Turn => {
                lemma_turned_wf(before);
            },
            Step::Advance(dist) => {
                lemma_advanced_wf(before, dist as int);
            },
            Step::Steer(d) => {},
            Step::Feed => {},
            Step::Grow(seed) => {
                lemma_grown_wf(before, config, seed);
            },
        }
    }
}

} // verus!
