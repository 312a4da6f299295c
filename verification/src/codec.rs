//! The wire format of [`TransportMessage`]: one byte that tells the
//! variant, then its fields in order. Integers are little-endian and of
//! fixed width, coordinates are 64-bit two's complement, a direction is one
//! byte, and a list is its length in 64 bits followed by its items.

use crate::geometry::{Coord, Direction, Position};
use crate::networking::{
    SnakeCellDetails, SnakeDetails, SnakeDetailsView, TransportMessage, TransportMessageView,
};
use crate::snek::{Move, Moves};
use vstd::bytes::{
    lemma_auto_spec_u32_to_from_le_bytes, lemma_auto_spec_u64_to_from_le_bytes,
    spec_u32_from_le_bytes, spec_u32_to_le_bytes, spec_u64_from_le_bytes, spec_u64_to_le_bytes,
    u32_from_le_bytes, u32_to_le_bytes, u64_from_le_bytes, u64_to_le_bytes,
};
use vstd::prelude::*;
use vstd::slice::slice_subrange;

verus! {

/// Width in bytes of an encoded position.
pub const POSITION_WIDTH: usize = 24;

/// Width in bytes of an encoded turn.
pub const MOVE_WIDTH: usize = 29;

/// Width in bytes of an encoded segment.
pub const CELL_WIDTH: usize = 33;

/// The four bytes of a 32-bit number.
pub open spec fn enc_u32(x: u32) -> Seq<u8> {
    spec_u32_to_le_bytes(x)
}

/// The number that four bytes stand for.
pub open spec fn dec_u32(b: Seq<u8>) -> u32 {
    spec_u32_from_le_bytes(b)
}

/// The eight bytes of a 64-bit number.
pub open spec fn enc_u64(x: u64) -> Seq<u8> {
    spec_u64_to_le_bytes(x)
}

/// The number that eight bytes stand for.
pub open spec fn dec_u64(b: Seq<u8>) -> u64 {
    spec_u64_from_le_bytes(b)
}

/// The eight bytes of a coordinate.
pub open spec fn enc_coord(x: Coord) -> Seq<u8> {
    spec_u64_to_le_bytes(x as u64)
}

/// The coordinate that eight bytes stand for.
pub open spec fn dec_coord(b: Seq<u8>) -> Coord {
    spec_u64_from_le_bytes(b) as i64
}

/// The byte of a direction.
pub open spec fn direction_byte(d: Direction) -> u8 {
    match d {
        Direction::Up => 0,
        Direction::Down => 1,
        Direction::Left => 2,
        Direction::Right => 3,
    }
}

/// The direction that a byte stands for, if any.
pub open spec fn dec_direction(b: u8) -> Option<Direction> {
    if b == 0 {
        Some(Direction::Up)
    } else if b == 1 {
        Some(Direction::Down)
    } else if b == 2 {
        Some(Direction::Left)
    } else if b == 3 {
        Some(Direction::Right)
    } else {
        None
    }
}

/// The 24 bytes of a position: x, y, z.
pub open spec fn enc_position(p: Position) -> Seq<u8> {
    enc_coord(p.x) + enc_coord(p.y) + enc_coord(p.z)
}

/// The position that 24 bytes stand for.
pub open spec fn dec_position(b: Seq<u8>) -> Position {
    Position {
        x: dec_coord(b.subrange(0, 8)),
        y: dec_coord(b.subrange(8, 16)),
        z: dec_coord(b.subrange(16, 24)),
    }
}

/// The 29 bytes of a turn: id, position, direction.
pub open spec fn enc_move(m: Move) -> Seq<u8> {
    enc_u32(m.id) + enc_position(m.position) + seq![direction_byte(m.direction)]
}

/// The turn that 29 bytes stand for, if the last of them is a direction.
pub open spec fn dec_move(b: Seq<u8>) -> Option<Move> {
    match dec_direction(b[28]) {
        Some(d) => Some(
            Move { id: dec_u32(b.subrange(0, 4)), position: dec_position(b.subrange(4, 28)), direction: d },
        ),
        None => None,
    }
}

/// The 33 bytes of a segment: tag, position, id of its last turn,
/// direction.
pub open spec fn enc_cell(c: SnakeCellDetails) -> Seq<u8> {
    enc_u32(c.cell_tag) + enc_position(c.transform) + enc_u32(c.move_id) + seq![
        direction_byte(c.direction),
    ]
}

/// The segment that 33 bytes stand for, if the last of them is a
/// direction.
pub open spec fn dec_cell(b: Seq<u8>) -> Option<SnakeCellDetails> {
    match dec_direction(b[32]) {
        Some(d) => Some(
            SnakeCellDetails {
                cell_tag: dec_u32(b.subrange(0, 4)),
                transform: dec_position(b.subrange(4, 28)),
                move_id: dec_u32(b.subrange(28, 32)),
                direction: d,
            },
        ),
        None => None,
    }
}

/// Decoding the bytes of a number gives the number back.
pub proof fn lemma_int_round_trip()
    ensures
        forall|x: u32| (#[trigger] enc_u32(x)).len() == 4 && dec_u32(enc_u32(x)) == x,
        forall|x: u64| (#[trigger] enc_u64(x)).len() == 8 && dec_u64(enc_u64(x)) == x,
        forall|x: Coord| (#[trigger] enc_coord(x)).len() == 8 && dec_coord(enc_coord(x)) == x,
{
    lemma_auto_spec_u32_to_from_le_bytes();
    lemma_auto_spec_u64_to_from_le_bytes();
    assert forall|x: u32| (#[trigger] enc_u32(x)).len() == 4 && dec_u32(enc_u32(x)) == x by {
        assert(spec_u32_to_le_bytes(x).len() == 4);
    }
    assert forall|x: u64| (#[trigger] enc_u64(x)).len() == 8 && dec_u64(enc_u64(x)) == x by {
        assert(spec_u64_to_le_bytes(x).len() == 8);
    }
    assert forall|x: Coord| (#[trigger] enc_coord(x)).len() == 8 && dec_coord(enc_coord(x))
        == x by {
        assert(spec_u64_to_le_bytes(x as u64).len() == 8);
        assert((x as u64) as i64 == x) by (bit_vector);
    }
}

/// Decoding the bytes of a position gives the position back.
pub proof fn lemma_position_round_trip(p: Position)
    ensures
        enc_position(p).len() == 24,
        dec_position(enc_position(p)) == p,
{
    lemma_int_round_trip();
    let b = enc_position(p);
    assert(b.subrange(0, 8) =~= enc_coord(p.x));
    assert(b.subrange(8, 16) =~= enc_coord(p.y));
    assert(b.subrange(16, 24) =~= enc_coord(p.z));
}

/// Decoding the bytes of a turn gives the turn back.
pub proof fn lemma_move_round_trip(m: Move)
    ensures
        enc_move(m).len() == 29,
        dec_move(enc_move(m)) == Some(m),
{
    lemma_int_round_trip();
    lemma_position_round_trip(m.position);
    let b = enc_move(m);
    assert(b.subrange(0, 4) =~= enc_u32(m.id));
    assert(b.subrange(4, 28) =~= enc_position(m.position));
    assert(b[28] == direction_byte(m.direction));
}

/// Decoding the bytes of a segment gives the segment back.
pub proof fn lemma_cell_round_trip(c: SnakeCellDetails)
    ensures
        enc_cell(c).len() == 33,
        dec_cell(enc_cell(c)) == Some(c),
{
    lemma_int_round_trip();
    lemma_position_round_trip(c.transform);
    let b = enc_cell(c);
    assert(b.subrange(0, 4) =~= enc_u32(c.cell_tag));
    assert(b.subrange(4, 28) =~= enc_position(c.transform));
    assert(b.subrange(28, 32) =~= enc_u32(c.move_id));
    assert(b[32] == direction_byte(c.direction));
}

fn write_u32(out: &mut Vec<u8>, x: u32)
    ensures
        final(out)@ == old(out)@ + enc_u32(x),
{
    let mut bytes = u32_to_le_bytes(x);
    out.append(&mut bytes);
}

fn write_u64(out: &mut Vec<u8>, x: u64)
    ensures
        final(out)@ == old(out)@ + enc_u64(x),
{
    let mut bytes = u64_to_le_bytes(x);
    out.append(&mut bytes);
}

fn write_coord(out: &mut Vec<u8>, x: Coord)
    ensures
        final(out)@ == old(out)@ + enc_coord(x),
{
    let mut bytes = u64_to_le_bytes(#[verifier::truncate] (x as u64));
    out.append(&mut bytes);
}

fn write_direction(out: &mut Vec<u8>, d: Direction)
    ensures
        final(out)@ == old(out)@ + seq![direction_byte(d)],
{
    let b: u8 = match d {
        Direction::Up => 0,
        Direction::Down => 1,
        Direction::Left => 2,
        Direction::Right => 3,
    };
    out.push(b);
    assert(out@ =~= old(out)@ + seq![direction_byte(d)]);
}

fn write_position(out: &mut Vec<u8>, p: Position)
    ensures
        final(out)@ == old(out)@ + enc_position(p),
{
    write_coord(out, p.x);
    write_coord(out, p.y);
    write_coord(out, p.z);
    assert(out@ =~= old(out)@ + enc_position(p));
}

fn write_move(out: &mut Vec<u8>, m: Move)
    ensures
        final(out)@ == old(out)@ + enc_move(m),
{
    write_u32(out, m.id);
    write_position(out, m.position);
    write_direction(out, m.direction);
    assert(out@ =~= old(out)@ + enc_move(m));
}

fn write_cell(out: &mut Vec<u8>, c: SnakeCellDetails)
    ensures
        final(out)@ == old(out)@ + enc_cell(c),
{
    write_u32(out, c.cell_tag);
    write_position(out, c.transform);
    write_u32(out, c.move_id);
    write_direction(out, c.direction);
    assert(out@ =~= old(out)@ + enc_cell(c));
}

fn read_u32(b: &[u8], at: usize) -> (r: u32)
    requires
        at + 4 <= b@.len() <= usize::MAX,
    ensures
        r == dec_u32(b@.subrange(at as int, at + 4)),
{
    u32_from_le_bytes(slice_subrange(b, at, at + 4))
}

fn read_u64(b: &[u8], at: usize) -> (r: u64)
    requires
        at + 8 <= b@.len() <= usize::MAX,
    ensures
        r == dec_u64(b@.subrange(at as int, at + 8)),
{
    u64_from_le_bytes(slice_subrange(b, at, at + 8))
}

fn read_coord(b: &[u8], at: usize) -> (r: Coord)
    requires
        at + 8 <= b@.len() <= usize::MAX,
    ensures
        r == dec_coord(b@.subrange(at as int, at + 8)),
{
    #[verifier::truncate] (u64_from_le_bytes(slice_subrange(b, at, at + 8)) as i64)
}

fn read_direction(b: &[u8], at: usize) -> (r: Option<Direction>)
    requires
        at < b@.len() <= usize::MAX,
    ensures
        r == dec_direction(b@[at as int]),
{
    let byte = b[at];
    if byte == 0 {
        Some(Direction::Up)
    } else if byte == 1 {
        Some(Direction::Down)
    } else if byte == 2 {
        Some(Direction::Left)
    } else if byte == 3 {
        Some(Direction::Right)
    } else {
        None
    }
}

fn read_position(b: &[u8], at: usize) -> (r: Position)
    requires
        at + 24 <= b@.len() <= usize::MAX,
    ensures
        r == dec_position(b@.subrange(at as int, at + 24)),
{
    let ghost chunk = b@.subrange(at as int, at + 24);
    assert(chunk.subrange(0, 8) =~= b@.subrange(at as int, at + 8));
    assert(chunk.subrange(8, 16) =~= b@.subrange(at + 8, at + 16));
    assert(chunk.subrange(16, 24) =~= b@.subrange(at + 16, at + 24));
    Position { x: read_coord(b, at), y: read_coord(b, at + 8), z: read_coord(b, at + 16) }
}

fn read_move(b: &[u8], at: usize) -> (r: Option<Move>)
    requires
        at + 29 <= b@.len() <= usize::MAX,
    ensures
        r == dec_move(b@.subrange(at as int, at + 29)),
{
    let ghost chunk = b@.subrange(at as int, at + 29);
    assert(chunk.subrange(0, 4) =~= b@.subrange(at as int, at + 4));
    assert(chunk.subrange(4, 28) =~= b@.subrange(at + 4, at + 28));
    match read_direction(b, at + 28) {
        Some(d) => Some(
            Move { id: read_u32(b, at), position: read_position(b, at + 4), direction: d },
        ),
        None => None,
    }
}

fn read_cell(b: &[u8], at: usize) -> (r: Option<SnakeCellDetails>)
    requires
        at + 33 <= b@.len() <= usize::MAX,
    ensures
        r == dec_cell(b@.subrange(at as int, at + 33)),
{
    let ghost chunk = b@.subrange(at as int, at + 33);
    assert(chunk.subrange(0, 4) =~= b@.subrange(at as int, at + 4));
    assert(chunk.subrange(4, 28) =~= b@.subrange(at + 4, at + 28));
    assert(chunk.subrange(28, 32) =~= b@.subrange(at + 28, at + 32));
    match read_direction(b, at + 32) {
        Some(d) => Some(
            SnakeCellDetails {
                cell_tag: read_u32(b, at),
                transform: read_position(b, at + 4),
                move_id: read_u32(b, at + 28),
                direction: d,
            },
        ),
        None => None,
    }
}

/// The bytes of a list of turns, one after the other.
pub open spec fn enc_moves(ms: Seq<Move>) -> Seq<u8>
    decreases ms.len(),
{
    if ms.len() == 0 {
        Seq::empty()
    } else {
        enc_moves(ms.drop_last()) + enc_move(ms.last())
    }
}

/// The bytes of a list of segments, one after the other.
pub open spec fn enc_cells(cs: Seq<SnakeCellDetails>) -> Seq<u8>
    decreases cs.len(),
{
    if cs.len() == 0 {
        Seq::empty()
    } else {
        enc_cells(cs.drop_last()) + enc_cell(cs.last())
    }
}

/// The bytes of a snapshot: position, number of turns, turns, number of
/// segments, segments.
pub open spec fn enc_details(d: SnakeDetailsView) -> Seq<u8> {
    enc_position(d.transform) + enc_u64(d.moves.len() as u64) + enc_moves(d.moves) + enc_u64(
        d.cells.len() as u64,
    ) + enc_cells(d.cells)
}

/// The bytes of a message.
pub open spec fn encoded(m: TransportMessageView) -> Seq<u8> {
    match m {
        TransportMessageView::Noop => seq![0u8],
        TransportMessageView::SnakeUpdate(t, d) => seq![1u8] + enc_u32(t) + enc_details(d),
        TransportMessageView::AddMove(t, mv) => seq![2u8] + enc_u32(t) + enc_move(mv),
        TransportMessageView::StartGame(t) => seq![3u8] + enc_u32(t),
        TransportMessageView::SpawnFood(id, x, y) => seq![4u8] + enc_u32(id) + enc_coord(x)
            + enc_coord(y),
        TransportMessageView::KillSnake => seq![5u8],
        TransportMessageView::DespawnFood(id) => seq![6u8] + enc_u32(id),
        TransportMessageView::Ping(t) => seq![7u8] + enc_u32(t),
        TransportMessageView::Pong(t) => seq![8u8] + enc_u32(t),
    }
}

/// What the `i`-th 29 bytes of `b` from offset `at` on decode to.
pub open spec fn move_at(b: Seq<u8>, at: int, i: int) -> Option<Move> {
    dec_move(b.subrange(at + 29 * i, at + 29 * i + 29))
}

/// What the `i`-th 33 bytes of `b` from offset `at` on decode to.
pub open spec fn cell_at(b: Seq<u8>, at: int, i: int) -> Option<SnakeCellDetails> {
    dec_cell(b.subrange(at + 33 * i, at + 33 * i + 33))
}

/// The `n` turns that `b` holds from offset `at` on, if each of them
/// decodes.
pub open spec fn dec_moves(b: Seq<u8>, at: int, n: int) -> Option<Seq<Move>> {
    if forall|i: int| 0 <= i < n ==> (#[trigger] move_at(b, at, i)) is Some {
        Some(Seq::new(n as nat, |i: int| move_at(b, at, i).unwrap()))
    } else {
        None
    }
}

/// The `n` segments that `b` holds from offset `at` on, if each of them
/// decodes.
pub open spec fn dec_cells(b: Seq<u8>, at: int, n: int) -> Option<Seq<SnakeCellDetails>> {
    if forall|i: int| 0 <= i < n ==> (#[trigger] cell_at(b, at, i)) is Some {
        Some(Seq::new(n as nat, |i: int| cell_at(b, at, i).unwrap()))
    } else {
        None
    }
}

/// The snapshot that fills `b` from offset `at` to its end, if there is
/// one: the lists must decode and end where `b` ends.
pub open spec fn dec_details(b: Seq<u8>, at: int) -> Option<SnakeDetailsView> {
    if b.len() < at + 32 {
        None
    } else {
        let turns = dec_u64(b.subrange(at + 24, at + 32)) as int;
        let mid = at + 32 + 29 * turns;
        if b.len() < mid + 8 {
            None
        } else {
            let segments = dec_u64(b.subrange(mid, mid + 8)) as int;
            if b.len() != mid + 8 + 33 * segments {
                None
            } else {
                match (dec_moves(b, at + 32, turns), dec_cells(b, mid + 8, segments)) {
                    (Some(moves), Some(cells)) => Some(
                        SnakeDetailsView {
                            transform: dec_position(b.subrange(at, at + 24)),
                            moves,
                            cells,
                        },
                    ),
                    _ => None,
                }
            }
        }
    }
}

/// The message that `b` stands for, if any. Bytes that no message encodes
/// to stand for none.
pub open spec fn decoded(b: Seq<u8>) -> Option<TransportMessageView> {
    if b.len() == 0 {
        None
    } else if b[0] == 0 && b.len() == 1 {
        Some(TransportMessageView::Noop)
    } else if b[0] == 1 && b.len() >= 5 {
        match dec_details(b, 5) {
            Some(d) => Some(TransportMessageView::SnakeUpdate(dec_u32(b.subrange(1, 5)), d)),
            None => None,
        }
    } else if b[0] == 2 && b.len() == 34 {
        match dec_move(b.subrange(5, 34)) {
            Some(m) => Some(TransportMessageView::AddMove(dec_u32(b.subrange(1, 5)), m)),
            None => None,
        }
    } else if b[0] == 3 && b.len() == 5 {
        Some(TransportMessageView::StartGame(dec_u32(b.subrange(1, 5))))
    } else if b[0] == 4 && b.len() == 21 {
        Some(
            TransportMessageView::SpawnFood(
                dec_u32(b.subrange(1, 5)),
                dec_coord(b.subrange(5, 13)),
                dec_coord(b.subrange(13, 21)),
            ),
        )
    } else if b[0] == 5 && b.len() == 1 {
        Some(TransportMessageView::KillSnake)
    } else if b[0] == 6 && b.len() == 5 {
        Some(TransportMessageView::DespawnFood(dec_u32(b.subrange(1, 5))))
    } else if b[0] == 7 && b.len() == 5 {
        Some(TransportMessageView::Ping(dec_u32(b.subrange(1, 5))))
    } else if b[0] == 8 && b.len() == 5 {
        Some(TransportMessageView::Pong(dec_u32(b.subrange(1, 5))))
    } else {
        None
    }
}

/// Where each turn lies in the bytes of a list of turns.
pub proof fn lemma_moves_layout(ms: Seq<Move>)
    ensures
        enc_moves(ms).len() == 29 * ms.len(),
        forall|i: int|
            0 <= i < ms.len() ==> enc_moves(ms).subrange(29 * i, 29 * i + 29) == enc_move(
                #[trigger] ms[i],
            ),
    decreases ms.len(),
{
    if ms.len() > 0 {
        let init = ms.drop_last();
        lemma_moves_layout(init);
        lemma_move_round_trip(ms.last());
        assert forall|i: int| 0 <= i < ms.len() implies enc_moves(ms).subrange(
            29 * i,
            29 * i + 29,
        ) == enc_move(#[trigger] ms[i]) by {
            if i < ms.len() - 1 {
                assert(init[i] == ms[i]);
                assert(enc_moves(ms).subrange(29 * i, 29 * i + 29) =~= enc_moves(init).subrange(
                    29 * i,
                    29 * i + 29,
                ));
            } else {
                assert(enc_moves(ms).subrange(29 * i, 29 * i + 29) =~= enc_move(ms.last()));
            }
        }
    }
}

/// Where each segment lies in the bytes of a list of segments.
pub proof fn lemma_cells_layout(cs: Seq<SnakeCellDetails>)
    ensures
        enc_cells(cs).len() == 33 * cs.len(),
        forall|i: int|
            0 <= i < cs.len() ==> enc_cells(cs).subrange(33 * i, 33 * i + 33) == enc_cell(
                #[trigger] cs[i],
            ),
    decreases cs.len(),
{
    if cs.len() > 0 {
        let init = cs.drop_last();
        lemma_cells_layout(init);
        lemma_cell_round_trip(cs.last());
        assert forall|i: int| 0 <= i < cs.len() implies enc_cells(cs).subrange(
            33 * i,
            33 * i + 33,
        ) == enc_cell(#[trigger] cs[i]) by {
            if i < cs.len() - 1 {
                assert(init[i] == cs[i]);
                assert(enc_cells(cs).subrange(33 * i, 33 * i + 33) =~= enc_cells(init).subrange(
                    33 * i,
                    33 * i + 33,
                ));
            } else {
                assert(enc_cells(cs).subrange(33 * i, 33 * i + 33) =~= enc_cell(cs.last()));
            }
        }
    }
}

/// Decoding the bytes of a list of turns, wherever they lie in a
/// sequence of bytes, gives the list back.
pub proof fn lemma_moves_round_trip(b: Seq<u8>, at: int, ms: Seq<Move>)
    requires
        0 <= at,
        at + 29 * ms.len() <= b.len(),
        b.subrange(at, at + 29 * ms.len()) == enc_moves(ms),
    ensures
        dec_moves(b, at, ms.len() as int) == Some(ms),
{
    lemma_moves_layout(ms);
    assert forall|i: int| 0 <= i < ms.len() implies #[trigger] move_at(b, at, i) == Some(
        ms[i],
    ) by {
        assert(b.subrange(at + 29 * i, at + 29 * i + 29) =~= b.subrange(
            at,
            at + 29 * ms.len(),
        ).subrange(29 * i, 29 * i + 29));
        lemma_move_round_trip(ms[i]);
    }
    assert(dec_moves(b, at, ms.len() as int).unwrap() =~= ms);
}

/// Decoding the bytes of a list of segments, wherever they lie in a
/// sequence of bytes, gives the list back.
pub proof fn lemma_cells_round_trip(b: Seq<u8>, at: int, cs: Seq<SnakeCellDetails>)
    requires
        0 <= at,
        at + 33 * cs.len() <= b.len(),
        b.subrange(at, at + 33 * cs.len()) == enc_cells(cs),
    ensures
        dec_cells(b, at, cs.len() as int) == Some(cs),
{
    lemma_cells_layout(cs);
    assert forall|i: int| 0 <= i < cs.len() implies #[trigger] cell_at(b, at, i) == Some(
        cs[i],
    ) by {
        assert(b.subrange(at + 33 * i, at + 33 * i + 33) =~= b.subrange(
            at,
            at + 33 * cs.len(),
        ).subrange(33 * i, 33 * i + 33));
        lemma_cell_round_trip(cs[i]);
    }
    assert(dec_cells(b, at, cs.len() as int).unwrap() =~= cs);
}

/// Decoding the eight bytes of a length gives the length back.
proof fn lemma_length_round_trip(n: nat)
    requires
        n <= u64::MAX,
    ensures
        enc_u64(n as u64).len() == 8,
        dec_u64(enc_u64(n as u64)) == n,
{
    lemma_int_round_trip();
}

/// Decoding the bytes of a snapshot, wherever they end a sequence of
/// bytes, gives the snapshot back.
pub proof fn lemma_details_round_trip(pre: Seq<u8>, d: SnakeDetailsView)
    requires
        d.moves.len() <= u64::MAX,
        d.cells.len() <= u64::MAX,
    ensures
        dec_details(pre + enc_details(d), pre.len() as int) == Some(d),
{
    lemma_position_round_trip(d.transform);
    lemma_length_round_trip(d.moves.len());
    lemma_length_round_trip(d.cells.len());
    lemma_moves_layout(d.moves);
    lemma_cells_layout(d.cells);
    let b = pre + enc_details(d);
    let at = pre.len() as int;
    let turns = d.moves.len() as int;
    let segments = d.cells.len() as int;
    let mid = at + 32 + 29 * turns;
    assert(b.len() == mid + 8 + 33 * segments);
    assert(b.subrange(at, at + 24) =~= enc_position(d.transform));
    assert(b.subrange(at + 24, at + 32) =~= enc_u64(d.moves.len() as u64));
    assert(b.subrange(mid, mid + 8) =~= enc_u64(d.cells.len() as u64));
    assert(b.subrange(at + 32, at + 32 + 29 * turns) =~= enc_moves(d.moves));
    assert(b.subrange(mid + 8, mid + 8 + 33 * segments) =~= enc_cells(d.cells));
    lemma_moves_round_trip(b, at + 32, d.moves);
    lemma_cells_round_trip(b, mid + 8, d.cells);
}

/// Decoding the bytes of a message gives the message back: peers that
/// encode and decode by these rules agree on what was said.
pub proof fn lemma_round_trip(m: TransportMessageView)
    requires
        m matches TransportMessageView::SnakeUpdate(_, d) ==> d.moves.len() <= u64::MAX
            && d.cells.len() <= u64::MAX,
    ensures
        decoded(encoded(m)) == Some(m),
{
    lemma_int_round_trip();
    let b = encoded(m);
    match m {
        TransportMessageView::Noop => {},
        TransportMessageView::SnakeUpdate(t, d) => {
            lemma_details_round_trip(seq![1u8] + enc_u32(t), d);
            assert(b =~= (seq![1u8] + enc_u32(t)) + enc_details(d));
            assert(b.subrange(1, 5) =~= enc_u32(t));
        },
        TransportMessageView::AddMove(t, mv) => {
            lemma_move_round_trip(mv);
            assert(b.subrange(1, 5) =~= enc_u32(t));
            assert(b.subrange(5, 34) =~= enc_move(mv));
        },
        TransportMessageView::StartGame(t) => {
            assert(b.subrange(1, 5) =~= enc_u32(t));
        },
        TransportMessageView::SpawnFood(id, x, y) => {
            assert(b.subrange(1, 5) =~= enc_u32(id));
            assert(b.subrange(5, 13) =~= enc_coord(x));
            assert(b.subrange(13, 21) =~= enc_coord(y));
        },
        TransportMessageView::KillSnake => {},
        TransportMessageView::DespawnFood(id) => {
            assert(b.subrange(1, 5) =~= enc_u32(id));
        },
        TransportMessageView::Ping(t) => {
            assert(b.subrange(1, 5) =~= enc_u32(t));
        },
        TransportMessageView::Pong(t) => {
            assert(b.subrange(1, 5) =~= enc_u32(t));
        },
    }
}

/// Bytes of the right width are the bytes of the number, the coordinate
/// or the position that they stand for.
pub proof fn lemma_fixed_width_bytes(b: Seq<u8>)
    ensures
        b.len() == 4 ==> enc_u32(dec_u32(b)) == b,
        b.len() == 8 ==> enc_u64(dec_u64(b)) == b,
        b.len() == 8 ==> enc_coord(dec_coord(b)) == b,
        b.len() == 24 ==> enc_position(dec_position(b)) == b,
{
    lemma_auto_spec_u32_to_from_le_bytes();
    lemma_auto_spec_u64_to_from_le_bytes();
    if b.len() == 8 {
        let u = spec_u64_from_le_bytes(b);
        assert((u as i64) as u64 == u) by (bit_vector);
    }
    if b.len() == 24 {
        let x = b.subrange(0, 8);
        let y = b.subrange(8, 16);
        let z = b.subrange(16, 24);
        let ux = spec_u64_from_le_bytes(x);
        let uy = spec_u64_from_le_bytes(y);
        let uz = spec_u64_from_le_bytes(z);
        assert((ux as i64) as u64 == ux) by (bit_vector);
        assert((uy as i64) as u64 == uy) by (bit_vector);
        assert((uz as i64) as u64 == uz) by (bit_vector);
        assert(enc_position(dec_position(b)) =~= x + y + z);
        assert(x + y + z =~= b);
    }
}

/// Bytes that decode to a direction are the byte of that direction.
pub proof fn lemma_direction_byte(b: u8)
    ensures
        dec_direction(b) matches Some(d) ==> direction_byte(d) == b,
{
}

/// 29 bytes that decode to a turn are the bytes of that turn.
pub proof fn lemma_move_bytes(b: Seq<u8>)
    requires
        b.len() == 29,
        dec_move(b) is Some,
    ensures
        enc_move(dec_move(b).unwrap()) == b,
{
    lemma_fixed_width_bytes(b.subrange(0, 4));
    lemma_fixed_width_bytes(b.subrange(4, 28));
    lemma_direction_byte(b[28]);
    assert(enc_move(dec_move(b).unwrap()) =~= b.subrange(0, 4) + b.subrange(4, 28) + seq![b[28]]);
    assert(b.subrange(0, 4) + b.subrange(4, 28) + seq![b[28]] =~= b);
}

/// 33 bytes that decode to a segment are the bytes of that segment.
pub proof fn lemma_cell_bytes(b: Seq<u8>)
    requires
        b.len() == 33,
        dec_cell(b) is Some,
    ensures
        enc_cell(dec_cell(b).unwrap()) == b,
{
    lemma_fixed_width_bytes(b.subrange(0, 4));
    lemma_fixed_width_bytes(b.subrange(4, 28));
    lemma_fixed_width_bytes(b.subrange(28, 32));
    lemma_direction_byte(b[32]);
    assert(enc_cell(dec_cell(b).unwrap()) =~= b.subrange(0, 4) + b.subrange(4, 28) + b.subrange(
        28,
        32,
    ) + seq![b[32]]);
    assert(b.subrange(0, 4) + b.subrange(4, 28) + b.subrange(28, 32) + seq![b[32]] =~= b);
}

/// Bytes that decode to a list of turns are the bytes of that list.
pub proof fn lemma_moves_bytes(b: Seq<u8>, at: int, n: int)
    requires
        0 <= at,
        0 <= n,
        at + 29 * n <= b.len(),
        dec_moves(b, at, n) is Some,
    ensures
        enc_moves(dec_moves(b, at, n).unwrap()) == b.subrange(at, at + 29 * n),
    decreases n,
{
    let ms = dec_moves(b, at, n).unwrap();
    if n == 0 {
        assert(b.subrange(at, at + 29 * n) =~= Seq::<u8>::empty());
    } else {
        assert forall|i: int| 0 <= i < n - 1 implies (#[trigger] move_at(b, at, i)) is Some by {
            assert(move_at(b, at, i) is Some);
        }
        lemma_moves_bytes(b, at, n - 1);
        assert(ms.drop_last() =~= dec_moves(b, at, n - 1).unwrap());
        assert(move_at(b, at, n - 1) is Some);
        lemma_move_bytes(b.subrange(at + 29 * (n - 1), at + 29 * (n - 1) + 29));
        assert(b.subrange(at, at + 29 * (n - 1)) + b.subrange(
            at + 29 * (n - 1),
            at + 29 * (n - 1) + 29,
        ) =~= b.subrange(at, at + 29 * n));
    }
}

/// Bytes that decode to a list of segments are the bytes of that list.
pub proof fn lemma_cells_bytes(b: Seq<u8>, at: int, n: int)
    requires
        0 <= at,
        0 <= n,
        at + 33 * n <= b.len(),
        dec_cells(b, at, n) is Some,
    ensures
        enc_cells(dec_cells(b, at, n).unwrap()) == b.subrange(at, at + 33 * n),
    decreases n,
{
    let cs = dec_cells(b, at, n).unwrap();
    if n == 0 {
        assert(b.subrange(at, at + 33 * n) =~= Seq::<u8>::empty());
    } else {
        assert forall|i: int| 0 <= i < n - 1 implies (#[trigger] cell_at(b, at, i)) is Some by {
            assert(cell_at(b, at, i) is Some);
        }
        lemma_cells_bytes(b, at, n - 1);
        assert(cs.drop_last() =~= dec_cells(b, at, n - 1).unwrap());
        assert(cell_at(b, at, n - 1) is Some);
        lemma_cell_bytes(b.subrange(at + 33 * (n - 1), at + 33 * (n - 1) + 33));
        assert(b.subrange(at, at + 33 * (n - 1)) + b.subrange(
            at + 33 * (n - 1),
            at + 33 * (n - 1) + 33,
        ) =~= b.subrange(at, at + 33 * n));
    }
}

/// Bytes that decode to a snapshot are the bytes of that snapshot.
pub proof fn lemma_details_bytes(b: Seq<u8>, at: int)
    requires
        0 <= at <= b.len(),
        dec_details(b, at) is Some,
    ensures
        enc_details(dec_details(b, at).unwrap()) == b.subrange(at, b.len() as int),
{
    let d = dec_details(b, at).unwrap();
    let turns = dec_u64(b.subrange(at + 24, at + 32)) as int;
    let mid = at + 32 + 29 * turns;
    let segments = dec_u64(b.subrange(mid, mid + 8)) as int;
    lemma_fixed_width_bytes(b.subrange(at, at + 24));
    lemma_fixed_width_bytes(b.subrange(at + 24, at + 32));
    lemma_fixed_width_bytes(b.subrange(mid, mid + 8));
    lemma_moves_bytes(b, at + 32, turns);
    lemma_cells_bytes(b, mid + 8, segments);
    assert(d.moves.len() == turns);
    assert(d.cells.len() == segments);
    assert(enc_details(d) =~= b.subrange(at, at + 24) + b.subrange(at + 24, at + 32) + b.subrange(
        at + 32,
        mid,
    ) + b.subrange(mid, mid + 8) + b.subrange(mid + 8, mid + 8 + 33 * segments));
    assert(b.subrange(at, at + 24) + b.subrange(at + 24, at + 32) + b.subrange(at + 32, mid)
        + b.subrange(mid, mid + 8) + b.subrange(mid + 8, mid + 8 + 33 * segments) =~= b.subrange(
        at,
        b.len() as int,
    ));
}

/// A payload decodes to a message only if it is, byte for byte, what that
/// message encodes to: no two payloads stand for the same message.
pub proof fn lemma_decoded_is_encoded(b: Seq<u8>)
    requires
        decoded(b) is Some,
    ensures
        encoded(decoded(b).unwrap()) == b,
{
    let m = decoded(b).unwrap();
    if b[0] == 1 {
        lemma_details_bytes(b, 5);
        lemma_fixed_width_bytes(b.subrange(1, 5));
        assert(encoded(m) =~= seq![1u8] + b.subrange(1, 5) + b.subrange(5, b.len() as int));
        assert(seq![1u8] + b.subrange(1, 5) + b.subrange(5, b.len() as int) =~= b);
    } else if b[0] == 2 {
        lemma_fixed_width_bytes(b.subrange(1, 5));
        lemma_move_bytes(b.subrange(5, 34));
        assert(encoded(m) =~= seq![2u8] + b.subrange(1, 5) + b.subrange(5, 34));
        assert(seq![2u8] + b.subrange(1, 5) + b.subrange(5, 34) =~= b);
    } else if b[0] == 4 {
        lemma_fixed_width_bytes(b.subrange(1, 5));
        lemma_fixed_width_bytes(b.subrange(5, 13));
        lemma_fixed_width_bytes(b.subrange(13, 21));
        assert(encoded(m) =~= seq![4u8] + b.subrange(1, 5) + b.subrange(5, 13) + b.subrange(
            13,
            21,
        ));
        assert(seq![4u8] + b.subrange(1, 5) + b.subrange(5, 13) + b.subrange(13, 21) =~= b);
    } else if b.len() == 5 {
        lemma_fixed_width_bytes(b.subrange(1, 5));
        assert(encoded(m) =~= seq![b[0]] + b.subrange(1, 5));
        assert(seq![b[0]] + b.subrange(1, 5) =~= b);
    } else {
        assert(encoded(m) =~= b);
    }
}

fn write_moves(out: &mut Vec<u8>, ms: &Vec<Move>)
    ensures
        final(out)@ == old(out)@ + enc_moves(ms@),
{
    let n = ms.len();
    let mut i: usize = 0;
    assert(ms@.take(0) =~= Seq::<Move>::empty());
    assert(out@ =~= old(out)@ + enc_moves(ms@.take(0)));
    while i < n
        invariant
            0 <= i <= n,
            n == ms@.len(),
            out@ == old(out)@ + enc_moves(ms@.take(i as int)),
        decreases n - i,
    {
        let ghost before = out@;
        write_move(out, ms[i]);
        proof {
            let next = ms@.take(i + 1);
            assert(next.drop_last() =~= ms@.take(i as int));
            assert(next.last() == ms@[i as int]);
            assert(out@ =~= old(out)@ + enc_moves(next));
        }
        i += 1;
    }
    assert(ms@.take(n as int) =~= ms@);
}

fn write_cells(out: &mut Vec<u8>, cs: &Vec<SnakeCellDetails>)
    ensures
        final(out)@ == old(out)@ + enc_cells(cs@),
{
    let n = cs.len();
    let mut i: usize = 0;
    assert(cs@.take(0) =~= Seq::<SnakeCellDetails>::empty());
    assert(out@ =~= old(out)@ + enc_cells(cs@.take(0)));
    while i < n
        invariant
            0 <= i <= n,
            n == cs@.len(),
            out@ == old(out)@ + enc_cells(cs@.take(i as int)),
        decreases n - i,
    {
        write_cell(out, cs[i]);
        proof {
            let next = cs@.take(i + 1);
            assert(next.drop_last() =~= cs@.take(i as int));
            assert(next.last() == cs@[i as int]);
            assert(out@ =~= old(out)@ + enc_cells(next));
        }
        i += 1;
    }
    assert(cs@.take(n as int) =~= cs@);
}

fn write_details(out: &mut Vec<u8>, d: &SnakeDetails)
    ensures
        final(out)@ == old(out)@ + enc_details(d@),
{
    write_position(out, d.transform);
    write_u64(out, d.moves.moves.len() as u64);
    write_moves(out, &d.moves.moves);
    write_u64(out, d.cells.len() as u64);
    write_cells(out, &d.cells);
    assert(out@ =~= old(out)@ + enc_details(d@));
}

/// The bytes of a message. Decoding them gives the message back.
pub fn encode(m: &TransportMessage) -> (out: Vec<u8>)
    ensures
        out@ == encoded(m@),
        decoded(out@) == Some(m@),
{
    proof {
        if let TransportMessage::SnakeUpdate(_, d) = m {
            assert(d.moves.moves.len() <= usize::MAX && d.cells.len() <= usize::MAX);
        }
        lemma_round_trip(m@);
    }
    let mut out: Vec<u8> = Vec::new();
    match m {
        TransportMessage::Noop => {
            out.push(0);
        },
        TransportMessage::SnakeUpdate(t, d) => {
            out.push(1);
            write_u32(&mut out, *t);
            write_details(&mut out, d);
        },
        TransportMessage::AddMove(t, mv) => {
            out.push(2);
            write_u32(&mut out, *t);
            write_move(&mut out, *mv);
        },
        TransportMessage::StartGame(t) => {
            out.push(3);
            write_u32(&mut out, *t);
        },
        TransportMessage::SpawnFood(id, x, y) => {
            out.push(4);
            write_u32(&mut out, *id);
            write_coord(&mut out, *x);
            write_coord(&mut out, *y);
        },
        TransportMessage::KillSnake => {
            out.push(5);
        },
        TransportMessage::DespawnFood(id) => {
            out.push(6);
            write_u32(&mut out, *id);
        },
        TransportMessage::Ping(t) => {
            out.push(7);
            write_u32(&mut out, *t);
        },
        TransportMessage::Pong(t) => {
            out.push(8);
            write_u32(&mut out, *t);
        },
    }
    assert(out@ =~= encoded(m@));
    out
}

fn read_moves(b: &[u8], at: usize, n: usize) -> (r: Option<Vec<Move>>)
    requires
        at + 29 * n <= b@.len() <= usize::MAX,
    ensures
        match r {
            Some(v) => dec_moves(b@, at as int, n as int) == Some(v@),
            None => dec_moves(b@, at as int, n as int) is None,
        },
{
    let mut out: Vec<Move> = Vec::new();
    let mut i: usize = 0;
    while i < n
        invariant
            0 <= i <= n,
            at + 29 * n <= b@.len() <= usize::MAX,
            out@.len() == i,
            forall|j: int| 0 <= j < i ==> #[trigger] move_at(b@, at as int, j) == Some(out@[j]),
        decreases n - i,
    {
        match read_move(b, at + 29 * i) {
            Some(m) => {
                out.push(m);
            },
            None => {
                assert(move_at(b@, at as int, i as int) is None);
                return None;
            },
        }
        i += 1;
    }
    assert(dec_moves(b@, at as int, n as int).unwrap() =~= out@);
    Some(out)
}

fn read_cells(b: &[u8], at: usize, n: usize) -> (r: Option<Vec<SnakeCellDetails>>)
    requires
        at + 33 * n <= b@.len() <= usize::MAX,
    ensures
        match r {
            Some(v) => dec_cells(b@, at as int, n as int) == Some(v@),
            None => dec_cells(b@, at as int, n as int) is None,
        },
{
    let mut out: Vec<SnakeCellDetails> = Vec::new();
    let mut i: usize = 0;
    while i < n
        invariant
            0 <= i <= n,
            at + 33 * n <= b@.len() <= usize::MAX,
            out@.len() == i,
            forall|j: int| 0 <= j < i ==> #[trigger] cell_at(b@, at as int, j) == Some(out@[j]),
        decreases n - i,
    {
        match read_cell(b, at + 33 * i) {
            Some(c) => {
                out.push(c);
            },
            None => {
                assert(cell_at(b@, at as int, i as int) is None);
                return None;
            },
        }
        i += 1;
    }
    assert(dec_cells(b@, at as int, n as int).unwrap() =~= out@);
    Some(out)
}

fn read_details(b: &[u8], at: usize) -> (r: Option<SnakeDetails>)
    requires
        at <= b@.len() <= usize::MAX,
    ensures
        match r {
            Some(d) => dec_details(b@, at as int) == Some(d@),
            None => dec_details(b@, at as int) is None,
        },
{
    let n = b.len();
    if n - at < 32 {
        return None;
    }
    let turns = read_u64(b, at + 24);
    let rest = n - (at + 32);
    if turns > (rest / 29) as u64 {
        return None;
    }
    let turns = turns as usize;
    let mid = at + 32 + 29 * turns;
    if n - mid < 8 {
        return None;
    }
    let segments = read_u64(b, mid);
    let rest = n - (mid + 8);
    if segments > (rest / 33) as u64 {
        return None;
    }
    let segments = segments as usize;
    if 33 * segments != rest {
        return None;
    }
    let moves = match read_moves(b, at + 32, turns) {
        Some(v) => v,
        None => {
            return None;
        },
    };
    let cells = match read_cells(b, mid + 8, segments) {
        Some(v) => v,
        None => {
            return None;
        },
    };
    Some(SnakeDetails { transform: read_position(b, at), moves: Moves { moves }, cells })
}

/// The message that `b` stands for, or `None` where it stands for none.
/// It stands for a message exactly where it is what the message encodes
/// to.
pub fn decode(b: &[u8]) -> (r: Option<TransportMessage>)
    ensures
        match r {
            Some(m) => decoded(b@) == Some(m@) && encoded(m@) == b@,
            None => decoded(b@) is None,
        },
{
    proof {
        if decoded(b@) is Some {
            lemma_decoded_is_encoded(b@);
        }
    }
    let n = b.len();
    if n == 0 {
        return None;
    }
    let tag = b[0];
    if tag == 0 && n == 1 {
        Some(TransportMessage::Noop)
    } else if tag == 1 && n >= 5 {
        match read_details(b, 5) {
            Some(d) => Some(TransportMessage::SnakeUpdate(read_u32(b, 1), d)),
            None => None,
        }
    } else if tag == 2 && n == 34 {
        match read_move(b, 5) {
            Some(m) => Some(TransportMessage::AddMove(read_u32(b, 1), m)),
            None => None,
        }
    } else if tag == 3 && n == 5 {
        Some(TransportMessage::StartGame(read_u32(b, 1)))
    } else if tag == 4 && n == 21 {
        Some(TransportMessage::SpawnFood(read_u32(b, 1), read_coord(b, 5), read_coord(b, 13)))
    } else if tag == 5 && n == 1 {
        Some(TransportMessage::KillSnake)
    } else if tag == 6 && n == 5 {
        Some(TransportMessage::DespawnFood(read_u32(b, 1)))
    } else if tag == 7 && n == 5 {
        Some(TransportMessage::Ping(read_u32(b, 1)))
    } else if tag == 8 && n == 5 {
        Some(TransportMessage::Pong(read_u32(b, 1)))
    } else {
        None
    }
}

} // verus!
