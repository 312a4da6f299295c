//! Scores.

use crate::config::INITIAL_CELLS;
use crate::game::{
    player_index, player_keys, snake_views, ConnectionState, ConnectionView, Game, GameView,
};
use crate::lookup::lemma_index_from;
use crate::networking::PlayerProp;
use crate::snek::{SnakeTag, SnakeView};
use vstd::prelude::*;

verus! {

/// The score that a snake has earned: one for each segment beyond the
/// three it started with, as far as the score can count.
pub open spec fn score_of(s: SnakeView) -> u32 {
    if s.cells.len() - INITIAL_CELLS > u32::MAX {
        u32::MAX
    } else {
        (s.cells.len() - INITIAL_CELLS) as u32
    }
}

/// The id of the player whose snake carries `tag`, as far as it is known.
pub open spec fn owner(self_id: Option<u32>, tag: SnakeTag) -> Option<u32> {
    match tag {
        SnakeTag::SelfPlayerSnake => self_id,
        SnakeTag::OtherPlayerSnake(id) => Some(id),
    }
}

/// Whether the snake `s` counts for a player of the room `c`: it has not
/// fewer segments than a snake starts with, and its owner is on the roster.
pub open spec fn counts(c: ConnectionView, s: SnakeView) -> bool {
    &&& s.cells.len() >= INITIAL_CELLS
    &&& owner(c.self_id, s.tag) matches Some(id)
    &&& player_index(c.players, id) < c.players.len()
}

/// The player `p` with the score `score` entered: it becomes the current
/// score, and the highest one where it exceeds that.
pub open spec fn with_score(p: PlayerProp, score: u32) -> PlayerProp {
    PlayerProp {
        score,
        highest_score: if score > p.highest_score {
            score
        } else {
            p.highest_score
        },
        ..p
    }
}

/// The room after the score of the snake `s` has been entered.
pub open spec fn scored_one(c: ConnectionView, s: SnakeView) -> ConnectionView {
    if counts(c, s) {
        let pi = player_index(c.players, owner(c.self_id, s.tag).unwrap());
        ConnectionView { players: c.players.update(pi, with_score(c.players[pi], score_of(s))), ..c }
    } else {
        c
    }
}

/// The room after the scores of `snakes` have been entered, first to last.
pub open spec fn scored_all(c: ConnectionView, snakes: Seq<SnakeView>) -> ConnectionView
    decreases snakes.len(),
{
    if snakes.len() == 0 {
        c
    } else {
        scored_one(scored_all(c, snakes.drop_last()), snakes.last())
    }
}

impl GameView {
    /// The client after the scores of all snakes have been entered on the
    /// roster.
    pub open spec fn scored(self) -> GameView {
        match self.connection {
            Some(c) => GameView { connection: Some(scored_all(c, self.snakes)), ..self },
            None => self,
        }
    }
}

/// Entering a score never lowers the highest score of a player, and the
/// highest score of the player concerned is at least the score entered.
/// Nobody joins or leaves the roster.
pub proof fn lemma_highest_score_kept(c: ConnectionView, s: SnakeView, i: int)
    requires
        0 <= i < c.players.len(),
    ensures
        scored_one(c, s).players.len() == c.players.len(),
        scored_one(c, s).players[i].highest_score >= c.players[i].highest_score,
        scored_one(c, s).players[i].user_id == c.players[i].user_id,
        counts(c, s) && i == player_index(c.players, owner(c.self_id, s.tag).unwrap())
            ==> scored_one(c, s).players[i].score == score_of(s) && scored_one(
            c,
            s,
        ).players[i].highest_score >= score_of(s),
{
    if counts(c, s) {
        lemma_index_from(player_keys(c.players), owner(c.self_id, s.tag).unwrap() as int, 0);
    }
}

impl Game {
    /// Enters the score of every snake on the roster: the number of
    /// segments beyond those it started with.
    pub fn sync_scores(&mut self)
        ensures
            final(self)@ == old(self)@.scored(),
    {
        let n = self.snakes.len();
        match &mut self.connection {
            ConnectionState::NotConnected => {},
            ConnectionState::Connected(c) => {
                let ghost start = ConnectionView { self_id: c.self_id, players: c.players@ };
                let ghost views = snake_views(self.snakes@);
                let mut i: usize = 0;
                assert(views.take(0) =~= Seq::<SnakeView>::empty());
                while i < n
                    invariant
                        0 <= i <= n,
                        n == self.snakes@.len(),
                        views == snake_views(self.snakes@),
                        (ConnectionView { self_id: c.self_id, players: c.players@ }) == scored_all(
                            start,
                            views.take(i as int),
                        ),
                    decreases n - i,
                {
                    proof {
                        let next = views.take(i + 1);
                        assert(next.drop_last() =~= views.take(i as int));
                        assert(next.last() == self.snakes@[i as int]@);
                    }
                    let len = self.snakes[i].cells.len();
                    if len >= INITIAL_CELLS {
                        let id = match self.snakes[i].tag {
                            SnakeTag::SelfPlayerSnake => c.self_id,
                            SnakeTag::OtherPlayerSnake(id) => Some(id),
                        };
                        match id {
                            Some(id) => {
                                match c.find_player(id) {
                                    Some(pi) => {
                                        let extra = len - INITIAL_CELLS;
                                        let score: u32 = if extra > u32::MAX as usize {
                                            u32::MAX
                                        } else {
                                            extra as u32
                                        };
                                        let p = c.players[pi];
                                        c.players[pi] = PlayerProp {
                                            score,
                                            highest_score: if score > p.highest_score {
                                                score
                                            } else {
                                                p.highest_score
                                            },
                                            ..p
                                        };
                                    },
                                    None => {},
                                }
                            },
                            None => {},
                        }
                    }
                    i += 1;
                }
                assert(views.take(n as int) =~= views);
            },
        }
    }
}

} // verus!
