use vstd::prelude::*;

use crate::card::Card;
use crate::deck::shuffle_in_place;
use crate::error::Error;
use crate::hand::Call;
use crate::round::{break_rel, call_rel, is_fresh_round, next_rel, Round, RoundId};
use crate::trick::Turn;

verus! {

broadcast use vstd::seq_lib::group_to_multiset_ensures;

/// An opaque player identity: an identifier only, never a display name, used
/// solely to resolve which seat a caller occupies.
#[derive(Debug, Clone, Copy, PartialEq, Eq, Structural)]
pub struct PlayerInfo {
    pub id: u128,
}

impl PlayerInfo {
    pub fn new(id: u128) -> (p: PlayerInfo)
        ensures
            p.id == id,
    {
        PlayerInfo { id }
    }
}

/// The two externally visible phases the game derives on demand: gathering
/// players, then playing rounds.
#[derive(Debug, Clone, Copy, PartialEq, Eq, Structural)]
pub enum GameState {
    Join,
    Play,
}

/// `p` has joined the game.
pub open spec fn has_player(players: Seq<PlayerInfo>, p: PlayerInfo) -> bool {
    exists|i: int| 0 <= i < players.len() && players[i] == p
}

/// `i` is the seat `p` occupies: the first position holding `p`.
pub open spec fn is_seat(players: Seq<PlayerInfo>, p: PlayerInfo, i: int) -> bool {
    &&& 0 <= i < players.len()
    &&& players[i] == p
    &&& (forall|j: int| 0 <= j < i ==> players[j] != p)
}

/// How the round list changes under the game's bookkeeping query, given four
/// players and a game that is not over: a first round is opened when none
/// exists; a finished round is followed by a fresh one; otherwise the current
/// round advances by its own `next` query.
pub open spec fn rounds_opened(pre: Seq<Round>, mid: Seq<Round>) -> bool {
    if pre.len() == 0 {
        &&& mid.len() == 1
        &&& is_fresh_round(mid[0], 0)
    } else if pre.last().spec_over() {
        &&& mid.len() == pre.len() + 1
        &&& mid.subrange(0, pre.len() as int) =~= pre
        &&& is_fresh_round(mid.last(), pre.len() as int)
    } else {
        &&& mid.len() == pre.len()
        &&& mid.subrange(0, pre.len() - 1) =~= pre.subrange(0, pre.len() - 1)
        &&& (exists|t: Result<Turn, Error>| next_rel(pre.last(), mid.last(), t))
    }
}

/// Gathers exactly 4 players, then drives up to 5 rounds to completion. The
/// game is over once the 5th round is.
#[derive(Debug)]
pub struct Game {
    pub id: u128,
    pub rounds: Vec<Round>,
    pub players: Vec<PlayerInfo>,
}

impl Game {
    pub open spec fn wf(self) -> bool {
        &&& self.players@.len() <= 4
        &&& self.rounds@.len() <= 5
        &&& (forall|i: int| 0 <= i < self.rounds@.len() ==> (#[trigger] self.rounds@[i]).wf())
        &&& (forall|i: int| 0 <= i < self.rounds@.len() ==> (#[trigger] self.rounds@[i]).id.0 == i)
        &&& (forall|i: int|
            0 <= i < self.rounds@.len() - 1 ==> (#[trigger] self.rounds@[i]).spec_over())
        &&& (self.rounds@.len() > 0 ==> self.players@.len() == 4)
    }

    /// All 5 rounds have been played to completion.
    pub open spec fn spec_game_over(self) -> bool {
        self.rounds@.len() == 5 && self.rounds@[4].spec_over()
    }

    /// A game starts empty, with a fresh opaque identifier.
    pub fn new() -> (g: Game)
        ensures
            g.wf(),
            g.rounds@.len() == 0,
            g.players@.len() == 0,
    {
        Game { id: fresh_game_id(), rounds: Vec::new(), players: Vec::new() }
    }

    /// The game's bookkeeping: reports the current phase, opening the first
    /// round — or the round after a finished one, up to 5 in all — as a side
    /// effect.
    fn next(&mut self) -> (r: Result<GameState, Error>)
        requires
            old(self).wf(),
        ensures
            final(self).wf(),
            final(self).id == old(self).id,
            final(self).players == old(self).players,
            old(self).players@.len() != 4 ==> r == Ok::<GameState, Error>(GameState::Join)
                && *final(self) == *old(self),
            old(self).players@.len() == 4 && old(self).spec_game_over() ==> r == Err::<
                GameState,
                Error,
            >(Error::GameOver) && final(self).rounds@ =~= old(self).rounds@,
            old(self).players@.len() == 4 && !old(self).spec_game_over() ==> r == Ok::<
                GameState,
                Error,
            >(GameState::Play) && rounds_opened(old(self).rounds@, final(self).rounds@),
    {
        if self.players.len() != 4 {
            return Ok(GameState::Join);
        }

        if self.rounds.len() == 0 {
            let id = match RoundId::try_from(0) {
                Err(e) => {
                    proof {
                        assert(false);
                    }
                    return Err(e);
                },
                Ok(v) => v,
            };
            self.rounds.push(Round::new(id));
        }

        let rn = self.rounds.len() - 1;
        let stepped = self.rounds[rn].next();
        match stepped {
            Err(e) => {
                assert(e == Error::RoundOver);
                assert(old(self).rounds@.len() > 0 && old(self).rounds@.last().spec_over());
                if rn == 4 {
                    assert(self.rounds@ =~= old(self).rounds@);
                    return Err(Error::GameOver);
                }
                let id = match RoundId::try_from(rn + 1) {
                    Err(e2) => {
                        proof {
                            assert(false);
                        }
                        return Err(e2);
                    },
                    Ok(v) => v,
                };
                self.rounds.push(Round::new(id));
                assert(self.rounds@.subrange(0, old(self).rounds@.len() as int) =~= old(
                    self).rounds@);
                Ok(GameState::Play)
            },
            Ok(t) => {
                proof {
                    if old(self).rounds@.len() > 0 {
                        assert(next_rel(old(self).rounds@.last(), self.rounds@.last(), Ok(t)));
                        assert(self.rounds@.subrange(0, old(self).rounds@.len() - 1) =~= old(
                            self).rounds@.subrange(0, old(self).rounds@.len() - 1));
                    }
                }
                Ok(GameState::Play)
            },
        }
    }

    /// Joins a player, re-randomizing the seat order, so the final seat
    /// assignment is not predictable from join order. Valid only while fewer
    /// than 4 players have joined.
    pub fn add_player(&mut self, player: &PlayerInfo) -> (r: Result<(), Error>)
        requires
            old(self).wf(),
        ensures
            final(self).wf(),
            final(self).id == old(self).id,
            old(self).players@.len() < 4 ==> r == Ok::<(), Error>(()) && final(
                self).players@.len() == old(self).players@.len() + 1 && final(
                self).players@.to_multiset() =~= old(self).players@.to_multiset().insert(*player)
                && final(self).rounds == old(self).rounds,
            old(self).players@.len() == 4 ==> final(self).players == old(self).players && (if old(
                self).spec_game_over() {
                r == Err::<(), Error>(Error::GameOver) && final(self).rounds@ =~= old(self).rounds@
            } else {
                r == Err::<(), Error>(Error::GameNotAcceptingPlayers) && rounds_opened(
                    old(self).rounds@,
                    final(self).rounds@,
                )
            }),
    {
        let state = match self.next() {
            Err(e) => {
                return Err(e);
            },
            Ok(s) => s,
        };
        if state != GameState::Join {
            return Err(Error::GameNotAcceptingPlayers);
        }
        self.players.push(player.clone());
        shuffle_in_place(&mut self.players);
        Ok(())
    }

    /// The seat the player occupies, or PlayerNotFound if they never joined.
    fn get_player_turn(&self, player: &PlayerInfo) -> (r: Result<Turn, Error>)
        requires
            self.players@.len() <= 4,
        ensures
            r matches Ok(t) ==> t.wf() && is_seat(self.players@, *player, t.0 as int),
            r is Err ==> r == Err::<Turn, Error>(Error::PlayerNotFound) && !has_player(
                self.players@,
                *player,
            ),
    {
        let n = self.players.len();
        let mut i: usize = 0;
        while i < n
            invariant
                n == self.players@.len() <= 4,
                i <= n,
                forall|j: int| 0 <= j < i ==> self.players@[j] != *player,
            decreases n - i,
        {
            if self.players[i] == *player {
                return Ok(Turn(i));
            }
            i += 1;
        }
        Err(Error::PlayerNotFound)
    }

    /// Resolves the player to a seat and records their bid with the current
    /// round. Valid only once all 4 players have joined and while the game is
    /// not over; the game's bookkeeping (opening the next round when due)
    /// takes effect first.
    pub fn make_a_call(&mut self, player: &PlayerInfo, call: Call) -> (r: Result<(), Error>)
        requires
            old(self).wf(),
        ensures
            final(self).wf(),
            final(self).id == old(self).id,
            final(self).players == old(self).players,
            old(self).players@.len() != 4 ==> r == Err::<(), Error>(
                Error::GameWaitingForPlayersToJoin,
            ) && *final(self) == *old(self),
            old(self).players@.len() == 4 && old(self).spec_game_over() ==> r == Err::<(), Error>(
                Error::GameOver,
            ) && final(self).rounds@ =~= old(self).rounds@,
            old(self).players@.len() == 4 && !old(self).spec_game_over() ==> exists|mid: Seq<Round>|
                {
                    &&& #[trigger] rounds_opened(old(self).rounds@, mid)
                    &&& final(self).rounds@.len() == mid.len()
                    &&& final(self).rounds@.subrange(0, mid.len() - 1) =~= mid.subrange(
                        0,
                        mid.len() - 1,
                    )
                    &&& (!has_player(old(self).players@, *player) ==> r == Err::<(), Error>(
                        Error::PlayerNotFound,
                    ) && final(self).rounds@ =~= mid)
                    &&& (forall|i: int|
                        is_seat(old(self).players@, *player, i) ==> call_rel(
                            mid.last(),
                            final(self).rounds@.last(),
                            Turn(i as usize),
                            call,
                            r,
                        ))
                },
    {
        let state = match self.next() {
            Err(e) => {
                return Err(e);
            },
            Ok(s) => s,
        };
        if state != GameState::Play {
            return Err(Error::GameWaitingForPlayersToJoin);
        }
        let ghost mid = self.rounds@;
        let turn = match self.get_player_turn(player) {
            Err(e) => {
                assert(rounds_opened(old(self).rounds@, mid));
                return Err(e);
            },
            Ok(t) => t,
        };
        let rn = self.rounds.len() - 1;
        let r = self.rounds[rn].make_a_call(turn, call);
        proof {
            assert(rounds_opened(old(self).rounds@, mid));
            assert(self.rounds@.subrange(0, mid.len() - 1) =~= mid.subrange(0, mid.len() - 1));
            assert(forall|i: int|
                is_seat(old(self).players@, *player, i) ==> i == turn.0 as int);
        }
        r
    }

    /// Resolves the player to a seat and plays their card into the current
    /// round. Valid only once all 4 players have joined and while the game is
    /// not over; the game's bookkeeping (opening the next round when due)
    /// takes effect first.
    pub fn make_a_break(&mut self, player: &PlayerInfo, card: Card) -> (r: Result<(), Error>)
        requires
            old(self).wf(),
        ensures
            final(self).wf(),
            final(self).id == old(self).id,
            final(self).players == old(self).players,
            old(self).players@.len() != 4 ==> r == Err::<(), Error>(
                Error::GameWaitingForPlayersToJoin,
            ) && *final(self) == *old(self),
            old(self).players@.len() == 4 && old(self).spec_game_over() ==> r == Err::<(), Error>(
                Error::GameOver,
            ) && final(self).rounds@ =~= old(self).rounds@,
            old(self).players@.len() == 4 && !old(self).spec_game_over() ==> exists|mid: Seq<Round>|
                {
                    &&& #[trigger] rounds_opened(old(self).rounds@, mid)
                    &&& final(self).rounds@.len() == mid.len()
                    &&& final(self).rounds@.subrange(0, mid.len() - 1) =~= mid.subrange(
                        0,
                        mid.len() - 1,
                    )
                    &&& (!has_player(old(self).players@, *player) ==> r == Err::<(), Error>(
                        Error::PlayerNotFound,
                    ) && final(self).rounds@ =~= mid)
                    &&& (forall|i: int|
                        is_seat(old(self).players@, *player, i) ==> break_rel(
                            mid.last(),
                            final(self).rounds@.last(),
                            Turn(i as usize),
                            card,
                            r,
                        ))
                },
    {
        let state = match self.next() {
            Err(e) => {
                return Err(e);
            },
            Ok(s) => s,
        };
        if state != GameState::Play {
            return Err(Error::GameWaitingForPlayersToJoin);
        }
        let ghost mid = self.rounds@;
        let turn = match self.get_player_turn(player) {
            Err(e) => {
                assert(rounds_opened(old(self).rounds@, mid));
                return Err(e);
            },
            Ok(t) => t,
        };
        let rn = self.rounds.len() - 1;
        let r = self.rounds[rn].make_a_break(turn, card);
        proof {
            assert(rounds_opened(old(self).rounds@, mid));
            assert(self.rounds@.subrange(0, mid.len() - 1) =~= mid.subrange(0, mid.len() - 1));
            assert(forall|i: int|
                is_seat(old(self).players@, *player, i) ==> i == turn.0 as int);
        }
        r
    }
}

/// Relies on uuid's Uuid::new_v4 for a freshly generated random identifier,
/// read out as its 128-bit value. Nothing can be promised of a random value,
/// so nothing is.
#[verifier::external_body]
fn fresh_game_id() -> (r: u128) {
    uuid::Uuid::new_v4().as_u128()
}

} // verus!
