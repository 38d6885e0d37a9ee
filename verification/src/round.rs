use vstd::prelude::*;

use crate::card::Card;
use crate::deck::Deck;
use crate::error::Error;
use crate::hand::{legal_for, valid_hand, Call, Hand};
use crate::trick::{lemma_winner_is_played, Trick, Turn};

verus! {

/// Identifies one of the up-to-5 rounds of a game, an index in [0, 4]; it
/// also fixes the round's starting seat (id % 4) so the lead rotates from
/// round to round.
#[derive(Debug, Clone, Copy, PartialEq, Eq, Structural)]
pub struct RoundId(pub usize);

impl RoundId {
    /// A round index above 4 is rejected.
    pub fn try_from(value: usize) -> (r: Result<RoundId, Error>)
        ensures
            value <= 4 ==> r == Ok::<RoundId, Error>(RoundId(value)),
            value > 4 ==> r == Err::<RoundId, Error>(Error::RoundIdTooLarge),
    {
        if value > 4 {
            Err(Error::RoundIdTooLarge)
        } else {
            Ok(RoundId(value))
        }
    }
}

/// The two phases of a round: first every seat bids (Call), then the 13
/// tricks are played (Break).
#[derive(Debug, Clone, Copy, PartialEq, Eq, Structural)]
pub enum RoundState {
    Call,
    Break,
}

/// `post` extends `pre` by one freshly opened (empty) trick led by `seat`.
pub open spec fn pushed_clear(pre: Seq<Trick>, post: Seq<Trick>, seat: int) -> bool {
    &&& post.len() == pre.len() + 1
    &&& post.subrange(0, pre.len() as int) =~= pre
    &&& post.last().wf()
    &&& post.last().start.0 == seat
    &&& post.last().spec_empty()
}

/// A round as `Round::new` leaves it: in its call phase with no bid recorded,
/// no trick, and four freshly dealt valid hands.
pub open spec fn is_fresh_round(r: Round, id: int) -> bool {
    &&& r.wf()
    &&& r.id.0 == id
    &&& r.state == RoundState::Call
    &&& r.tricks@.len() == 0
    &&& (forall|i: int| 0 <= i < 4 ==> (#[trigger] r.calls@[i]) is None)
    &&& (forall|i: int|
        0 <= i < 4 ==> valid_hand((#[trigger] r.hands@[i]).spec_cards()) && r.hands@[i].playables()
            =~= r.hands@[i].spec_cards())
}

/// How a round changes under its own `next` query, and what the query
/// reports.
pub open spec fn next_rel(pre: Round, post: Round, r: Result<Turn, Error>) -> bool {
    &&& post.id == pre.id
    &&& post.hands == pre.hands
    &&& post.calls == pre.calls
    &&& (pre.state == RoundState::Call && !pre.all_called() ==> post == pre && r == Ok::<
        Turn,
        Error,
    >(Turn(pre.next_caller() as usize)))
    &&& (pre.state == RoundState::Break || pre.all_called() ==> {
        &&& post.state == RoundState::Break
        &&& (pre.spec_over() ==> r == Err::<Turn, Error>(Error::RoundOver) && post.tricks
            == pre.tricks)
        &&& (!pre.spec_over() && pre.opens_trick() ==> r == Ok::<Turn, Error>(
            Turn(pre.break_seat() as usize),
        ) && pushed_clear(pre.tricks@, post.tricks@, pre.break_seat()))
        &&& (!pre.spec_over() && !pre.opens_trick() ==> r == Ok::<Turn, Error>(
            Turn(pre.break_seat() as usize),
        ) && post.tricks == pre.tricks)
    })
}

/// How a round changes when `turn` tries to record the bid `call`, and what
/// is reported.
pub open spec fn call_rel(pre: Round, post: Round, turn: Turn, call: Call, r: Result<
    (),
    Error,
>) -> bool {
    &&& (pre.state != RoundState::Call || pre.all_called() ==> r == Err::<(), Error>(
        Error::RoundIsNotCalling,
    ) && post == pre)
    &&& (pre.state == RoundState::Call && !pre.all_called() && turn.0 != pre.next_caller() ==> r
        == Err::<(), Error>(Error::NotYourTurn) && post == pre)
    &&& (pre.state == RoundState::Call && !pre.all_called() && turn.0 == pre.next_caller() ==> r
        == Ok::<(), Error>(()) && post.calls@ =~= pre.calls@.update(turn.0 as int, Some(call))
        && post.id == pre.id && post.hands == pre.hands && post.state == pre.state && post.tricks
        == pre.tricks)
}

/// How a round changes when `turn` tries to play `card`, and what is
/// reported. The trick bookkeeping of `next` takes effect even when the turn
/// or the card is then rejected.
pub open spec fn break_rel(pre: Round, post: Round, turn: Turn, card: Card, r: Result<
    (),
    Error,
>) -> bool {
    &&& post.id == pre.id
    &&& post.calls == pre.calls
    &&& post.state == pre.state
    &&& (pre.state != RoundState::Break ==> r == Err::<(), Error>(Error::RoundIsNotBreaking) && post
        == pre)
    &&& (pre.state == RoundState::Break && pre.spec_over() ==> r == Err::<(), Error>(
        Error::RoundOver,
    ) && post == pre)
    &&& (pre.state == RoundState::Break && !pre.spec_over() && turn.0 != pre.break_seat() ==> r
        == Err::<(), Error>(Error::NotYourTurn) && post.hands == pre.hands && advanced_only(
        pre,
        post,
    ))
    &&& (pre.state == RoundState::Break && !pre.spec_over() && turn.0 == pre.break_seat()
        && !pre.break_legal_set().contains(card) ==> r == Err::<(), Error>(
        Error::InvalidCardForBreak,
    ) && post.hands == pre.hands && advanced_only(pre, post))
    &&& (pre.state == RoundState::Break && !pre.spec_over() && turn.0 == pre.break_seat()
        && pre.break_legal_set().contains(card) ==> r == Ok::<(), Error>(()) && played_card(
        pre,
        post,
        turn.0 as int,
        card,
    ))
}

/// One full deal-call-play cycle: the four hands, the bids, and the ordered
/// sequence of up to 13 tricks.
#[derive(Debug, Clone)]
pub struct Round {
    pub id: RoundId,
    pub hands: Vec<Hand>,
    pub state: RoundState,
    pub calls: Vec<Option<Call>>,
    pub tricks: Vec<Trick>,
}

impl Round {
    pub open spec fn wf(self) -> bool {
        &&& self.id.0 <= 4
        &&& self.hands@.len() == 4
        &&& (forall|i: int| 0 <= i < 4 ==> (#[trigger] self.hands@[i]).wf())
        &&& self.calls@.len() == 4
        &&& self.tricks@.len() <= 13
        &&& (forall|i: int| 0 <= i < self.tricks@.len() ==> (#[trigger] self.tricks@[i]).wf())
        &&& (forall|i: int|
            0 <= i < self.tricks@.len() - 1 ==> (#[trigger] self.tricks@[i]).spec_full())
        &&& (self.state == RoundState::Call ==> self.tricks@.len() == 0)
        &&& (self.state == RoundState::Break ==> self.all_called())
        &&& (self.tricks@.len() > 0 ==> self.all_called())
    }

    /// Every seat has a recorded bid.
    pub open spec fn all_called(self) -> bool {
        forall|i: int| 0 <= i < 4 ==> (#[trigger] self.calls@[i]) is Some
    }

    /// The seat that leads the round, rotating with the round index.
    pub open spec fn start_seat(self) -> int {
        self.id.0 as int % 4
    }

    /// The first seat, scanning cyclically from the round's starting seat,
    /// whose bid is still missing. Meaningful only when not all have called.
    pub open spec fn next_caller(self) -> int {
        let s = self.start_seat();
        if self.calls@[s] is None {
            s
        } else if self.calls@[(s + 1) % 4] is None {
            (s + 1) % 4
        } else if self.calls@[(s + 2) % 4] is None {
            (s + 2) % 4
        } else {
            (s + 3) % 4
        }
    }

    /// During the break phase, the next `next` query must open a new trick:
    /// none exists yet, or the current one is full.
    pub open spec fn opens_trick(self) -> bool {
        self.tricks@.len() == 0 || self.tricks@.last().spec_full()
    }

    /// The round is over: all 13 tricks exist and the 13th is full.
    pub open spec fn spec_over(self) -> bool {
        self.tricks@.len() == 13 && self.tricks@.last().spec_full()
    }

    /// The seat that acts next during the break phase (meaningful only when
    /// the round is not over): the round's starting seat for the very first
    /// trick, the previous trick's winner when a new trick must be opened,
    /// else the current trick's next free seat.
    pub open spec fn break_seat(self) -> int {
        if self.tricks@.len() == 0 {
            self.start_seat()
        } else if self.tricks@.last().spec_full() {
            self.tricks@.last().spec_winner().0
        } else {
            self.tricks@.last().spec_next_seat()
        }
    }

    /// The set of cards the seat due to act may legally play, given the trick
    /// it will play into.
    pub open spec fn break_legal_set(self) -> Seq<Card> {
        let seat = self.break_seat();
        if self.opens_trick() {
            self.hands@[seat].playables()
        } else {
            legal_for(self.hands@[seat], self.tricks@.last())
        }
    }

    /// On entry a round deals a fresh deck into 4 validated hands; no bids
    /// are recorded and no trick exists.
    pub fn new(id: RoundId) -> (r: Round)
        requires
            id.0 <= 4,
        ensures
            r.wf(),
            r.id == id,
            is_fresh_round(r, id.0 as int),
    {
        let mut deck = Deck::new();
        let hands = deck.deal();
        let mut calls: Vec<Option<Call>> = Vec::new();
        calls.push(None);
        calls.push(None);
        calls.push(None);
        calls.push(None);
        Round { id, hands, state: RoundState::Call, calls, tricks: Vec::new() }
    }

    /// Reports which seat acts next. During the call phase this is the first
    /// seat without a bid; once all four have called the round switches to
    /// Break as a side effect of this query. During the break phase it opens
    /// the next trick when needed (led by the previous trick's winner) and
    /// reports RoundOver — idempotently, leaving the round unchanged — once
    /// the 13th trick is full.
    pub fn next(&mut self) -> (r: Result<Turn, Error>)
        requires
            old(self).wf(),
        ensures
            final(self).wf(),
            next_rel(*old(self), *final(self), r),
    {
        if self.state == RoundState::Call {
            let s = self.id.0 % 4;
            if self.calls[s].is_none() {
                return Ok(Turn(s));
            }
            let s1 = (s + 1) % 4;
            if self.calls[s1].is_none() {
                return Ok(Turn(s1));
            }
            let s2 = (s + 2) % 4;
            if self.calls[s2].is_none() {
                return Ok(Turn(s2));
            }
            let s3 = (s + 3) % 4;
            if self.calls[s3].is_none() {
                return Ok(Turn(s3));
            }
            assert(self.all_called());
            self.state = RoundState::Break;
        }
        self.advance_break()
    }

    /// Records the seat's bid. Valid only while the round is in its call
    /// phase with a bid still missing, and only for the seat whose turn it is
    /// to call.
    pub fn make_a_call(&mut self, turn: Turn, call: Call) -> (r: Result<(), Error>)
        requires
            old(self).wf(),
        ensures
            final(self).wf(),
            call_rel(*old(self), *final(self), turn, call, r),
    {
        if self.state != RoundState::Call {
            return Err(Error::RoundIsNotCalling);
        }
        let s = self.id.0 % 4;
        let s1 = (s + 1) % 4;
        let s2 = (s + 2) % 4;
        let s3 = (s + 3) % 4;
        let next: usize = if self.calls[s].is_none() {
            s
        } else if self.calls[s1].is_none() {
            s1
        } else if self.calls[s2].is_none() {
            s2
        } else if self.calls[s3].is_none() {
            s3
        } else {
            assert(self.all_called());
            return Err(Error::RoundIsNotCalling);
        };
        if next != turn.get_value() {
            return Err(Error::NotYourTurn);
        }
        self.calls[next] = Some(call);
        Ok(())
    }

    /// Plays a card for the seat. Valid only during the break phase, only for
    /// the seat whose turn it is, and only for a card in the legal-move set
    /// of that seat's hand against the current trick. On success the card is
    /// committed to the trick and its tag in the hand flips to NotPlayable.
    /// The trick bookkeeping of `next` (opening a fresh trick when the
    /// previous one is full) takes effect even when the turn or the card is
    /// then rejected.
    pub fn make_a_break(&mut self, turn: Turn, card: Card) -> (r: Result<(), Error>)
        requires
            old(self).wf(),
        ensures
            final(self).wf(),
            break_rel(*old(self), *final(self), turn, card, r),
    {
        if self.state != RoundState::Break {
            return Err(Error::RoundIsNotBreaking);
        }
        let next = match self.advance_break() {
            Err(e) => {
                return Err(e);
            },
            Ok(t) => t,
        };
        if next.get_value() != turn.get_value() {
            return Err(Error::NotYourTurn);
        }
        let len = self.tricks.len();
        let moves = match self.hands[turn.get_value()].get_valid_card_for(&self.tricks[len - 1]) {
            Err(e) => {
                proof {
                    assert(false);
                }
                return Err(e);
            },
            Ok(v) => v,
        };
        if !contains_card(&moves, card) {
            return Err(Error::InvalidCardForBreak);
        }
        let added = self.tricks[len - 1].add(card);
        match added {
            Err(e) => {
                proof {
                    assert(false);
                }
                return Err(e);
            },
            Ok(()) => {},
        }
        let mut hand = self.hands.remove(turn.get_value());
        hand.mark_played(card);
        self.hands.insert(turn.get_value(), hand);
        proof {
            assert(self.hands@ =~= old(self).hands@.update(
                turn.0 as int,
                self.hands@[turn.0 as int],
            ));
        }
        Ok(())
    }

    /// Break-phase bookkeeping behind `next`: opens a trick when needed and
    /// reports the seat to play into the current trick.
    fn advance_break(&mut self) -> (r: Result<Turn, Error>)
        requires
            old(self).wf(),
            old(self).state == RoundState::Break,
        ensures
            final(self).wf(),
            final(self).id == old(self).id,
            final(self).hands == old(self).hands,
            final(self).calls == old(self).calls,
            final(self).state == old(self).state,
            old(self).spec_over() ==> r == Err::<Turn, Error>(Error::RoundOver) && *final(self)
                == *old(self),
            !old(self).spec_over() && old(self).opens_trick() ==> r == Ok::<Turn, Error>(
                Turn(old(self).break_seat() as usize),
            ) && pushed_clear(old(self).tricks@, final(self).tricks@, old(self).break_seat()),
            !old(self).spec_over() && !old(self).opens_trick() ==> r == Ok::<Turn, Error>(
                Turn(old(self).break_seat() as usize),
            ) && *final(self) == *old(self),
            r matches Ok(t) ==> t.0 == old(self).break_seat() && t.wf() && final(self).tricks@.len()
                > 0 && !final(self).tricks@.last().spec_full() && final(
                self).tricks@.last().spec_next_seat() == t.0,
    {
        let len = self.tricks.len();
        if len == 0 {
            let next = Turn(self.id.0 % 4);
            self.tricks.push(Trick::new(next));
            return Ok(next);
        }
        let full = self.tricks[len - 1].is_full();
        if full {
            if len == 13 {
                return Err(Error::RoundOver);
            }
            let winner = match self.tricks[len - 1].winner() {
                Err(e) => {
                    proof {
                        assert(false);
                    }
                    return Err(e);
                },
                Ok(w) => w.0,
            };
            proof {
                lemma_winner_is_played(self.tricks@[len - 1]);
            }
            self.tricks.push(Trick::new(winner));
            return Ok(winner);
        }
        match self.tricks[len - 1].next() {
            Err(e) => {
                proof {
                    assert(false);
                }
                Err(e)
            },
            Ok(t) => Ok(t),
        }
    }
}

/// `post` is `pre` after only the trick bookkeeping of a `next` query: a
/// fresh trick was opened if needed, nothing else changed.
pub open spec fn advanced_only(pre: Round, post: Round) -> bool {
    &&& post.id == pre.id
    &&& post.hands == pre.hands
    &&& post.calls == pre.calls
    &&& post.state == pre.state
    &&& if pre.opens_trick() {
        pushed_clear(pre.tricks@, post.tricks@, pre.break_seat())
    } else {
        post.tricks == pre.tricks
    }
}

/// `post` is `pre` after `seat` played `card`: the card sits in `seat`'s slot
/// of the current trick (freshly opened if needed), `seat`'s hand has the
/// card tagged NotPlayable, and nothing else changed.
pub open spec fn played_card(pre: Round, post: Round, seat: int, card: Card) -> bool {
    &&& post.id == pre.id
    &&& post.calls == pre.calls
    &&& post.state == pre.state
    // tricks: all but the last as the bookkeeping of `next` left them, the
    // last with the card placed in `seat`'s slot
    &&& (if pre.opens_trick() {
        &&& post.tricks@.len() == pre.tricks@.len() + 1
        &&& post.tricks@.subrange(0, pre.tricks@.len() as int) =~= pre.tricks@
        &&& post.tricks@.last().wf()
        &&& post.tricks@.last().start.0 == seat
        &&& post.tricks@.last().cards@ =~= seq![
            None::<Card>,
            None::<Card>,
            None::<Card>,
            None::<Card>,
        ].update(seat, Some(card))
    } else {
        &&& post.tricks@.len() == pre.tricks@.len()
        &&& post.tricks@.subrange(0, pre.tricks@.len() - 1) =~= pre.tricks@.subrange(
            0,
            pre.tricks@.len() - 1,
        )
        &&& post.tricks@.last().wf()
        &&& post.tricks@.last().start == pre.tricks@.last().start
        &&& post.tricks@.last().cards@ =~= pre.tricks@.last().cards@.update(seat, Some(card))
    })
    // hands: `seat`'s card tag flipped, the other hands unchanged
    &&& post.hands@.len() == 4
    &&& (forall|i: int| 0 <= i < 4 && i != seat ==> post.hands@[i] == pre.hands@[i])
    &&& marked_played(pre.hands@[seat], post.hands@[seat], card)
}

/// `post` is `pre` with every copy of `card` tagged NotPlayable and all other
/// cards untouched.
pub open spec fn marked_played(pre: Hand, post: Hand, card: Card) -> bool {
    &&& post.cards@.len() == pre.cards@.len()
    &&& (forall|k: int|
        0 <= k < pre.cards@.len() ==> post.cards@[k] == (if (#[trigger] pre.cards@[k]).0 == card {
            (pre.cards@[k].0, crate::hand::CardState::NotPlayable)
        } else {
            pre.cards@[k]
        }))
}

/// Law: a trick exists only after every seat has bid — exactly 4 calls
/// precede any trick of a round.
pub proof fn lemma_tricks_need_all_calls(r: Round)
    requires
        r.wf(),
        r.tricks@.len() > 0,
    ensures
        r.all_called(),
{
}

/// Law: a round reports RoundOver exactly when its 13 tricks are complete,
/// and then as an idempotent terminal state: the round is left unchanged, so
/// any repeated query reports RoundOver again.
pub proof fn lemma_round_over_terminal(pre: Round, post: Round, r: Result<Turn, Error>)
    requires
        pre.wf(),
        next_rel(pre, post, r),
    ensures
        r == Err::<Turn, Error>(Error::RoundOver) <==> pre.spec_over(),
        pre.spec_over() ==> post == pre,
{
    if pre.spec_over() {
        assert(pre.tricks@.len() > 0);
        assert(pre.state == RoundState::Break);
    }
}

fn contains_card(cards: &Vec<Card>, card: Card) -> (r: bool)
    ensures
        r == cards@.contains(card),
{
    let mut i: usize = 0;
    let n = cards.len();
    while i < n
        invariant
            n == cards@.len(),
            i <= n,
            forall|k: int| 0 <= k < i ==> cards@[k] != card,
        decreases n - i,
    {
        if cards[i] == card {
            assert(cards@.contains(card));
            return true;
        }
        i += 1;
    }
    assert(!cards@.contains(card));
    false
}

} // verus!
