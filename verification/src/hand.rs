use vstd::prelude::*;

use crate::card::{Card, Rank, Suit};
use crate::error::Error;
use crate::trick::Trick;

verus! {

/// Whether a card in a hand may still be played. A card starts Playable and
/// is switched to NotPlayable the moment it is committed to a trick, so that
/// the legal-move set never re-offers a card that has already been played.
#[derive(Debug, Clone, Copy, PartialEq, Eq, Structural)]
pub enum CardState {
    Playable,
    NotPlayable,
}

/// A bid: the number of tricks a seat commits to win in a round, strictly
/// within [1, 8].
#[derive(Debug, Clone, Copy, PartialEq, Eq, Structural)]
pub struct Call(pub usize);

impl Call {
    /// A bid below 1 is too low, above 8 too high.
    pub fn try_from(value: usize) -> (r: Result<Call, Error>)
        ensures
            value < 1 ==> r == Err::<Call, Error>(Error::CallValueTooLow(value)),
            value > 8 ==> r == Err::<Call, Error>(Error::CallValueTooHigh(value)),
            1 <= value <= 8 ==> r == Ok::<Call, Error>(Call(value)),
    {
        if value < 1 {
            Err(Error::CallValueTooLow(value))
        } else if value > 8 {
            Err(Error::CallValueTooHigh(value))
        } else {
            Ok(Call(value))
        }
    }
}

/// There is at least one Spade among the cards.
pub open spec fn has_spade(s: Seq<Card>) -> bool {
    exists|k: int| 0 <= k < s.len() && (#[trigger] s[k]).suit == Suit::Spades
}

/// There is at least one face card (Jack or higher) among the cards.
pub open spec fn has_face(s: Seq<Card>) -> bool {
    exists|k: int| 0 <= k < s.len() && (#[trigger] s[k]).rank.spec_is_face()
}

/// Some card occurs twice.
pub open spec fn has_duplicate(s: Seq<Card>) -> bool {
    exists|i: int, j: int| 0 <= i < j < s.len() && s[i] == s[j]
}

/// A dealable hand: exactly 13 cards, at least one Spade, at least one face
/// card, and no duplicates.
pub open spec fn valid_hand(s: Seq<Card>) -> bool {
    &&& s.len() == 13
    &&& has_spade(s)
    &&& has_face(s)
    &&& !has_duplicate(s)
}

/// The cards still tagged Playable, in hand order.
pub open spec fn playable_of(s: Seq<(Card, CardState)>) -> Seq<Card>
    decreases s.len(),
{
    if s.len() == 0 {
        Seq::empty()
    } else {
        let rest = playable_of(s.drop_last());
        if s.last().1 == CardState::Playable {
            rest.push(s.last().0)
        } else {
            rest
        }
    }
}

/// The cards of the given suit, in order.
pub open spec fn of_suit(s: Seq<Card>, suit: Suit) -> Seq<Card>
    decreases s.len(),
{
    if s.len() == 0 {
        Seq::empty()
    } else {
        let rest = of_suit(s.drop_last(), suit);
        if s.last().suit == suit {
            rest.push(s.last())
        } else {
            rest
        }
    }
}

/// The cards of the given suit ranked strictly above the given rank value,
/// in order.
pub open spec fn of_suit_above(s: Seq<Card>, suit: Suit, rank_value: int) -> Seq<Card>
    decreases s.len(),
{
    if s.len() == 0 {
        Seq::empty()
    } else {
        let rest = of_suit_above(s.drop_last(), suit, rank_value);
        if s.last().suit == suit && s.last().rank.spec_value() > rank_value {
            rest.push(s.last())
        } else {
            rest
        }
    }
}

/// The legal-move cascade, given the playable cards `p` and a trick whose
/// lead slot is occupied: follow suit and beat if you can, else follow suit,
/// else trump, else discard.
pub open spec fn legal_moves(p: Seq<Card>, t: Trick) -> Seq<Card> {
    let starter = t.slot(t.start.0 as int).unwrap();
    let winner = t.spec_winner().1;
    if starter.suit != winner.suit {
        // The trick is already trumped: a Spade was played over a non-Spade
        // lead. Follow the lead suit if possible, else overtrump, else
        // anything goes.
        let follow = of_suit(p, starter.suit);
        if follow.len() > 0 {
            follow
        } else {
            let over = of_suit_above(p, Suit::Spades, winner.rank.spec_value());
            if over.len() > 0 {
                over
            } else {
                p
            }
        }
    } else {
        // Not yet trumped: beat the winner in the lead suit if possible,
        // else follow the lead suit, else trump, else anything goes.
        let over = of_suit_above(p, winner.suit, winner.rank.spec_value());
        if over.len() > 0 {
            over
        } else {
            let follow = of_suit(p, starter.suit);
            if follow.len() > 0 {
                follow
            } else {
                let spades = of_suit(p, Suit::Spades);
                if spades.len() > 0 {
                    spades
                } else {
                    p
                }
            }
        }
    }
}

/// What the hand may play into the trick: every playable card when the trick
/// is still waiting for its lead card, else the `legal_moves` cascade.
pub open spec fn legal_for(h: Hand, t: Trick) -> Seq<Card> {
    if t.slot(t.start.0 as int) is None {
        h.playables()
    } else {
        legal_moves(h.playables(), t)
    }
}

/// The 13 cards one seat holds for a round, each tagged with whether it may
/// still be played. The set of 13 cards never changes for the hand's
/// lifetime; only the per-card tag flips as cards are played.
#[derive(Debug, Clone)]
pub struct Hand {
    pub cards: Vec<(Card, CardState)>,
}

impl Hand {
    pub open spec fn wf(self) -> bool {
        self.cards@.len() == 13
    }

    /// The cards of the hand, tags dropped.
    pub open spec fn spec_cards(self) -> Seq<Card> {
        self.cards@.map_values(|p: (Card, CardState)| p.0)
    }

    /// The cards still tagged Playable.
    pub open spec fn playables(self) -> Seq<Card> {
        playable_of(self.cards@)
    }

    /// Returns the first violated hand invariant, in priority order: wrong
    /// count, missing Spade, missing face card, duplicate card.
    pub fn is_valid(value: &Vec<Card>) -> (r: Result<(), Error>)
        ensures
            value@.len() < 13 ==> r == Err::<(), Error>(Error::NotEnoughCardsForHand),
            value@.len() > 13 ==> r == Err::<(), Error>(Error::TooManyCardsForHand),
            value@.len() == 13 && !has_spade(value@) ==> r == Err::<(), Error>(
                Error::SpadeNotInHand,
            ),
            value@.len() == 13 && has_spade(value@) && !has_face(value@) ==> r == Err::<(), Error>(
                Error::FaceCardNotInHand,
            ),
            value@.len() == 13 && has_spade(value@) && has_face(value@) && has_duplicate(value@)
                ==> r == Err::<(), Error>(Error::DuplicateCardInHand),
            r is Ok <==> valid_hand(value@),
    {
        if value.len() < 13 {
            return Err(Error::NotEnoughCardsForHand);
        }
        if value.len() > 13 {
            return Err(Error::TooManyCardsForHand);
        }

        let mut found_spade = false;
        let mut i: usize = 0;
        while i < 13
            invariant
                value@.len() == 13,
                i <= 13,
                found_spade <==> exists|k: int|
                    0 <= k < i && (#[trigger] value@[k]).suit == Suit::Spades,
            decreases 13 - i,
        {
            if value[i].suit == Suit::Spades {
                found_spade = true;
                assert(value@[i as int].suit == Suit::Spades);
            }
            i += 1;
        }
        if !found_spade {
            return Err(Error::SpadeNotInHand);
        }

        let mut found_face = false;
        let mut i: usize = 0;
        while i < 13
            invariant
                value@.len() == 13,
                i <= 13,
                found_face <==> exists|k: int|
                    0 <= k < i && (#[trigger] value@[k]).rank.spec_is_face(),
            decreases 13 - i,
        {
            if value[i].rank.value() >= Rank::Jack.value() {
                found_face = true;
                assert(value@[i as int].rank.spec_is_face());
            }
            i += 1;
        }
        if !found_face {
            return Err(Error::FaceCardNotInHand);
        }

        let mut i: usize = 0;
        while i < 13
            invariant
                value@.len() == 13,
                i <= 13,
                has_spade(value@),
                has_face(value@),
                forall|a: int, b: int| 0 <= a < i && a < b < 13 ==> value@[a] != value@[b],
            decreases 13 - i,
        {
            let mut j: usize = i + 1;
            while j < 13
                invariant
                    value@.len() == 13,
                    i < 13,
                    i < j <= 13,
                    has_spade(value@),
                    has_face(value@),
                    forall|b: int| i < b < j ==> value@[i as int] != value@[b],
                decreases 13 - j,
            {
                if value[i] == value[j] {
                    assert(has_duplicate(value@));
                    return Err(Error::DuplicateCardInHand);
                }
                j += 1;
            }
            i += 1;
        }
        assert(!has_duplicate(value@));
        Ok(())
    }

    /// Validates the 13-card sequence and, on success, builds the hand with
    /// every card tagged Playable.
    pub fn try_from(value: &Vec<Card>) -> (r: Result<Hand, Error>)
        ensures
            r is Ok <==> valid_hand(value@),
            r matches Ok(h) ==> h.wf() && h.cards@ =~= value@.map_values(
                |c: Card| (c, CardState::Playable),
            ) && h.spec_cards() =~= value@ && h.playables() =~= value@,
            value@.len() < 13 ==> r == Err::<Hand, Error>(Error::NotEnoughCardsForHand),
            value@.len() > 13 ==> r == Err::<Hand, Error>(Error::TooManyCardsForHand),
            value@.len() == 13 && !has_spade(value@) ==> r == Err::<Hand, Error>(
                Error::SpadeNotInHand,
            ),
            value@.len() == 13 && has_spade(value@) && !has_face(value@) ==> r == Err::<
                Hand,
                Error,
            >(Error::FaceCardNotInHand),
            value@.len() == 13 && has_spade(value@) && has_face(value@) && has_duplicate(value@)
                ==> r == Err::<Hand, Error>(Error::DuplicateCardInHand),
    {
        match Self::is_valid(value) {
            Err(e) => {
                return Err(e);
            },
            Ok(()) => {},
        }

        let mut cards: Vec<(Card, CardState)> = Vec::new();
        let mut i: usize = 0;
        while i < 13
            invariant
                value@.len() == 13,
                i <= 13,
                cards@.len() == i,
                forall|k: int| 0 <= k < i ==> cards@[k] == (value@[k], CardState::Playable),
            decreases 13 - i,
        {
            cards.push((value[i], CardState::Playable));
            i += 1;
        }
        let hand = Hand { cards };
        proof {
            assert(hand.cards@ =~= value@.map_values(|c: Card| (c, CardState::Playable)));
            assert(hand.spec_cards() =~= value@);
            lemma_playable_of_all_playable(hand.cards@);
            assert(hand.playables() =~= value@);
        }
        Ok(hand)
    }

    /// Flips the card's tag to NotPlayable; the composition of the hand is
    /// unchanged. Called when the card is committed to a trick.
    pub fn mark_played(&mut self, card: Card)
        requires
            old(self).wf(),
        ensures
            final(self).wf(),
            final(self).cards@.len() == old(self).cards@.len(),
            forall|k: int|
                0 <= k < old(self).cards@.len() ==> final(self).cards@[k] == (if old(
                    self,
                ).cards@[k].0 == card {
                    (old(self).cards@[k].0, CardState::NotPlayable)
                } else {
                    old(self).cards@[k]
                }),
    {
        let mut i: usize = 0;
        while i < 13
            invariant
                old(self).wf(),
                self.cards@.len() == 13,
                i <= 13,
                forall|k: int|
                    0 <= k < i ==> self.cards@[k] == (if old(self).cards@[k].0 == card {
                        (old(self).cards@[k].0, CardState::NotPlayable)
                    } else {
                        old(self).cards@[k]
                    }),
                forall|k: int| i <= k < 13 ==> self.cards@[k] == old(self).cards@[k],
            decreases 13 - i,
        {
            let p = self.cards[i];
            if p.0 == card {
                self.cards[i] = (p.0, CardState::NotPlayable);
            }
            i += 1;
        }
    }

    /// The legal-move set for this hand given the trick state: all playable
    /// cards when leading, else the follow/beat/trump/discard cascade of
    /// `legal_moves`. Reports a full trick as misuse by the caller.
    pub fn get_valid_card_for(&self, trick: &Trick) -> (r: Result<Vec<Card>, Error>)
        requires
            self.wf(),
            trick.wf(),
        ensures
            trick.spec_full() ==> r == Err::<Vec<Card>, Error>(Error::TrickIsFull),
            !trick.spec_full() && trick.slot(trick.start.0 as int) is None ==> (r matches Ok(v)
                && v@ =~= self.playables()),
            !trick.spec_full() && trick.slot(trick.start.0 as int) is Some ==> (r matches Ok(v)
                && v@ =~= legal_moves(self.playables(), *trick)),
    {
        let playables = self.collect_playables();

        match trick.next() {
            Err(e) => {
                return Err(e);
            },
            Ok(_) => {},
        }
        let starter = match trick.starter() {
            None => {
                return Ok(playables);
            },
            Some(v) => v,
        };
        let winner = match trick.winner() {
            Err(e) => {
                return Err(e);
            },
            Ok(w) => w.1,
        };

        if starter.get_suit() != winner.get_suit() {
            // Only possible when the lead is Clubs, Diamonds or Hearts and
            // the winner is a Spade: follow the lead suit if possible, else
            // play an overtrumping Spade, else anything.
            let follow = collect_suit(&playables, starter.get_suit());
            if follow.len() > 0 {
                return Ok(follow);
            }
            let over = collect_suit_above(&playables, Suit::Spades, winner.get_rank());
            if over.len() > 0 {
                return Ok(over);
            }
        } else {
            // Beat the winner in the lead suit if possible, else follow the
            // lead suit, else any Spade, else anything.
            let over = collect_suit_above(&playables, winner.get_suit(), winner.get_rank());
            if over.len() > 0 {
                return Ok(over);
            }
            let follow = collect_suit(&playables, starter.get_suit());
            if follow.len() > 0 {
                return Ok(follow);
            }
            let spades = collect_suit(&playables, Suit::Spades);
            if spades.len() > 0 {
                return Ok(spades);
            }
        }
        Ok(playables)
    }

    fn collect_playables(&self) -> (r: Vec<Card>)
        requires
            self.wf(),
        ensures
            r@ =~= self.playables(),
    {
        let mut out: Vec<Card> = Vec::new();
        let mut i: usize = 0;
        while i < 13
            invariant
                self.cards@.len() == 13,
                i <= 13,
                out@ =~= playable_of(self.cards@.subrange(0, i as int)),
            decreases 13 - i,
        {
            let p = self.cards[i];
            proof {
                assert(self.cards@.subrange(0, i as int + 1).drop_last() =~= self.cards@.subrange(
                    0,
                    i as int,
                ));
                assert(self.cards@.subrange(0, i as int + 1).last() == self.cards@[i as int]);
            }
            if p.1 == CardState::Playable {
                out.push(p.0);
            }
            i += 1;
        }
        proof {
            assert(self.cards@.subrange(0, 13) =~= self.cards@);
        }
        out
    }
}

fn collect_suit(cards: &Vec<Card>, suit: Suit) -> (r: Vec<Card>)
    ensures
        r@ =~= of_suit(cards@, suit),
{
    let mut out: Vec<Card> = Vec::new();
    let mut i: usize = 0;
    let n = cards.len();
    while i < n
        invariant
            n == cards@.len(),
            i <= n,
            out@ =~= of_suit(cards@.subrange(0, i as int), suit),
        decreases n - i,
    {
        let c = cards[i];
        proof {
            assert(cards@.subrange(0, i as int + 1).drop_last() =~= cards@.subrange(0, i as int));
            assert(cards@.subrange(0, i as int + 1).last() == cards@[i as int]);
        }
        if c.suit == suit {
            out.push(c);
        }
        i += 1;
    }
    proof {
        assert(cards@.subrange(0, cards@.len() as int) =~= cards@);
    }
    out
}

fn collect_suit_above(cards: &Vec<Card>, suit: Suit, rank: Rank) -> (r: Vec<Card>)
    ensures
        r@ =~= of_suit_above(cards@, suit, rank.spec_value()),
{
    let mut out: Vec<Card> = Vec::new();
    let mut i: usize = 0;
    let n = cards.len();
    while i < n
        invariant
            n == cards@.len(),
            i <= n,
            out@ =~= of_suit_above(cards@.subrange(0, i as int), suit, rank.spec_value()),
        decreases n - i,
    {
        let c = cards[i];
        proof {
            assert(cards@.subrange(0, i as int + 1).drop_last() =~= cards@.subrange(0, i as int));
            assert(cards@.subrange(0, i as int + 1).last() == cards@[i as int]);
        }
        if c.suit == suit && c.rank.value() > rank.value() {
            out.push(c);
        }
        i += 1;
    }
    proof {
        assert(cards@.subrange(0, cards@.len() as int) =~= cards@);
    }
    out
}

/// In a hand whose cards are all tagged Playable, the playable cards are
/// exactly the cards.
proof fn lemma_playable_of_all_playable(s: Seq<(Card, CardState)>)
    requires
        forall|k: int| 0 <= k < s.len() ==> (#[trigger] s[k]).1 == CardState::Playable,
    ensures
        playable_of(s) =~= s.map_values(|p: (Card, CardState)| p.0),
    decreases s.len(),
{
    if s.len() > 0 {
        lemma_playable_of_all_playable(s.drop_last());
        assert(s.drop_last().map_values(|p: (Card, CardState)| p.0).push(s.last().0)
            =~= s.map_values(|p: (Card, CardState)| p.0));
    }
}

} // verus!
