use vstd::prelude::*;

use crate::card::{Card, Suit};
use crate::error::Error;

verus! {

/// A seat index in [0, 3]; seat order wraps modulo 4 when advancing.
#[derive(Debug, Clone, Copy, PartialEq, Eq, Structural)]
pub struct Turn(pub usize);

impl Turn {
    /// A seat index is valid when it is one of the four seats.
    pub open spec fn wf(self) -> bool {
        self.0 < 4
    }

    pub fn get_value(&self) -> (v: usize)
        ensures
            v == self.0,
    {
        self.0
    }

    /// A seat index above 3 is rejected.
    pub fn try_from(value: usize) -> (r: Result<Turn, Error>)
        ensures
            value <= 3 ==> r == Ok::<Turn, Error>(Turn(value)),
            value > 3 ==> r == Err::<Turn, Error>(Error::DuplicateCardInHand),
    {
        if value > 3 {
            return Err(Error::DuplicateCardInHand);
        }
        Ok(Turn(value))
    }
}

/// One exchange of up to 4 cards among the 4 seats: a card slot per seat and
/// a designated starting (lead) seat. Cards are appended in cyclic seat order
/// from the lead; once all 4 slots are occupied the trick is full.
#[derive(Debug, Clone)]
pub struct Trick {
    pub start: Turn,
    pub cards: Vec<Option<Card>>,
}

impl Trick {
    pub open spec fn wf(self) -> bool {
        &&& self.start.wf()
        &&& self.cards@.len() == 4
    }

    /// The card in the slot of the given seat, if played.
    pub open spec fn slot(self, seat: int) -> Option<Card> {
        self.cards@[seat]
    }

    pub open spec fn spec_full(self) -> bool {
        &&& self.cards@[0] is Some
        &&& self.cards@[1] is Some
        &&& self.cards@[2] is Some
        &&& self.cards@[3] is Some
    }

    pub open spec fn spec_empty(self) -> bool {
        &&& self.cards@[0] is None
        &&& self.cards@[1] is None
        &&& self.cards@[2] is None
        &&& self.cards@[3] is None
    }

    /// How many seats past the lead have already played: the first offset,
    /// scanning cyclically from the lead seat, whose slot is still free
    /// (4 when the trick is full).
    pub open spec fn spec_next_off(self) -> int {
        let s = self.start.0 as int;
        if self.slot(s % 4) is None {
            0
        } else if self.slot((s + 1) % 4) is None {
            1
        } else if self.slot((s + 2) % 4) is None {
            2
        } else if self.slot((s + 3) % 4) is None {
            3
        } else {
            4
        }
    }

    /// The seat that plays next: the first free slot scanning cyclically from
    /// the lead seat. Meaningful only when the trick is not full.
    pub open spec fn spec_next_seat(self) -> int {
        (self.start.0 as int + self.spec_next_off()) % 4
    }

    /// A new card overtakes the provisional winner when it follows the
    /// winner's suit with a strictly higher rank, or when it is a Spade and
    /// the provisional winner is not. A Spade never overtakes a higher Spade:
    /// among Spades the same-suit rule governs.
    pub open spec fn spec_beats(new: Card, cur: Card) -> bool {
        ||| (new.suit == cur.suit && new.rank.spec_value() > cur.rank.spec_value())
        ||| (new.suit == Suit::Spades && cur.suit != Suit::Spades)
    }

    /// Scan the seats at cyclic offsets k..4 past the lead, carrying the
    /// provisional winner; the scan stops at the first unoccupied slot.
    pub open spec fn winner_from(self, k: int, w: (int, Card)) -> (int, Card)
        decreases 4 - k,
    {
        if k < 1 || k >= 4 {
            w
        } else {
            let seat = (self.start.0 as int + k) % 4;
            match self.slot(seat) {
                None => w,
                Some(c) => self.winner_from(
                    k + 1,
                    if Self::spec_beats(c, w.1) {
                        (seat, c)
                    } else {
                        w
                    },
                ),
            }
        }
    }

    /// The winning (seat, card) pair, starting from the lead card as the
    /// provisional winner. Meaningful only when the lead slot is occupied.
    pub open spec fn spec_winner(self) -> (int, Card) {
        let s = self.start.0 as int;
        self.winner_from(1, (s, self.slot(s).unwrap()))
    }

    pub fn new(start: Turn) -> (t: Trick)
        ensures
            t.start == start,
            t.cards@ =~= seq![None::<Card>, None::<Card>, None::<Card>, None::<Card>],
            start.wf() ==> t.wf(),
            t.spec_empty(),
    {
        let mut cards: Vec<Option<Card>> = Vec::new();
        cards.push(None);
        cards.push(None);
        cards.push(None);
        cards.push(None);
        Trick { start, cards }
    }

    pub fn is_full(&self) -> (r: bool)
        requires
            self.wf(),
        ensures
            r == self.spec_full(),
    {
        self.cards[0].is_some() && self.cards[1].is_some() && self.cards[2].is_some()
            && self.cards[3].is_some()
    }

    pub fn is_empty(&self) -> (r: bool)
        requires
            self.wf(),
        ensures
            r == self.spec_empty(),
    {
        self.cards[0].is_none() && self.cards[1].is_none() && self.cards[2].is_none()
            && self.cards[3].is_none()
    }

    /// The next unfilled seat scanning cyclically from the lead seat; reports
    /// a full trick once all 4 slots are occupied.
    pub fn next(&self) -> (r: Result<Turn, Error>)
        requires
            self.wf(),
        ensures
            self.spec_full() ==> r == Err::<Turn, Error>(Error::TrickIsFull),
            !self.spec_full() ==> r == Ok::<Turn, Error>(Turn(self.spec_next_seat() as usize)),
            r matches Ok(t) ==> t.wf() && self.slot(t.0 as int) is None,
    {
        let s = self.start.0;
        let s0 = s % 4;
        if self.cards[s0].is_none() {
            return Ok(Turn(s0));
        }
        let s1 = (s + 1) % 4;
        if self.cards[s1].is_none() {
            return Ok(Turn(s1));
        }
        let s2 = (s + 2) % 4;
        if self.cards[s2].is_none() {
            return Ok(Turn(s2));
        }
        let s3 = (s + 3) % 4;
        if self.cards[s3].is_none() {
            return Ok(Turn(s3));
        }
        Err(Error::TrickIsFull)
    }

    /// Places the card in the slot of the seat that plays next. No legality
    /// check happens here: which cards may be played is the caller's concern,
    /// settled against a Hand.
    pub fn add(&mut self, card: Card) -> (r: Result<(), Error>)
        requires
            old(self).wf(),
        ensures
            final(self).wf(),
            final(self).start == old(self).start,
            old(self).spec_full() ==> r == Err::<(), Error>(Error::TrickIsFull) && *final(self)
                == *old(self),
            !old(self).spec_full() ==> r == Ok::<(), Error>(()) && final(self).cards@ =~= old(
                self,
            ).cards@.update(old(self).spec_next_seat(), Some(card)),
    {
        let next = match self.next() {
            Err(e) => {
                return Err(e);
            },
            Ok(t) => t,
        };
        self.cards[next.0] = Some(card);
        Ok(())
    }

    /// The winning (seat, card) pair: the lead card is the provisional winner
    /// and each later card in seat order overtakes it per `spec_beats`.
    pub fn winner(&self) -> (r: Result<(Turn, Card), Error>)
        requires
            self.wf(),
        ensures
            self.spec_empty() ==> r == Err::<(Turn, Card), Error>(Error::TrickIsEmpty),
            !self.spec_empty() && self.slot(self.start.0 as int) is None ==> r == Err::<
                (Turn, Card),
                Error,
            >(Error::TrickHasNoneCardSomeExpected),
            !self.spec_empty() && self.slot(self.start.0 as int) is Some ==> r == Ok::<
                (Turn, Card),
                Error,
            >((Turn(self.spec_winner().0 as usize), self.spec_winner().1)),
    {
        if self.is_empty() {
            return Err(Error::TrickIsEmpty);
        }
        let start_card = match self.cards[self.start.0] {
            None => {
                return Err(Error::TrickHasNoneCardSomeExpected);
            },
            Some(c) => c,
        };
        let mut wt: usize = self.start.0;
        let mut wc: Card = start_card;
        let ghost w0 = (self.start.0 as int, start_card);

        let s1 = (self.start.0 + 1) % 4;
        match self.cards[s1] {
            None => {
                assert(self.spec_winner() == w0);
                return Ok((Turn(wt), wc));
            },
            Some(c) => {
                if Self::beats(c, wc) {
                    wt = s1;
                    wc = c;
                }
            },
        }
        let ghost w1 = (wt as int, wc);
        assert(self.spec_winner() == self.winner_from(2, w1));

        let s2 = (self.start.0 + 2) % 4;
        match self.cards[s2] {
            None => {
                assert(self.winner_from(2, w1) == w1);
                return Ok((Turn(wt), wc));
            },
            Some(c) => {
                if Self::beats(c, wc) {
                    wt = s2;
                    wc = c;
                }
            },
        }
        let ghost w2 = (wt as int, wc);
        assert(self.winner_from(2, w1) == self.winner_from(3, w2));

        let s3 = (self.start.0 + 3) % 4;
        match self.cards[s3] {
            None => {
                assert(self.winner_from(3, w2) == w2);
                return Ok((Turn(wt), wc));
            },
            Some(c) => {
                if Self::beats(c, wc) {
                    wt = s3;
                    wc = c;
                }
            },
        }
        let ghost w3 = (wt as int, wc);
        assert(self.winner_from(3, w2) == self.winner_from(4, w3));
        assert(self.winner_from(4, w3) == w3);
        Ok((Turn(wt), wc))
    }

    /// The lead seat's card, if played.
    pub fn starter(&self) -> (r: Option<Card>)
        requires
            self.wf(),
        ensures
            r == self.slot(self.start.0 as int),
    {
        self.cards[self.start.0]
    }

    fn beats(new: Card, cur: Card) -> (r: bool)
        ensures
            r == Self::spec_beats(new, cur),
    {
        (new.suit == cur.suit && new.rank.value() > cur.rank.value()) || (new.suit == Suit::Spades
            && cur.suit != Suit::Spades)
    }
}

/// Law: advancing the turn wraps modulo 4 — the seat a trick reports as next
/// is always one of the four seats.
pub proof fn lemma_next_seat_wraps(t: Trick)
    requires
        t.wf(),
    ensures
        0 <= t.spec_next_seat() < 4,
{
}

/// Law: a trick's winner is one of the cards actually played — the winning
/// seat's slot holds exactly the winning card.
pub proof fn lemma_winner_is_played(t: Trick)
    requires
        t.wf(),
        t.slot(t.start.0 as int) is Some,
    ensures
        0 <= t.spec_winner().0 < 4,
        t.slot(t.spec_winner().0) == Some(t.spec_winner().1),
{
    let s = t.start.0 as int;
    lemma_winner_from_played(t, 1, (s, t.slot(s).unwrap()));
}

proof fn lemma_winner_from_played(t: Trick, k: int, w: (int, Card))
    requires
        t.wf(),
        0 <= w.0 < 4,
        t.slot(w.0) == Some(w.1),
    ensures
        0 <= t.winner_from(k, w).0 < 4,
        t.slot(t.winner_from(k, w).0) == Some(t.winner_from(k, w).1),
    decreases 4 - k,
{
    if 1 <= k < 4 {
        let seat = (t.start.0 as int + k) % 4;
        match t.slot(seat) {
            None => {},
            Some(c) => {
                if Trick::spec_beats(c, w.1) {
                    lemma_winner_from_played(t, k + 1, (seat, c));
                } else {
                    lemma_winner_from_played(t, k + 1, w);
                }
            },
        }
    }
}

} // verus!
