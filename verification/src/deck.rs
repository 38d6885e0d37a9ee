use vstd::prelude::*;

use rand::seq::SliceRandom;

use crate::card::{Card, Rank, Suit};
use crate::hand::{valid_hand, Hand};

verus! {

/// The suit of the k-th block of 13 cards in a fresh deck.
pub open spec fn spec_suit_of(i: int) -> Suit {
    if i == 0 {
        Suit::Clubs
    } else if i == 1 {
        Suit::Diamonds
    } else if i == 2 {
        Suit::Hearts
    } else {
        Suit::Spades
    }
}

/// The rank at position j within one suit's block of a fresh deck.
pub open spec fn spec_rank_of(j: int) -> Rank {
    if j == 0 {
        Rank::Two
    } else if j == 1 {
        Rank::Three
    } else if j == 2 {
        Rank::Four
    } else if j == 3 {
        Rank::Five
    } else if j == 4 {
        Rank::Six
    } else if j == 5 {
        Rank::Seven
    } else if j == 6 {
        Rank::Eight
    } else if j == 7 {
        Rank::Nine
    } else if j == 8 {
        Rank::Ten
    } else if j == 9 {
        Rank::Jack
    } else if j == 10 {
        Rank::Queen
    } else {
        if j == 11 {
            Rank::King
        } else {
            Rank::Ace
        }
    }
}

/// The card at position k of a fresh, ordered deck: the 4 suits in order,
/// 13 ranks each, low to high.
pub open spec fn card_of(k: int) -> Card {
    Card { suit: spec_suit_of(k / 13), rank: spec_rank_of(k % 13) }
}

/// A fresh, ordered 52-card deck.
pub open spec fn full_deck() -> Seq<Card> {
    Seq::new(52, |k: int| card_of(k))
}

/// The fixed re-deal order used if random dealing keeps producing an invalid
/// partition: the fresh deck dealt round-robin, written out contiguously so
/// that each group of 13 consecutive cards is one seat's hand.
pub open spec fn fallback_deck() -> Seq<Card> {
    Seq::new(52, |m: int| card_of(4 * (m % 13) + m / 13))
}

/// Positions of a fresh deck hold pairwise distinct cards.
pub proof fn lemma_card_of_injective(i: int, j: int)
    requires
        0 <= i < 52,
        0 <= j < 52,
        i != j,
    ensures
        card_of(i) != card_of(j),
{
    vstd::arithmetic::div_mod::lemma_fundamental_div_mod(i, 13);
    vstd::arithmetic::div_mod::lemma_fundamental_div_mod(j, 13);
}

/// Law: a fresh deck holds exactly 52 unique cards — its positions are
/// pairwise distinct.
pub proof fn lemma_full_deck_distinct()
    ensures
        forall|i: int, j: int|
            0 <= i < 52 && 0 <= j < 52 && i != j ==> full_deck()[i] != full_deck()[j],
{
    assert forall|i: int, j: int|
        0 <= i < 52 && 0 <= j < 52 && i != j implies full_deck()[i] != full_deck()[j] by {
        lemma_card_of_injective(i, j);
    }
}

/// Law: a fresh deck is complete — every (suit, rank) combination occurs.
pub proof fn lemma_full_deck_complete()
    ensures
        forall|s: Suit, r: Rank| #[trigger] full_deck().contains(Card { suit: s, rank: r }),
{
    assert forall|s: Suit, r: Rank| #[trigger]
        full_deck().contains(Card { suit: s, rank: r }) by {
        let k = 13 * s.spec_value() + r.spec_value();
        vstd::arithmetic::div_mod::lemma_fundamental_div_mod_converse(
            k,
            13,
            s.spec_value(),
            r.spec_value(),
        );
        assert(full_deck()[k] == Card { suit: s, rank: r });
    }
}

/// Produces the 52 unique cards; shuffled and partitioned into four validated
/// hands by `deal`, then discarded.
#[derive(Debug)]
pub struct Deck {
    pub cards: Vec<Card>,
}

impl Deck {
    /// A full deck, created ordered.
    pub fn new() -> (d: Deck)
        ensures
            d.cards@.len() == 52,
            d.cards@ =~= full_deck(),
    {
        let mut cards: Vec<Card> = Vec::new();
        let mut k: usize = 0;
        while k < 52
            invariant
                k <= 52,
                cards@.len() == k,
                forall|m: int| 0 <= m < k ==> cards@[m] == card_of(m),
            decreases 52 - k,
        {
            cards.push(card_of_exec(k));
            k += 1;
        }
        Deck { cards }
    }

    /// Shuffle all 52 cards uniformly at random, then partition them into
    /// four contiguous groups of 13 and validate each group as a Hand. If any
    /// group fails validation, reshuffle the whole deck and try again. An
    /// attempt cap guards against pathological non-termination; once it is
    /// exhausted (rejection probability makes this all but unreachable) the
    /// deck falls back to the fixed round-robin re-deal, which always
    /// validates.
    pub fn deal(&mut self) -> (hands: Vec<Hand>)
        requires
            old(self).cards@.len() == 52,
        ensures
            final(self).cards@.len() == 52,
            final(self).cards@.to_multiset() == old(self).cards@.to_multiset() || final(
                self).cards@ =~= fallback_deck(),
            hands@.len() == 4,
            forall|h: int|
                0 <= h < 4 ==> (#[trigger] hands@[h]).wf() && valid_hand(hands@[h].spec_cards())
                    && hands@[h].playables() =~= hands@[h].spec_cards(),
            forall|h: int|
                0 <= h < 4 ==> (#[trigger] hands@[h]).spec_cards() =~= final(
                    self).cards@.subrange(13 * h, 13 * h + 13),
    {
        let mut attempts: usize = 0;
        while attempts < 1000
            invariant
                self.cards@.len() == 52,
                self.cards@.to_multiset() == old(self).cards@.to_multiset(),
            decreases 1000 - attempts,
        {
            shuffle_in_place(&mut self.cards);
            match Self::try_deal(&self.cards) {
                Some(hands) => {
                    return hands;
                },
                None => {},
            }
            attempts += 1;
        }

        // Fallback: rewrite the deck in the fixed round-robin order and deal
        // its contiguous groups, which are valid by construction.
        let mut cards: Vec<Card> = Vec::new();
        let mut h: usize = 0;
        while h < 4
            invariant
                h <= 4,
                cards@.len() == 13 * h,
                forall|m: int| 0 <= m < 13 * h ==> cards@[m] == fallback_deck()[m],
            decreases 4 - h,
        {
            let mut j: usize = 0;
            while j < 13
                invariant
                    h < 4,
                    j <= 13,
                    cards@.len() == 13 * h + j,
                    forall|m: int| 0 <= m < 13 * h + j ==> cards@[m] == fallback_deck()[m],
                decreases 13 - j,
            {
                cards.push(card_of_exec(4 * j + h));
                proof {
                    let m = 13 * (h as int) + (j as int);
                    assert(m % 13 == j as int && m / 13 == h as int) by (nonlinear_arith)
                        requires
                            0 <= (h as int) < 4,
                            0 <= (j as int) < 13,
                            m == 13 * (h as int) + (j as int),
                    ;
                }
                j += 1;
            }
            h += 1;
        }
        self.cards = cards;
        assert(self.cards@ =~= fallback_deck());
        proof {
            assert forall|g: int| 0 <= g < 4 implies valid_hand(
                #[trigger] self.cards@.subrange(13 * g, 13 * g + 13),
            ) by {
                lemma_fallback_chunk_valid(self.cards@.subrange(13 * g, 13 * g + 13), g);
            }
        }
        match Self::try_deal(&self.cards) {
            Some(hands) => hands,
            None => {
                proof {
                    assert(false);
                }
                Vec::new()
            },
        }
    }

    /// Partition the 52 cards into four contiguous groups of 13 and validate
    /// each as a Hand; reports nothing if any group is invalid.
    fn try_deal(cards: &Vec<Card>) -> (r: Option<Vec<Hand>>)
        requires
            cards@.len() == 52,
        ensures
            r matches Some(hands) ==> hands@.len() == 4 && (forall|h: int|
                0 <= h < 4 ==> (#[trigger] hands@[h]).wf() && valid_hand(hands@[h].spec_cards())
                    && hands@[h].playables() =~= hands@[h].spec_cards() && hands@[h].spec_cards()
                    =~= cards@.subrange(13 * h, 13 * h + 13)),
            (forall|h: int| 0 <= h < 4 ==> valid_hand(#[trigger] cards@.subrange(13 * h, 13 * h + 13)))
                ==> r is Some,
    {
        let mut hands: Vec<Hand> = Vec::new();
        let mut h: usize = 0;
        while h < 4
            invariant
                cards@.len() == 52,
                h <= 4,
                hands@.len() == h,
                forall|g: int|
                    0 <= g < h ==> (#[trigger] hands@[g]).wf() && valid_hand(
                        hands@[g].spec_cards(),
                    ) && hands@[g].playables() =~= hands@[g].spec_cards()
                        && hands@[g].spec_cards() =~= cards@.subrange(13 * g, 13 * g + 13),
            decreases 4 - h,
        {
            let mut chunk: Vec<Card> = Vec::new();
            let mut j: usize = 0;
            while j < 13
                invariant
                    cards@.len() == 52,
                    h < 4,
                    j <= 13,
                    chunk@.len() == j,
                    forall|m: int| 0 <= m < j ==> chunk@[m] == cards@[13 * h + m],
                decreases 13 - j,
            {
                chunk.push(cards[13 * h + j]);
                j += 1;
            }
            assert(chunk@ =~= cards@.subrange(13 * (h as int), 13 * (h as int) + 13));
            match Hand::try_from(&chunk) {
                Err(_) => {
                    return None;
                },
                Ok(hand) => {
                    hands.push(hand);
                },
            }
            h += 1;
        }
        Some(hands)
    }
}

/// A contiguous group of the fallback re-deal order is a valid hand: it holds
/// a Spade, a face card, and 13 pairwise distinct cards.
proof fn lemma_fallback_chunk_valid(s: Seq<Card>, h: int)
    requires
        0 <= h < 4,
        s.len() == 13,
        forall|j: int| 0 <= j < 13 ==> s[j] == fallback_deck()[13 * h + j],
    ensures
        valid_hand(s),
{
    assert forall|j: int| 0 <= j < 13 implies s[j] == card_of(4 * j + h) by {
        let m = 13 * h + j;
        assert(m % 13 == j && m / 13 == h) by (nonlinear_arith)
            requires
                0 <= h < 4,
                0 <= j < 13,
                m == 13 * h + j,
        ;
    }
    // a Spade: position 10 holds the card at fresh-deck index 40 + h, which
    // lies in the Spades block [39, 52)
    assert(s[10] == card_of(40 + h));
    assert((40 + h) / 13 == 3);
    assert(s[10].suit == Suit::Spades);
    // a face card: index 12 (the Ace of Clubs) for seat 0, else index 9..11
    // (Jack, Queen, King of Clubs)
    let j_face: int = if h == 0 {
        3
    } else {
        2
    };
    assert(s[j_face] == card_of(4 * j_face + h));
    assert((4 * j_face + h) / 13 == 0 && (4 * j_face + h) % 13 == 4 * j_face + h);
    assert(s[j_face].rank.spec_is_face());
    // no duplicates: distinct fresh-deck indices hold distinct cards
    assert forall|i: int, j: int| 0 <= i < j < 13 implies s[i] != s[j] by {
        lemma_card_of_injective(4 * i + h, 4 * j + h);
    }
}

fn suit_of(i: usize) -> (s: Suit)
    requires
        i < 4,
    ensures
        s == spec_suit_of(i as int),
{
    if i == 0 {
        Suit::Clubs
    } else if i == 1 {
        Suit::Diamonds
    } else if i == 2 {
        Suit::Hearts
    } else {
        Suit::Spades
    }
}

fn rank_of(j: usize) -> (r: Rank)
    requires
        j < 13,
    ensures
        r == spec_rank_of(j as int),
{
    if j == 0 {
        Rank::Two
    } else if j == 1 {
        Rank::Three
    } else if j == 2 {
        Rank::Four
    } else if j == 3 {
        Rank::Five
    } else if j == 4 {
        Rank::Six
    } else if j == 5 {
        Rank::Seven
    } else if j == 6 {
        Rank::Eight
    } else if j == 7 {
        Rank::Nine
    } else if j == 8 {
        Rank::Ten
    } else if j == 9 {
        Rank::Jack
    } else if j == 10 {
        Rank::Queen
    } else if j == 11 {
        Rank::King
    } else {
        Rank::Ace
    }
}

fn card_of_exec(k: usize) -> (c: Card)
    requires
        k < 52,
    ensures
        c == card_of(k as int),
{
    Card::new(suit_of(k / 13), rank_of(k % 13))
}

/// Relies on rand's SliceRandom::shuffle, a Fisher-Yates swap loop: it
/// permutes the elements in place, using the thread-local generator.
#[verifier::external_body]
pub(crate) fn shuffle_in_place<T>(v: &mut Vec<T>)
    ensures
        final(v)@.len() == old(v)@.len(),
        final(v)@.to_multiset() == old(v)@.to_multiset(),
{
    v.shuffle(&mut rand::thread_rng());
}

} // verus!
