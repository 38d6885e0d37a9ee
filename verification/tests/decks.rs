use callbreak::{Card, Deck, Rank, Suit};

#[test]
fn test_new_deck_has_all_cards() {
    let deck = Deck::new();
    for suit in Suit::all() {
        for rank in Rank::all() {
            let mut found = false;
            let card = Card::new(suit, rank);
            for deck_card in &deck.cards {
                if card == *deck_card {
                    found = true;
                    break;
                }
            }
            assert!(found)
        }
    }
}

#[test]
fn test_deal_works() {
    let mut deck = Deck::new();
    let hands = deck.deal();
    assert!(hands.len() == 4);
}

#[test]
fn test_deal_returns_all_fifty_two_cards() {
    // the four dealt hands together hold each of the 52 cards exactly once;
    // this fails if shuffling loses or duplicates a card
    let mut deck = Deck::new();
    let hands = deck.deal();
    let mut dealt: Vec<Card> = vec![];
    for hand in &hands {
        assert_eq!(hand.cards.len(), 13);
        for (card, _) in &hand.cards {
            dealt.push(*card);
        }
    }
    assert_eq!(dealt.len(), 52);
    for suit in Suit::all() {
        for rank in Rank::all() {
            let card = Card::new(suit, rank);
            let count = dealt.iter().filter(|c| **c == card).count();
            assert_eq!(count, 1);
        }
    }
}

#[test]
fn test_dealt_hands_have_spade_and_face() {
    let mut deck = Deck::new();
    let hands = deck.deal();
    for hand in &hands {
        let spades = hand
            .cards
            .iter()
            .filter(|(c, _)| c.get_suit() == Suit::Spades)
            .count();
        assert!(spades >= 1);
        let faces = hand
            .cards
            .iter()
            .filter(|(c, _)| c.get_rank() >= Rank::Jack)
            .count();
        assert!(faces >= 1);
    }
}
