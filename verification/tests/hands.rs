use callbreak::{Call, Card, Error, Hand, Rank, Suit, Trick, Turn};

#[test]
fn test_call_try_from_usize_works() {
    assert_eq!(Call::try_from(5), Ok(Call(5)));
    assert_eq!(Call::try_from(0), Err(Error::CallValueTooLow(0)));
    assert_eq!(Call::try_from(9), Err(Error::CallValueTooHigh(9)));
}

#[test]
fn test_call_bounds_are_inclusive() {
    assert_eq!(Call::try_from(1), Ok(Call(1)));
    assert_eq!(Call::try_from(8), Ok(Call(8)));
}

#[test]
fn test_get_valid_card_for_same_suit_starter_winner_works() {
    let two_of_hearts = Card::new(Suit::Hearts, Rank::Two);
    let five_of_hearts = Card::new(Suit::Hearts, Rank::Five);
    let seven_of_hearts = Card::new(Suit::Hearts, Rank::Seven);
    let nine_of_hearts = Card::new(Suit::Hearts, Rank::Nine);
    let queen_of_hearts = Card::new(Suit::Hearts, Rank::Queen);
    let king_of_hearts = Card::new(Suit::Hearts, Rank::King);
    let two_of_spades = Card::new(Suit::Spades, Rank::Two);
    let five_of_spades = Card::new(Suit::Spades, Rank::Five);
    let seven_of_spades = Card::new(Suit::Spades, Rank::Seven);
    let nine_of_spades = Card::new(Suit::Spades, Rank::Nine);
    let queen_of_spades = Card::new(Suit::Spades, Rank::Queen);
    let king_of_spades = Card::new(Suit::Spades, Rank::King);
    let king_of_clubs = Card::new(Suit::Clubs, Rank::King);

    let hand = Hand::try_from(&vec![
        two_of_hearts,
        five_of_hearts,
        seven_of_hearts,
        nine_of_hearts,
        queen_of_hearts,
        king_of_hearts,
        two_of_spades,
        five_of_spades,
        seven_of_spades,
        nine_of_spades,
        queen_of_spades,
        king_of_spades,
        king_of_clubs,
    ])
    .unwrap();

    let mut trick = Trick::new(Turn::try_from(0).unwrap());
    trick.add(Card::new(Suit::Hearts, Rank::Three)).unwrap();
    trick.add(Card::new(Suit::Hearts, Rank::Ten)).unwrap();
    let ans = hand.get_valid_card_for(&trick).unwrap();
    assert_eq!(ans, vec![queen_of_hearts, king_of_hearts]);

    let mut trick = Trick::new(Turn::try_from(0).unwrap());
    trick.add(Card::new(Suit::Hearts, Rank::Three)).unwrap();
    trick.add(Card::new(Suit::Hearts, Rank::Ace)).unwrap();
    let ans = hand.get_valid_card_for(&trick).unwrap();
    assert_eq!(
        ans,
        vec![
            two_of_hearts,
            five_of_hearts,
            seven_of_hearts,
            nine_of_hearts,
            queen_of_hearts,
            king_of_hearts
        ]
    );

    let mut trick = Trick::new(Turn::try_from(0).unwrap());
    trick.add(Card::new(Suit::Diamonds, Rank::Three)).unwrap();
    trick.add(Card::new(Suit::Diamonds, Rank::Ace)).unwrap();
    let ans = hand.get_valid_card_for(&trick).unwrap();
    assert_eq!(
        ans,
        vec![
            two_of_spades,
            five_of_spades,
            seven_of_spades,
            nine_of_spades,
            queen_of_spades,
            king_of_spades
        ]
    );

    let mut trick = Trick::new(Turn::try_from(0).unwrap());
    trick.add(Card::new(Suit::Diamonds, Rank::Three)).unwrap();
    trick.add(Card::new(Suit::Spades, Rank::Ten)).unwrap();
    let ans = hand.get_valid_card_for(&trick).unwrap();
    assert_eq!(ans, vec![queen_of_spades, king_of_spades]);
}

fn sample_hand_cards() -> Vec<Card> {
    vec![
        Card::new(Suit::Hearts, Rank::Two),
        Card::new(Suit::Hearts, Rank::Five),
        Card::new(Suit::Hearts, Rank::Seven),
        Card::new(Suit::Hearts, Rank::Nine),
        Card::new(Suit::Hearts, Rank::Queen),
        Card::new(Suit::Hearts, Rank::King),
        Card::new(Suit::Spades, Rank::Two),
        Card::new(Suit::Spades, Rank::Five),
        Card::new(Suit::Spades, Rank::Seven),
        Card::new(Suit::Spades, Rank::Nine),
        Card::new(Suit::Spades, Rank::Queen),
        Card::new(Suit::Spades, Rank::King),
        Card::new(Suit::Clubs, Rank::King),
    ]
}

#[test]
fn test_hand_validation_counts_cards() {
    let mut too_few = sample_hand_cards();
    too_few.pop();
    assert_eq!(
        Hand::is_valid(&too_few),
        Err(Error::NotEnoughCardsForHand)
    );

    let mut too_many = sample_hand_cards();
    too_many.push(Card::new(Suit::Diamonds, Rank::Two));
    assert_eq!(Hand::is_valid(&too_many), Err(Error::TooManyCardsForHand));

    assert_eq!(Hand::is_valid(&sample_hand_cards()), Ok(()));
}

#[test]
fn test_hand_validation_needs_spade() {
    let mut cards = sample_hand_cards();
    for card in cards.iter_mut() {
        if card.get_suit() == Suit::Spades {
            *card = Card::new(Suit::Diamonds, card.get_rank());
        }
    }
    assert_eq!(Hand::is_valid(&cards), Err(Error::SpadeNotInHand));
}

#[test]
fn test_hand_validation_needs_face_card() {
    // thirteen low cards with a spade among them but nothing above a Ten
    let mut cards: Vec<Card> = vec![];
    for rank in [
        Rank::Two,
        Rank::Three,
        Rank::Four,
        Rank::Five,
        Rank::Six,
        Rank::Seven,
    ] {
        cards.push(Card::new(Suit::Hearts, rank));
        cards.push(Card::new(Suit::Spades, rank));
    }
    cards.push(Card::new(Suit::Clubs, Rank::Ten));
    assert_eq!(Hand::is_valid(&cards), Err(Error::FaceCardNotInHand));
}

#[test]
fn test_hand_validation_rejects_duplicates() {
    let mut cards = sample_hand_cards();
    cards[0] = cards[1];
    assert_eq!(Hand::is_valid(&cards), Err(Error::DuplicateCardInHand));
}

#[test]
fn test_get_valid_card_for_full_trick_is_rejected() {
    let hand = Hand::try_from(&sample_hand_cards()).unwrap();
    let mut trick = Trick::new(Turn::try_from(0).unwrap());
    for rank in [Rank::Two, Rank::Three, Rank::Four, Rank::Five] {
        trick.add(Card::new(Suit::Diamonds, rank)).unwrap();
    }
    assert_eq!(hand.get_valid_card_for(&trick), Err(Error::TrickIsFull));
}

#[test]
fn test_get_valid_card_for_leading_seat_has_no_restriction() {
    let cards = sample_hand_cards();
    let hand = Hand::try_from(&cards).unwrap();
    let trick = Trick::new(Turn::try_from(0).unwrap());
    let ans = hand.get_valid_card_for(&trick).unwrap();
    assert_eq!(ans, cards);
}
