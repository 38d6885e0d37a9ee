use callbreak::round::RoundState;
use callbreak::{Call, Card, Error, Hand, Rank, Round, RoundId, Suit, Trick, Turn};

#[test]
fn test_round_id_bounds() {
    assert_eq!(RoundId::try_from(0), Ok(RoundId(0)));
    assert_eq!(RoundId::try_from(4), Ok(RoundId(4)));
    assert_eq!(RoundId::try_from(5), Err(Error::RoundIdTooLarge));
}

#[test]
fn test_round_plays_to_completion() {
    let mut round = Round::new(RoundId::try_from(0).unwrap());

    // playing a card during the call phase is rejected
    assert_eq!(
        round.make_a_break(Turn::try_from(0).unwrap(), Card::new(Suit::Clubs, Rank::Two)),
        Err(Error::RoundIsNotBreaking)
    );

    // exactly 4 calls precede any trick
    for _ in 0..4 {
        assert!(round.tricks.is_empty());
        let turn = round.next().unwrap();
        round
            .make_a_call(turn, Call::try_from(3).unwrap())
            .unwrap();
    }
    assert!(round.tricks.is_empty());

    // a fifth call is rejected
    assert_eq!(
        round.make_a_call(Turn::try_from(0).unwrap(), Call::try_from(1).unwrap()),
        Err(Error::RoundIsNotCalling)
    );

    // exactly 13 tricks are played, 52 cards in all
    for _ in 0..52 {
        let turn = round.next().unwrap();
        let moves = {
            let trick = round.tricks.last().unwrap();
            round.hands[turn.get_value()]
                .get_valid_card_for(trick)
                .unwrap()
        };
        assert!(!moves.is_empty());
        round.make_a_break(turn, moves[0]).unwrap();
    }
    assert_eq!(round.tricks.len(), 13);

    // the terminal state is idempotent: the round keeps reporting RoundOver
    assert_eq!(round.next(), Err(Error::RoundOver));
    assert_eq!(round.next(), Err(Error::RoundOver));
    assert_eq!(
        round.make_a_break(Turn::try_from(0).unwrap(), Card::new(Suit::Clubs, Rank::Two)),
        Err(Error::RoundOver)
    );
}

fn low_diamond_hand() -> Hand {
    Hand::try_from(&vec![
        Card::new(Suit::Diamonds, Rank::Two),
        Card::new(Suit::Diamonds, Rank::Three),
        Card::new(Suit::Diamonds, Rank::Four),
        Card::new(Suit::Diamonds, Rank::Five),
        Card::new(Suit::Diamonds, Rank::Six),
        Card::new(Suit::Diamonds, Rank::Seven),
        Card::new(Suit::Spades, Rank::Two),
        Card::new(Suit::Spades, Rank::Three),
        Card::new(Suit::Spades, Rank::Four),
        Card::new(Suit::Spades, Rank::Five),
        Card::new(Suit::Spades, Rank::Six),
        Card::new(Suit::Spades, Rank::Seven),
        Card::new(Suit::Clubs, Rank::King),
    ])
    .unwrap()
}

fn high_diamond_hand() -> Hand {
    Hand::try_from(&vec![
        Card::new(Suit::Diamonds, Rank::Eight),
        Card::new(Suit::Diamonds, Rank::Nine),
        Card::new(Suit::Diamonds, Rank::Ten),
        Card::new(Suit::Diamonds, Rank::Jack),
        Card::new(Suit::Diamonds, Rank::Queen),
        Card::new(Suit::Diamonds, Rank::King),
        Card::new(Suit::Spades, Rank::Eight),
        Card::new(Suit::Spades, Rank::Nine),
        Card::new(Suit::Spades, Rank::Ten),
        Card::new(Suit::Spades, Rank::Jack),
        Card::new(Suit::Spades, Rank::Queen),
        Card::new(Suit::Spades, Rank::King),
        Card::new(Suit::Clubs, Rank::Ace),
    ])
    .unwrap()
}

fn heart_hand() -> Hand {
    Hand::try_from(&vec![
        Card::new(Suit::Hearts, Rank::Two),
        Card::new(Suit::Hearts, Rank::Three),
        Card::new(Suit::Hearts, Rank::Four),
        Card::new(Suit::Hearts, Rank::Five),
        Card::new(Suit::Hearts, Rank::Six),
        Card::new(Suit::Hearts, Rank::Seven),
        Card::new(Suit::Hearts, Rank::Eight),
        Card::new(Suit::Hearts, Rank::Nine),
        Card::new(Suit::Hearts, Rank::Ten),
        Card::new(Suit::Hearts, Rank::Jack),
        Card::new(Suit::Hearts, Rank::Queen),
        Card::new(Suit::Hearts, Rank::King),
        Card::new(Suit::Spades, Rank::Ace),
    ])
    .unwrap()
}

fn club_hand() -> Hand {
    Hand::try_from(&vec![
        Card::new(Suit::Clubs, Rank::Two),
        Card::new(Suit::Clubs, Rank::Three),
        Card::new(Suit::Clubs, Rank::Four),
        Card::new(Suit::Clubs, Rank::Five),
        Card::new(Suit::Clubs, Rank::Six),
        Card::new(Suit::Clubs, Rank::Seven),
        Card::new(Suit::Clubs, Rank::Eight),
        Card::new(Suit::Clubs, Rank::Nine),
        Card::new(Suit::Clubs, Rank::Ten),
        Card::new(Suit::Clubs, Rank::Jack),
        Card::new(Suit::Clubs, Rank::Queen),
        Card::new(Suit::Diamonds, Rank::Ace),
        Card::new(Suit::Spades, Rank::Queen),
    ])
    .unwrap()
}

fn break_phase_round() -> Round {
    Round {
        id: RoundId(0),
        hands: vec![
            low_diamond_hand(),
            high_diamond_hand(),
            heart_hand(),
            club_hand(),
        ],
        state: RoundState::Break,
        calls: vec![
            Some(Call(2)),
            Some(Call(2)),
            Some(Call(2)),
            Some(Call(2)),
        ],
        tricks: vec![],
    }
}

#[test]
fn test_break_rejects_wrong_turn_and_illegal_card() {
    let mut round = break_phase_round();

    // seat 0 leads the first trick; another seat may not act
    assert_eq!(
        round.make_a_break(Turn::try_from(3).unwrap(), Card::new(Suit::Clubs, Rank::Two)),
        Err(Error::NotYourTurn)
    );

    // seat 0 leads a low Diamond
    round
        .make_a_break(
            Turn::try_from(0).unwrap(),
            Card::new(Suit::Diamonds, Rank::Two),
        )
        .unwrap();

    // seat 1 holds Diamonds, so discarding the Ace of Clubs is illegal
    assert_eq!(
        round.make_a_break(Turn::try_from(1).unwrap(), Card::new(Suit::Clubs, Rank::Ace)),
        Err(Error::InvalidCardForBreak)
    );

    // following suit with a higher Diamond is legal
    round
        .make_a_break(
            Turn::try_from(1).unwrap(),
            Card::new(Suit::Diamonds, Rank::Eight),
        )
        .unwrap();

    // seat 2 holds no Diamonds: it must trump with its one Spade
    assert_eq!(
        round.make_a_break(Turn::try_from(2).unwrap(), Card::new(Suit::Hearts, Rank::Two)),
        Err(Error::InvalidCardForBreak)
    );
    round
        .make_a_break(
            Turn::try_from(2).unwrap(),
            Card::new(Suit::Spades, Rank::Ace),
        )
        .unwrap();
}

#[test]
fn test_played_card_is_not_offered_again() {
    let mut round = break_phase_round();
    round
        .make_a_break(
            Turn::try_from(0).unwrap(),
            Card::new(Suit::Diamonds, Rank::Two),
        )
        .unwrap();
    // once committed to a trick, the card's tag flips to NotPlayable: when
    // seat 0 next leads, the Two of Diamonds is no longer offered
    let moves = round.hands[0]
        .get_valid_card_for(&Trick::new(Turn::try_from(0).unwrap()))
        .unwrap();
    assert!(!moves.contains(&Card::new(Suit::Diamonds, Rank::Two)));
    assert_eq!(moves.len(), 12);
}
