use callbreak::{Call, Card, Error, Game, PlayerInfo, Rank, Suit};

#[test]
fn test_game_rejects_actions_while_waiting_for_players() {
    let mut game = Game::new();
    let p0 = PlayerInfo::new(0);
    assert_eq!(
        game.make_a_call(&p0, Call::try_from(2).unwrap()),
        Err(Error::GameWaitingForPlayersToJoin)
    );
    assert_eq!(
        game.make_a_break(&p0, Card::new(Suit::Clubs, Rank::Two)),
        Err(Error::GameWaitingForPlayersToJoin)
    );
}

#[test]
fn test_game_rejects_fifth_player() {
    let mut game = Game::new();
    for i in 0..4 {
        game.add_player(&PlayerInfo::new(i as u128)).unwrap();
    }
    assert_eq!(game.players.len(), 4);
    assert_eq!(
        game.add_player(&PlayerInfo::new(4)),
        Err(Error::GameNotAcceptingPlayers)
    );
    assert_eq!(game.players.len(), 4);
}

#[test]
fn test_game_rejects_unknown_player() {
    let mut game = Game::new();
    for i in 0..4 {
        game.add_player(&PlayerInfo::new(i as u128)).unwrap();
    }
    let stranger = PlayerInfo::new(77);
    assert_eq!(
        game.make_a_call(&stranger, Call::try_from(2).unwrap()),
        Err(Error::PlayerNotFound)
    );
}

#[test]
fn test_game_plays_five_rounds_then_game_over() {
    let mut game = Game::new();
    for i in 0..4 {
        game.add_player(&PlayerInfo::new(i as u128)).unwrap();
    }
    let mut guard: u32 = 0;
    loop {
        guard += 1;
        assert!(guard < 2000);
        if game.rounds.is_empty() {
            // any action opens the first round
            let p0 = game.players[0];
            let _ = game.make_a_call(&p0, Call::try_from(1).unwrap());
            continue;
        }
        let last = game.rounds.len() - 1;
        let seat = match game.rounds[last].next() {
            Err(e) => {
                assert_eq!(e, Error::RoundOver);
                // the next action either opens the following round or
                // reports that the game is over
                let p0 = game.players[0];
                match game.make_a_call(&p0, Call::try_from(1).unwrap()) {
                    Err(Error::GameOver) => break,
                    _ => continue,
                }
            }
            Ok(t) => t,
        };
        let player = game.players[seat.get_value()];
        match game.make_a_call(&player, Call::try_from(5).unwrap()) {
            Ok(()) => continue,
            Err(Error::RoundIsNotCalling) => {}
            Err(e) => panic!("unexpected error during call phase: {:?}", e),
        }
        let last = game.rounds.len() - 1;
        let moves = {
            let round = &game.rounds[last];
            let trick = round.tricks.last().unwrap();
            round.hands[seat.get_value()]
                .get_valid_card_for(trick)
                .unwrap()
        };
        game.make_a_break(&player, moves[0]).unwrap();
    }
    assert_eq!(game.rounds.len(), 5);
    for round in &game.rounds {
        assert_eq!(round.tricks.len(), 13);
    }
    // the terminal state is stable: everything is rejected with GameOver
    assert_eq!(
        game.add_player(&PlayerInfo::new(9)),
        Err(Error::GameOver)
    );
    let p0 = game.players[0];
    assert_eq!(
        game.make_a_call(&p0, Call::try_from(2).unwrap()),
        Err(Error::GameOver)
    );
    assert_eq!(
        game.make_a_break(&p0, Card::new(Suit::Clubs, Rank::Two)),
        Err(Error::GameOver)
    );
}
