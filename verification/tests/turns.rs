use rusty_dice::error::ActionError;
use rusty_dice::game::{take_action, take_action_with_dice, Action, Game, PlayerAction};

fn bet(dice_count: u8, face_value: u8) -> PlayerAction {
    PlayerAction { action: Action::Bet, bet: Some((dice_count, face_value)) }
}

fn call() -> PlayerAction {
    PlayerAction { action: Action::Call, bet: None }
}

#[test]
fn valid_bet_extends_chain_and_passes_the_turn() {
    let mut game = Game::new();
    let raises = [(1, 1), (1, 2), (2, 1), (2, 6), (3, 6), (200, 1), (255, 6)];
    for (placed, (dice_count, face_value)) in raises.iter().enumerate() {
        let mover = game.current_player;
        let next = take_action(&game, bet(*dice_count, *face_value)).unwrap();
        assert_eq!(next.bets.len(), placed + 1);
        assert_eq!(next.bets[..placed], game.bets[..]);
        assert_eq!(next.bets[placed], (mover, *dice_count, *face_value));
        assert_eq!(next.current_player, (mover + 1) % 4);
        assert_eq!(next.round_starter, game.round_starter);
        assert_eq!(next.current_player_dice_count, game.current_player_dice_count);
        assert_eq!(next.player_dice, game.player_dice);
        assert_eq!(next.player_names, game.player_names);
        assert_eq!(next.winner, None);
        game = next;
    }
}

#[test]
fn bet_leaves_the_snapshot_it_was_given() {
    let game = Game::new();
    let before = game.clone();
    let next = take_action(&game, bet(3, 5)).unwrap();
    assert_eq!(game, before);
    assert_ne!(next, before);
}

#[test]
fn turn_wraps_from_the_last_seat_to_the_first() {
    let mut game = Game::new();
    game.current_player = 3;
    let next = take_action(&game, bet(1, 1)).unwrap();
    assert_eq!(next.bets[0], (3, 1, 1));
    assert_eq!(next.current_player, 0);
}

#[test]
fn turn_skips_a_seat_without_dice() {
    let mut game = Game::new();
    game.current_player_dice_count[1] = 0;
    let next = take_action(&game, bet(3, 5)).unwrap();
    assert_eq!(next.current_player, 2);
}

#[test]
fn turn_skips_every_seat_without_dice_round_the_table() {
    let mut game = Game::with_players(6).unwrap();
    game.current_player_dice_count = [2, 0, 0, 1, 0, 0, 5, 5];
    game.current_player = 3;
    let next = take_action(&game, bet(1, 1)).unwrap();
    // Seats 4 and 5 hold no dice; seats 6 and 7 are not in the game.
    assert_eq!(next.current_player, 0);
    let after = take_action(&next, bet(1, 2)).unwrap();
    assert_eq!(after.current_player, 3);
}

#[test]
fn turn_stays_where_no_other_seat_holds_dice() {
    let mut game = Game::new();
    game.current_player_dice_count = [0, 0, 3, 0, 5, 5, 5, 5];
    game.current_player = 2;
    let next = take_action(&game, bet(1, 1)).unwrap();
    assert_eq!(next.current_player, 2);
    assert_eq!(game.next_player_with_dice(0), 2);
    assert_eq!(game.next_player_with_dice(3), 2);
}

#[test]
fn next_player_with_dice_of_a_table_without_dice_is_the_seat_itself() {
    let mut game = Game::new();
    game.current_player_dice_count = [0; 8];
    for seat in 0..4 {
        assert_eq!(game.next_player_with_dice(seat), seat);
    }
}

#[test]
fn low_bets_are_rejected_and_change_nothing() {
    let opened = take_action(&Game::new(), bet(3, 5)).unwrap();
    let before = opened.clone();
    let low = [(2, 5), (2, 6), (1, 1), (3, 4), (3, 1), (3, 5)];
    for (dice_count, face_value) in low {
        let result = take_action(&opened, bet(dice_count, face_value));
        assert_eq!(result, Err(ActionError::BetTooLow));
        assert_eq!(opened, before);
    }
}

#[test]
fn raises_by_a_die_or_by_a_face_are_accepted() {
    let opened = take_action(&Game::new(), bet(3, 5)).unwrap();
    for (dice_count, face_value) in [(3, 6), (4, 1), (4, 5), (255, 1)] {
        let next = take_action(&opened, bet(dice_count, face_value)).unwrap();
        assert_eq!(next.bets, vec![(0, 3, 5), (1, dice_count, face_value)]);
        assert_eq!(next.current_player, 2);
    }
}

#[test]
fn first_bet_of_a_round_has_nothing_to_raise() {
    let next = take_action(&Game::new(), bet(1, 1)).unwrap();
    assert_eq!(next.bets, vec![(0, 1, 1)]);
}

#[test]
fn faces_are_checked_before_the_number_of_dice() {
    let game = Game::new();
    assert_eq!(take_action(&game, bet(0, 0)), Err(ActionError::InvalidFaceValue));
    assert_eq!(take_action(&game, bet(0, 7)), Err(ActionError::InvalidFaceValue));
    assert_eq!(take_action(&game, bet(0, 6)), Err(ActionError::ZeroDiceBet));
    assert_eq!(take_action(&game, bet(0, 1)), Err(ActionError::ZeroDiceBet));
}

#[test]
fn faces_and_dice_are_checked_before_the_raise() {
    let opened = take_action(&Game::new(), bet(3, 5)).unwrap();
    assert_eq!(take_action(&opened, bet(2, 7)), Err(ActionError::InvalidFaceValue));
    assert_eq!(take_action(&opened, bet(0, 5)), Err(ActionError::ZeroDiceBet));
    assert_eq!(take_action(&opened, bet(2, 5)), Err(ActionError::BetTooLow));
}

#[test]
fn every_face_of_a_die_can_be_bet_on() {
    let game = Game::new();
    for face_value in 1..=6 {
        assert!(take_action(&game, bet(1, face_value)).is_ok());
    }
    for face_value in 7..=255 {
        assert_eq!(take_action(&game, bet(1, face_value)), Err(ActionError::InvalidFaceValue));
    }
}

#[test]
fn bet_without_numbers_is_rejected() {
    let game = Game::new();
    let action = PlayerAction { action: Action::Bet, bet: None };
    assert_eq!(take_action(&game, action), Err(ActionError::MissingBetPayload));
}

#[test]
fn call_ignores_numbers_that_come_with_it() {
    let game = Game::new();
    let action = PlayerAction { action: Action::Call, bet: Some((3, 5)) };
    assert_eq!(take_action(&game, action), Err(ActionError::NoActiveBet));
}

#[test]
fn call_without_a_bet_is_always_rejected() {
    let mut game = Game::new();
    assert_eq!(take_action(&game, call()), Err(ActionError::NoActiveBet));
    game.current_player = 2;
    game.current_player_dice_count = [0, 1, 2, 3, 5, 5, 5, 5];
    assert_eq!(take_action(&game, call()), Err(ActionError::NoActiveBet));
    game.winner = Some(2);
    assert_eq!(take_action(&game, call()), Err(ActionError::NoActiveBet));
}

#[test]
fn bets_do_not_throw_dice() {
    let mut game = Game::new();
    game.player_dice[0] = [1, 2, 3, 4, 5];
    game.player_dice[3] = [6, 6, 6, 6, 6];
    let throws = [[4; 5]; 8];
    let next = take_action_with_dice(&game, bet(2, 2), &throws).unwrap();
    assert_eq!(next.player_dice, game.player_dice);
    assert_eq!(take_action(&game, bet(2, 2)).unwrap(), next);
}

#[test]
fn each_rejection_has_its_message() {
    assert_eq!(ActionError::GameOver.message(), "The game is over");
    assert_eq!(ActionError::NoActiveBet.message(), "Cannot call when no bets have been made");
    assert_eq!(ActionError::InvalidFaceValue.message(), "Face value must be between 1 and 6");
    assert_eq!(ActionError::ZeroDiceBet.message(), "Cannot bet on 0 dice");
    assert_eq!(
        ActionError::BetTooLow.message(),
        "New bet must be higher than the previous bet"
    );
    assert_eq!(
        ActionError::MissingBetPayload.message(),
        "Bet action requires dice count and face value"
    );
}
