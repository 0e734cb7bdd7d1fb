use rusty_dice::game::Game;
use rusty_dice::table::{DICE_PER_PLAYER, MAX_PLAYERS};

#[test]
fn new_game_seats_four_players_with_five_dice_each() {
    let game = Game::new();
    assert_eq!(game.player_count, 4);
    assert_eq!(game.current_player, 0);
    assert_eq!(game.round_starter, 0);
    assert_eq!(game.winner, None);
    assert!(game.bets.is_empty());
    assert_eq!(game.current_player_dice_count, [5; MAX_PLAYERS]);
    assert_eq!(game.player_dice, [[0; DICE_PER_PLAYER]; MAX_PLAYERS]);
    assert!(game.is_well_formed());
}

#[test]
fn new_game_labels_the_seats_that_are_taken() {
    let game = Game::new();
    assert_eq!(game.player_names[0], "Player 1");
    assert_eq!(game.player_names[1], "Player 2");
    assert_eq!(game.player_names[2], "Player 3");
    assert_eq!(game.player_names[3], "Player 4");
    for seat in 4..MAX_PLAYERS {
        assert_eq!(game.player_names[seat], "");
    }
}

#[test]
fn new_game_is_a_game_of_four() {
    assert_eq!(Game::with_players(4), Some(Game::new()));
}

#[test]
fn with_players_takes_two_to_eight_players() {
    for player_count in 2..=8u8 {
        let game = Game::with_players(player_count).unwrap();
        assert_eq!(game.player_count, player_count);
        assert_eq!(game.current_player, 0);
        assert_eq!(game.round_starter, 0);
        assert_eq!(game.winner, None);
        assert!(game.bets.is_empty());
        for seat in 0..MAX_PLAYERS {
            assert_eq!(game.current_player_dice_count[seat], 5);
            let label = if seat < player_count as usize {
                format!("Player {}", seat + 1)
            } else {
                String::new()
            };
            assert_eq!(game.player_names[seat], label);
        }
        assert!(game.is_well_formed());
    }
}

#[test]
fn with_players_refuses_too_few_and_too_many() {
    assert_eq!(Game::with_players(0), None);
    assert_eq!(Game::with_players(1), None);
    assert_eq!(Game::with_players(9), None);
    assert_eq!(Game::with_players(255), None);
}

#[test]
fn well_formedness_needs_a_seat() {
    let mut game = Game::new();
    game.player_count = 0;
    assert!(!game.is_well_formed());
}

#[test]
fn well_formedness_needs_the_seats_to_fit() {
    let mut game = Game::new();
    game.player_count = 9;
    assert!(!game.is_well_formed());
    game.player_count = 8;
    assert!(game.is_well_formed());
}

#[test]
fn well_formedness_needs_the_turn_to_be_at_a_seat() {
    let mut game = Game::new();
    game.current_player = 4;
    assert!(!game.is_well_formed());
    game.current_player = 3;
    assert!(game.is_well_formed());
    game.round_starter = 4;
    assert!(!game.is_well_formed());
}

#[test]
fn well_formedness_needs_hands_of_five_dice_at_most() {
    let mut game = Game::new();
    game.current_player_dice_count[2] = 6;
    assert!(!game.is_well_formed());
    game.current_player_dice_count[2] = 5;
    assert!(game.is_well_formed());
    // A seat that nobody has taken is not looked at.
    game.current_player_dice_count[7] = 9;
    assert!(game.is_well_formed());
}

#[test]
fn well_formedness_needs_bettors_to_be_seated() {
    let mut game = Game::new();
    game.bets.push((3, 1, 1));
    assert!(game.is_well_formed());
    game.bets.push((4, 2, 1));
    assert!(!game.is_well_formed());
}

#[test]
fn hand_holds_the_dice_in_play_and_no_others() {
    let mut game = Game::new();
    game.player_dice[0] = [1, 2, 3, 4, 5];
    game.player_dice[1] = [6, 5, 4, 3, 2];
    game.current_player_dice_count = [5, 3, 0, 1, 5, 5, 5, 5];
    assert_eq!(game.hand(0), vec![1, 2, 3, 4, 5]);
    assert_eq!(game.hand(1), vec![6, 5, 4]);
    assert_eq!(game.hand(2), Vec::<u8>::new());
    assert_eq!(game.hand(3), vec![0]);
}

#[test]
fn total_dice_adds_up_the_seats_that_are_taken() {
    let mut game = Game::new();
    assert_eq!(game.total_dice(), 20);
    game.current_player_dice_count = [5, 3, 0, 1, 5, 5, 5, 5];
    assert_eq!(game.total_dice(), 9);
    game.player_count = 2;
    assert_eq!(game.total_dice(), 8);
    assert_eq!(Game::with_players(8).unwrap().total_dice(), 40);
}
