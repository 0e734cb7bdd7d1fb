use rusty_dice::controls::{Control, RenderState};
use rusty_dice::game::{take_action, Action, Game, PlayerAction};

fn bet(dice_count: u8, face_value: u8) -> PlayerAction {
    PlayerAction { action: Action::Bet, bet: Some((dice_count, face_value)) }
}

#[test]
fn selection_starts_at_one_die_showing_a_one() {
    let state = RenderState::new();
    assert_eq!(state.selected_dice_count, 1);
    assert_eq!(state.selected_face_value, 1);
}

#[test]
fn dice_selector_steps_from_one_to_twenty_and_round() {
    let game = Game::new();
    let mut state = RenderState::new();
    for expected in (2..=20).chain(1..=3) {
        assert_eq!(state.press(Control::DiceCountSelector, &game), None);
        assert_eq!(state.selected_dice_count, expected);
        assert_eq!(state.selected_face_value, 1);
    }
}

#[test]
fn face_selector_steps_from_one_to_six_and_round() {
    let game = Game::new();
    let mut state = RenderState::new();
    for expected in (2..=6).chain(1..=3) {
        assert_eq!(state.press(Control::FaceValueSelector, &game), None);
        assert_eq!(state.selected_face_value, expected);
        assert_eq!(state.selected_dice_count, 1);
    }
}

#[test]
fn bet_button_asks_for_the_bet_selected() {
    let game = Game::new();
    let mut state = RenderState { selected_dice_count: 4, selected_face_value: 3 };
    assert_eq!(state.press(Control::BetButton, &game), Some(bet(4, 3)));
    assert_eq!(state.selected_dice_count, 4);
    assert_eq!(state.selected_face_value, 3);
}

#[test]
fn call_button_works_only_while_a_bet_stands() {
    let game = Game::new();
    let mut state = RenderState::new();
    assert_eq!(state.press(Control::CallButton, &game), None);
    let game = take_action(&game, bet(2, 2)).unwrap();
    assert_eq!(
        state.press(Control::CallButton, &game),
        Some(PlayerAction { action: Action::Call, bet: None })
    );
    assert_eq!(state.selected_dice_count, 1);
    assert_eq!(state.selected_face_value, 1);
}

#[test]
fn selection_follows_the_standing_bet() {
    let game = take_action(&Game::new(), bet(2, 2)).unwrap();
    let game = take_action(&game, bet(7, 4)).unwrap();
    let mut state = RenderState::new();
    state.follow(&Action::Bet, &game);
    assert_eq!(state.selected_dice_count, 7);
    assert_eq!(state.selected_face_value, 4);
}

#[test]
fn selection_is_reset_by_a_call() {
    let game = Game::new();
    let mut state = RenderState { selected_dice_count: 9, selected_face_value: 5 };
    state.follow(&Action::Call, &game);
    assert_eq!(state.selected_dice_count, 1);
    assert_eq!(state.selected_face_value, 1);
}

#[test]
fn selection_stays_where_no_bet_stands() {
    let game = Game::new();
    let mut state = RenderState { selected_dice_count: 9, selected_face_value: 5 };
    state.follow(&Action::Bet, &game);
    assert_eq!(state.selected_dice_count, 9);
    assert_eq!(state.selected_face_value, 5);
}
