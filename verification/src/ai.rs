//! A simple opponent: it calls a bet that looks too high, and raises any
//! other.

use vstd::prelude::*;
use crate::dice::{draw_between, is_face, roll_dice, MAX_FACE};
use crate::game::{bet_action, call_action, Action, Game, PlayerAction};
use crate::table::{raises, Bet};

verus! {

/// The dice that a snapshot keeps count of: the sum over every place of
/// `current_player_dice_count`, the seats that nobody has taken included.
pub open spec fn dice_on_record(dice_counts: Seq<u8>) -> nat
    decreases dice_counts.len(),
{
    if dice_counts.len() == 0 {
        0
    } else {
        dice_on_record(dice_counts.drop_last()) + dice_counts.last() as nat
    }
}

/// Whether the opponent calls a bet on `claimed` dice when `dice` dice are on
/// record: it does when the bet claims more than a sixth of them.
pub open spec fn looks_too_high(claimed: nat, dice: nat) -> bool {
    6 * claimed > dice
}

/// The opponent's raise of a standing bet on `claimed` dice showing `face`.
/// With `more_dice` it claims one die more, of the face `face_roll`;
/// without, it claims as many dice of the next face up, or of the highest
/// face where there is no higher.
pub open spec fn raise_of(claimed: u8, face: u8, more_dice: bool, face_roll: u8) -> PlayerAction {
    if more_dice {
        bet_action((claimed + 1) as u8, face_roll)
    } else if face < MAX_FACE {
        bet_action(claimed, (face + 1) as u8)
    } else {
        bet_action(claimed, MAX_FACE)
    }
}

/// Whether `action` is one that the opponent may take in `game`.
///
/// It calls a standing bet that looks too high, and raises any other
/// standing bet, by one die of any face or by one face. Where no bet
/// stands it opens with a bet on any face and on at least one die, but on
/// no more dice than the player to move holds, unless that player holds
/// none.
pub open spec fn opponent_may_take(game: Game, action: PlayerAction) -> bool {
    if game.bets@.len() > 0 {
        let standing = game.bets@.last();
        if looks_too_high(standing.1 as nat, dice_on_record(game.current_player_dice_count@)) {
            action == call_action()
        } else {
            exists|more_dice: bool, face_roll: u8|
                is_face(face_roll as int) && action == #[trigger] raise_of(
                    standing.1,
                    standing.2,
                    more_dice,
                    face_roll,
                )
        }
    } else {
        let held = game.current_player_dice_count[game.current_player as int];
        exists|dice_count: u8, face_value: u8|
            1 <= dice_count && (dice_count <= held || dice_count == 1) && is_face(
                face_value as int,
            ) && action == #[trigger] bet_action(dice_count, face_value)
    }
}

/// Adds up the dice that the snapshot keeps count of.
pub fn count_dice_on_record(game: &Game) -> (dice: usize)
    ensures
        dice == dice_on_record(game.current_player_dice_count@),
{
    let ghost dice_counts = game.current_player_dice_count@;
    let mut dice: usize = 0;
    let mut place: usize = 0;
    while place < game.current_player_dice_count.len()
        invariant
            dice_counts == game.current_player_dice_count@,
            place <= dice_counts.len(),
            dice == dice_on_record(dice_counts.take(place as int)),
            dice <= place * 255,
        decreases dice_counts.len() - place,
    {
        proof {
            assert(dice_counts.take(place + 1).drop_last() =~= dice_counts.take(place as int));
        }
        dice += game.current_player_dice_count[place] as usize;
        place += 1;
    }
    proof {
        assert(dice_counts.take(place as int) =~= dice_counts);
    }
    dice
}

/// Raises a standing bet on `claimed` dice showing `face` for the opponent,
/// given what chance decided: whether to claim more dice and, if so, of
/// which face.
pub fn raise_bet(claimed: u8, face: u8, more_dice: bool, face_roll: u8) -> (action: PlayerAction)
    requires
        claimed < u8::MAX,
    ensures
        action == raise_of(claimed, face, more_dice, face_roll),
{
    if more_dice {
        PlayerAction { action: Action::Bet, bet: Some((claimed + 1, face_roll)) }
    } else if face < MAX_FACE {
        PlayerAction { action: Action::Bet, bet: Some((claimed, face + 1)) }
    } else {
        PlayerAction { action: Action::Bet, bet: Some((claimed, MAX_FACE)) }
    }
}

/// Decides the opponent's action for the player to move. The opponent
/// leaves to chance whether it raises by a die or by a face, and each face
/// and number of dice that it is free to pick.
pub fn ai_decide_action(game: &Game) -> (action: PlayerAction)
    requires
        game.well_formed(),
        dice_on_record(game.current_player_dice_count@) <= u8::MAX,
    ensures
        opponent_may_take(*game, action),
{
    let placed: usize = game.bets.len();
    if placed > 0 {
        let (_, claimed, face) = game.bets[placed - 1];
        let dice: usize = count_dice_on_record(game);
        if 6 * (claimed as usize) > dice {
            PlayerAction { action: Action::Call, bet: None }
        } else {
            let more_dice = draw_between(0, 2) == 0;
            let face_roll: u8 = if more_dice {
                roll_dice()
            } else {
                MAX_FACE
            };
            raise_bet(claimed, face, more_dice, face_roll)
        }
    } else {
        let held: u8 = game.current_player_dice_count[game.current_player as usize];
        assert(held == game@.seats[game.current_player as int].dice_remaining);
        let dice_count: u8 = draw_between(1, held + 1);
        let face_value: u8 = roll_dice();
        let action = PlayerAction { action: Action::Bet, bet: Some((dice_count, face_value)) };
        assert(action == bet_action(dice_count, face_value));
        action
    }
}

/// The opponent's raise raises: the bet that it answers a standing bet with
/// claims a die more or the next face up, and so is a valid raise of it,
/// unless the standing bet is on the highest face already and chance has
/// the opponent raise by a face.
pub proof fn law_opponent_raises(standing: Bet, more_dice: bool, face_roll: u8)
    requires
        standing.dice_count < u8::MAX,
        standing.face_value <= u8::MAX,
        more_dice || standing.face_value < MAX_FACE,
    ensures
        ({
            let answer = raise_of(
                standing.dice_count as u8,
                standing.face_value as u8,
                more_dice,
                face_roll,
            );
            &&& answer.action is Bet
            &&& answer.bet is Some
            &&& raises(answer.bet->Some_0.0 as nat, answer.bet->Some_0.1 as nat, standing)
        }),
{
}

} // verus!
