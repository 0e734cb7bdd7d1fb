//! The bet that a player is putting together on the controls, before it is
//! placed.

use vstd::prelude::*;
use crate::dice::MAX_FACE;
use crate::game::{bet_action, call_action, Action, Game, PlayerAction};

verus! {

/// The highest number of dice that the controls let a player select.
pub const MAX_SELECTABLE_DICE: u8 = 20;

/// The numbers selected for the next bet.
#[derive(Debug, Clone, Copy)]
pub struct RenderState {
    /// The number of dice selected, from 1 up to `MAX_SELECTABLE_DICE`.
    pub selected_dice_count: u8,
    /// The face selected.
    pub selected_face_value: u8,
}

/// One of the controls that a player can press.
#[derive(Debug, Clone, Copy)]
pub enum Control {
    /// Calls the standing bet.
    CallButton,
    /// Places the bet selected.
    BetButton,
    /// Steps the number of dice selected.
    DiceCountSelector,
    /// Steps the face selected.
    FaceValueSelector,
}

impl RenderState {
    /// The selection at the start of a game: one die, showing a one.
    pub fn new() -> (state: RenderState)
        ensures
            state.selected_dice_count == 1,
            state.selected_face_value == 1,
    {
        RenderState { selected_dice_count: 1, selected_face_value: 1 }
    }

    /// Answers the press of a control, with the action that it asks of the
    /// game if it asks for one.
    ///
    /// The call button asks for a call, but only while a bet stands. The
    /// bet button asks for the bet selected. Either leaves the selection as
    /// it is. A selector asks nothing of the game: it steps its number up
    /// by one, and back to one from the highest, which is
    /// `MAX_SELECTABLE_DICE` for the dice and `MAX_FACE` for the face.
    pub fn press(&mut self, control: Control, game: &Game) -> (action: Option<PlayerAction>)
        ensures
            match control {
                Control::CallButton => *final(self) == *old(self) && action == if game.bets@.len()
                    > 0 {
                    Some(call_action())
                } else {
                    None
                },
                Control::BetButton => *final(self) == *old(self) && action == Some(
                    bet_action(old(self).selected_dice_count, old(self).selected_face_value),
                ),
                Control::DiceCountSelector => action is None && *final(self) == (RenderState {
                    selected_dice_count: (old(self).selected_dice_count % MAX_SELECTABLE_DICE
                        + 1) as u8,
                    ..*old(self)
                }),
                Control::FaceValueSelector => action is None && *final(self) == (RenderState {
                    selected_face_value: (old(self).selected_face_value % MAX_FACE + 1) as u8,
                    ..*old(self)
                }),
            },
    {
        match control {
            Control::CallButton => {
                if game.bets.len() > 0 {
                    Some(PlayerAction { action: Action::Call, bet: None })
                } else {
                    None
                }
            },
            Control::BetButton => Some(
                PlayerAction {
                    action: Action::Bet,
                    bet: Some((self.selected_dice_count, self.selected_face_value)),
                },
            ),
            Control::DiceCountSelector => {
                self.selected_dice_count = self.selected_dice_count % MAX_SELECTABLE_DICE + 1;
                None
            },
            Control::FaceValueSelector => {
                self.selected_face_value = self.selected_face_value % MAX_FACE + 1;
                None
            },
        }
    }

    /// Brings the selection up to date with `game`, the answer to an action
    /// of the kind `taken`. After a bet the selection shows the standing
    /// bet, so that the next bet starts from it; after a call it is back at
    /// one die showing a one.
    pub fn follow(&mut self, taken: &Action, game: &Game)
        ensures
            *final(self) == match *taken {
                Action::Call => (RenderState { selected_dice_count: 1, selected_face_value: 1 }),
                Action::Bet => if game.bets@.len() > 0 {
                    (RenderState {
                        selected_dice_count: game.bets@.last().1,
                        selected_face_value: game.bets@.last().2,
                    })
                } else {
                    *old(self)
                },
            },
    {
        match taken {
            Action::Call => {
                self.selected_dice_count = 1;
                self.selected_face_value = 1;
            },
            Action::Bet => {
                let placed: usize = game.bets.len();
                if placed > 0 {
                    let (_, dice_count, face_value) = game.bets[placed - 1];
                    self.selected_dice_count = dice_count;
                    self.selected_face_value = face_value;
                }
            },
        }
    }
}

} // verus!
