//! Why the engine turns an action down.

use vstd::prelude::*;

verus! {

/// The reason an action was rejected. A rejected action leaves the game as
/// it was: the caller keeps the snapshot it had.
#[derive(Debug, Clone, Copy, PartialEq, Eq, Structural)]
pub enum ActionError {
    /// A winner has been decided: the game takes no further action.
    GameOver,
    /// A call was made while no bet stands.
    NoActiveBet,
    /// The face of a bet is not a face of a die.
    InvalidFaceValue,
    /// A bet on no dice at all.
    ZeroDiceBet,
    /// The bet does not raise the standing bet.
    BetTooLow,
    /// A bet that names neither a number of dice nor a face.
    MissingBetPayload,
}

impl ActionError {
    /// The text shown to the player for this rejection.
    pub open spec fn spec_message(self) -> Seq<char> {
        match self {
            ActionError::GameOver => "The game is over"@,
            ActionError::NoActiveBet => "Cannot call when no bets have been made"@,
            ActionError::InvalidFaceValue => "Face value must be between 1 and 6"@,
            ActionError::ZeroDiceBet => "Cannot bet on 0 dice"@,
            ActionError::BetTooLow => "New bet must be higher than the previous bet"@,
            ActionError::MissingBetPayload => "Bet action requires dice count and face value"@,
        }
    }

    /// The text shown to the player for this rejection.
    pub fn message(&self) -> (text: String)
        ensures
            text@ == self.spec_message(),
    {
        match self {
            ActionError::GameOver => "The game is over".to_string(),
            ActionError::NoActiveBet => "Cannot call when no bets have been made".to_string(),
            ActionError::InvalidFaceValue => "Face value must be between 1 and 6".to_string(),
            ActionError::ZeroDiceBet => "Cannot bet on 0 dice".to_string(),
            ActionError::BetTooLow => "New bet must be higher than the previous bet".to_string(),
            ActionError::MissingBetPayload => {
                "Bet action requires dice count and face value".to_string()
            },
        }
    }
}

/// The messages tell the rejections apart: no two reasons share a text.
pub proof fn law_messages_differ(one: ActionError, other: ActionError)
    requires
        one != other,
    ensures
        one.spec_message() != other.spec_message(),
{
    reveal_strlit("The game is over");
    reveal_strlit("Cannot call when no bets have been made");
    reveal_strlit("Face value must be between 1 and 6");
    reveal_strlit("Cannot bet on 0 dice");
    reveal_strlit("New bet must be higher than the previous bet");
    reveal_strlit("Bet action requires dice count and face value");
    assert(one.spec_message().len() != other.spec_message().len());
}

} // verus!
