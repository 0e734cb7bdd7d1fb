//! The table as a mathematical value, and the rules of play over it.
//!
//! A [`Table`] holds what the rules can see of a game: the seats with their
//! dice, the bets of the running round, whose turn it is, who opened the
//! round, and the winner once there is one. The rules are spec functions from
//! a table and a move to the next table or a rejection.

use vstd::prelude::*;
use crate::dice::is_face;
use crate::error::ActionError;
use crate::game::{Action, PlayerAction};

verus! {

/// The number of seats a table can hold.
pub const MAX_PLAYERS: usize = 8;

/// The number of dice each player starts with, and the most a hand can hold.
pub const DICE_PER_PLAYER: usize = 5;

/// One player's place at the table. The position in `Table::seats` is the
/// player's identity.
#[verifier::ext_equal]
pub struct Seat {
    /// The label shown for the player.
    pub name: Seq<char>,
    /// How many dice the player still has in play.
    pub dice_remaining: nat,
    /// The faces of those dice, one entry per die in play.
    pub hand: Seq<u8>,
}

/// The claim that at least `dice_count` dice on the whole table show
/// `face_value`.
#[verifier::ext_equal]
pub struct Bet {
    /// The seat that made the claim.
    pub bettor: nat,
    /// How many dice are claimed.
    pub dice_count: nat,
    /// The face they are claimed to show.
    pub face_value: nat,
}

/// A game as the rules see it.
#[verifier::ext_equal]
pub struct Table {
    /// The seats, eliminated players included.
    pub seats: Seq<Seat>,
    /// The bets of the running round, oldest first.
    pub bets: Seq<Bet>,
    /// The seat whose turn it is.
    pub current_player: nat,
    /// The seat that opened the running round.
    pub round_starter: nat,
    /// The seat that has won, once a single player is left.
    pub winner: Option<nat>,
}

/// Whether `seat` is a seat of the table whose player still holds dice.
pub open spec fn alive(seats: Seq<Seat>, seat: nat) -> bool {
    seat < seats.len() && seats[seat as int].dice_remaining > 0
}

/// How many dice of `hand` show `face`. Every face counts for itself only:
/// there are no wild dice.
pub open spec fn count_face(hand: Seq<u8>, face: nat) -> nat
    decreases hand.len(),
{
    if hand.len() == 0 {
        0
    } else {
        count_face(hand.drop_last(), face) + if hand.last() as nat == face {
            1nat
        } else {
            0nat
        }
    }
}

/// How many dice in play, over all hands, show `face`.
pub open spec fn matching_dice(seats: Seq<Seat>, face: nat) -> nat
    decreases seats.len(),
{
    if seats.len() == 0 {
        0
    } else {
        matching_dice(seats.drop_last(), face) + count_face(seats.last().hand, face)
    }
}

/// How many dice are in play, over all seats.
pub open spec fn total_dice(seats: Seq<Seat>) -> nat
    decreases seats.len(),
{
    if seats.len() == 0 {
        0
    } else {
        total_dice(seats.drop_last()) + seats.last().dice_remaining
    }
}

/// Whether a bet of `dice_count` dice showing `face_value` raises `standing`:
/// it claims more dice, or as many dice of a higher face.
pub open spec fn raises(dice_count: nat, face_value: nat, standing: Bet) -> bool {
    dice_count > standing.dice_count || (dice_count == standing.dice_count && face_value
        > standing.face_value)
}

/// The seat that lies `steps` seats after `from` at a table of `seats`
/// seats. Turn order runs up the seat numbers, and from the last seat on to
/// the first.
pub open spec fn seat_after(seats: nat, from: nat, steps: nat) -> nat {
    (from + steps) % seats
}

/// Whether `to` lies `distance` seats after `from` and is the first seat to
/// hold dice on the way there: every seat that lies fewer seats after
/// `from` is without dice, and `to` holds dice, unless the way has led once
/// round the table and back to `from`.
pub open spec fn first_holder_at(seats: Seq<Seat>, from: nat, distance: nat, to: nat) -> bool {
    &&& 1 <= distance <= seats.len()
    &&& to == seat_after(seats.len(), from, distance)
    &&& forall|j: nat|
        1 <= j < distance ==> !alive(seats, #[trigger] seat_after(seats.len(), from, j))
    &&& distance < seats.len() ==> alive(seats, to)
}

/// Whether the turn passes from `from` to `to`: `to` is the first seat
/// after `from` in turn order that holds dice, or `from` itself where no
/// other seat holds dice.
pub open spec fn is_next_in_turn(seats: Seq<Seat>, from: nat, to: nat) -> bool {
    exists|distance: nat| first_holder_at(seats, from, distance, to)
}

/// The seat whose turn comes after that of `from`: the next seat in turn
/// order that still holds dice, eliminated seats being passed over. There
/// is one such seat and no more, as `laws::law_turn_passes_to_next_holder`
/// and `laws::law_next_in_turn_is_unique` show; to name it for a given
/// table, show how far it lies from `from` and call
/// `laws::law_first_holder_is_next`.
pub open spec fn next_alive(seats: Seq<Seat>, from: nat) -> nat {
    choose|to: nat| is_next_in_turn(seats, from, to)
}

/// The seat that is to move in a round that `round_starter` opened, once
/// the bets of `bets` have been placed: the opener while no bet stands, and
/// else the seat next in turn after the last bettor.
pub open spec fn mover_after(seats: Seq<Seat>, round_starter: nat, bets: Seq<Bet>) -> nat {
    if bets.len() == 0 {
        round_starter
    } else {
        next_alive(seats, bets.last().bettor)
    }
}

/// Whether `seat` holds dice and no other seat does.
pub open spec fn is_sole_survivor(seats: Seq<Seat>, seat: nat) -> bool {
    alive(seats, seat) && forall|other: nat| alive(seats, other) ==> other == seat
}

/// The winner that `seats` decide: the one seat that holds dice, if there is
/// exactly one such seat. `laws::law_winner_is_the_sole_survivor` names it
/// for a given table.
pub open spec fn sole_survivor(seats: Seq<Seat>) -> Option<nat> {
    if exists|seat: nat| is_sole_survivor(seats, seat) {
        Some(choose|seat: nat| is_sole_survivor(seats, seat))
    } else {
        None
    }
}

/// The seats after `loser` has given up one die. A seat without dice has
/// none to give, and stays as it is.
pub open spec fn lose_die(seats: Seq<Seat>, loser: nat) -> Seq<Seat> {
    if alive(seats, loser) {
        seats.update(
            loser as int,
            Seat {
                dice_remaining: (seats[loser as int].dice_remaining - 1) as nat,
                hand: seats[loser as int].hand.drop_last(),
                ..seats[loser as int]
            },
        )
    } else {
        seats
    }
}

/// The seats after every hand has been thrown again: seat `i` shows the
/// first faces of `throws[i]`, as many as it has dice in play.
pub open spec fn deal(seats: Seq<Seat>, throws: Seq<Seq<u8>>) -> Seq<Seat> {
    Seq::new(
        seats.len(),
        |i: int|
            Seat {
                hand: Seq::new(seats[i].dice_remaining, |j: int| throws[i][j]),
                ..seats[i]
            },
    )
}

/// The hands of `seats`, seat by seat.
pub open spec fn hands(seats: Seq<Seat>) -> Seq<Seq<u8>> {
    Seq::new(seats.len(), |i: int| seats[i].hand)
}

/// Whether every die in play shows a face of a die.
pub open spec fn all_faces(seats: Seq<Seat>) -> bool {
    forall|i: int, j: int|
        0 <= i < seats.len() && 0 <= j < seats[i].hand.len() ==> is_face(
            #[trigger] seats[i].hand[j] as int,
        )
}

/// Whether `after` is `before` with every hand thrown again: the tables
/// differ in nothing but the faces that the dice in play show, and each of
/// those is now a face of a die.
pub open spec fn rerolled(before: Table, after: Table) -> bool {
    &&& after == Table { seats: deal(before.seats, hands(after.seats)), ..before }
    &&& all_faces(after.seats)
}

/// The label that a fresh game gives to `seat`.
pub open spec fn seat_label(seat: nat) -> Seq<char> {
    if seat == 0 {
        "Player 1"@
    } else if seat == 1 {
        "Player 2"@
    } else if seat == 2 {
        "Player 3"@
    } else if seat == 3 {
        "Player 4"@
    } else if seat == 4 {
        "Player 5"@
    } else if seat == 5 {
        "Player 6"@
    } else if seat == 6 {
        "Player 7"@
    } else if seat == 7 {
        "Player 8"@
    } else {
        Seq::empty()
    }
}

impl Table {
    /// The table at the start of a game of `player_count` players: every
    /// seat holds `DICE_PER_PLAYER` dice that have not been thrown yet and
    /// show no face, no bet stands, the first seat opens the round and is
    /// the first to move, and nobody has won.
    pub open spec fn fresh(player_count: nat) -> Table {
        Table {
            seats: Seq::new(
                player_count,
                |i: int|
                    Seat {
                        name: seat_label(i as nat),
                        dice_remaining: DICE_PER_PLAYER as nat,
                        hand: Seq::new(DICE_PER_PLAYER as nat, |j: int| 0u8),
                    },
            ),
            bets: Seq::empty(),
            current_player: 0,
            round_starter: 0,
            winner: None,
        }
    }

    /// What every operation of the engine asks of a table: there is at least
    /// one seat and no more than the table can hold, both turn pointers and
    /// every bettor name a seat, and each hand has one face per die in play,
    /// at most `DICE_PER_PLAYER` of them.
    pub open spec fn well_formed(self) -> bool {
        &&& 1 <= self.seats.len() <= MAX_PLAYERS
        &&& self.current_player < self.seats.len()
        &&& self.round_starter < self.seats.len()
        &&& forall|i: int|
            0 <= i < self.seats.len() ==> {
                &&& (#[trigger] self.seats[i]).dice_remaining <= DICE_PER_PLAYER
                &&& self.seats[i].hand.len() == self.seats[i].dice_remaining
            }
        &&& forall|k: int|
            0 <= k < self.bets.len() ==> (#[trigger] self.bets[k]).bettor < self.seats.len()
    }

    /// What holds of every table that play can reach from a fresh game, on
    /// top of `well_formed`: the winner is set exactly when a single seat
    /// holds dice; until then the player to move holds dice; every bet in the
    /// chain is a valid bet by a player who holds dice, placed when it was
    /// that player's turn; each bet raises the one before it; and the turn
    /// is with the seat that follows the chain. Once there is a winner no
    /// bet stands.
    pub open spec fn sound(self) -> bool {
        &&& self.well_formed()
        &&& self.winner == sole_survivor(self.seats)
        &&& self.winner is None ==> alive(self.seats, self.current_player)
        &&& self.winner is Some ==> self.bets.len() == 0
        &&& self.current_player == mover_after(self.seats, self.round_starter, self.bets)
        &&& forall|k: int|
            0 <= k < self.bets.len() ==> {
                &&& is_face((#[trigger] self.bets[k]).face_value as int)
                &&& self.bets[k].dice_count >= 1
                &&& alive(self.seats, self.bets[k].bettor)
                &&& self.bets[k].bettor == mover_after(
                    self.seats,
                    self.round_starter,
                    self.bets.take(k),
                )
            }
        &&& forall|k: int|
            0 < k < self.bets.len() ==> raises(
                (#[trigger] self.bets[k]).dice_count,
                self.bets[k].face_value,
                self.bets[k - 1],
            )
    }

    /// The outcome of a bet of `dice_count` dice showing `face_value` by the
    /// player to move.
    ///
    /// The checks come in this order, and the first that fails decides: the
    /// face must be a face of a die, the bet must name at least one die, it
    /// must raise the standing bet if there is one, and the game must not be
    /// over. An accepted bet joins the chain under the mover's seat, and the
    /// turn passes to the next seat that holds dice.
    pub open spec fn place_bet(self, dice_count: nat, face_value: nat) -> Result<
        Table,
        ActionError,
    > {
        if !is_face(face_value as int) {
            Err(ActionError::InvalidFaceValue)
        } else if dice_count == 0 {
            Err(ActionError::ZeroDiceBet)
        } else if self.bets.len() > 0 && !raises(dice_count, face_value, self.bets.last()) {
            Err(ActionError::BetTooLow)
        } else if self.winner is Some {
            Err(ActionError::GameOver)
        } else {
            Ok(
                Table {
                    bets: self.bets.push(
                        Bet { bettor: self.current_player, dice_count, face_value },
                    ),
                    current_player: next_alive(self.seats, self.current_player),
                    ..self
                },
            )
        }
    }

    /// Whether the standing bet holds: at least as many dice as it claims
    /// show its face. A bet that claims exactly the true number holds.
    pub open spec fn standing_bet_holds(self) -> bool {
        matching_dice(self.seats, self.bets.last().face_value) >= self.bets.last().dice_count
    }

    /// The seat that pays for a call of the standing bet: the caller if the
    /// bet holds, the bettor if it does not.
    pub open spec fn loser_of_call(self) -> nat {
        if self.standing_bet_holds() {
            self.current_player
        } else {
            self.bets.last().bettor
        }
    }

    /// The outcome of a call by the player to move, where `throws` are the
    /// faces that the dice show when they are thrown again.
    ///
    /// A call is rejected when no bet stands, and else when the game is
    /// over. Otherwise the loser gives up a die, the winner is decided by the
    /// dice that are left, every hand is thrown again, the chain is cleared,
    /// and the round that follows is opened by the next seat after the last
    /// opener that holds dice, which is also the first to move.
    pub open spec fn resolve_call(self, throws: Seq<Seq<u8>>) -> Result<Table, ActionError> {
        if self.bets.len() == 0 {
            Err(ActionError::NoActiveBet)
        } else if self.winner is Some {
            Err(ActionError::GameOver)
        } else {
            let seats = lose_die(self.seats, self.loser_of_call());
            let starter = next_alive(seats, self.round_starter);
            Ok(
                Table {
                    seats: deal(seats, throws),
                    bets: Seq::empty(),
                    current_player: starter,
                    round_starter: starter,
                    winner: sole_survivor(seats),
                },
            )
        }
    }

    /// The transition of the game: the outcome of `action` by the player to
    /// move, where `throws` are the faces that the dice show if the action
    /// has them thrown again. A bet without its numbers is rejected; any
    /// other bet goes by `place_bet`, and a call by `resolve_call`. Once the
    /// game is over no action is accepted.
    pub open spec fn apply(self, action: PlayerAction, throws: Seq<Seq<u8>>) -> Result<
        Table,
        ActionError,
    > {
        match action.action {
            Action::Call => self.resolve_call(throws),
            Action::Bet => match action.bet {
                Some((dice_count, face_value)) => self.place_bet(
                    dice_count as nat,
                    face_value as nat,
                ),
                None => Err(ActionError::MissingBetPayload),
            },
        }
    }
}

} // verus!
