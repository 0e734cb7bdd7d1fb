//! What holds of the rules, proved over tables.
//!
//! The laws come in three groups: how the turn goes round the table, what
//! a bet and a call do to a table, and what holds of every table that play
//! can reach. Each is stated of `Table::apply`, the transition that
//! `game::take_action` carries out, or of the functions it is made of.

use vstd::prelude::*;
use vstd::arithmetic::div_mod::{lemma_mod_add_multiples_vanish, lemma_mod_bound, lemma_small_mod};
use crate::dice::is_face;
use crate::error::ActionError;
use crate::game::{bet_action, call_action, Action, PlayerAction};
use crate::table::{
    alive, deal, first_holder_at, is_next_in_turn, is_sole_survivor, lose_die, matching_dice,
    mover_after, next_alive, raises, seat_after, sole_survivor, total_dice, Bet, Seat, Table,
    MAX_PLAYERS,
};

verus! {

/// A full round leads back to the seat one set out from.
proof fn lemma_full_round(seats: Seq<Seat>, from: nat)
    requires
        from < seats.len(),
    ensures
        seat_after(seats.len(), from, seats.len()) == from,
{
    lemma_mod_add_multiples_vanish(from as int, seats.len() as int);
    lemma_small_mod(from, seats.len());
}

/// Where no seat fewer than `step` seats after `from` holds dice, some seat
/// is next in turn after `from`: the first to hold dice from there on, or
/// `from` itself after a full round.
proof fn lemma_some_seat_is_next(seats: Seq<Seat>, from: nat, step: nat)
    requires
        from < seats.len(),
        1 <= step <= seats.len(),
        forall|j: nat| 1 <= j < step ==> !alive(seats, #[trigger] seat_after(seats.len(), from, j)),
    ensures
        exists|to: nat| is_next_in_turn(seats, from, to),
    decreases seats.len() - step,
{
    let seat = seat_after(seats.len(), from, step);
    if step == seats.len() {
        lemma_full_round(seats, from);
        assert(first_holder_at(seats, from, step, from));
        assert(is_next_in_turn(seats, from, from));
    } else if alive(seats, seat) {
        assert(first_holder_at(seats, from, step, seat));
        assert(is_next_in_turn(seats, from, seat));
    } else {
        lemma_some_seat_is_next(seats, from, step + 1);
    }
}

/// Every seat but `from` lies fewer than a full round after `from`.
proof fn lemma_every_seat_is_after(seats: Seq<Seat>, from: nat, seat: nat)
    requires
        from < seats.len(),
        seat < seats.len(),
        seat != from,
    ensures
        exists|steps: nat| 1 <= steps < seats.len() && seat_after(seats.len(), from, steps) == seat,
{
    if seat > from {
        let steps = (seat - from) as nat;
        lemma_small_mod(seat, seats.len());
        assert(seat_after(seats.len(), from, steps) == seat);
    } else {
        let steps = (seat + seats.len() - from) as nat;
        lemma_mod_add_multiples_vanish(seat as int, seats.len() as int);
        lemma_small_mod(seat, seats.len());
        assert(seat_after(seats.len(), from, steps) == seat);
    }
}

/// Only one seat can be next in turn.
pub proof fn law_next_in_turn_is_unique(seats: Seq<Seat>, from: nat, one: nat, other: nat)
    requires
        is_next_in_turn(seats, from, one),
        is_next_in_turn(seats, from, other),
    ensures
        one == other,
{
    // The holder that is nearer to `from` stands in the way of the other.
    let nearer = choose|distance: nat| first_holder_at(seats, from, distance, one);
    let farther = choose|distance: nat| first_holder_at(seats, from, distance, other);
}

/// The turn passes to the first seat after `from`, in turn order, that
/// holds dice: `next_alive` names a seat of the table, every seat that it
/// passes over is without dice, and the seat it names holds dice, unless no
/// seat but `from` does and the turn stays with `from`.
pub proof fn law_turn_passes_to_next_holder(seats: Seq<Seat>, from: nat)
    requires
        from < seats.len(),
    ensures
        is_next_in_turn(seats, from, next_alive(seats, from)),
        next_alive(seats, from) < seats.len(),
{
    lemma_some_seat_is_next(seats, from, 1);
    let to = next_alive(seats, from);
    let distance = choose|distance: nat| first_holder_at(seats, from, distance, to);
    lemma_mod_bound((from + distance) as int, seats.len() as int);
}

/// The seat that is first to hold dice on the way round from `from` is the
/// seat whose turn is next.
pub proof fn law_first_holder_is_next(seats: Seq<Seat>, from: nat, distance: nat, to: nat)
    requires
        first_holder_at(seats, from, distance, to),
    ensures
        next_alive(seats, from) == to,
{
    law_next_in_turn_is_unique(seats, from, to, next_alive(seats, from));
}

/// Fewer steps than a full round do not lead back to the seat one set out
/// from.
proof fn lemma_no_short_way_round(seats: Seq<Seat>, from: nat, steps: nat)
    requires
        from < seats.len(),
        1 <= steps < seats.len(),
    ensures
        seat_after(seats.len(), from, steps) != from,
{
    if from + steps < seats.len() {
        lemma_small_mod(from + steps, seats.len());
    } else {
        let rest = (from + steps - seats.len()) as nat;
        lemma_mod_add_multiples_vanish(rest as int, seats.len() as int);
        lemma_small_mod(rest, seats.len());
    }
}

/// A seat without dice is never given the turn while another seat holds
/// dice: the seat next in turn after `from` holds dice as soon as any seat
/// does, and it is a seat other than `from` as soon as any other seat holds
/// dice.
pub proof fn law_turn_skips_eliminated_seats(seats: Seq<Seat>, from: nat, holder: nat)
    requires
        from < seats.len(),
        alive(seats, holder),
    ensures
        alive(seats, next_alive(seats, from)),
        holder != from ==> next_alive(seats, from) != from,
{
    law_turn_passes_to_next_holder(seats, from);
    let to = next_alive(seats, from);
    let distance = choose|distance: nat| first_holder_at(seats, from, distance, to);
    if holder != from {
        lemma_every_seat_is_after(seats, from, holder);
        lemma_no_short_way_round(seats, from, distance);
    } else {
        lemma_full_round(seats, from);
    }
}

/// Putting another seat in a place changes the dice in play by the
/// difference between the two.
proof fn lemma_total_dice_after_update(seats: Seq<Seat>, place: int, seat: Seat)
    requires
        0 <= place < seats.len(),
    ensures
        total_dice(seats.update(place, seat)) == total_dice(seats)
            - seats[place].dice_remaining + seat.dice_remaining,
    decreases seats.len(),
{
    if place == seats.len() - 1 {
        assert(seats.update(place, seat).drop_last() =~= seats.drop_last());
    } else {
        assert(seats.update(place, seat).drop_last() =~= seats.drop_last().update(place, seat));
        lemma_total_dice_after_update(seats.drop_last(), place, seat);
    }
}

/// Throwing the dice again leaves their number as it is.
proof fn lemma_total_dice_after_deal(seats: Seq<Seat>, throws: Seq<Seq<u8>>)
    ensures
        total_dice(deal(seats, throws)) == total_dice(seats),
    decreases seats.len(),
{
    if seats.len() > 0 {
        assert(deal(seats, throws).drop_last() =~= deal(seats.drop_last(), throws));
        lemma_total_dice_after_deal(seats.drop_last(), throws);
    }
}

/// Who holds dice decides the winner: the faces and the labels do not.
proof fn lemma_winner_goes_by_dice(seats: Seq<Seat>, others: Seq<Seat>)
    requires
        seats.len() == others.len(),
        forall|i: int|
            0 <= i < seats.len() ==> seats[i].dice_remaining == others[i].dice_remaining,
    ensures
        sole_survivor(seats) == sole_survivor(others),
        forall|seat: nat| alive(seats, seat) == alive(others, seat),
{
    assert forall|seat: nat| alive(seats, seat) == alive(others, seat) by {}
    assert forall|seat: nat| is_sole_survivor(seats, seat) == is_sole_survivor(others, seat) by {}
}

/// The winner is named exactly when a single seat holds dice:
/// `sole_survivor` answers with a seat if and only if that seat holds dice
/// and no other seat does.
pub proof fn law_winner_is_the_sole_survivor(seats: Seq<Seat>, seat: nat)
    ensures
        sole_survivor(seats) == Some(seat) <==> is_sole_survivor(seats, seat),
{
    if is_sole_survivor(seats, seat) {
        let found = choose|found: nat| is_sole_survivor(seats, found);
    }
}

/// A valid bet is accepted, and moves the game on by one turn: where no
/// winner stands, a bet on a face of a die and on at least one die that
/// raises the standing bet, if there is one, is added to the end of the
/// chain under the mover's seat, and the turn passes to the next seat in
/// turn order that holds dice. Nothing else changes.
pub proof fn law_valid_bet_extends_chain(
    table: Table,
    dice_count: u8,
    face_value: u8,
    throws: Seq<Seq<u8>>,
)
    requires
        table.well_formed(),
        table.winner is None,
        is_face(face_value as int),
        dice_count >= 1,
        table.bets.len() > 0 ==> raises(dice_count as nat, face_value as nat, table.bets.last()),
    ensures
        table.apply(bet_action(dice_count, face_value), throws) is Ok,
        ({
            let next = table.apply(bet_action(dice_count, face_value), throws)->Ok_0;
            &&& next.bets.len() == table.bets.len() + 1
            &&& next.bets.drop_last() == table.bets
            &&& next.bets.last() == (Bet {
                bettor: table.current_player,
                dice_count: dice_count as nat,
                face_value: face_value as nat,
            })
            &&& is_next_in_turn(table.seats, table.current_player, next.current_player)
            &&& next.seats == table.seats
            &&& next.round_starter == table.round_starter
            &&& next.winner == table.winner
            &&& next.well_formed()
        }),
{
    let next = table.apply(bet_action(dice_count, face_value), throws)->Ok_0;
    law_turn_passes_to_next_holder(table.seats, table.current_player);
}

/// A bet that does not raise the standing bet is rejected as too low: a bet
/// on a face of a die and on at least one die that claims fewer dice than
/// the standing bet, or as many dice of the same or a lower face, an equal
/// bet included.
pub proof fn law_low_bet_is_rejected(
    table: Table,
    dice_count: u8,
    face_value: u8,
    throws: Seq<Seq<u8>>,
)
    requires
        is_face(face_value as int),
        dice_count >= 1,
        table.bets.len() > 0,
        dice_count < table.bets.last().dice_count || (dice_count == table.bets.last().dice_count
            && face_value <= table.bets.last().face_value),
    ensures
        table.apply(bet_action(dice_count, face_value), throws) == Err::<Table, ActionError>(
            ActionError::BetTooLow,
        ),
{
}

/// A call while no bet stands is always rejected, and always for that
/// reason.
pub proof fn law_call_needs_a_bet(table: Table, action: PlayerAction, throws: Seq<Seq<u8>>)
    requires
        action.action is Call,
        table.bets.len() == 0,
    ensures
        table.apply(action, throws) == Err::<Table, ActionError>(ActionError::NoActiveBet),
{
}

/// Once a winner stands the game takes no further action: whatever is
/// asked of it is rejected.
pub proof fn law_game_over_is_final(table: Table, action: PlayerAction, throws: Seq<Seq<u8>>)
    requires
        table.winner is Some,
    ensures
        table.apply(action, throws) is Err,
{
}

/// A call is paid for by whoever was wrong. If at least as many dice as the
/// standing bet claims show its face, exactly as many included, the caller
/// gives up a die; if fewer do, the bettor gives up a die. The loser's dice
/// go down by one, or stay at none; every other seat keeps its dice.
pub proof fn law_call_costs_the_loser_a_die(
    table: Table,
    action: PlayerAction,
    throws: Seq<Seq<u8>>,
)
    requires
        table.well_formed(),
        action.action is Call,
        table.apply(action, throws) is Ok,
    ensures
        ({
            let next = table.apply(action, throws)->Ok_0;
            let standing = table.bets.last();
            let loser = if standing.dice_count <= matching_dice(
                table.seats,
                standing.face_value,
            ) {
                table.current_player
            } else {
                standing.bettor
            };
            &&& next.seats.len() == table.seats.len()
            &&& forall|i: int|
                0 <= i < table.seats.len() ==> (#[trigger] next.seats[i]).dice_remaining == if i
                    == loser && table.seats[i].dice_remaining > 0 {
                    table.seats[i].dice_remaining - 1
                } else {
                    table.seats[i].dice_remaining as int
                }
            &&& forall|i: int|
                0 <= i < table.seats.len() ==> (#[trigger] next.seats[i]).name
                    == table.seats[i].name
        }),
{
}

/// A call that is settled ends the round: the chain is empty, every die in
/// play has been thrown again, so that each hand shows the first faces of
/// its throw, one per die, and the dice in play are one fewer than before,
/// or as many where the loser had none to give. The seat that opens the new
/// round is the next holder of dice after the last opener, and is the first
/// to move.
pub proof fn law_call_resets_round(table: Table, action: PlayerAction, throws: Seq<Seq<u8>>)
    requires
        table.well_formed(),
        action.action is Call,
        table.apply(action, throws) is Ok,
    ensures
        ({
            let next = table.apply(action, throws)->Ok_0;
            &&& next.bets.len() == 0
            &&& forall|i: int, j: int|
                0 <= i < next.seats.len() && 0 <= j < next.seats[i].dice_remaining
                    ==> #[trigger] next.seats[i].hand[j] == throws[i][j]
            &&& total_dice(next.seats) == if alive(table.seats, table.loser_of_call()) {
                total_dice(table.seats) - 1
            } else {
                total_dice(table.seats) as int
            }
            &&& is_next_in_turn(next.seats, table.round_starter, next.round_starter)
            &&& next.current_player == next.round_starter
            &&& next.well_formed()
        }),
{
    let next = table.apply(action, throws)->Ok_0;
    let loser = table.loser_of_call();
    let seats = lose_die(table.seats, loser);
    lemma_total_dice_after_deal(seats, throws);
    if alive(table.seats, loser) {
        lemma_total_dice_after_update(table.seats, loser as int, seats[loser as int]);
    }
    law_turn_passes_to_next_holder(seats, table.round_starter);
    let distance = choose|distance: nat|
        first_holder_at(seats, table.round_starter, distance, next.round_starter);
    lemma_winner_goes_by_dice(seats, next.seats);
    assert(first_holder_at(next.seats, table.round_starter, distance, next.round_starter));
}

/// After a call the winner is decided by the dice that are left: the game
/// names a winner exactly when a single seat still holds dice, and names
/// that seat.
pub proof fn law_call_decides_the_winner(
    table: Table,
    action: PlayerAction,
    throws: Seq<Seq<u8>>,
    seat: nat,
)
    requires
        action.action is Call,
        table.apply(action, throws) is Ok,
    ensures
        table.apply(action, throws)->Ok_0.winner == Some(seat) <==> is_sole_survivor(
            table.apply(action, throws)->Ok_0.seats,
            seat,
        ),
{
    let next = table.apply(action, throws)->Ok_0;
    let seats = lose_die(table.seats, table.loser_of_call());
    lemma_winner_goes_by_dice(seats, next.seats);
    law_winner_is_the_sole_survivor(next.seats, seat);
}

/// A fresh table of two players or more, up to as many as a table holds,
/// is sound.
pub proof fn law_fresh_table_is_sound(player_count: nat)
    requires
        2 <= player_count <= MAX_PLAYERS,
    ensures
        Table::fresh(player_count).sound(),
{
    let seats = Table::fresh(player_count).seats;
    assert(alive(seats, 0));
    assert(alive(seats, 1));
}

/// Every action that is accepted keeps a sound table sound: what holds of
/// a fresh table, holds of every table that play can reach.
pub proof fn law_action_keeps_table_sound(table: Table, action: PlayerAction, throws: Seq<Seq<u8>>)
    requires
        table.sound(),
        table.apply(action, throws) is Ok,
    ensures
        table.apply(action, throws)->Ok_0.sound(),
{
    let next = table.apply(action, throws)->Ok_0;
    match action.action {
        Action::Call => {
            law_call_takes_a_die_out_of_play(table, action, throws);
        },
        Action::Bet => {
            let (dice_count, face_value) = action.bet->Some_0;
            law_valid_bet_extends_chain(table, dice_count, face_value, throws);
            law_turn_skips_eliminated_seats(
                table.seats,
                table.current_player,
                table.current_player,
            );
            assert forall|k: int| 0 <= k < next.bets.len() implies {
                &&& is_face((#[trigger] next.bets[k]).face_value as int)
                &&& next.bets[k].dice_count >= 1
                &&& alive(next.seats, next.bets[k].bettor)
                &&& next.bets[k].bettor == mover_after(
                    next.seats,
                    next.round_starter,
                    next.bets.take(k),
                )
            } by {
                // The chain up to bet `k` is the chain that stood, or a part of it.
                if k < table.bets.len() {
                    assert(next.bets.take(k) =~= table.bets.take(k));
                } else {
                    assert(next.bets.take(k) =~= table.bets);
                }
            }
        },
    }
}

/// At a sound table a call takes exactly one die out of play, and leaves
/// the table sound: both the caller and the bettor hold dice, so the loser
/// always has a die to give.
pub proof fn law_call_takes_a_die_out_of_play(
    table: Table,
    action: PlayerAction,
    throws: Seq<Seq<u8>>,
)
    requires
        table.sound(),
        action.action is Call,
        table.apply(action, throws) is Ok,
    ensures
        table.apply(action, throws)->Ok_0.sound(),
        total_dice(table.apply(action, throws)->Ok_0.seats) == total_dice(table.seats) - 1,
{
    let next = table.apply(action, throws)->Ok_0;
    let mover = table.current_player;
    let loser = table.loser_of_call();
    let seats = lose_die(table.seats, loser);
    law_call_resets_round(table, action, throws);
    lemma_winner_goes_by_dice(seats, next.seats);
    if next.winner is None {
        law_winner_is_the_sole_survivor(table.seats, mover);
        let other = choose|other: nat| alive(table.seats, other) && other != mover;
        let holder = if mover != loser {
            mover
        } else {
            other
        };
        law_turn_skips_eliminated_seats(seats, table.round_starter, holder);
    }
}

/// Dice never come back into play: no action leaves more dice on the table
/// than it found there.
pub proof fn law_dice_never_come_back(table: Table, action: PlayerAction, throws: Seq<Seq<u8>>)
    requires
        table.well_formed(),
        table.apply(action, throws) is Ok,
    ensures
        total_dice(table.apply(action, throws)->Ok_0.seats) <= total_dice(table.seats),
{
    if action.action is Call {
        law_call_resets_round(table, action, throws);
    }
}

/// At a sound table where a bet stands, two seats at least hold dice, so
/// that the turn never stays where it is.
proof fn lemma_turn_moves_on(table: Table, from: nat)
    requires
        table.sound(),
        table.bets.len() > 0,
        from < table.seats.len(),
    ensures
        next_alive(table.seats, from) != from,
{
    let mover = table.current_player;
    law_winner_is_the_sole_survivor(table.seats, mover);
    let other = choose|other: nat| alive(table.seats, other) && other != mover;
    let holder = if mover != from {
        mover
    } else {
        other
    };
    law_turn_skips_eliminated_seats(table.seats, from, holder);
}

/// At a sound table nobody bets twice in a row: each bet of the chain is
/// by another player than the bet before it.
pub proof fn law_no_player_bets_twice_in_a_row(table: Table, k: int)
    requires
        table.sound(),
        0 < k < table.bets.len(),
    ensures
        table.bets[k].bettor != table.bets[k - 1].bettor,
{
    lemma_turn_moves_on(table, table.bets[k - 1].bettor);
}

/// At a sound table nobody calls a bet of their own: while a bet stands,
/// the player to move is another player than the bettor.
pub proof fn law_caller_is_not_the_bettor(table: Table)
    requires
        table.sound(),
        table.bets.len() > 0,
    ensures
        table.current_player != table.bets.last().bettor,
{
    lemma_turn_moves_on(table, table.bets.last().bettor);
}

} // verus!
