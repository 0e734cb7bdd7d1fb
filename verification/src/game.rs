//! The game as it is held in memory, and the actions that move it on.

use vstd::prelude::*;
use vstd::arithmetic::div_mod::{lemma_mod_add_multiples_vanish, lemma_small_mod};
use crate::dice::{is_face, roll_dice, MAX_FACE, MIN_FACE};
use crate::error::ActionError;
use crate::laws::{
    law_action_keeps_table_sound, law_first_holder_is_next, law_fresh_table_is_sound,
};
use crate::table::{
    alive, all_faces, count_face, deal, first_holder_at, hands, is_sole_survivor, lose_die,
    matching_dice, next_alive, rerolled, seat_after, seat_label, sole_survivor, total_dice, Bet,
    Seat, Table,
    DICE_PER_PLAYER, MAX_PLAYERS,
};

verus! {

/// What a player can do when it is their turn.
#[derive(Debug, Clone, PartialEq, Eq)]
pub enum Action {
    /// Raise the standing bet, or open the round with a first bet.
    Bet,
    /// Call the standing bet a lie.
    Call,
}

/// An action together with the numbers that a bet needs.
#[derive(Debug, Clone, PartialEq, Eq)]
pub struct PlayerAction {
    /// Bet or call.
    pub action: Action,
    /// For a bet: how many dice are claimed, and the face they are claimed
    /// to show. A call carries none.
    pub bet: Option<(u8, u8)>,
}

/// A snapshot of a game. An action never changes the snapshot it is given:
/// it answers with a new one.
#[derive(Debug, Clone, PartialEq, Eq)]
pub struct Game {
    /// How many seats are taken. Only the first `player_count` entries of
    /// the arrays below belong to the game.
    pub player_count: u8,
    /// The seat whose turn it is.
    pub current_player: u8,
    /// The seat that opened the running round.
    pub round_starter: u8,
    /// The label of each seat.
    pub player_names: [String; MAX_PLAYERS],
    /// How many dice each seat still has in play.
    pub current_player_dice_count: [u8; MAX_PLAYERS],
    /// The faces of each seat's dice. Of a seat's entries only the first
    /// `current_player_dice_count` are dice in play; the rest is stale.
    pub player_dice: [[u8; DICE_PER_PLAYER]; MAX_PLAYERS],
    /// The bets of the running round, oldest first, each as the bettor's
    /// seat, the number of dice claimed and the face claimed.
    pub bets: Vec<(u8, u8, u8)>,
    /// The seat that has won, once a single player is left.
    pub winner: Option<u8>,
}

/// The action that calls the standing bet.
pub open spec fn call_action() -> PlayerAction {
    PlayerAction { action: Action::Call, bet: None }
}

/// The action that bets `dice_count` dice showing `face_value`.
pub open spec fn bet_action(dice_count: u8, face_value: u8) -> PlayerAction {
    PlayerAction { action: Action::Bet, bet: Some((dice_count, face_value)) }
}

/// A seat number as the table counts it.
pub open spec fn seat_of(seat: Option<u8>) -> Option<nat> {
    match seat {
        Some(seat) => Some(seat as nat),
        None => None,
    }
}

/// The throws that a table of dice stands for: one sequence of faces per
/// seat.
pub open spec fn throws_of(dice: [[u8; DICE_PER_PLAYER]; MAX_PLAYERS]) -> Seq<Seq<u8>> {
    Seq::new(MAX_PLAYERS as nat, |i: int| dice[i]@)
}

/// The result of an action, with the table in place of the snapshot.
pub open spec fn outcome(result: Result<Game, ActionError>) -> Result<Table, ActionError> {
    match result {
        Ok(next) => Ok(next@),
        Err(reason) => Err(reason),
    }
}

/// The throws that an action had: the hands of the game it led to. A
/// rejected action throws no dice.
pub open spec fn thrown(result: Result<Game, ActionError>) -> Seq<Seq<u8>> {
    match result {
        Ok(next) => hands(next@.seats),
        Err(_) => Seq::empty(),
    }
}

impl View for Game {
    type V = Table;

    /// The table that the snapshot stands for: its first `player_count`
    /// seats, each with the dice it has in play.
    open spec fn view(&self) -> Table {
        Table {
            seats: Seq::new(
                self.player_count as nat,
                |i: int|
                    Seat {
                        name: self.player_names[i]@,
                        dice_remaining: self.current_player_dice_count[i] as nat,
                        hand: self.player_dice[i]@.take(self.current_player_dice_count[i] as int),
                    },
            ),
            bets: Seq::new(
                self.bets@.len(),
                |k: int|
                    Bet {
                        bettor: self.bets@[k].0 as nat,
                        dice_count: self.bets@[k].1 as nat,
                        face_value: self.bets@[k].2 as nat,
                    },
            ),
            current_player: self.current_player as nat,
            round_starter: self.round_starter as nat,
            winner: seat_of(self.winner),
        }
    }
}

impl Game {
    /// Whether the snapshot stands for a well-formed table.
    pub open spec fn well_formed(&self) -> bool {
        self@.well_formed()
    }

    /// Whether die `die` of seat `seat` is in play: the seat is taken and
    /// has more dice left than `die`.
    pub open spec fn die_in_play(&self, seat: int, die: int) -> bool {
        0 <= seat < self.player_count && 0 <= die < self.current_player_dice_count[seat]
    }

    /// Whether the snapshot has the seating of `before`: as many seats are
    /// taken, every label is the same, and so is the number of dice on
    /// record for each seat that nobody has taken.
    pub open spec fn same_seating(&self, before: Game) -> bool {
        &&& self.player_count == before.player_count
        &&& self.player_names == before.player_names
        &&& forall|seat: int|
            before.player_count <= seat < MAX_PLAYERS
                ==> self.current_player_dice_count[seat]
                == before.current_player_dice_count[seat]
    }

    /// Whether every die that is out of play shows what it shows in
    /// `before`.
    pub open spec fn same_dice_out_of_play(&self, before: Game) -> bool {
        forall|seat: int, die: int|
            0 <= seat < MAX_PLAYERS && 0 <= die < DICE_PER_PLAYER && !self.die_in_play(seat, die)
                ==> #[trigger] self.player_dice[seat][die] == before.player_dice[seat][die]
    }

    /// Whether the snapshot is a fresh game: it stands for the fresh table
    /// of its players, and off the table every seat, taken or not, has
    /// `DICE_PER_PLAYER` dice on record that show no face, and the seats
    /// that nobody has taken have no label.
    pub open spec fn is_fresh(&self) -> bool {
        &&& self@ == Table::fresh(self.player_count as nat)
        &&& forall|seat: int|
            0 <= seat < MAX_PLAYERS ==> self.current_player_dice_count[seat] == DICE_PER_PLAYER
        &&& forall|seat: int, die: int|
            0 <= seat < MAX_PLAYERS && 0 <= die < DICE_PER_PLAYER
                ==> #[trigger] self.player_dice[seat][die] == 0
        &&& forall|seat: int|
            self.player_count <= seat < MAX_PLAYERS ==> (#[trigger] self.player_names[seat])@
                == Seq::<char>::empty()
    }

    /// A fresh game of four players.
    pub fn new() -> (game: Game)
        ensures
            game.player_count == 4,
            game.is_fresh(),
            game.well_formed(),
            game@.sound(),
    {
        proof {
            law_fresh_table_is_sound(4);
        }
        Game::seated(4)
    }

    /// A fresh game of `player_count` players, for any number of players
    /// from two up to `MAX_PLAYERS`; no game for any other number.
    pub fn with_players(player_count: u8) -> (game: Option<Game>)
        ensures
            match game {
                Some(game) => {
                    &&& 2 <= player_count <= MAX_PLAYERS
                    &&& game.player_count == player_count
                    &&& game.is_fresh()
                    &&& game.well_formed()
                    &&& game@.sound()
                },
                None => !(2 <= player_count <= MAX_PLAYERS),
            },
    {
        if 2 <= player_count && player_count as usize <= MAX_PLAYERS {
            proof {
                law_fresh_table_is_sound(player_count as nat);
            }
            Some(Game::seated(player_count))
        } else {
            None
        }
    }

    /// A fresh game with the first `player_count` seats taken.
    fn seated(player_count: u8) -> (game: Game)
        requires
            1 <= player_count <= MAX_PLAYERS,
        ensures
            game.player_count == player_count,
            game.is_fresh(),
            game.well_formed(),
    {
        let game = Game {
            player_count,
            current_player: 0,
            round_starter: 0,
            player_names: [
                label_for(0, player_count),
                label_for(1, player_count),
                label_for(2, player_count),
                label_for(3, player_count),
                label_for(4, player_count),
                label_for(5, player_count),
                label_for(6, player_count),
                label_for(7, player_count),
            ],
            current_player_dice_count: [DICE_PER_PLAYER as u8; MAX_PLAYERS],
            player_dice: [[0u8; DICE_PER_PLAYER]; MAX_PLAYERS],
            bets: Vec::new(),
            winner: None,
        };
        proof {
            assert(game@ =~~= Table::fresh(player_count as nat));
        }
        game
    }

    /// Tests whether the snapshot is well formed, which is what every
    /// operation on it asks for. A snapshot that the engine has answered
    /// with always is; one whose fields were set by hand may not be.
    pub fn is_well_formed(&self) -> (ok: bool)
        ensures
            ok == self.well_formed(),
    {
        if self.player_count < 1 || self.player_count as usize > MAX_PLAYERS {
            return false;
        }
        if self.current_player >= self.player_count || self.round_starter >= self.player_count {
            return false;
        }
        let mut seat: usize = 0;
        while seat < self.player_count as usize
            invariant
                seat <= self.player_count <= MAX_PLAYERS,
                forall|i: int|
                    0 <= i < seat ==> self.current_player_dice_count[i] <= DICE_PER_PLAYER,
            decreases self.player_count - seat,
        {
            if self.current_player_dice_count[seat] as usize > DICE_PER_PLAYER {
                assert(self@.seats[seat as int].dice_remaining > DICE_PER_PLAYER);
                return false;
            }
            seat += 1;
        }
        let mut k: usize = 0;
        while k < self.bets.len()
            invariant
                k <= self.bets.len(),
                forall|i: int| 0 <= i < k ==> self.bets@[i].0 < self.player_count,
            decreases self.bets.len() - k,
        {
            if self.bets[k].0 >= self.player_count {
                assert(self@.bets[k as int].bettor >= self@.seats.len());
                return false;
            }
            k += 1;
        }
        true
    }

    /// The hand of `seat`: the faces of its dice in play, and of no others.
    pub fn hand(&self, seat: u8) -> (hand: Vec<u8>)
        requires
            self.well_formed(),
            seat < self.player_count,
        ensures
            hand@ == self@.seats[seat as int].hand,
    {
        let dice_count: usize = self.current_player_dice_count[seat as usize] as usize;
        assert(dice_count == self@.seats[seat as int].dice_remaining);
        let mut hand: Vec<u8> = Vec::new();
        let mut die: usize = 0;
        while die < dice_count
            invariant
                seat < MAX_PLAYERS,
                die <= dice_count <= DICE_PER_PLAYER,
                hand@ == self.player_dice[seat as int]@.take(die as int),
            decreases dice_count - die,
        {
            hand.push(self.player_dice[seat as usize][die]);
            die += 1;
        }
        hand
    }

    /// Counts the dice in play, over all seats.
    pub fn total_dice(&self) -> (total: usize)
        requires
            self.well_formed(),
        ensures
            total == total_dice(self@.seats),
    {
        let ghost seats = self@.seats;
        let mut total: usize = 0;
        let mut seat: usize = 0;
        while seat < self.player_count as usize
            invariant
                self.well_formed(),
                seats == self@.seats,
                seat <= self.player_count,
                total == total_dice(seats.take(seat as int)),
                total <= seat * DICE_PER_PLAYER,
            decreases self.player_count - seat,
        {
            proof {
                assert(seats.take(seat + 1).drop_last() =~= seats.take(seat as int));
            }
            total += self.current_player_dice_count[seat] as usize;
            seat += 1;
        }
        proof {
            assert(seats.take(seat as int) =~= seats);
        }
        total
    }

    /// Counts the dice in play, over all hands, that show `face_value`.
    pub fn count_matching_dice(&self, face_value: u8) -> (total: usize)
        requires
            self.well_formed(),
        ensures
            total == matching_dice(self@.seats, face_value as nat),
    {
        let ghost seats = self@.seats;
        let mut total: usize = 0;
        let mut player: usize = 0;
        while player < self.player_count as usize
            invariant
                self.well_formed(),
                seats == self@.seats,
                player <= self.player_count,
                total == matching_dice(seats.take(player as int), face_value as nat),
                total <= player * DICE_PER_PLAYER,
            decreases self.player_count - player,
        {
            let dice_count: usize = self.current_player_dice_count[player] as usize;
            let ghost hand = seats[player as int].hand;
            let mut in_hand: usize = 0;
            let mut die: usize = 0;
            while die < dice_count
                invariant
                    player < MAX_PLAYERS,
                    die <= dice_count <= DICE_PER_PLAYER,
                    hand == self.player_dice[player as int]@.take(dice_count as int),
                    in_hand == count_face(hand.take(die as int), face_value as nat),
                    in_hand <= die,
                decreases dice_count - die,
            {
                proof {
                    assert(hand.take(die + 1).drop_last() =~= hand.take(die as int));
                }
                if self.player_dice[player][die] == face_value {
                    in_hand += 1;
                }
                die += 1;
            }
            proof {
                assert(hand.take(dice_count as int) =~= hand);
                assert(seats.take(player + 1).drop_last() =~= seats.take(player as int));
            }
            total += in_hand;
            player += 1;
        }
        proof {
            assert(seats.take(player as int) =~= seats);
        }
        total
    }

    /// Finds the seat whose turn comes after that of `from`: the next seat
    /// in turn order that holds dice. Seats without dice are passed over.
    /// When no other seat holds dice the turn stays with `from`.
    pub fn next_player_with_dice(&self, from: u8) -> (next: u8)
        requires
            self.well_formed(),
            from < self.player_count,
        ensures
            next == next_alive(self@.seats, from as nat),
            next < self.player_count,
    {
        let ghost seats = self@.seats;
        let mut step: u8 = 1;
        while step < self.player_count
            invariant
                self.well_formed(),
                seats == self@.seats,
                from < self.player_count,
                1 <= step <= self.player_count,
                forall|j: nat|
                    1 <= j < step ==> !alive(
                        seats,
                        #[trigger] seat_after(seats.len(), from as nat, j),
                    ),
            decreases self.player_count - step,
        {
            let seat: u8 = (from + step) % self.player_count;
            if self.current_player_dice_count[seat as usize] > 0 {
                proof {
                    law_first_holder_is_next(seats, from as nat, step as nat, seat as nat);
                }
                return seat;
            }
            step += 1;
        }
        proof {
            lemma_mod_add_multiples_vanish(from as int, seats.len() as int);
            lemma_small_mod(from as nat, seats.len());
            law_first_holder_is_next(seats, from as nat, step as nat, from as nat);
        }
        from
    }

    /// Finds the winner that the dice decide: the one seat that holds dice,
    /// if exactly one seat does.
    pub fn find_winner(&self) -> (winner: Option<u8>)
        requires
            self.well_formed(),
        ensures
            seat_of(winner) == sole_survivor(self@.seats),
    {
        let ghost seats = self@.seats;
        let mut found: Option<u8> = None;
        let mut seat: u8 = 0;
        while seat < self.player_count
            invariant
                self.well_formed(),
                seats == self@.seats,
                seat <= self.player_count,
                found is None ==> forall|other: nat| other < seat ==> !alive(seats, other),
                found matches Some(holder) ==> holder < seat && alive(seats, holder as nat)
                    && forall|other: nat|
                    other < seat && alive(seats, other) ==> other == holder,
            decreases self.player_count - seat,
        {
            if self.current_player_dice_count[seat as usize] > 0 {
                match found {
                    Some(holder) => {
                        proof {
                            assert(alive(seats, holder as nat) && alive(seats, seat as nat));
                        }
                        return None;
                    },
                    None => {
                        found = Some(seat);
                    },
                }
            }
            seat += 1;
        }
        proof {
            match found {
                Some(holder) => {
                    assert(is_sole_survivor(seats, holder as nat));
                },
                None => {},
            }
        }
        found
    }

    /// Places a bet of `dice_count` dice showing `face_value` for the
    /// player to move, and answers with the game after it or the reason the
    /// bet is rejected.
    pub fn place_bet(&self, dice_count: u8, face_value: u8) -> (result: Result<Game, ActionError>)
        requires
            self.well_formed(),
        ensures
            outcome(result) == self@.place_bet(dice_count as nat, face_value as nat),
            result matches Ok(next) ==> next.well_formed(),
            result matches Ok(next) ==> (self@.sound() ==> next@.sound()),
            result matches Ok(next) ==> next.same_seating(*self),
            result matches Ok(next) ==> next.player_dice == self.player_dice,
    {
        if face_value < MIN_FACE || face_value > MAX_FACE {
            return Err(ActionError::InvalidFaceValue);
        }
        if dice_count == 0 {
            return Err(ActionError::ZeroDiceBet);
        }
        let placed: usize = self.bets.len();
        if placed > 0 {
            let (_, standing_count, standing_face) = self.bets[placed - 1];
            if dice_count < standing_count || (dice_count == standing_count && face_value
                <= standing_face) {
                return Err(ActionError::BetTooLow);
            }
        }
        if self.winner.is_some() {
            return Err(ActionError::GameOver);
        }
        let mut bets = copy_bets(&self.bets);
        bets.push((self.current_player, dice_count, face_value));
        let next = Game {
            player_count: self.player_count,
            current_player: self.next_player_with_dice(self.current_player),
            round_starter: self.round_starter,
            player_names: copy_names(&self.player_names),
            current_player_dice_count: self.current_player_dice_count,
            player_dice: self.player_dice,
            bets,
            winner: None,
        };
        proof {
            assert(next@ =~~= self@.place_bet(dice_count as nat, face_value as nat)->Ok_0);
            if self@.sound() {
                law_action_keeps_table_sound(
                    self@,
                    bet_action(dice_count, face_value),
                    Seq::empty(),
                );
            }
        }
        Ok(next)
    }

    /// Settles a call of the standing bet by the player to move, with
    /// `throws` as the faces that the dice show when they are thrown again,
    /// and answers with the game after it or the reason the call is
    /// rejected.
    pub fn resolve_call(&self, throws: &[[u8; DICE_PER_PLAYER]; MAX_PLAYERS]) -> (result: Result<
        Game,
        ActionError,
    >)
        requires
            self.well_formed(),
        ensures
            outcome(result) == self@.resolve_call(throws_of(*throws)),
            result matches Ok(next) ==> next.well_formed(),
            result matches Ok(next) ==> (self@.sound() ==> next@.sound()),
            result matches Ok(next) ==> next.same_seating(*self),
            result matches Ok(next) ==> next.player_dice == *throws,
    {
        let placed: usize = self.bets.len();
        if placed == 0 {
            return Err(ActionError::NoActiveBet);
        }
        if self.winner.is_some() {
            return Err(ActionError::GameOver);
        }
        let (bettor, claimed, face_value) = self.bets[placed - 1];
        let actual: usize = self.count_matching_dice(face_value);
        let loser: u8 = if actual >= claimed as usize {
            self.current_player
        } else {
            bettor
        };
        let mut dice_counts = self.current_player_dice_count;
        if dice_counts[loser as usize] > 0 {
            dice_counts[loser as usize] = dice_counts[loser as usize] - 1;
        }
        let mut next = Game {
            player_count: self.player_count,
            current_player: self.current_player,
            round_starter: self.round_starter,
            player_names: copy_names(&self.player_names),
            current_player_dice_count: dice_counts,
            player_dice: self.player_dice,
            bets: Vec::new(),
            winner: None,
        };
        let ghost seats = lose_die(self@.seats, loser as nat);
        proof {
            assert(next@.seats =~~= seats);
        }
        let starter: u8 = next.next_player_with_dice(self.round_starter);
        let winner = next.find_winner();
        next.current_player = starter;
        next.round_starter = starter;
        next.winner = winner;
        next.player_dice = *throws;
        proof {
            assert(next@ =~~= self@.resolve_call(throws_of(*throws))->Ok_0);
            if self@.sound() {
                law_action_keeps_table_sound(self@, call_action(), throws_of(*throws));
            }
        }
        Ok(next)
    }
}

/// The label of `seat` in a fresh game of `player_count` players. Seats
/// that nobody has taken have an empty label.
fn label_for(seat: u8, player_count: u8) -> (label: String)
    ensures
        label@ == if seat < player_count {
            seat_label(seat as nat)
        } else {
            Seq::empty()
        },
{
    if seat >= player_count {
        String::new()
    } else if seat == 0 {
        "Player 1".to_string()
    } else if seat == 1 {
        "Player 2".to_string()
    } else if seat == 2 {
        "Player 3".to_string()
    } else if seat == 3 {
        "Player 4".to_string()
    } else if seat == 4 {
        "Player 5".to_string()
    } else if seat == 5 {
        "Player 6".to_string()
    } else if seat == 6 {
        "Player 7".to_string()
    } else if seat == 7 {
        "Player 8".to_string()
    } else {
        String::new()
    }
}

/// Copies the labels of the seats.
fn copy_names(names: &[String; MAX_PLAYERS]) -> (copy: [String; MAX_PLAYERS])
    ensures
        copy == *names,
{
    let copy = [
        names[0].clone(),
        names[1].clone(),
        names[2].clone(),
        names[3].clone(),
        names[4].clone(),
        names[5].clone(),
        names[6].clone(),
        names[7].clone(),
    ];
    assert(copy =~= *names);
    copy
}

/// Copies a chain of bets.
fn copy_bets(bets: &Vec<(u8, u8, u8)>) -> (copy: Vec<(u8, u8, u8)>)
    ensures
        copy@ == bets@,
{
    let mut copy: Vec<(u8, u8, u8)> = Vec::new();
    let mut k: usize = 0;
    while k < bets.len()
        invariant
            k <= bets.len(),
            copy@ == bets@.take(k as int),
        decreases bets.len() - k,
    {
        copy.push(bets[k]);
        k += 1;
    }
    copy
}

/// Throws every die in play again: for each seat of the game, as many dice
/// as the seat has left. Nothing else in the game changes.
pub fn roll_all_dice(game: &mut Game)
    requires
        old(game).well_formed(),
    ensures
        rerolled(old(game)@, final(game)@),
        final(game).well_formed(),
        final(game).same_seating(*old(game)),
        final(game).same_dice_out_of_play(*old(game)),
{
    let mut dice = game.player_dice;
    let mut player: usize = 0;
    while player < game.player_count as usize
        invariant
            *game == *old(game),
            game.well_formed(),
            player <= game.player_count,
            forall|i: int, j: int|
                0 <= i < MAX_PLAYERS && 0 <= j < DICE_PER_PLAYER && !(i < player && j
                    < game.current_player_dice_count[i]) ==> #[trigger] dice[i][j]
                    == game.player_dice[i][j],
            forall|i: int, j: int|
                0 <= i < player && 0 <= j < game.current_player_dice_count[i] ==> is_face(
                    #[trigger] dice[i][j] as int,
                ),
        decreases game.player_count - player,
    {
        let dice_count: usize = game.current_player_dice_count[player] as usize;
        assert(game@.seats[player as int].dice_remaining == dice_count);
        let mut hand = dice[player];
        let mut die: usize = 0;
        while die < dice_count
            invariant
                die <= dice_count <= DICE_PER_PLAYER,
                forall|j: int| 0 <= j < die ==> is_face(#[trigger] hand[j] as int),
                forall|j: int| die <= j < DICE_PER_PLAYER ==> hand[j] == dice[player as int][j],
            decreases dice_count - die,
        {
            hand[die] = roll_dice();
            die += 1;
        }
        dice[player] = hand;
        player += 1;
    }
    game.player_dice = dice;
    proof {
        assert(final(game)@ =~~= Table {
            seats: deal(old(game)@.seats, hands(final(game)@.seats)),
            ..old(game)@
        });
    }
}

/// Applies `action` for the player to move, with `throws` as the faces that
/// the dice show if the action has them thrown again, and answers with the
/// game after it or the reason the action is rejected. The game given is
/// left as it was.
pub fn take_action_with_dice(
    game: &Game,
    action: PlayerAction,
    throws: &[[u8; DICE_PER_PLAYER]; MAX_PLAYERS],
) -> (result: Result<Game, ActionError>)
    requires
        game.well_formed(),
    ensures
        outcome(result) == game@.apply(action, throws_of(*throws)),
        result matches Ok(next) ==> next.well_formed(),
        result matches Ok(next) ==> (game@.sound() ==> next@.sound()),
        result matches Ok(next) ==> next.same_seating(*game),
        result matches Ok(next) ==> next.player_dice == if action.action is Call {
            *throws
        } else {
            game.player_dice
        },
{
    match action.action {
        Action::Call => game.resolve_call(throws),
        Action::Bet => match action.bet {
            Some((dice_count, face_value)) => game.place_bet(dice_count, face_value),
            None => Err(ActionError::MissingBetPayload),
        },
    }
}

/// Applies `action` for the player to move and answers with the game after
/// it, or with the reason the action is rejected. The game given is left as
/// it was. A call that is accepted throws every die in play again; what the
/// dice then show is the one thing the rules leave open.
pub fn take_action(game: &Game, action: PlayerAction) -> (result: Result<Game, ActionError>)
    requires
        game.well_formed(),
    ensures
        outcome(result) == game@.apply(action, thrown(result)),
        result matches Ok(next) ==> next.well_formed(),
        result matches Ok(next) ==> (game@.sound() ==> next@.sound()),
        result matches Ok(next) ==> (action.action is Call ==> all_faces(next@.seats)),
        result matches Ok(next) ==> next.same_seating(*game),
        result matches Ok(next) ==> next.same_dice_out_of_play(*game),
{
    let called = match action.action {
        Action::Call => true,
        Action::Bet => false,
    };
    match take_action_with_dice(game, action, &game.player_dice) {
        Ok(settled) => {
            let mut next = settled;
            if called {
                roll_all_dice(&mut next);
            }
            proof {
                assert(next@ =~~= game@.apply(action, hands(next@.seats))->Ok_0);
                if game@.sound() {
                    law_action_keeps_table_sound(game@, action, hands(next@.seats));
                }
            }
            Ok(next)
        },
        Err(reason) => Err(reason),
    }
}

} // verus!
