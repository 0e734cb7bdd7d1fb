//! The die: its faces, and the throws that chance decides.

use vstd::prelude::*;

verus! {

/// The lowest face of a die.
pub const MIN_FACE: u8 = 1;

/// The highest face of a die.
pub const MAX_FACE: u8 = 6;

/// Whether `face` is a face that a die can show.
pub open spec fn is_face(face: int) -> bool {
    MIN_FACE <= face <= MAX_FACE
}

/// Draws a number from `low` up to, and without, `high`; where the two are
/// equal, the draw is `low`.
///
/// Trusted: the body calls `macroquad::rand::gen_range`. That function
/// takes the next number of the process-wide generator as a fraction of
/// one, at least nought and less than one, scales it by `high - low`, adds
/// `low`, and drops what is behind the point. The contract claims what
/// holds of every draw, and no more: that the result lies in the range
/// asked for. Two draws may differ.
#[verifier::external_body]
pub(crate) fn draw_between(low: u8, high: u8) -> (drawn: u8)
    requires
        low <= high,
    ensures
        low <= drawn <= high,
        low < high ==> drawn < high,
{
    macroquad::rand::gen_range(low, high)
}

/// Throws one die: the result is one of its faces.
pub fn roll_dice() -> (face: u8)
    ensures
        is_face(face as int),
{
    draw_between(MIN_FACE, MAX_FACE + 1)
}

/// Where the dots of `face` stand on the die: for each dot, how many steps
/// it stands right of the middle and how many below it, each of them -1, 0
/// or 1. The dots come row by row, and from left to right in a row. What is
/// no face of a die has no dots.
pub open spec fn dots_of(face: u8) -> Seq<(i8, i8)> {
    if face == 1 {
        seq![(0i8, 0i8)]
    } else if face == 2 {
        seq![(-1i8, -1i8), (1i8, 1i8)]
    } else if face == 3 {
        seq![(-1i8, -1i8), (0i8, 0i8), (1i8, 1i8)]
    } else if face == 4 {
        seq![(-1i8, -1i8), (1i8, -1i8), (-1i8, 1i8), (1i8, 1i8)]
    } else if face == 5 {
        seq![(-1i8, -1i8), (1i8, -1i8), (0i8, 0i8), (-1i8, 1i8), (1i8, 1i8)]
    } else if face == 6 {
        seq![(-1i8, -1i8), (1i8, -1i8), (-1i8, 0i8), (1i8, 0i8), (-1i8, 1i8), (1i8, 1i8)]
    } else {
        Seq::empty()
    }
}

/// Lays out the dots of `face` on the die.
pub fn dice_dots(face: u8) -> (dots: Vec<(i8, i8)>)
    ensures
        dots@ == dots_of(face),
{
    if face == 1 {
        vec![(0, 0)]
    } else if face == 2 {
        vec![(-1, -1), (1, 1)]
    } else if face == 3 {
        vec![(-1, -1), (0, 0), (1, 1)]
    } else if face == 4 {
        vec![(-1, -1), (1, -1), (-1, 1), (1, 1)]
    } else if face == 5 {
        vec![(-1, -1), (1, -1), (0, 0), (-1, 1), (1, 1)]
    } else if face == 6 {
        vec![(-1, -1), (1, -1), (-1, 0), (1, 0), (-1, 1), (1, 1)]
    } else {
        Vec::new()
    }
}

/// A face shows as many dots as it counts, each in a place of its own on
/// the three rows and three columns of the die.
pub proof fn law_face_shows_its_number_in_dots(face: u8)
    requires
        is_face(face as int),
    ensures
        dots_of(face).len() == face,
        forall|k: int|
            0 <= k < dots_of(face).len() ==> -1 <= (#[trigger] dots_of(face)[k]).0 <= 1 && -1
                <= dots_of(face)[k].1 <= 1,
        forall|j: int, k: int|
            0 <= j < k < dots_of(face).len() ==> dots_of(face)[j] != dots_of(face)[k],
{
}

} // verus!
