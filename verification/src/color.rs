//! The two colours of a board and the parity rule that assigns them.

use vstd::prelude::*;

verus! {

/// The colour of a square.
#[derive(Clone, Copy, Debug, PartialEq, Eq, Structural)]
pub enum FieldColor {
    Dark,
    Light,
}

/// The colour of the square whose rank letter has 0-based position
/// `rank_index` in the alphabet and whose file number is `file`: light when
/// the two have the same parity, dark otherwise.
pub open spec fn square_color(rank_index: int, file: int) -> FieldColor {
    if rank_index % 2 == file % 2 {
        FieldColor::Light
    } else {
        FieldColor::Dark
    }
}

/// Whether `input` is even.
pub fn is_even(input: i32) -> (even: bool)
    ensures
        even == (input % 2 == 0),
{
    input % 2 == 0
}

/// The colour of the square at the 0-based rank position `rank_index` and the
/// file number `file`.
pub fn color_of_square(rank_index: usize, file: i32) -> (color: FieldColor)
    requires
        rank_index < 8,
    ensures
        color == square_color(rank_index as int, file as int),
{
    let index = rank_index as i32;
    if is_even(index) && is_even(file) || !is_even(index) && !is_even(file) {
        return FieldColor::Light;
    }
    FieldColor::Dark
}

/// Two numbers have the same parity exactly when their sum is even, so a
/// square is light exactly when the position of its rank letter and its file
/// number add up to an even number.
pub proof fn lemma_light_iff_even_sum(rank_index: int, file: int)
    ensures
        square_color(rank_index, file) == FieldColor::Light <==> (rank_index + file) % 2 == 0,
        square_color(rank_index, file) == FieldColor::Dark <==> (rank_index + file) % 2 != 0,
{
}

} // verus!
