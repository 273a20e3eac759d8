//! Squares named by a rank letter and a file number, such as `e4`.

use vstd::prelude::*;
use crate::color::{color_of_square, lemma_light_iff_even_sum, square_color, FieldColor};
use crate::random::draw_between;
use crate::text::chars_of;

verus! {

/// The rank letters, in the order of the board.
pub const RANKS: [char; 8] = ['a', 'b', 'c', 'd', 'e', 'f', 'g', 'h'];

/// Whether `c` is one of the eight rank letters.
pub open spec fn is_rank(c: char) -> bool {
    'a' <= c <= 'h'
}

/// The 0-based position of the rank letter `c` in the alphabet: 0 for `a`, 7
/// for `h`.
pub open spec fn rank_index(c: char) -> int {
    c as int - 'a' as int
}

/// Whether `c` is a decimal digit.
pub open spec fn is_digit(c: char) -> bool {
    '0' <= c <= '9'
}

/// The number that the digit `c` stands for.
pub open spec fn digit_value(c: char) -> int {
    c as int - '0' as int
}

/// Whether `text` holds decimal digits only.
pub open spec fn all_digits(text: Seq<char>) -> bool {
    forall|i: int| 0 <= i < text.len() ==> is_digit(#[trigger] text[i])
}

/// The number that `digits` write in base ten; 0 for no digits.
pub open spec fn decimal_value(digits: Seq<char>) -> int
    decreases digits.len(),
{
    if digits.len() == 0 {
        0
    } else {
        10 * decimal_value(digits.drop_last()) + digit_value(digits.last())
    }
}

/// Whether `text` opens with a sign.
pub open spec fn has_sign(text: Seq<char>) -> bool {
    text.len() > 0 && (text[0] == '+' || text[0] == '-')
}

/// The file number that `text` writes: an optional `+` or `-`, then one or
/// more decimal digits, the whole within the range of `i32`. `None` for any
/// other text.
pub open spec fn file_number(text: Seq<char>) -> Option<int> {
    let digits = if has_sign(text) {
        text.skip(1)
    } else {
        text
    };
    let value = if has_sign(text) && text[0] == '-' {
        -decimal_value(digits)
    } else {
        decimal_value(digits)
    };
    if digits.len() > 0 && all_digits(digits) && i32::MIN <= value <= i32::MAX {
        Some(value)
    } else {
        None
    }
}

/// Whether `field` names a square: a rank letter, then a file number.
pub open spec fn is_field(field: Seq<char>) -> bool {
    field.len() > 0 && is_rank(field[0]) && file_number(field.skip(1)) is Some
}

/// The colour of the square that `field` names.
pub open spec fn field_color(field: Seq<char>) -> FieldColor {
    square_color(rank_index(field[0]), file_number(field.skip(1))->0)
}

/// The position of `c` among the rank letters, if it is one.
pub fn rank_position(c: char) -> (position: Option<usize>)
    ensures
        position is Some <==> is_rank(c),
        position matches Some(i) ==> i == rank_index(c) && i < 8,
{
    let mut i: usize = 0;
    while i < 8
        invariant
            i <= 8,
            forall|j: int| 0 <= j < i ==> RANKS@[j] != c,
        decreases 8 - i,
    {
        if RANKS[i] == c {
            return Some(i);
        }
        i += 1;
    }
    None
}

/// Digits write a number that is not negative.
proof fn lemma_decimal_value_not_negative(digits: Seq<char>)
    requires
        all_digits(digits),
    ensures
        0 <= decimal_value(digits),
    decreases digits.len(),
{
    if digits.len() > 0 {
        lemma_decimal_value_not_negative(digits.drop_last());
    }
}

/// The first `n` of some digits write no more than all of them.
proof fn lemma_decimal_value_of_prefix(digits: Seq<char>, n: int)
    requires
        all_digits(digits),
        0 <= n <= digits.len(),
    ensures
        0 <= decimal_value(digits.take(n)) <= decimal_value(digits),
    decreases digits.len() - n,
{
    lemma_decimal_value_not_negative(digits.take(n));
    if n < digits.len() {
        lemma_decimal_value_of_prefix(digits, n + 1);
        assert(digits.take(n + 1).drop_last() == digits.take(n));
    } else {
        assert(digits.take(n) == digits);
    }
}

/// Reads the file number that the characters of `text` from `start` on
/// write.
pub fn parse_file_number(text: &Vec<char>, start: usize) -> (number: Option<i32>)
    requires
        start <= text.len(),
    ensures
        match number {
            Some(n) => file_number(text@.skip(start as int)) == Some(n as int),
            None => file_number(text@.skip(start as int)) is None,
        },
{
    let ghost tail = text@.skip(start as int);
    if start == text.len() {
        return None;
    }
    let first = text[start];
    let signed = first == '+' || first == '-';
    let negative = first == '-';
    let from: usize = if signed {
        start + 1
    } else {
        start
    };
    let ghost digits = text@.skip(from as int);
    if from == text.len() {
        return None;
    }
    let limit: i64 = 2147483648;
    let mut magnitude: i64 = 0;
    let mut i: usize = from;
    while i < text.len()
        invariant
            from <= i <= text.len(),
            tail == text@.skip(start as int),
            digits == text@.skip(from as int),
            digits == if has_sign(tail) {
                tail.skip(1)
            } else {
                tail
            },
            all_digits(digits.take(i - from)),
            magnitude == decimal_value(digits.take(i - from)),
            0 <= magnitude <= limit,
            limit == 2147483648,
        decreases text.len() - i,
    {
        let c = text[i];
        if !('0' <= c && c <= '9') {
            assert(!is_digit(digits[i - from]));
            return None;
        }
        let digit: i64 = (c as u32 - '0' as u32) as i64;
        let next: i64 = magnitude * 10 + digit;
        proof {
            assert(digits.take(i - from + 1).drop_last() == digits.take(i - from));
            assert forall|j: int| 0 <= j < i - from + 1 implies is_digit(
                #[trigger] digits.take(i - from + 1)[j],
            ) by {
                if j < i - from {
                    assert(is_digit(digits.take(i - from)[j]));
                }
            }
        }
        if next > limit {
            proof {
                if all_digits(digits) {
                    lemma_decimal_value_of_prefix(digits, i - from + 1);
                }
            }
            return None;
        }
        magnitude = next;
        i += 1;
    }
    assert(digits.take(i - from) == digits);
    if negative {
        Some((-magnitude) as i32)
    } else if magnitude <= 2147483647 {
        Some(magnitude as i32)
    } else {
        None
    }
}

/// Whether `field` names a square: whether it is a rank letter followed by a
/// file number.
pub fn is_valid_field(field: &str) -> (valid: bool)
    ensures
        valid == is_field(field@),
{
    let chars = chars_of(field);
    if chars.len() == 0 {
        return false;
    }
    rank_position(chars[0]).is_some() && parse_file_number(&chars, 1).is_some()
}

/// The colour of the square that `field` names: light if the position of its
/// rank letter and its file number are both even or both odd, dark if one is
/// even and the other odd.
pub fn calculate_field_color(field: String) -> (color: FieldColor)
    requires
        is_field(field@),
    ensures
        color == field_color(field@),
        color == FieldColor::Light <==> (rank_index(field@[0]) + file_number(
            field@.skip(1),
        )->0) % 2 == 0,
{
    let chars = chars_of(field.as_str());
    let index = rank_position(chars[0]);
    let field_number = parse_file_number(&chars, 1);
    proof {
        lemma_light_iff_even_sum(rank_index(field@[0]), file_number(field@.skip(1))->0);
    }
    match (index, field_number) {
        (Some(index), Some(field_number)) => color_of_square(index, field_number),
        _ => FieldColor::Dark,
    }
}

/// The digits, in order.
pub const DIGITS: [char; 10] = ['0', '1', '2', '3', '4', '5', '6', '7', '8', '9'];

/// Whether `field` is a name that drawing can give: one of the rank letters
/// `b` to `h`, then one of the digits `1` to `7`.
pub open spec fn is_drawn_field(field: Seq<char>) -> bool {
    &&& field.len() == 2
    &&& 'b' <= field[0] <= 'h'
    &&& '1' <= field[1] <= '7'
}

/// The name of the square at the 0-based rank position `rank` and the file
/// number `file`: the rank letter, then the file as one digit.
pub fn compose_field(rank: usize, file: usize) -> (field: String)
    requires
        rank < 8,
        1 <= file <= 8,
    ensures
        field@ == seq![RANKS@[rank as int], DIGITS@[file as int]],
        is_field(field@),
        rank_index(field@[0]) == rank,
        file_number(field@.skip(1)) == Some(file as int),
{
    let mut field = String::new();
    field.push(RANKS[rank]);
    field.push(DIGITS[file]);
    proof {
        let digits = field@.skip(1);
        assert(digits == seq![DIGITS@[file as int]]);
        assert(digit_value(digits.last()) == file);
        assert(decimal_value(digits.drop_last()) == 0);
    }
    field
}

/// Draws a square at random: a rank position from 1 to 7 and a file number
/// from 1 to 7, each drawn on its own. The rank letter `a` and the file 8
/// never come.
pub fn generate_random_field() -> (field: String)
    ensures
        is_drawn_field(field@),
        is_field(field@),
        1 <= rank_index(field@[0]) <= 7,
        file_number(field@.skip(1)) matches Some(file) && 1 <= file <= 7,
{
    let mut rng = rand::thread_rng();
    let rank = draw_between(&mut rng, 1, RANKS.len());
    let file = draw_between(&mut rng, 1, RANKS.len());
    compose_field(rank, file)
}


} // verus!
