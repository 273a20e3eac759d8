//! Characters of a string, and what the standard library knows of Unicode.

use vstd::prelude::*;

verus! {

/// Whether `c` is a whitespace character, as `char::is_whitespace` reports it:
/// whether it has the Unicode property `White_Space`.
pub uninterp spec fn is_whitespace_char(c: char) -> bool;

/// The lowercase form of `s`, as `str::to_lowercase` computes it from the
/// Unicode property `Lowercase`. One character may become several, so the
/// result can be longer than `s`.
pub uninterp spec fn lowercase_of(s: Seq<char>) -> Seq<char>;

/// Not proved: `char::is_whitespace` answers by the character alone, and its
/// answer is what `is_whitespace_char` stands for.
pub assume_specification[ char::is_whitespace ](c: char) -> (b: bool)
    ensures
        b == is_whitespace_char(c),
;

/// Not proved: `str::to_lowercase` returns a new string that depends on the
/// characters of `s` alone, and its characters are what `lowercase_of` stands
/// for.
pub assume_specification[ str::to_lowercase ](s: &str) -> (lower: String)
    ensures
        lower@ == lowercase_of(s@),
;

/// Not proved: `String::push` appends `c` to the end of `s` and leaves the
/// characters before it as they were.
pub assume_specification[ String::push ](s: &mut String, c: char)
    ensures
        final(s)@ == old(s)@.push(c),
;

/// The characters of `s`, in order.
pub fn chars_of(s: &str) -> (chars: Vec<char>)
    ensures
        chars@ == s@,
{
    let mut chars: Vec<char> = Vec::new();
    for c in it: s.chars()
        invariant
            chars@ == it.seq().take(it.index() as int),
            it.seq() == s@,
    {
        chars.push(c);
    }
    chars
}

} // verus!
