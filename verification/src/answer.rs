//! Free-form answers: stripping whitespace, lowercasing, and matching the
//! result against the words that name a colour.

use vstd::prelude::*;
use crate::color::FieldColor;
use crate::text::{chars_of, is_whitespace_char, lowercase_of};

verus! {

/// The characters that stripping keeps: those that are not whitespace.
pub open spec fn is_kept() -> spec_fn(char) -> bool {
    |c: char| !is_whitespace_char(c)
}

/// `s` without its whitespace characters, wherever they stand; the others
/// keep their order.
pub open spec fn strip_whitespace(s: Seq<char>) -> Seq<char> {
    s.filter(is_kept())
}

/// The token that an answer is matched by: `raw` stripped of whitespace, then
/// lowercased.
pub open spec fn normalized(raw: Seq<char>) -> Seq<char> {
    lowercase_of(strip_whitespace(raw))
}

/// Removes every whitespace character from `s`, in place, and returns a copy
/// of what is left.
pub fn remove_whitespace(s: &mut String) -> (kept: String)
    ensures
        final(s)@ == strip_whitespace(old(s)@),
        kept@ == strip_whitespace(old(s)@),
{
    let chars = chars_of(s.as_str());
    let mut kept = String::new();
    proof {
        reveal(Seq::filter);
    }
    for i in 0..chars.len()
        invariant
            kept@ == strip_whitespace(chars@.take(i as int)),
    {
        let c = chars[i];
        proof {
            reveal(Seq::filter);
            assert(chars@.take(i + 1).drop_last() == chars@.take(i as int));
        }
        if !c.is_whitespace() {
            kept.push(c);
        }
    }
    assert(chars@.take(chars.len() as int) == chars@);
    *s = kept.clone();
    kept
}

/// Strips `raw` of whitespace and lowercases what is left.
pub fn normalize_answer(raw: &str) -> (token: String)
    ensures
        token@ == normalized(raw@),
{
    let mut text = raw.to_owned();
    let stripped = remove_whitespace(&mut text);
    stripped.as_str().to_lowercase()
}

/// The tokens that name the light colour.
pub open spec fn is_light_token(token: Seq<char>) -> bool {
    token == "l"@ || token == "w"@ || token == "light"@ || token == "white"@
}

/// The tokens that name the dark colour.
pub open spec fn is_dark_token(token: Seq<char>) -> bool {
    token == "b"@ || token == "d"@ || token == "dark"@ || token == "black"@
}

/// The colour that a normalized token names, if it names one.
pub open spec fn color_of_token(token: Seq<char>) -> Option<FieldColor> {
    if is_light_token(token) {
        Some(FieldColor::Light)
    } else if is_dark_token(token) {
        Some(FieldColor::Dark)
    } else {
        None
    }
}

/// What an answer comes to: a colour, or the text that named none.
#[derive(Clone, Debug, PartialEq, Eq)]
pub enum ParsedAnswer {
    Color(FieldColor),
    Unrecognized(String),
}

/// A `ParsedAnswer` with its text as a sequence of characters.
pub ghost enum Answer {
    Color(FieldColor),
    Unrecognized(Seq<char>),
}

impl View for ParsedAnswer {
    type V = Answer;

    open spec fn view(&self) -> Answer {
        match self {
            ParsedAnswer::Color(color) => Answer::Color(*color),
            ParsedAnswer::Unrecognized(text) => Answer::Unrecognized(text@),
        }
    }
}

/// What the answer `raw` comes to: the colour that its normalized token
/// names, or else `raw` itself, as it was written.
pub open spec fn parsed(raw: Seq<char>) -> Answer {
    match color_of_token(normalized(raw)) {
        Some(color) => Answer::Color(color),
        None => Answer::Unrecognized(raw),
    }
}

/// Whether `text` reads exactly as `word`.
fn reads_as(text: &String, word: &str) -> (same: bool)
    ensures
        same == (text@ == word@),
{
    *text == word.to_owned()
}

/// The colour that the normalized token `input` names: light for `l`, `w`,
/// `light` and `white`, dark for `b`, `d`, `dark` and `black`, none for any
/// other text.
pub fn get_field_color_from_input(input: String) -> (color: Option<FieldColor>)
    ensures
        color == color_of_token(input@),
{
    if reads_as(&input, "l") || reads_as(&input, "w") || reads_as(&input, "light") || reads_as(
        &input,
        "white",
    ) {
        return Some(FieldColor::Light);
    }
    if reads_as(&input, "b") || reads_as(&input, "d") || reads_as(&input, "dark") || reads_as(
        &input,
        "black",
    ) {
        return Some(FieldColor::Dark);
    }
    None
}

/// Reads the answer `raw`: strips its whitespace, lowercases it, and matches
/// the token against the words for light and for dark. An answer that names no
/// colour comes back as it was written.
pub fn parse_answer(raw: String) -> (answer: ParsedAnswer)
    ensures
        answer@ == parsed(raw@),
        color_of_token(normalized(raw@)) is None ==> answer@ == Answer::Unrecognized(raw@),
{
    let token = normalize_answer(raw.as_str());
    match get_field_color_from_input(token) {
        Some(color) => ParsedAnswer::Color(color),
        None => ParsedAnswer::Unrecognized(raw),
    }
}


/// Stripping leaves a text without whitespace as it is.
pub proof fn lemma_strip_keeps_clean_text(text: Seq<char>)
    requires
        forall|i: int| 0 <= i < text.len() ==> !is_whitespace_char(#[trigger] text[i]),
    ensures
        strip_whitespace(text) == text,
    decreases text.len(),
{
    reveal(Seq::filter);
    if text.len() > 0 {
        lemma_strip_keeps_clean_text(text.drop_last());
        assert(text.drop_last().push(text.last()) == text);
    }
}

/// Normalizing is idempotent on tokens: a token that holds no whitespace and
/// is its own lowercase form is its own normal form.
pub proof fn lemma_normalized_token_is_fixed(token: Seq<char>)
    requires
        forall|i: int| 0 <= i < token.len() ==> !is_whitespace_char(#[trigger] token[i]),
        lowercase_of(token) == token,
    ensures
        normalized(token) == token,
{
    lemma_strip_keeps_clean_text(token);
}

/// Answers are read without regard to whitespace: a whitespace character put
/// anywhere into an answer changes neither its token nor the colour that it
/// names.
pub proof fn lemma_whitespace_is_ignored(raw: Seq<char>, at: int, space: char)
    requires
        0 <= at <= raw.len(),
        is_whitespace_char(space),
    ensures
        strip_whitespace(raw.insert(at, space)) == strip_whitespace(raw),
        normalized(raw.insert(at, space)) == normalized(raw),
        color_of_token(normalized(raw.insert(at, space))) == color_of_token(normalized(raw)),
{
    let head = raw.take(at);
    let tail = raw.skip(at);
    let one = seq![space];
    assert(raw.insert(at, space) == head + one + tail);
    assert(raw == head + tail);
    Seq::filter_distributes_over_add(head + one, tail, is_kept());
    Seq::filter_distributes_over_add(head, one, is_kept());
    Seq::filter_distributes_over_add(head, tail, is_kept());
    assert(one.filter(is_kept()) == Seq::<char>::empty()) by {
        reveal_with_fuel(Seq::filter, 2);
        assert(one.drop_last().len() == 0);
    }
    assert(head.filter(is_kept()) + Seq::<char>::empty() == head.filter(is_kept()));
}

/// Answers are read without regard to case: two answers that, stripped of
/// whitespace, have the same lowercase form name the same colour, or both
/// name none.
pub proof fn lemma_case_is_ignored(first: Seq<char>, second: Seq<char>)
    requires
        lowercase_of(strip_whitespace(first)) == lowercase_of(strip_whitespace(second)),
    ensures
        color_of_token(normalized(first)) == color_of_token(normalized(second)),
        parsed(first) is Unrecognized <==> parsed(second) is Unrecognized,
{
}


} // verus!
