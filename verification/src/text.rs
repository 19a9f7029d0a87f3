//! Small helpers on strings, which the wire format and the paths share.

use vstd::prelude::*;

verus! {

/// The texts of a list of strings.
pub open spec fn texts(strings: Seq<String>) -> Seq<Seq<char>> {
    strings.map_values(|string: String| string@)
}

/// Whether two texts hold the same characters.
pub fn text_is(text: &str, token: &str) -> (same: bool)
    ensures
        same == (text@ == token@),
{
    let length = text.unicode_len();
    if length != token.unicode_len() {
        return false;
    }
    let mut index: usize = 0;
    while index < length
        invariant
            index <= length,
            length == text@.len(),
            length == token@.len(),
            forall|at: int| 0 <= at < index ==> text@[at] == token@[at],
        decreases length - index,
    {
        if text.get_char(index) != token.get_char(index) {
            return false;
        }
        index += 1;
    }
    assert(text@ =~= token@);
    true
}

/// A list of one string that holds `token`.
pub fn single(token: &str) -> (segments: Vec<String>)
    ensures
        texts(segments@) == seq![token@],
{
    let mut segments: Vec<String> = Vec::new();
    segments.push(String::from_str(token));
    assert(texts(segments@) =~= seq![token@]);
    segments
}

/// The list that holds `token` and then `rest`.
pub fn prefixed(token: &str, rest: Vec<String>) -> (segments: Vec<String>)
    ensures
        texts(segments@) == seq![token@] + texts(rest@),
{
    let mut segments: Vec<String> = Vec::new();
    segments.push(String::from_str(token));
    let mut rest = rest;
    let ghost tail = rest@;
    segments.append(&mut rest);
    assert(texts(segments@) =~= seq![token@] + texts(tail));
    segments
}

} // verus!
