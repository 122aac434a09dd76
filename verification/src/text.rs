//! Small operations on lexeme text, stated over sequences of characters.

use vstd::prelude::*;
use vstd::string::*;

verus! {

/// The text between the first and the last character: what a string literal
/// holds between its quotes. Text shorter than two characters holds nothing.
pub open spec fn unquoted(s: Seq<char>) -> Seq<char> {
    if s.len() >= 2 {
        s.subrange(1, s.len() - 1)
    } else {
        Seq::empty()
    }
}

/// The text wrapped in a pair of double quotes, nothing escaped.
pub open spec fn quoted(s: Seq<char>) -> Seq<char> {
    seq!['"'] + s + seq!['"']
}

/// Whether `value` reads exactly `lit`.
pub fn text_is(value: &String, lit: &str) -> (r: bool)
    ensures
        r == (value@ == lit@),
{
    let other = lit.to_owned();
    *value == other
}

/// Strips the first and the last character.
pub fn unquote(value: &String) -> (r: String)
    ensures
        r@ == unquoted(value@),
{
    let s = value.as_str();
    let n = s.unicode_len();
    if n >= 2 {
        s.substring_char(1, n - 1).to_owned()
    } else {
        String::new()
    }
}

/// Wraps the text in double quotes.
pub fn quote(value: &String) -> (r: String)
    ensures
        r@ == quoted(value@),
{
    let mut out = "\"".to_owned();
    proof {
        reveal_strlit("\"");
        assert("\""@ =~= seq!['"']);
    }
    out.append(value.as_str());
    out.append("\"");
    out
}

} // verus!
