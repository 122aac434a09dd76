//! Rendering a token stream as text, and the quoting of rendered text that
//! stringification relies on.

use crate::token::{views, Token, TokenView};
use vstd::prelude::*;
use vstd::string::*;

verus! {

/// The lexemes of the tokens, joined by single spaces.
pub open spec fn rendered(tokens: Seq<TokenView>) -> Seq<char>
    decreases tokens.len(),
{
    if tokens.len() == 0 {
        Seq::empty()
    } else if tokens.len() == 1 {
        tokens[0].value
    } else {
        tokens[0].value + " "@ + rendered(tokens.skip(1))
    }
}

/// The text that the standard `Debug` formatting of a string slice produces
/// for `text`: the text between double quotes, with quotes, backslashes and
/// unprintable characters escaped.
pub uninterp spec fn debug_text(text: Seq<char>) -> Seq<char>;

/// Formats `text` with the `Debug` formatting of `str` (the `{:?}` of
/// `format!`). The contract only gives the result its name: it is a function
/// of the text alone.
#[verifier::external_body]
pub(crate) fn debug_quote(text: &str) -> (r: String)
    ensures
        r@ == debug_text(text@),
{
    format!("{:?}", text)
}

/// Joins the lexemes of the tokens with single spaces. Lexemes are emitted as
/// they are, with no normalization.
pub fn render_tokens(tokens: Vec<Token>) -> (r: String)
    ensures
        r@ == rendered(views(tokens@)),
{
    let ghost all = views(tokens@);
    let mut out = String::new();
    let mut i: usize = 0;
    proof {
        assert(all.skip(0) =~= all);
        assert(out@ + rendered(all) =~= rendered(all));
    }
    while i < tokens.len()
        invariant
            i <= tokens.len(),
            all == views(tokens@),
            out@ + rendered(all.skip(i as int)) == rendered(all),
        decreases tokens.len() - i,
    {
        let ghost rest = all.skip(i as int);
        let ghost before = out@;
        out.append(tokens[i].value.as_str());
        if i + 1 < tokens.len() {
            out.append(" ");
        }
        proof {
            assert(rest[0] == tokens@[i as int]@);
            assert(rest.skip(1) =~= all.skip(i + 1));
            if i + 1 < tokens.len() {
                assert(out@ + rendered(all.skip(i + 1)) =~= before + rendered(rest));
            } else {
                assert(rendered(all.skip(i + 1)) =~= Seq::<char>::empty());
                assert(out@ + rendered(all.skip(i + 1)) =~= before + rendered(rest));
            }
        }
        i += 1;
    }
    proof {
        assert(rendered(all.skip(i as int)) =~= Seq::<char>::empty());
        assert(out@ + Seq::<char>::empty() =~= out@);
    }
    out
}

} // verus!
