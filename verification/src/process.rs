//! From the text of a file to the text that comes out: lexing, the header
//! guard, predefined flags, expansion, the rewriting passes and rendering,
//! in that order.

use crate::error::{Error, ErrorView};
use crate::expand::{expand, process_tokens};
use crate::guard::{add_flags, add_header_guard, flag_definitions, guarded, texts};
use crate::lexer::{lex, lexed};
use crate::render::{render_tokens, rendered};
use crate::rewrite::{
    apply_pastes, commas_stripped, concat_string_lits, pasted, strings_merged,
    strip_trailing_commas,
};
use crate::step::{source_views, Env, Source, SourceView};
use crate::table::{func_views, value_views, FuncMacro, FuncMacroView, ValueMacro, ValueMacroView};
use crate::token::{views, Token, TokenView};
use vstd::prelude::*;

verus! {

/// The tokens of the file at `path` that reads `input`, inside the file's
/// header guard.
pub open spec fn file_tokens(path: Seq<char>, input: Seq<char>) -> Result<Seq<TokenView>, ErrorView> {
    match lexed(path, input) {
        Some(tokens) => Ok(guarded(path, tokens)),
        None => Err(ErrorView::TokenizationError),
    }
}

/// Lexes the text of the file at `path` and wraps the tokens in the file's
/// header guard.
pub fn process_file(path: String, input: String) -> (r: Result<Vec<Token>, Error>)
    ensures
        match r {
            Ok(tokens) => file_tokens(path@, input@) == Ok::<Seq<TokenView>, ErrorView>(
                views(tokens@),
            ),
            Err(error) => file_tokens(path@, input@) == Err::<Seq<TokenView>, ErrorView>(error@),
        },
{
    match lex(path.as_str(), input) {
        Some(tokens) => Ok(add_header_guard(path, tokens)),
        None => Err(Error::TokenizationError),
    }
}

/// The expanded stream after the rewriting passes: pasting, then merging of
/// adjacent string literals, then removal of trailing commas.
pub open spec fn rewritten(tokens: Seq<TokenView>) -> Seq<TokenView> {
    commas_stripped(strings_merged(pasted(tokens)))
}

/// Applies the rewriting passes to a fully expanded stream, each once and
/// in this order: paste, merge adjacent string literals, strip trailing
/// commas.
pub fn rewrite_expanded(tokens: Vec<Token>) -> (r: Vec<Token>)
    ensures
        views(r@) == rewritten(views(tokens@)),
{
    strip_trailing_commas(concat_string_lits(apply_pastes(tokens)))
}

/// The table before anything is defined.
pub open spec fn empty_env() -> Env {
    Env { values: Seq::empty(), funcs: Seq::empty() }
}

/// The text that preprocessing the file at `path` gives, or the error that
/// stops it: the file's tokens inside its header guard, behind the
/// definitions of the flags, are expanded against an empty table; the
/// expansion is rewritten and rendered.
pub open spec fn preprocessed(
    path: Seq<char>,
    input: Seq<char>,
    flags: Seq<Seq<char>>,
    sources: Seq<SourceView>,
    fuel: nat,
) -> Result<Seq<char>, ErrorView> {
    match file_tokens(path, input) {
        Err(error) => Err(error),
        Ok(tokens) => match expand(
            flag_definitions(flags) + tokens,
            empty_env(),
            sources,
            fuel,
        ).result {
            Err(error) => Err(error),
            Ok(expanded) => Ok(rendered(rewritten(expanded))),
        },
    }
}

/// Preprocesses one file: `input` is the text of the file at `path`,
/// `flags` are predefined as empty macros, `sources` are the files that it
/// may include and `depth` is the number of expansions that may nest.
/// Either the whole text comes out or an error does.
pub fn preprocess(
    path: String,
    input: String,
    flags: Vec<String>,
    sources: &Vec<Source>,
    depth: usize,
) -> (r: Result<String, Error>)
    ensures
        match r {
            Ok(text) => preprocessed(
                path@,
                input@,
                texts(flags@),
                source_views(sources@),
                depth as nat,
            ) == Ok::<Seq<char>, ErrorView>(text@),
            Err(error) => preprocessed(
                path@,
                input@,
                texts(flags@),
                source_views(sources@),
                depth as nat,
            ) == Err::<Seq<char>, ErrorView>(error@),
        },
{
    let tokens = match process_file(path, input) {
        Ok(tokens) => tokens,
        Err(error) => {
            return Err(error);
        },
    };
    let tokens = add_flags(flags, tokens);
    let mut value_macros: Vec<ValueMacro> = Vec::new();
    let mut func_macros: Vec<FuncMacro> = Vec::new();
    proof {
        assert(value_views(value_macros@) =~= Seq::<ValueMacroView>::empty());
        assert(func_views(func_macros@) =~= Seq::<FuncMacroView>::empty());
    }
    match process_tokens(tokens, &mut value_macros, &mut func_macros, sources, depth) {
        Ok(expanded) => Ok(render_tokens(rewrite_expanded(expanded))),
        Err(error) => Err(error),
    }
}

} // verus!
