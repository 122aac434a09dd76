//! A textual macro preprocessor for a Lua-like language.
//!
//! Source text is lexed into located tokens ([`lexer`]). The expander
//! ([`expand`], [`step`]) resolves the directives among them against a table
//! of macros ([`table`]): conditionals, definitions and removals, call
//! sites and inclusions. The expanded stream is rewritten ([`rewrite`]) and
//! rendered as text ([`render`]); [`process`] runs all of it in order.
//!
//! What every function computes is stated over the values of tokens
//! ([`token::TokenView`]), and [`laws`] holds what follows for expansion as
//! a whole.

pub mod error;
pub mod expand;
pub mod guard;
pub mod laws;
pub mod lexer;
pub mod params;
pub mod process;
pub mod render;
pub mod rewrite;
pub mod scan;
pub mod step;
pub mod table;
pub mod text;
pub mod token;

pub use crate::error::{Error, SyntaxProblem};
pub use crate::expand::{process_tokens, DEFAULT_DEPTH};
pub use crate::guard::{add_flags, add_header_guard};
pub use crate::lexer::{lex, update_location};
pub use crate::params::{
    parse_func_arg, parse_func_args, parse_func_params, parse_func_params_rest,
};
pub use crate::process::{preprocess, process_file};
pub use crate::render::render_tokens;
pub use crate::rewrite::{
    apply_bang_pastes, apply_pastes, apply_pastes_rest, concat_string_lits,
    concat_string_lits_rest, join_by_commas, replace_tokens, strip_trailing_commas,
};
pub use crate::scan::{get_macro_body, skip_nested_ifdefs};
pub use crate::step::{process_func_macro, process_value_macro, Source};
pub use crate::table::{FuncMacro, ValueMacro};
pub use crate::token::{Location, Token, TokenKind};
