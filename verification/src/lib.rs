//! An interpreter for a small Lisp: a surface language with named binders is
//! lowered to a core lambda calculus with two-dimensional De Bruijn indices,
//! which a tree-walking evaluator reduces.
pub mod action;
pub mod common;
pub mod corelang;
pub mod metalang;

use vstd::prelude::*;
use crate::common::fileinfo::{CompileError, ErrorView};
use crate::common::text::chars_of;
use crate::metalang::parser::{MetaParser, parse_spec};
use crate::metalang::syntax::{MetaStatement, StatementView, stmts_view};

verus! {

/// The executable result `r` is what the text `text` of the file `path`
/// parses to.
pub open spec fn parsed_under(
    path: String,
    text: Seq<char>,
    r: Result<Vec<MetaStatement>, CompileError>,
) -> bool {
    match r {
        Ok(v) => parse_spec(path, text) == Ok::<Seq<StatementView>, ErrorView>(stmts_view(v@)),
        Err(e) => parse_spec(path, text) == Err::<Seq<StatementView>, ErrorView>(e@),
    }
}

/// Parses a whole source text that comes from no file; positions are
/// reported under the path `<string>`.
pub fn parse_string(str: String) -> (r: Result<Vec<MetaStatement>, CompileError>)
    ensures
        exists|path: String| #[trigger] parsed_under(path, str@, r) && path@ == "<string>"@,
{
    let chars = chars_of(str.as_str());
    let path = "<string>".to_string();
    let mut p = MetaParser::new(path, chars);
    let ghost witness = p.filepath;
    let r = p.parse_stmt_vec();
    assert(parsed_under(witness, str@, r) && witness@ == "<string>"@);
    r
}

} // verus!
