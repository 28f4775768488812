//! What running a file reports: the lines that echo statements, show
//! values and announce an error.
use vstd::prelude::*;
use crate::common::fileinfo::CompileError;
use crate::common::text::{decimal_digits, push_decimal, push_str, string_from_chars};
use crate::corelang::printer::simple::{SimplePrinter, print_spec};
use crate::corelang::syntax::Term;
use crate::metalang::printer::simple::{SimplePrinter as MetaPrinter, stmt_print_spec};
use crate::metalang::syntax::MetaStatement;

verus! {

/// The line that echoes statement `i`.
pub open spec fn input_line_spec(i: nat, printed: Seq<char>) -> Seq<char> {
    "In["@ + decimal_digits(i) + "] = "@ + printed
}

/// The line that shows the value of statement `i`.
pub open spec fn output_line_spec(i: nat, printed: Seq<char>) -> Seq<char> {
    "Out["@ + decimal_digits(i) + "] = "@ + printed
}

/// The line that announces an error.
pub open spec fn error_line_spec(rendered: Seq<char>) -> Seq<char> {
    "EVAL ERROR: "@ + rendered
}

/// The line that echoes the statement `stmt`, the `i`-th of its file.
pub fn input_line(i: usize, stmt: &MetaStatement) -> (r: String)
    ensures
        r@ == input_line_spec(i as nat, stmt_print_spec(stmt@)),
{
    let printer = MetaPrinter {  };
    let printed = printer.print_stmt(stmt);
    let mut out: Vec<char> = Vec::new();
    push_str(&mut out, "In[");
    push_decimal(&mut out, i);
    push_str(&mut out, "] = ");
    push_str(&mut out, printed.as_str());
    assert(out@ =~= input_line_spec(i as nat, stmt_print_spec(stmt@)));
    string_from_chars(&out)
}

/// The line that shows `value`, the value of the `i`-th statement.
pub fn output_line(i: usize, value: &Term) -> (r: String)
    ensures
        r@ == output_line_spec(i as nat, print_spec(value@)),
{
    let printer = SimplePrinter {  };
    let printed = printer.print(value);
    let mut out: Vec<char> = Vec::new();
    push_str(&mut out, "Out[");
    push_decimal(&mut out, i);
    push_str(&mut out, "] = ");
    push_str(&mut out, printed.as_str());
    assert(out@ =~= output_line_spec(i as nat, print_spec(value@)));
    string_from_chars(&out)
}

/// The line that announces the error `error`.
pub fn error_line(error: &CompileError) -> (r: String)
    requires
        error.printable(),
    ensures
        r@ == error_line_spec(error.render()),
{
    let rendered = error.to_string();
    let mut out: Vec<char> = Vec::new();
    push_str(&mut out, "EVAL ERROR: ");
    push_str(&mut out, rendered.as_str());
    assert(out@ =~= error_line_spec(error.render()));
    string_from_chars(&out)
}

} // verus!
