//! The parser of the surface language: S-expressions with reserved forms,
//! read from a vector of characters.
use vstd::prelude::*;
use crate::common::fileinfo::{CompileError, ErrorView, FileInfo, Location, Range, fault_at};
use crate::common::natural::{Natural, decimal_value, is_decimal_digit};
use crate::common::text::{
    chars_equal, control_spec, is_control, is_whitespace, push_str, string_from_chars,
    whitespace_spec,
};
use crate::corelang::syntax::Operator;
use crate::metalang::syntax::{
    DefRecFun, DefRecFunView, ExportView, MetaExport, MetaShape, MetaStatement, MetaTerm,
    MetaTermView, StatementView, exports_view, funs_view, meta_view_seq, names_view, stmts_view,
};

verus! {

/// `c` may stand in an identifier.
pub open spec fn identifier_char(c: char) -> bool {
    !control_spec(c) && !whitespace_spec(c) && c != '(' && c != ')' && c != '"' && c != '\''
}

/// `c` may start an identifier.
pub open spec fn identifier_head(c: char) -> bool {
    identifier_char(c) && !is_decimal_digit(c)
}

/// `s` is a name that cannot be defined.
pub open spec fn reserved_name(s: Seq<char>) -> bool {
    s == "if"@ || s == "+"@ || s == "-"@ || s == "eval"@ || s == "quote"@ || s == "lambda"@ || s
        == "import"@ || s == "export"@ || s == "assert"@ || s == "print"@ || s == "println"@ || s
        == "for"@ || s == "loop"@ || s == "do"@ || s == "while"@
}

/// How a character, or the end of the input, is shown in a message.
pub open spec fn print_char_spec(c: Option<char>) -> Seq<char> {
    match c {
        Some(cc) => "'"@ + seq![cc] + "'"@,
        None => "<EOF>"@,
    }
}

/// Whether `c` may stand in an identifier.
pub fn is_identifier(c: char) -> (r: bool)
    ensures
        r == identifier_char(c),
{
    !is_control(c) && !is_whitespace(c) && c != '(' && c != ')' && c != '"' && c != '\''
}

/// Whether `c` may start an identifier.
pub fn is_identifier_head(c: char) -> (r: bool)
    ensures
        r == identifier_head(c),
{
    is_identifier(c) && !('0' <= c && c <= '9')
}

/// Whether `s` is a name that cannot be defined.
pub fn is_reserved_name(s: &Vec<char>) -> (r: bool)
    ensures
        r == reserved_name(s@),
{
    chars_equal(s, "if") || chars_equal(s, "+") || chars_equal(s, "-") || chars_equal(s, "eval")
        || chars_equal(s, "quote") || chars_equal(s, "lambda") || chars_equal(s, "import")
        || chars_equal(s, "export") || chars_equal(s, "assert") || chars_equal(s, "print")
        || chars_equal(s, "println") || chars_equal(s, "for") || chars_equal(s, "loop")
        || chars_equal(s, "do") || chars_equal(s, "while")
}

/// Appends to `out` how `c` is shown in a message.
pub fn print_char(out: &mut Vec<char>, c: Option<char>)
    ensures
        final(out)@ == old(out)@ + print_char_spec(c),
{
    match c {
        Some(cc) => {
            push_str(out, "'");
            out.push(cc);
            push_str(out, "'");
            assert(out@ =~= old(out)@ + print_char_spec(c));
        },
        None => {
            push_str(out, "<EOF>");
        },
    }
}

/// The classes of characters that the parser reads in runs.
#[derive(Clone, Copy)]
pub enum CharClass {
    Whitespace,
    Identifier,
    Digit,
}

/// `c` belongs to `class`.
pub open spec fn in_class(class: CharClass, c: char) -> bool {
    match class {
        CharClass::Whitespace => whitespace_spec(c),
        CharClass::Identifier => identifier_char(c),
        CharClass::Digit => is_decimal_digit(c),
    }
}

/// The end of the longest run of characters of `class` that starts at `p`.
pub open spec fn run_end(chars: Seq<char>, p: nat, class: CharClass) -> nat
    decreases chars.len() - p,
{
    if p < chars.len() && in_class(class, chars[p as int]) {
        run_end(chars, p + 1, class)
    } else {
        p
    }
}

/// A run ends at or after its start and within the input.
pub proof fn lemma_run_end_bounds(chars: Seq<char>, p: nat, class: CharClass)
    requires
        p <= chars.len(),
    ensures
        p <= run_end(chars, p, class) <= chars.len(),
    decreases chars.len() - p,
{
    if p < chars.len() && in_class(class, chars[p as int]) {
        lemma_run_end_bounds(chars, p + 1, class);
    }
}

/// The number of line breaks before position `p`.
pub open spec fn line_at(chars: Seq<char>, p: nat) -> nat
    decreases p,
{
    if p == 0 || p > chars.len() {
        0
    } else {
        line_at(chars, (p - 1) as nat) + if chars[p - 1] == '\n' {
            1nat
        } else {
            0nat
        }
    }
}

/// The number of characters between the last line break before position
/// `p` and `p`.
pub open spec fn col_at(chars: Seq<char>, p: nat) -> nat
    decreases p,
{
    if p == 0 || p > chars.len() {
        0
    } else if chars[p - 1] == '\n' {
        0
    } else {
        col_at(chars, (p - 1) as nat) + 1
    }
}

/// Line and column of a position are at most the position.
pub proof fn lemma_location_bounded(chars: Seq<char>, p: nat)
    ensures
        line_at(chars, p) <= p,
        col_at(chars, p) <= p,
    decreases p,
{
    if p > 0 {
        lemma_location_bounded(chars, (p - 1) as nat);
    }
}

/// The location of position `p`.
pub open spec fn location_at(chars: Seq<char>, p: nat) -> Location {
    Location { line: line_at(chars, p) as usize, col: col_at(chars, p) as usize }
}

/// Metadata for the single position `p` of the file `path`.
pub open spec fn locinfo_spec(path: String, chars: Seq<char>, p: nat) -> Option<FileInfo> {
    Some(
        FileInfo {
            filepath: path,
            range: Range { from: location_at(chars, p), to: location_at(chars, p) },
        },
    )
}

/// Metadata for the `n` columns that end at position `p`.
pub open spec fn rangeinfo_spec(path: String, chars: Seq<char>, p: nat, n: nat) -> Option<
    FileInfo,
> {
    let to = location_at(chars, p);
    Some(
        FileInfo {
            filepath: path,
            range: Range {
                from: Location {
                    line: to.line,
                    col: if n <= to.col {
                        (to.col - n) as usize
                    } else {
                        0
                    },
                },
                to,
            },
        },
    )
}

/// The first position at or after `p` that holds no whitespace.
pub open spec fn skip_spec(chars: Seq<char>, p: nat) -> nat {
    let e = run_end(chars, p, CharClass::Whitespace);
    if p <= e && e <= chars.len() {
        e
    } else {
        p
    }
}

/// The character at position `p`, if any.
pub open spec fn peek_spec(chars: Seq<char>, p: nat) -> Option<char> {
    if p < chars.len() {
        Some(chars[p as int])
    } else {
        None
    }
}

/// The end of the identifier that starts at `p`, if one starts there.
pub open spec fn identifier_end(chars: Seq<char>, p: nat) -> Option<nat> {
    if p < chars.len() && identifier_head(chars[p as int]) {
        let e = run_end(chars, p, CharClass::Identifier);
        Some(
            if p < e && e <= chars.len() {
                e
            } else {
                p + 1
            },
        )
    } else {
        None
    }
}

/// The atom or variable that the identifier `id` stands for.
pub open spec fn atom_spec(id: Seq<char>, info: Option<FileInfo>) -> MetaTermView {
    MetaTermView {
        info,
        shape: if id == "nil"@ {
            MetaShape::Nil
        } else if id == "true"@ {
            MetaShape::Bool(true)
        } else if id == "false"@ {
            MetaShape::Bool(false)
        } else if id == "car"@ {
            MetaShape::Atom(Operator::Car)
        } else if id == "cdr"@ {
            MetaShape::Atom(Operator::Cdr)
        } else if id == "eval"@ {
            MetaShape::Atom(Operator::Eval)
        } else if id == "eq"@ {
            MetaShape::Atom(Operator::Eq)
        } else if id == "+"@ {
            MetaShape::Atom(Operator::Add)
        } else if id == "-"@ {
            MetaShape::Atom(Operator::Sub)
        } else if id == "*"@ {
            MetaShape::Atom(Operator::Mul)
        } else if id == "/"@ {
            MetaShape::Atom(Operator::Div)
        } else if id == "%"@ {
            MetaShape::Atom(Operator::Rem)
        } else {
            MetaShape::Variable(id)
        },
    }
}

/// The message for a position where a value should start.
pub open spec fn value_expected_message(c: Option<char>) -> Seq<char> {
    "value expected: found "@ + print_char_spec(c)
}

/// The value that starts at `p`: an atom, a variable or a number; with the
/// position after it.
pub open spec fn value_spec(path: String, chars: Seq<char>, p: nat) -> Result<
    (MetaTermView, nat),
    ErrorView,
> {
    match identifier_end(chars, p) {
        Some(e) => Ok(
            (
                atom_spec(
                    chars.subrange(p as int, e as int),
                    rangeinfo_spec(path, chars, e, (e - p) as nat),
                ),
                e,
            ),
        ),
        None => {
            let e = run_end(chars, p, CharClass::Digit);
            if e > p {
                Ok(
                    (
                        MetaTermView {
                            info: locinfo_spec(path, chars, e),
                            shape: MetaShape::Number(
                                decimal_value(chars.subrange(p as int, e as int)),
                            ),
                        },
                        e,
                    ),
                )
            } else {
                Err(
                    fault_at(
                        locinfo_spec(path, chars, p),
                        value_expected_message(peek_spec(chars, p)),
                    ),
                )
            }
        },
    }
}

/// The message for an escape sequence that the language does not have.
pub open spec fn unknown_escape_message(c: char) -> Seq<char> {
    "unknown string escape sequence \"\\"@ + seq![c] + "\""@
}

/// The message for a string that the input ends in.
pub open spec fn unterminated_message() -> Seq<char> {
    "expected string ending double quotation: found "@ + print_char_spec(None)
}

/// The rest of a string whose opening quotation mark has been read: `acc`
/// holds what was read so far, `p` is the next position. Gives the
/// characters of the string and the position after its closing quotation
/// mark.
pub open spec fn string_body_spec(path: String, chars: Seq<char>, p: nat, acc: Seq<char>) -> Result<
    (Seq<char>, nat),
    ErrorView,
>
    decreases chars.len() - p,
{
    if p >= chars.len() {
        Err(fault_at(locinfo_spec(path, chars, p), unterminated_message()))
    } else if chars[p as int] == '"' {
        Ok((acc, p + 1))
    } else if chars[p as int] == '\\' {
        if p + 1 >= chars.len() {
            Err(fault_at(locinfo_spec(path, chars, p + 1), unterminated_message()))
        } else {
            let c = chars[(p + 1) as int];
            if c == '\\' {
                string_body_spec(path, chars, p + 2, acc.push('\\'))
            } else if c == 'n' {
                string_body_spec(path, chars, p + 2, acc.push('\n'))
            } else if c == 'r' {
                string_body_spec(path, chars, p + 2, acc.push('\r'))
            } else if c == 't' {
                string_body_spec(path, chars, p + 2, acc.push('\t'))
            } else if c == '"' {
                string_body_spec(path, chars, p + 2, acc.push('"'))
            } else {
                Err(fault_at(locinfo_spec(path, chars, p + 2), unknown_escape_message(c)))
            }
        }
    } else {
        string_body_spec(path, chars, p + 1, acc.push(chars[p as int]))
    }
}

/// The message for a position where a string should start.
pub open spec fn string_expected_message(c: Option<char>) -> Seq<char> {
    "expected string starting double quotation: found "@ + print_char_spec(c)
}

/// The string that starts at `p`, with the position after it.
pub open spec fn string_spec(path: String, chars: Seq<char>, p: nat) -> Result<
    (Seq<char>, nat),
    ErrorView,
> {
    if p < chars.len() && chars[p as int] == '"' {
        string_body_spec(path, chars, p + 1, Seq::empty())
    } else {
        let after = if p < chars.len() {
            p + 1
        } else {
            p
        };
        Err(
            fault_at(
                locinfo_spec(path, chars, after),
                string_expected_message(peek_spec(chars, after)),
            ),
        )
    }
}

/// The name that may be defined at `p`, if an identifier starts there, with
/// the position after it; a reserved name is an error.
pub open spec fn name_define_spec(path: String, chars: Seq<char>, p: nat) -> Result<
    Option<(Seq<char>, nat)>,
    ErrorView,
> {
    match identifier_end(chars, p) {
        Some(e) => if reserved_name(chars.subrange(p as int, e as int)) {
            Err(
                fault_at(
                    locinfo_spec(path, chars, e),
                    string_expected_message(peek_spec(chars, e)),
                ),
            )
        } else {
            Ok(Some((chars.subrange(p as int, e as int), e)))
        },
        None => Ok(None),
    }
}

/// The message for a list item that is not there.
pub open spec fn expected_message(expect: Seq<char>, c: Option<char>) -> Seq<char> {
    expect + " expected: found \""@ + print_char_spec(c) + "\""@
}

/// The error of a list whose item ends where it starts; no input has one.
pub open spec fn stuck(path: String, chars: Seq<char>, p: nat) -> ErrorView {
    fault_at(locinfo_spec(path, chars, p), "no progress"@)
}

/// The position after the character at `p`, or `p` at the end of the
/// input.
pub open spec fn after_one(chars: Seq<char>, p: nat) -> nat {
    if p < chars.len() {
        p + 1
    } else {
        p
    }
}

/// The names up to the closing parenthesis, `acc` holding those read so
/// far, with the position after the parenthesis.
pub open spec fn names_acc_spec(path: String, chars: Seq<char>, p: nat, acc: Seq<Seq<char>>)
    -> Result<(Seq<Seq<char>>, nat), ErrorView>
    decreases chars.len() - p,
{
    if peek_spec(chars, p) == Some(')') {
        Ok((acc, p + 1))
    } else {
        match name_define_spec(path, chars, p) {
            Err(e) => Err(e),
            Ok(None) => Err(
                fault_at(
                    locinfo_spec(path, chars, p),
                    expected_message("identifier"@, peek_spec(chars, p)),
                ),
            ),
            Ok(Some(found)) => {
                let next = skip_spec(chars, found.1);
                if p < next && next <= chars.len() {
                    names_acc_spec(path, chars, next, acc.push(found.0))
                } else {
                    Err(stuck(path, chars, p))
                }
            },
        }
    }
}

/// The message for an argument list that does not start with a
/// parenthesis.
pub open spec fn args_start_message(message: Seq<char>, c: Option<char>) -> Seq<char> {
    message + ": expect start parenthesis for args: got "@ + print_char_spec(c)
}

/// The argument names in parentheses at `p`, with the position after them.
pub open spec fn arg_names_spec(path: String, chars: Seq<char>, p: nat, message: Seq<char>)
    -> Result<(Seq<Seq<char>>, nat), ErrorView> {
    if peek_spec(chars, p) == Some('(') {
        names_acc_spec(path, chars, skip_spec(chars, p + 1), Seq::empty())
    } else {
        Err(
            fault_at(
                locinfo_spec(path, chars, after_one(chars, p)),
                args_start_message(message, peek_spec(chars, p)),
            ),
        )
    }
}

/// The message for a missing closing parenthesis.
pub open spec fn end_message(message: Seq<char>, c: Option<char>) -> Seq<char> {
    message + ": found "@ + print_char_spec(c)
}

/// The forms that are read as a list of terms.
pub enum Form {
    Apply,
    Cons,
    List,
    Quote,
    If,
}

/// The term of the form `form` made of the terms `ts`, whose closing
/// parenthesis ends before `q`.
pub open spec fn build_form(form: Form, path: String, chars: Seq<char>, ts: Seq<MetaTermView>, q: nat)
    -> Result<(MetaTermView, nat), ErrorView> {
    let here = locinfo_spec(path, chars, q);
    let end = skip_spec(chars, q);
    let there = locinfo_spec(path, chars, end);
    match form {
        Form::Apply => if ts.len() == 0 {
            Err(fault_at(here, "Apply without operator not allowed"@))
        } else {
            Ok(
                (
                    MetaTermView {
                        info: here,
                        shape: MetaShape::Apply(Box::new(ts[0]), ts.subrange(1, ts.len() as int)),
                    },
                    q,
                ),
            )
        },
        Form::Cons => if ts.len() != 2 {
            Err(fault_at(here, "cons only accepts 2 terms"@))
        } else {
            Ok(
                (
                    MetaTermView {
                        info: there,
                        shape: MetaShape::Cons(Box::new(ts[0]), Box::new(ts[1])),
                    },
                    end,
                ),
            )
        },
        Form::List => Ok((MetaTermView { info: there, shape: MetaShape::List(ts) }, end)),
        Form::Quote => if ts.len() != 1 {
            Err(fault_at(here, "quote only accepts 1 term"@))
        } else {
            Ok((MetaTermView { info: there, shape: MetaShape::Quote(Box::new(ts[0])) }, end))
        },
        Form::If => if ts.len() != 3 {
            Err(fault_at(here, "if only accepts 3 terms"@))
        } else {
            Ok(
                (
                    MetaTermView {
                        info: there,
                        shape: MetaShape::If(Box::new(ts[0]), Box::new(ts[1]), Box::new(ts[2])),
                    },
                    end,
                ),
            )
        },
    }
}

/// The terms up to the closing parenthesis, `acc` holding those read so
/// far, with the position after the parenthesis.
pub open spec fn terms_acc_spec(path: String, chars: Seq<char>, p: nat, acc: Seq<MetaTermView>)
    -> Result<(Seq<MetaTermView>, nat), ErrorView>
    decreases chars.len() - p, 1nat,
{
    if peek_spec(chars, p) == Some(')') {
        Ok((acc, p + 1))
    } else {
        match term_spec(path, chars, p) {
            Err(e) => Err(e),
            Ok(found) => {
                let next = skip_spec(chars, found.1);
                if p < next && next <= chars.len() {
                    terms_acc_spec(path, chars, next, acc.push(found.0))
                } else {
                    Err(stuck(path, chars, p))
                }
            },
        }
    }
}

/// The form `form` whose terms start at `p`.
pub open spec fn form_spec(form: Form, path: String, chars: Seq<char>, p: nat) -> Result<
    (MetaTermView, nat),
    ErrorView,
>
    decreases chars.len() - p, 2nat,
{
    match terms_acc_spec(path, chars, p, Seq::empty()) {
        Err(e) => Err(e),
        Ok(found) => build_form(form, path, chars, found.0, found.1),
    }
}

/// The lambda whose argument list starts at `p`.
pub open spec fn lambda_spec(path: String, chars: Seq<char>, p: nat) -> Result<
    (MetaTermView, nat),
    ErrorView,
>
    decreases chars.len() - p, 2nat,
{
    match arg_names_spec(path, chars, p, "lambda args"@) {
        Err(e) => Err(e),
        Ok(names) => {
            let start = skip_spec(chars, names.1);
            if p <= start && start <= chars.len() {
                match term_spec(path, chars, start) {
                    Err(e) => Err(e),
                    Ok(body) => {
                        let end = skip_spec(chars, body.1);
                        if peek_spec(chars, end) == Some(')') {
                            Ok(
                                (
                                    MetaTermView {
                                        info: locinfo_spec(path, chars, end + 1),
                                        shape: MetaShape::Lambda(names.0, Box::new(body.0)),
                                    },
                                    end + 1,
                                ),
                            )
                        } else {
                            Err(
                                fault_at(
                                    locinfo_spec(path, chars, after_one(chars, end)),
                                    end_message(
                                        "expect lambda end parenthesis for args"@,
                                        peek_spec(chars, end),
                                    ),
                                ),
                            )
                        }
                    },
                }
            } else {
                Err(stuck(path, chars, p))
            }
        },
    }
}

/// The term that starts at or after `p0`, with the position after it: a
/// value, or in parentheses one of the reserved forms or an application.
pub open spec fn term_spec(path: String, chars: Seq<char>, p0: nat) -> Result<
    (MetaTermView, nat),
    ErrorView,
>
    decreases chars.len() - p0, 0nat,
{
    let p = skip_spec(chars, p0);
    if peek_spec(chars, p) == Some('(') {
        let p1 = skip_spec(chars, p + 1);
        match identifier_end(chars, p1) {
            Some(e) => {
                let id = chars.subrange(p1 as int, e as int);
                let p2 = skip_spec(chars, e);
                if id == "lambda"@ {
                    lambda_spec(path, chars, p2)
                } else if id == "cons"@ {
                    form_spec(Form::Cons, path, chars, p2)
                } else if id == "list"@ {
                    form_spec(Form::List, path, chars, p2)
                } else if id == "quote"@ {
                    form_spec(Form::Quote, path, chars, p2)
                } else if id == "if"@ {
                    form_spec(Form::If, path, chars, p2)
                } else {
                    form_spec(Form::Apply, path, chars, p1)
                }
            },
            None => form_spec(Form::Apply, path, chars, p1),
        }
    } else {
        value_spec(path, chars, p)
    }
}

/// The strings up to the closing parenthesis, `acc` holding those read so
/// far, with the position after the parenthesis.
pub open spec fn strings_acc_spec(path: String, chars: Seq<char>, p: nat, acc: Seq<Seq<char>>)
    -> Result<(Seq<Seq<char>>, nat), ErrorView>
    decreases chars.len() - p,
{
    if peek_spec(chars, p) == Some(')') {
        Ok((acc, p + 1))
    } else {
        match string_spec(path, chars, p) {
            Err(e) => Err(e),
            Ok(found) => {
                let next = skip_spec(chars, found.1);
                if p < next && next <= chars.len() {
                    strings_acc_spec(path, chars, next, acc.push(found.0))
                } else {
                    Err(stuck(path, chars, p))
                }
            },
        }
    }
}

/// The export item at `p`: a path in quotation marks or a name.
pub open spec fn export_spec(path: String, chars: Seq<char>, p: nat) -> Result<
    (ExportView, nat),
    ErrorView,
> {
    if peek_spec(chars, p) == Some('"') {
        match string_spec(path, chars, p) {
            Err(e) => Err(e),
            Ok(found) => Ok((ExportView::Path(found.0), found.1)),
        }
    } else {
        match identifier_end(chars, p) {
            Some(e) => Ok((ExportView::Var(chars.subrange(p as int, e as int)), e)),
            None => Err(
                fault_at(
                    locinfo_spec(path, chars, p),
                    "export statement expects string or identifier for variable exported"@,
                ),
            ),
        }
    }
}

/// The export items up to the closing parenthesis.
pub open spec fn exports_acc_spec(path: String, chars: Seq<char>, p: nat, acc: Seq<ExportView>)
    -> Result<(Seq<ExportView>, nat), ErrorView>
    decreases chars.len() - p,
{
    if peek_spec(chars, p) == Some(')') {
        Ok((acc, p + 1))
    } else {
        match export_spec(path, chars, p) {
            Err(e) => Err(e),
            Ok(found) => {
                let next = skip_spec(chars, found.1);
                if p < next && next <= chars.len() {
                    exports_acc_spec(path, chars, next, acc.push(found.0))
                } else {
                    Err(stuck(path, chars, p))
                }
            },
        }
    }
}

/// The function of a recursive group at `p`: name, argument names in
/// parentheses, body.
pub open spec fn defrec_fun_spec(path: String, chars: Seq<char>, p: nat) -> Result<
    (DefRecFunView, nat),
    ErrorView,
> {
    match name_define_spec(path, chars, p) {
        Err(e) => Err(e),
        Ok(None) => Err(
            fault_at(locinfo_spec(path, chars, p), "expect defrec definition variable name"@),
        ),
        Ok(Some(name)) => match arg_names_spec(
            path,
            chars,
            skip_spec(chars, name.1),
            "defrec definition args"@,
        ) {
            Err(e) => Err(e),
            Ok(args) => match term_spec(path, chars, skip_spec(chars, args.1)) {
                Err(e) => Err(e),
                Ok(body) => Ok(
                    (DefRecFunView { name: name.0, args: args.0, body: body.0 }, body.1),
                ),
            },
        },
    }
}

/// The functions of a recursive group up to the closing parenthesis.
pub open spec fn funs_acc_spec(path: String, chars: Seq<char>, p: nat, acc: Seq<DefRecFunView>)
    -> Result<(Seq<DefRecFunView>, nat), ErrorView>
    decreases chars.len() - p,
{
    if peek_spec(chars, p) == Some(')') {
        Ok((acc, p + 1))
    } else {
        match defrec_fun_spec(path, chars, p) {
            Err(e) => Err(e),
            Ok(found) => {
                let next = skip_spec(chars, found.1);
                if p < next && next <= chars.len() {
                    funs_acc_spec(path, chars, next, acc.push(found.0))
                } else {
                    Err(stuck(path, chars, p))
                }
            },
        }
    }
}

/// The term at `p` followed by the closing parenthesis of a statement:
/// the term, the metadata of the statement and the position after it.
pub open spec fn closed_term_spec(path: String, chars: Seq<char>, p: nat, message: Seq<char>)
    -> Result<(MetaTermView, Option<FileInfo>, nat), ErrorView> {
    match term_spec(path, chars, p) {
        Err(e) => Err(e),
        Ok(t) => {
            let end = skip_spec(chars, t.1);
            if peek_spec(chars, end) == Some(')') {
                Ok((t.0, locinfo_spec(path, chars, end + 1), end + 1))
            } else {
                Err(
                    fault_at(
                        locinfo_spec(path, chars, after_one(chars, end)),
                        end_message(message, peek_spec(chars, end)),
                    ),
                )
            }
        },
    }
}

/// The definition whose name starts at or after `p`.
pub open spec fn def_spec(path: String, chars: Seq<char>, p: nat) -> Result<
    (StatementView, nat),
    ErrorView,
> {
    let start = skip_spec(chars, p);
    match name_define_spec(path, chars, start) {
        Err(e) => Err(e),
        Ok(None) => Err(fault_at(locinfo_spec(path, chars, start), "def should follow variable name"@)),
        Ok(Some(name)) => match closed_term_spec(
            path,
            chars,
            skip_spec(chars, name.1),
            "expect def statement end parenthesis"@,
        ) {
            Err(e) => Err(e),
            Ok(t) => Ok((StatementView::Def(t.1, name.0, t.0), t.2)),
        },
    }
}

/// The statement of the keyword `id` whose operands start at `p`, if `id`
/// is the keyword of a statement.
pub open spec fn keyword_spec(id: Seq<char>, path: String, chars: Seq<char>, p: nat) -> Option<
    Result<(StatementView, nat), ErrorView>,
> {
    if id == "def"@ {
        Some(def_spec(path, chars, p))
    } else if id == "defrec"@ {
        Some(
            match funs_acc_spec(path, chars, p, Seq::empty()) {
                Err(e) => Err(e),
                Ok(funs) => Ok(
                    (StatementView::DefRec(locinfo_spec(path, chars, funs.1), funs.0), funs.1),
                ),
            },
        )
    } else if id == "import"@ {
        Some(
            match strings_acc_spec(path, chars, p, Seq::empty()) {
                Err(e) => Err(e),
                Ok(paths) => Ok(
                    (StatementView::Import(locinfo_spec(path, chars, paths.1), paths.0), paths.1),
                ),
            },
        )
    } else if id == "export"@ {
        Some(
            match exports_acc_spec(path, chars, p, Seq::empty()) {
                Err(e) => Err(e),
                Ok(items) => Ok(
                    (StatementView::Export(locinfo_spec(path, chars, p), items.0), items.1),
                ),
            },
        )
    } else if id == "assert"@ {
        Some(
            match closed_term_spec(path, chars, p, "expect assert statement end parenthesis"@) {
                Err(e) => Err(e),
                Ok(t) => Ok((StatementView::Assert(t.1, t.0), t.2)),
            },
        )
    } else {
        None
    }
}

/// The statement that is a term at `p`.
pub open spec fn term_statement_spec(path: String, chars: Seq<char>, p: nat) -> Result<
    (StatementView, nat),
    ErrorView,
> {
    match term_spec(path, chars, p) {
        Err(e) => Err(e),
        Ok(t) => Ok((StatementView::Term(locinfo_spec(path, chars, p), t.0), t.1)),
    }
}

/// The statement that starts at or after `p0`, with the position after it.
pub open spec fn stmt_spec(path: String, chars: Seq<char>, p0: nat) -> Result<
    (StatementView, nat),
    ErrorView,
> {
    let p = skip_spec(chars, p0);
    if peek_spec(chars, p) == Some('(') {
        let p1 = skip_spec(chars, p + 1);
        match identifier_end(chars, p1) {
            Some(e) => match keyword_spec(
                chars.subrange(p1 as int, e as int),
                path,
                chars,
                skip_spec(chars, e),
            ) {
                Some(r) => r,
                None => term_statement_spec(path, chars, p),
            },
            None => term_statement_spec(path, chars, p),
        }
    } else {
        term_statement_spec(path, chars, p)
    }
}

/// The statements from `p` to the end of the input, `acc` holding those
/// read so far.
pub open spec fn stmts_acc_spec(path: String, chars: Seq<char>, p: nat, acc: Seq<StatementView>)
    -> Result<Seq<StatementView>, ErrorView>
    decreases chars.len() - p,
{
    if p >= chars.len() {
        Ok(acc)
    } else {
        match stmt_spec(path, chars, p) {
            Err(e) => Err(e),
            Ok(found) => {
                let next = skip_spec(chars, found.1);
                if p < next && next <= chars.len() {
                    stmts_acc_spec(path, chars, next, acc.push(found.0))
                } else {
                    Err(stuck(path, chars, p))
                }
            },
        }
    }
}

/// The statements of a whole source text.
pub open spec fn parse_spec(path: String, chars: Seq<char>) -> Result<
    Seq<StatementView>,
    ErrorView,
> {
    stmts_acc_spec(path, chars, 0, Seq::empty())
}

/// A parser over the characters of one source text.
pub struct MetaParser {
    pub filepath: String,
    pub p: usize,
    pub line: usize,
    pub col: usize,
    pub chars: Vec<char>,
}


/// A saved position of a parser: index, line and column.
pub struct Mark {
    pub p: usize,
    pub line: usize,
    pub col: usize,
}

impl MetaParser {
    /// The cursor lies within the input, and line and column are those of
    /// its position.
    pub open spec fn wf(&self) -> bool {
        self.p <= self.chars@.len() && self.line == line_at(self.chars@, self.p as nat)
            && self.col == col_at(self.chars@, self.p as nat)
    }

    /// The parser `other` reads the same input under the same path.
    pub open spec fn same_input(&self, other: &MetaParser) -> bool {
        self.filepath == other.filepath && self.chars == other.chars
    }

    /// `next` is this parser moved forward, or left where it is.
    pub open spec fn moved_to(&self, next: &MetaParser) -> bool {
        next.wf() && self.same_input(next) && next.p >= self.p
    }

    /// A parser at the start of `chars`, which come from the file `filepath`.
    pub fn new(filepath: String, chars: Vec<char>) -> (r: Self)
        ensures
            r.wf(),
            r.p == 0,
            r.filepath == filepath,
            r.chars == chars,
    {
        Self { filepath, p: 0, line: 0, col: 0, chars }
    }

    fn loc(&self) -> (r: Location)
        requires
            self.wf(),
        ensures
            r == location_at(self.chars@, self.p as nat),
    {
        Location { line: self.line, col: self.col }
    }

    fn locinfo(&self) -> (r: Option<FileInfo>)
        requires
            self.wf(),
        ensures
            r == locinfo_spec(self.filepath, self.chars@, self.p as nat),
    {
        Some(
            FileInfo {
                range: Range { from: self.loc(), to: self.loc() },
                filepath: self.filepath.clone(),
            },
        )
    }

    fn rangeinfo(&self, n: usize) -> (r: Option<FileInfo>)
        requires
            self.wf(),
        ensures
            r == rangeinfo_spec(self.filepath, self.chars@, self.p as nat, n as nat),
    {
        let to = self.loc();
        let col = if n <= to.col {
            to.col - n
        } else {
            0
        };
        Some(
            FileInfo {
                range: Range { from: Location { line: to.line, col }, to },
                filepath: self.filepath.clone(),
            },
        )
    }

    fn get(&mut self) -> (r: Option<char>)
        requires
            old(self).wf(),
        ensures
            old(self).moved_to(final(self)),
            r == peek_spec(old(self).chars@, old(self).p as nat),
            final(self).p == if r is Some {
                old(self).p + 1
            } else {
                old(self).p as int
            },
    {
        if self.chars.len() <= self.p {
            return None;
        }
        proof {
            lemma_location_bounded(self.chars@, self.p as nat);
        }
        let b = self.chars[self.p];
        self.p += 1;
        if b == '\n' {
            self.line += 1;
            self.col = 0;
        } else {
            self.col += 1;
        }
        Some(b)
    }

    fn peek(&self) -> (r: Option<char>)
        requires
            self.wf(),
        ensures
            r == peek_spec(self.chars@, self.p as nat),
    {
        if self.chars.len() <= self.p {
            return None;
        }
        Some(self.chars[self.p])
    }

    fn store(&self) -> (r: Mark)
        ensures
            r.p == self.p,
            r.line == self.line,
            r.col == self.col,
    {
        Mark { p: self.p, line: self.line, col: self.col }
    }

    fn restore(&mut self, store: Mark)
        requires
            store.p <= old(self).chars@.len(),
            store.line == line_at(old(self).chars@, store.p as nat),
            store.col == col_at(old(self).chars@, store.p as nat),
        ensures
            final(self).wf(),
            old(self).same_input(final(self)),
            final(self).p == store.p,
    {
        self.p = store.p;
        self.line = store.line;
        self.col = store.col;
    }

    /// Reads the longest run of characters of `class` at the cursor.
    fn get_while(&mut self, class: CharClass) -> (r: Vec<char>)
        requires
            old(self).wf(),
        ensures
            old(self).moved_to(final(self)),
            final(self).p == run_end(old(self).chars@, old(self).p as nat, class),
            r@ == old(self).chars@.subrange(old(self).p as int, final(self).p as int),
    {
        let mut id: Vec<char> = Vec::new();
        proof {
            lemma_run_end_bounds(self.chars@, self.p as nat, class);
        }
        loop
            invariant
                old(self).moved_to(self),
                run_end(self.chars@, self.p as nat, class) == run_end(
                    old(self).chars@,
                    old(self).p as nat,
                    class,
                ),
                id@ == self.chars@.subrange(old(self).p as int, self.p as int),
            ensures
                old(self).moved_to(self),
                self.p == run_end(old(self).chars@, old(self).p as nat, class),
                id@ == self.chars@.subrange(old(self).p as int, self.p as int),
            decreases self.chars@.len() - self.p,
        {
            let c = match self.peek() {
                Some(c) => c,
                None => {
                    break ;
                },
            };
            let member = match class {
                CharClass::Whitespace => is_whitespace(c),
                CharClass::Identifier => is_identifier(c),
                CharClass::Digit => '0' <= c && c <= '9',
            };
            if !member {
                break ;
            }
            self.get();
            id.push(c);
            assert(id@ =~= self.chars@.subrange(old(self).p as int, self.p as int));
        }
        id
    }

    /// Moves the cursor past whitespace.
    fn skip(&mut self)
        requires
            old(self).wf(),
        ensures
            old(self).moved_to(final(self)),
            final(self).p == skip_spec(old(self).chars@, old(self).p as nat),
    {
        proof {
            lemma_run_end_bounds(self.chars@, self.p as nat, CharClass::Whitespace);
        }
        let _ = self.get_while(CharClass::Whitespace);
    }

    /// The message `text`, a colon, and what was found at the cursor.
    fn found_fault(&self, text: &str, c: Option<char>) -> (r: CompileError)
        requires
            self.wf(),
        ensures
            r@ == fault_at(
                locinfo_spec(self.filepath, self.chars@, self.p as nat),
                text@ + print_char_spec(c),
            ),
    {
        let mut out: Vec<char> = Vec::new();
        push_str(&mut out, text);
        print_char(&mut out, c);
        assert(out@ =~= text@ + print_char_spec(c));
        CompileError::with_chars(self.locinfo(), &out)
    }

    fn get_end_parenthesis(&mut self, message: &str) -> (r: Result<(), CompileError>)
        requires
            old(self).wf(),
        ensures
            old(self).moved_to(final(self)),
            r is Ok <==> peek_spec(old(self).chars@, old(self).p as nat) == Some(')'),
            final(self).p == after_one(old(self).chars@, old(self).p as nat),
            r is Err ==> r->Err_0@ == fault_at(
                locinfo_spec(final(self).filepath, final(self).chars@, final(self).p as nat),
                end_message(message@, peek_spec(old(self).chars@, old(self).p as nat)),
            ),
    {
        let c = self.get();
        if c != Some(')') {
            let mut out: Vec<char> = Vec::new();
            push_str(&mut out, message);
            push_str(&mut out, ": found ");
            print_char(&mut out, c);
            assert(out@ =~= message@ + ": found "@ + print_char_spec(c));
            return Err(CompileError::with_chars(self.locinfo(), &out));
        }
        Ok(())
    }

    /// Reads a decimal number at the cursor, if one starts there.
    fn parse_decimal_number(&mut self) -> (r: Option<Natural>)
        requires
            old(self).wf(),
        ensures
            old(self).moved_to(final(self)),
            final(self).p == run_end(old(self).chars@, old(self).p as nat, CharClass::Digit),
            r is Some <==> final(self).p > old(self).p,
            r is Some ==> r->0@ == decimal_value(
                old(self).chars@.subrange(old(self).p as int, final(self).p as int),
            ),
    {
        let n = self.get_while(CharClass::Digit);
        proof {
            lemma_run_digits(old(self).chars@, old(self).p as nat);
        }
        Natural::from_decimal(&n)
    }

    /// Reads an identifier at the cursor, if one starts there.
    fn parse_identifier(&mut self) -> (r: Option<Vec<char>>)
        requires
            old(self).wf(),
        ensures
            old(self).moved_to(final(self)),
            match r {
                Some(id) => identifier_end(old(self).chars@, old(self).p as nat) == Some(
                    final(self).p as nat,
                ) && id@ == old(self).chars@.subrange(old(self).p as int, final(self).p as int)
                    && final(self).p > old(self).p,
                None => identifier_end(old(self).chars@, old(self).p as nat) is None && final(self).p == old(self).p,
            },
    {
        if let Some(c) = self.peek() {
            if is_identifier_head(c) {
                proof {
                    lemma_run_end_bounds(self.chars@, (self.p + 1) as nat, CharClass::Identifier);
                    lemma_run_end_bounds(self.chars@, self.p as nat, CharClass::Identifier);
                }
                return Some(self.get_while(CharClass::Identifier));
            }
        }
        None
    }

    /// Reads a name in a defining position, if an identifier starts at the
    /// cursor; a reserved name is an error.
    fn parse_name_define(&mut self) -> (r: Result<Option<String>, CompileError>)
        requires
            old(self).wf(),
        ensures
            old(self).moved_to(final(self)),
            match r {
                Ok(Some(name)) => name_define_spec(
                    old(self).filepath,
                    old(self).chars@,
                    old(self).p as nat,
                ) == Ok::<Option<(Seq<char>, nat)>, ErrorView>(Some((name@, final(self).p as nat)))
                    && final(self).p > old(self).p,
                Ok(None) => name_define_spec(
                    old(self).filepath,
                    old(self).chars@,
                    old(self).p as nat,
                ) == Ok::<Option<(Seq<char>, nat)>, ErrorView>(None) && final(self).p == old(self).p,
                Err(e) => name_define_spec(old(self).filepath, old(self).chars@, old(self).p as nat)
                    == Err::<Option<(Seq<char>, nat)>, ErrorView>(e@),
            },
    {
        match self.parse_identifier() {
            Some(id) => {
                if is_reserved_name(&id) {
                    let c = self.peek();
                    return Err(
                        self.found_fault("expected string starting double quotation: found ", c),
                    );
                }
                Ok(Some(string_from_chars(&id)))
            },
            None => Ok(None),
        }
    }

    /// Reads a string in double quotation marks at the cursor.
    fn parse_string(&mut self) -> (r: Result<String, CompileError>)
        requires
            old(self).wf(),
        ensures
            old(self).moved_to(final(self)),
            match r {
                Ok(text) => string_spec(old(self).filepath, old(self).chars@, old(self).p as nat)
                    == Ok::<(Seq<char>, nat), ErrorView>((text@, final(self).p as nat)) && final(self).p > old(self).p,
                Err(e) => string_spec(old(self).filepath, old(self).chars@, old(self).p as nat)
                    == Err::<(Seq<char>, nat), ErrorView>(e@),
            },
    {
        if self.get() != Some('"') {
            let c = self.peek();
            return Err(self.found_fault("expected string starting double quotation: found ", c));
        }
        let mut s: Vec<char> = Vec::new();
        loop
            invariant
                old(self).moved_to(self),
                self.p > old(self).p,
                string_spec(old(self).filepath, old(self).chars@, old(self).p as nat)
                    == string_body_spec(self.filepath, self.chars@, self.p as nat, s@),
            decreases self.chars@.len() - self.p,
        {
            let c = match self.get() {
                Some(c) => c,
                None => {
                    return Err(
                        self.found_fault("expected string ending double quotation: found ", None),
                    );
                },
            };
            if c == '"' {
                return Ok(string_from_chars(&s));
            } else if c == '\\' {
                let escaped = match self.get() {
                    Some(e) => e,
                    None => {
                        return Err(
                            self.found_fault(
                                "expected string ending double quotation: found ",
                                None,
                            ),
                        );
                    },
                };
                if escaped == '\\' {
                    s.push('\\');
                } else if escaped == 'n' {
                    s.push('\n');
                } else if escaped == 'r' {
                    s.push('\r');
                } else if escaped == 't' {
                    s.push('\t');
                } else if escaped == '"' {
                    s.push('"');
                } else {
                    let mut out: Vec<char> = Vec::new();
                    push_str(&mut out, "unknown string escape sequence \"\\");
                    out.push(escaped);
                    push_str(&mut out, "\"");
                    assert(out@ =~= unknown_escape_message(escaped));
                    return Err(CompileError::with_chars(self.locinfo(), &out));
                }
            } else {
                s.push(c);
            }
        }
    }

    /// Reads a value at the cursor: an atom, a variable or a number.
    fn parse_term_value(&mut self) -> (r: Result<MetaTerm, CompileError>)
        requires
            old(self).wf(),
        ensures
            old(self).moved_to(final(self)),
            match r {
                Ok(t) => value_spec(old(self).filepath, old(self).chars@, old(self).p as nat)
                    == Ok::<(MetaTermView, nat), ErrorView>((t@, final(self).p as nat)) && final(self).p > old(self).p,
                Err(e) => value_spec(old(self).filepath, old(self).chars@, old(self).p as nat)
                    == Err::<(MetaTermView, nat), ErrorView>(e@),
            },
    {
        match self.parse_identifier() {
            Some(id) => {
                let info = self.rangeinfo(id.len());
                Ok(
                    if chars_equal(&id, "nil") {
                        MetaTerm::Nil(info)
                    } else if chars_equal(&id, "true") {
                        MetaTerm::Bool(info, true)
                    } else if chars_equal(&id, "false") {
                        MetaTerm::Bool(info, false)
                    } else if chars_equal(&id, "car") {
                        MetaTerm::Car(info)
                    } else if chars_equal(&id, "cdr") {
                        MetaTerm::Cdr(info)
                    } else if chars_equal(&id, "eval") {
                        MetaTerm::Eval(info)
                    } else if chars_equal(&id, "eq") {
                        MetaTerm::Eq(info)
                    } else if chars_equal(&id, "+") {
                        MetaTerm::Add(info)
                    } else if chars_equal(&id, "-") {
                        MetaTerm::Sub(info)
                    } else if chars_equal(&id, "*") {
                        MetaTerm::Mul(info)
                    } else if chars_equal(&id, "/") {
                        MetaTerm::Div(info)
                    } else if chars_equal(&id, "%") {
                        MetaTerm::Rem(info)
                    } else {
                        MetaTerm::Variable(info, string_from_chars(&id))
                    },
                )
            },
            None => match self.parse_decimal_number() {
                Some(n) => Ok(MetaTerm::Number(self.locinfo(), n)),
                None => {
                    let c = self.peek();
                    Err(self.found_fault("value expected: found ", c))
                },
            },
        }
    }
}

/// The executable result `r`, reached at position `end`, is the modelled
/// result `want`, and the cursor has moved on from `start`.
pub open spec fn term_outcome(
    r: Result<MetaTerm, CompileError>,
    start: nat,
    end: nat,
    want: Result<(MetaTermView, nat), ErrorView>,
) -> bool {
    match r {
        Ok(t) => want == Ok::<(MetaTermView, nat), ErrorView>((t@, end)) && end > start,
        Err(e) => want == Err::<(MetaTermView, nat), ErrorView>(e@),
    }
}

impl MetaParser {
    /// Reads names up to the closing parenthesis.
    fn parse_name_vec(&mut self) -> (r: Result<Vec<String>, CompileError>)
        requires
            old(self).wf(),
        ensures
            old(self).moved_to(final(self)),
            match r {
                Ok(names) => names_acc_spec(
                    old(self).filepath,
                    old(self).chars@,
                    old(self).p as nat,
                    Seq::empty(),
                ) == Ok::<(Seq<Seq<char>>, nat), ErrorView>(
                    (names_view(names@), final(self).p as nat),
                ) && final(self).p > old(self).p,
                Err(e) => names_acc_spec(
                    old(self).filepath,
                    old(self).chars@,
                    old(self).p as nat,
                    Seq::empty(),
                ) == Err::<(Seq<Seq<char>>, nat), ErrorView>(e@),
            },
    {
        let mut vec: Vec<String> = Vec::new();
        assert(names_view(vec@) =~= Seq::<Seq<char>>::empty());
        loop
            invariant
                old(self).moved_to(self),
                names_acc_spec(
                    old(self).filepath,
                    old(self).chars@,
                    old(self).p as nat,
                    Seq::empty(),
                ) == names_acc_spec(self.filepath, self.chars@, self.p as nat, names_view(vec@)),
            decreases self.chars@.len() - self.p,
        {
            let c = self.peek();
            if c == Some(')') {
                self.get();
                return Ok(vec);
            }
            let got = match self.parse_name_define() {
                Ok(Some(name)) => name,
                Ok(None) => {
                    let mut out: Vec<char> = Vec::new();
                    push_str(&mut out, "identifier");
                    push_str(&mut out, " expected: found \"");
                    print_char(&mut out, c);
                    push_str(&mut out, "\"");
                    assert(out@ =~= expected_message("identifier"@, c));
                    return Err(CompileError::with_chars(self.locinfo(), &out));
                },
                Err(e) => {
                    return Err(e);
                },
            };
            self.skip();
            let ghost before = names_view(vec@);
            vec.push(got);
            assert(names_view(vec@) =~= before.push(got@));
        }
    }

    /// Reads a list of argument names in parentheses.
    fn parse_arg_name_vec(&mut self, message: &str) -> (r: Result<Vec<String>, CompileError>)
        requires
            old(self).wf(),
        ensures
            old(self).moved_to(final(self)),
            match r {
                Ok(names) => arg_names_spec(
                    old(self).filepath,
                    old(self).chars@,
                    old(self).p as nat,
                    message@,
                ) == Ok::<(Seq<Seq<char>>, nat), ErrorView>(
                    (names_view(names@), final(self).p as nat),
                ) && final(self).p > old(self).p,
                Err(e) => arg_names_spec(
                    old(self).filepath,
                    old(self).chars@,
                    old(self).p as nat,
                    message@,
                ) == Err::<(Seq<Seq<char>>, nat), ErrorView>(e@),
            },
    {
        let c = self.get();
        if c != Some('(') {
            let mut out: Vec<char> = Vec::new();
            push_str(&mut out, message);
            push_str(&mut out, ": expect start parenthesis for args: got ");
            print_char(&mut out, c);
            assert(out@ =~= args_start_message(message@, c));
            return Err(CompileError::with_chars(self.locinfo(), &out));
        }
        self.skip();
        self.parse_name_vec()
    }

    /// Reads terms up to the closing parenthesis.
    fn parse_term_vec(&mut self) -> (r: Result<Vec<MetaTerm>, CompileError>)
        requires
            old(self).wf(),
        ensures
            old(self).moved_to(final(self)),
            match r {
                Ok(ts) => terms_acc_spec(
                    old(self).filepath,
                    old(self).chars@,
                    old(self).p as nat,
                    Seq::empty(),
                ) == Ok::<(Seq<MetaTermView>, nat), ErrorView>(
                    (meta_view_seq(ts@), final(self).p as nat),
                ) && final(self).p > old(self).p,
                Err(e) => terms_acc_spec(
                    old(self).filepath,
                    old(self).chars@,
                    old(self).p as nat,
                    Seq::empty(),
                ) == Err::<(Seq<MetaTermView>, nat), ErrorView>(e@),
            },
        decreases old(self).chars@.len() - old(self).p, 1nat,
    {
        let mut vec: Vec<MetaTerm> = Vec::new();
        assert(meta_view_seq(vec@) =~= Seq::<MetaTermView>::empty());
        loop
            invariant
                old(self).moved_to(self),
                terms_acc_spec(
                    old(self).filepath,
                    old(self).chars@,
                    old(self).p as nat,
                    Seq::empty(),
                ) == terms_acc_spec(self.filepath, self.chars@, self.p as nat, meta_view_seq(vec@)),
            decreases self.chars@.len() - self.p,
        {
            let c = self.peek();
            if c == Some(')') {
                self.get();
                return Ok(vec);
            }
            let got = match self.parse_term() {
                Ok(t) => t,
                Err(e) => {
                    return Err(e);
                },
            };
            self.skip();
            let ghost before = meta_view_seq(vec@);
            vec.push(got);
            assert(meta_view_seq(vec@) =~= before.push(got@));
        }
    }

    /// Reads the terms of the form `form` and makes the form of them.
    fn parse_form(&mut self, form: Form) -> (r: Result<MetaTerm, CompileError>)
        requires
            old(self).wf(),
        ensures
            old(self).moved_to(final(self)),
            term_outcome(
                r,
                old(self).p as nat,
                final(self).p as nat,
                form_spec(form, old(self).filepath, old(self).chars@, old(self).p as nat),
            ),
        decreases old(self).chars@.len() - old(self).p, 2nat,
    {
        let mut terms = match self.parse_term_vec() {
            Ok(ts) => ts,
            Err(e) => {
                return Err(e);
            },
        };
        let ghost ts = meta_view_seq(terms@);
        match form {
            Form::Apply => {
                if terms.len() == 0 {
                    return Err(
                        CompileError::at(self.locinfo(), "Apply without operator not allowed"),
                    );
                }
                let info = self.locinfo();
                let op = terms.remove(0);
                assert(meta_view_seq(terms@) =~= ts.subrange(1, ts.len() as int));
                assert(op@ == ts[0]);
                Ok(MetaTerm::Apply(info, Box::new(op), terms))
            },
            Form::Cons => {
                if terms.len() != 2 {
                    return Err(CompileError::at(self.locinfo(), "cons only accepts 2 terms"));
                }
                self.skip();
                let b = terms.pop().unwrap();
                let a = terms.pop().unwrap();
                assert(a@ == ts[0] && b@ == ts[1]);
                Ok(MetaTerm::Cons(self.locinfo(), Box::new(a), Box::new(b)))
            },
            Form::List => {
                self.skip();
                Ok(MetaTerm::List(self.locinfo(), terms))
            },
            Form::Quote => {
                if terms.len() != 1 {
                    return Err(CompileError::at(self.locinfo(), "quote only accepts 1 term"));
                }
                self.skip();
                let a = terms.pop().unwrap();
                assert(a@ == ts[0]);
                Ok(MetaTerm::Quote(self.locinfo(), Box::new(a)))
            },
            Form::If => {
                if terms.len() != 3 {
                    return Err(CompileError::at(self.locinfo(), "if only accepts 3 terms"));
                }
                self.skip();
                let c = terms.pop().unwrap();
                let b = terms.pop().unwrap();
                let a = terms.pop().unwrap();
                assert(a@ == ts[0] && b@ == ts[1] && c@ == ts[2]);
                Ok(MetaTerm::If(self.locinfo(), Box::new(a), Box::new(b), Box::new(c)))
            },
        }
    }

    /// Reads a lambda after its keyword.
    fn parse_term_lambda(&mut self) -> (r: Result<MetaTerm, CompileError>)
        requires
            old(self).wf(),
        ensures
            old(self).moved_to(final(self)),
            term_outcome(
                r,
                old(self).p as nat,
                final(self).p as nat,
                lambda_spec(old(self).filepath, old(self).chars@, old(self).p as nat),
            ),
        decreases old(self).chars@.len() - old(self).p, 2nat,
    {
        let arg_name_vec = match self.parse_arg_name_vec("lambda args") {
            Ok(v) => v,
            Err(e) => {
                return Err(e);
            },
        };
        self.skip();
        let body = match self.parse_term() {
            Ok(t) => t,
            Err(e) => {
                return Err(e);
            },
        };
        self.skip();
        match self.get_end_parenthesis("expect lambda end parenthesis for args") {
            Ok(_) => {},
            Err(e) => {
                return Err(e);
            },
        }
        Ok(MetaTerm::Lambda(self.locinfo(), arg_name_vec, Box::new(body)))
    }

    /// Reads one term: a value, or in parentheses a reserved form or an
    /// application.
    pub fn parse_term(&mut self) -> (r: Result<MetaTerm, CompileError>)
        requires
            old(self).wf(),
        ensures
            old(self).moved_to(final(self)),
            term_outcome(
                r,
                old(self).p as nat,
                final(self).p as nat,
                term_spec(old(self).filepath, old(self).chars@, old(self).p as nat),
            ),
        decreases old(self).chars@.len() - old(self).p, 0nat,
    {
        self.skip();
        if self.peek() == Some('(') {
            self.get();
            self.skip();
            let store = self.store();
            let id = self.parse_identifier();
            self.skip();
            match id {
                Some(id) => {
                    if chars_equal(&id, "lambda") {
                        return self.parse_term_lambda();
                    } else if chars_equal(&id, "cons") {
                        return self.parse_form(Form::Cons);
                    } else if chars_equal(&id, "list") {
                        return self.parse_form(Form::List);
                    } else if chars_equal(&id, "quote") {
                        return self.parse_form(Form::Quote);
                    } else if chars_equal(&id, "if") {
                        return self.parse_form(Form::If);
                    }
                },
                None => {},
            }
            self.restore(store);
            self.parse_form(Form::Apply)
        } else {
            self.parse_term_value()
        }
    }
}

/// The executable statement `r`, reached at position `end`, is the modelled
/// result `want`, and the cursor has moved on from `start`.
pub open spec fn stmt_outcome(
    r: Result<MetaStatement, CompileError>,
    start: nat,
    end: nat,
    want: Result<(StatementView, nat), ErrorView>,
) -> bool {
    match r {
        Ok(t) => want == Ok::<(StatementView, nat), ErrorView>((t@, end)) && end > start,
        Err(e) => want == Err::<(StatementView, nat), ErrorView>(e@),
    }
}

impl MetaParser {
    /// Reads strings up to the closing parenthesis.
    fn parse_string_vec(&mut self) -> (r: Result<Vec<String>, CompileError>)
        requires
            old(self).wf(),
        ensures
            old(self).moved_to(final(self)),
            match r {
                Ok(v) => strings_acc_spec(
                    old(self).filepath,
                    old(self).chars@,
                    old(self).p as nat,
                    Seq::empty(),
                ) == Ok::<(Seq<Seq<char>>, nat), ErrorView>((names_view(v@), final(self).p as nat))
                    && final(self).p > old(self).p,
                Err(e) => strings_acc_spec(
                    old(self).filepath,
                    old(self).chars@,
                    old(self).p as nat,
                    Seq::empty(),
                ) == Err::<(Seq<Seq<char>>, nat), ErrorView>(e@),
            },
    {
        let mut vec: Vec<String> = Vec::new();
        assert(names_view(vec@) =~= Seq::<Seq<char>>::empty());
        loop
            invariant
                old(self).moved_to(self),
                strings_acc_spec(
                    old(self).filepath,
                    old(self).chars@,
                    old(self).p as nat,
                    Seq::empty(),
                ) == strings_acc_spec(self.filepath, self.chars@, self.p as nat, names_view(vec@)),
            decreases self.chars@.len() - self.p,
        {
            if self.peek() == Some(')') {
                self.get();
                return Ok(vec);
            }
            let got = match self.parse_string() {
                Ok(text) => text,
                Err(e) => {
                    return Err(e);
                },
            };
            self.skip();
            let ghost before = names_view(vec@);
            vec.push(got);
            assert(names_view(vec@) =~= before.push(got@));
        }
    }

    /// Reads one export item: a path in quotation marks or a name.
    fn parse_export(&mut self) -> (r: Result<MetaExport, CompileError>)
        requires
            old(self).wf(),
        ensures
            old(self).moved_to(final(self)),
            match r {
                Ok(item) => export_spec(old(self).filepath, old(self).chars@, old(self).p as nat)
                    == Ok::<(ExportView, nat), ErrorView>((item@, final(self).p as nat))
                    && final(self).p > old(self).p,
                Err(e) => export_spec(old(self).filepath, old(self).chars@, old(self).p as nat)
                    == Err::<(ExportView, nat), ErrorView>(e@),
            },
    {
        if self.peek() == Some('"') {
            match self.parse_string() {
                Ok(text) => Ok(MetaExport::Path(text)),
                Err(e) => Err(e),
            }
        } else {
            match self.parse_identifier() {
                Some(id) => Ok(MetaExport::Var(string_from_chars(&id))),
                None => Err(
                    CompileError::at(
                        self.locinfo(),
                        "export statement expects string or identifier for variable exported",
                    ),
                ),
            }
        }
    }

    /// Reads export items up to the closing parenthesis.
    fn parse_export_vec(&mut self) -> (r: Result<Vec<MetaExport>, CompileError>)
        requires
            old(self).wf(),
        ensures
            old(self).moved_to(final(self)),
            match r {
                Ok(v) => exports_acc_spec(
                    old(self).filepath,
                    old(self).chars@,
                    old(self).p as nat,
                    Seq::empty(),
                ) == Ok::<(Seq<ExportView>, nat), ErrorView>(
                    (exports_view(v@), final(self).p as nat),
                ) && final(self).p > old(self).p,
                Err(e) => exports_acc_spec(
                    old(self).filepath,
                    old(self).chars@,
                    old(self).p as nat,
                    Seq::empty(),
                ) == Err::<(Seq<ExportView>, nat), ErrorView>(e@),
            },
    {
        let mut vec: Vec<MetaExport> = Vec::new();
        assert(exports_view(vec@) =~= Seq::<ExportView>::empty());
        loop
            invariant
                old(self).moved_to(self),
                exports_acc_spec(
                    old(self).filepath,
                    old(self).chars@,
                    old(self).p as nat,
                    Seq::empty(),
                ) == exports_acc_spec(self.filepath, self.chars@, self.p as nat, exports_view(vec@)),
            decreases self.chars@.len() - self.p,
        {
            if self.peek() == Some(')') {
                self.get();
                return Ok(vec);
            }
            let got = match self.parse_export() {
                Ok(item) => item,
                Err(e) => {
                    return Err(e);
                },
            };
            self.skip();
            let ghost before = exports_view(vec@);
            vec.push(got);
            assert(exports_view(vec@) =~= before.push(got@));
        }
    }

    /// Reads one function of a recursive group.
    fn parse_defrec_fun(&mut self) -> (r: Result<DefRecFun, CompileError>)
        requires
            old(self).wf(),
        ensures
            old(self).moved_to(final(self)),
            match r {
                Ok(fun) => defrec_fun_spec(old(self).filepath, old(self).chars@, old(self).p as nat)
                    == Ok::<(DefRecFunView, nat), ErrorView>((fun@, final(self).p as nat))
                    && final(self).p > old(self).p,
                Err(e) => defrec_fun_spec(old(self).filepath, old(self).chars@, old(self).p as nat)
                    == Err::<(DefRecFunView, nat), ErrorView>(e@),
            },
    {
        let name = match self.parse_name_define() {
            Ok(Some(name)) => name,
            Ok(None) => {
                return Err(
                    CompileError::at(self.locinfo(), "expect defrec definition variable name"),
                );
            },
            Err(e) => {
                return Err(e);
            },
        };
        self.skip();
        let arg_name_vec = match self.parse_arg_name_vec("defrec definition args") {
            Ok(v) => v,
            Err(e) => {
                return Err(e);
            },
        };
        self.skip();
        let term = match self.parse_term() {
            Ok(t) => t,
            Err(e) => {
                return Err(e);
            },
        };
        Ok(DefRecFun { name, arg_name_vec, term })
    }

    /// Reads the functions of a recursive group up to the closing
    /// parenthesis.
    fn parse_defrec_fun_vec(&mut self) -> (r: Result<Vec<DefRecFun>, CompileError>)
        requires
            old(self).wf(),
        ensures
            old(self).moved_to(final(self)),
            match r {
                Ok(v) => funs_acc_spec(
                    old(self).filepath,
                    old(self).chars@,
                    old(self).p as nat,
                    Seq::empty(),
                ) == Ok::<(Seq<DefRecFunView>, nat), ErrorView>(
                    (funs_view(v@), final(self).p as nat),
                ) && final(self).p > old(self).p,
                Err(e) => funs_acc_spec(
                    old(self).filepath,
                    old(self).chars@,
                    old(self).p as nat,
                    Seq::empty(),
                ) == Err::<(Seq<DefRecFunView>, nat), ErrorView>(e@),
            },
    {
        let mut vec: Vec<DefRecFun> = Vec::new();
        assert(funs_view(vec@) =~= Seq::<DefRecFunView>::empty());
        loop
            invariant
                old(self).moved_to(self),
                funs_acc_spec(
                    old(self).filepath,
                    old(self).chars@,
                    old(self).p as nat,
                    Seq::empty(),
                ) == funs_acc_spec(self.filepath, self.chars@, self.p as nat, funs_view(vec@)),
            decreases self.chars@.len() - self.p,
        {
            if self.peek() == Some(')') {
                self.get();
                return Ok(vec);
            }
            let got = match self.parse_defrec_fun() {
                Ok(fun) => fun,
                Err(e) => {
                    return Err(e);
                },
            };
            self.skip();
            let ghost before = funs_view(vec@);
            vec.push(got);
            assert(funs_view(vec@) =~= before.push(got@));
        }
    }

    /// Reads a term and the closing parenthesis of its statement; gives the
    /// term and the metadata of the statement.
    fn parse_closed_term(&mut self, message: &str) -> (r: Result<
        (MetaTerm, Option<FileInfo>),
        CompileError,
    >)
        requires
            old(self).wf(),
        ensures
            old(self).moved_to(final(self)),
            match r {
                Ok(t) => closed_term_spec(
                    old(self).filepath,
                    old(self).chars@,
                    old(self).p as nat,
                    message@,
                ) == Ok::<(MetaTermView, Option<FileInfo>, nat), ErrorView>(
                    (t.0@, t.1, final(self).p as nat),
                ) && final(self).p > old(self).p,
                Err(e) => closed_term_spec(
                    old(self).filepath,
                    old(self).chars@,
                    old(self).p as nat,
                    message@,
                ) == Err::<(MetaTermView, Option<FileInfo>, nat), ErrorView>(e@),
            },
    {
        let term = match self.parse_term() {
            Ok(t) => t,
            Err(e) => {
                return Err(e);
            },
        };
        self.skip();
        match self.get_end_parenthesis(message) {
            Ok(_) => {},
            Err(e) => {
                return Err(e);
            },
        }
        Ok((term, self.locinfo()))
    }

    /// Reads a definition after its keyword.
    fn parse_stmt_def(&mut self) -> (r: Result<MetaStatement, CompileError>)
        requires
            old(self).wf(),
        ensures
            old(self).moved_to(final(self)),
            stmt_outcome(
                r,
                old(self).p as nat,
                final(self).p as nat,
                def_spec(old(self).filepath, old(self).chars@, old(self).p as nat),
            ),
    {
        self.skip();
        let id = match self.parse_name_define() {
            Ok(Some(id)) => id,
            Ok(None) => {
                return Err(CompileError::at(self.locinfo(), "def should follow variable name"));
            },
            Err(e) => {
                return Err(e);
            },
        };
        self.skip();
        match self.parse_closed_term("expect def statement end parenthesis") {
            Ok(t) => Ok(MetaStatement::Def(t.1, id, t.0)),
            Err(e) => Err(e),
        }
    }

    /// Reads the statement of the keyword `id`, if `id` is one.
    fn parse_keyword(&mut self, id: &Vec<char>) -> (r: Option<Result<MetaStatement, CompileError>>)
        requires
            old(self).wf(),
        ensures
            old(self).moved_to(final(self)),
            match r {
                Some(r) => keyword_spec(
                    id@,
                    old(self).filepath,
                    old(self).chars@,
                    old(self).p as nat,
                ) is Some && stmt_outcome(
                    r,
                    old(self).p as nat,
                    final(self).p as nat,
                    keyword_spec(id@, old(self).filepath, old(self).chars@, old(self).p as nat)->0,
                ),
                None => keyword_spec(id@, old(self).filepath, old(self).chars@, old(self).p as nat)
                    is None && final(self).p == old(self).p,
            },
    {
        if chars_equal(id, "def") {
            Some(self.parse_stmt_def())
        } else if chars_equal(id, "defrec") {
            Some(
                match self.parse_defrec_fun_vec() {
                    Ok(funs) => Ok(MetaStatement::DefRec(self.locinfo(), funs)),
                    Err(e) => Err(e),
                },
            )
        } else if chars_equal(id, "import") {
            Some(
                match self.parse_string_vec() {
                    Ok(paths) => Ok(MetaStatement::Import(self.locinfo(), paths)),
                    Err(e) => Err(e),
                },
            )
        } else if chars_equal(id, "export") {
            let info = self.locinfo();
            Some(
                match self.parse_export_vec() {
                    Ok(items) => Ok(MetaStatement::Export(info, items)),
                    Err(e) => Err(e),
                },
            )
        } else if chars_equal(id, "assert") {
            Some(
                match self.parse_closed_term("expect assert statement end parenthesis") {
                    Ok(t) => Ok(MetaStatement::Assert(t.1, t.0)),
                    Err(e) => Err(e),
                },
            )
        } else {
            None
        }
    }

    /// Reads one statement: a definition, a recursive group, an import, an
    /// export, an assertion, or a term.
    pub fn parse_stmt(&mut self) -> (r: Result<MetaStatement, CompileError>)
        requires
            old(self).wf(),
        ensures
            old(self).moved_to(final(self)),
            stmt_outcome(
                r,
                old(self).p as nat,
                final(self).p as nat,
                stmt_spec(old(self).filepath, old(self).chars@, old(self).p as nat),
            ),
    {
        self.skip();
        if self.peek() == Some('(') {
            let store = self.store();
            self.get();
            self.skip();
            match self.parse_identifier() {
                Some(id) => {
                    self.skip();
                    match self.parse_keyword(&id) {
                        Some(r) => {
                            return r;
                        },
                        None => {},
                    }
                },
                None => {},
            }
            self.restore(store);
        }
        let info = self.locinfo();
        match self.parse_term() {
            Ok(t) => Ok(MetaStatement::Term(info, t)),
            Err(e) => Err(e),
        }
    }

    /// Reads every statement up to the end of the input.
    pub fn parse_stmt_vec(&mut self) -> (r: Result<Vec<MetaStatement>, CompileError>)
        requires
            old(self).wf(),
        ensures
            old(self).moved_to(final(self)),
            match r {
                Ok(v) => stmts_acc_spec(
                    old(self).filepath,
                    old(self).chars@,
                    old(self).p as nat,
                    Seq::empty(),
                ) == Ok::<Seq<StatementView>, ErrorView>(stmts_view(v@)),
                Err(e) => stmts_acc_spec(
                    old(self).filepath,
                    old(self).chars@,
                    old(self).p as nat,
                    Seq::empty(),
                ) == Err::<Seq<StatementView>, ErrorView>(e@),
            },
    {
        let mut stmt_vec: Vec<MetaStatement> = Vec::new();
        assert(stmts_view(stmt_vec@) =~= Seq::<StatementView>::empty());
        while self.peek() != None
            invariant
                old(self).moved_to(self),
                stmts_acc_spec(
                    old(self).filepath,
                    old(self).chars@,
                    old(self).p as nat,
                    Seq::empty(),
                ) == stmts_acc_spec(self.filepath, self.chars@, self.p as nat, stmts_view(stmt_vec@)),
            decreases self.chars@.len() - self.p,
        {
            let got = match self.parse_stmt() {
                Ok(s) => s,
                Err(e) => {
                    return Err(e);
                },
            };
            self.skip();
            let ghost before = stmts_view(stmt_vec@);
            stmt_vec.push(got);
            assert(stmts_view(stmt_vec@) =~= before.push(got@));
        }
        Ok(stmt_vec)
    }
}

/// Every character of a run of digits is a digit.
proof fn lemma_run_digits(chars: Seq<char>, p: nat)
    requires
        p <= chars.len(),
    ensures
        forall|i: int|
            p <= i < run_end(chars, p, CharClass::Digit) ==> is_decimal_digit(#[trigger] chars[i]),
    decreases chars.len() - p,
{
    if p < chars.len() && in_class(CharClass::Digit, chars[p as int]) {
        lemma_run_digits(chars, p + 1);
    }
}

} // verus!
