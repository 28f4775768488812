//! Printing of surface terms and statements in their surface forms.
//! Position metadata is not printed.
use vstd::prelude::*;
use crate::common::text::{chars_of, decimal_digits, join_spec, push_str, string_from_chars};
use crate::corelang::printer::simple::operator_symbol;
use crate::metalang::syntax::{
    DefRecFun, DefRecFunView, ExportView, MetaExport, MetaShape, MetaStatement, MetaTerm,
    MetaTermView, StatementView, exports_view, funs_view, meta_view_seq, names_view,
};

verus! {

/// How a character stands inside a printed string.
pub open spec fn escape_char(c: char) -> Seq<char> {
    if c == '\\' {
        "\\\\"@
    } else if c == '\n' {
        "\\n"@
    } else if c == '\r' {
        "\\r"@
    } else if c == '\t' {
        "\\t"@
    } else if c == '"' {
        "\\\""@
    } else {
        seq![c]
    }
}

/// The characters of `s`, each as it stands inside a printed string.
pub open spec fn escape_spec(s: Seq<char>) -> Seq<char>
    decreases s.len(),
{
    if s.len() == 0 {
        Seq::empty()
    } else {
        escape_spec(s.drop_last()) + escape_char(s.last())
    }
}

/// The printed form of a string: escaped, in double quotation marks.
pub open spec fn quoted_spec(s: Seq<char>) -> Seq<char> {
    "\""@ + escape_spec(s) + "\""@
}

/// The printed form of each surface term of `ts`.
pub open spec fn meta_print_parts(ts: Seq<MetaTermView>) -> Seq<Seq<char>>
    decreases ts,
{
    Seq::new(
        ts.len(),
        |i: int|
            if 0 <= i < ts.len() {
                meta_print_spec(ts[i])
            } else {
                arbitrary()
            },
    )
}

/// The printed form of a surface term.
pub open spec fn meta_print_spec(t: MetaTermView) -> Seq<char>
    decreases t,
{
    match t.shape {
        MetaShape::Apply(op, args) => "("@ + meta_print_spec(*op) + " "@ + join_spec(
            meta_print_parts(args),
            " "@,
        ) + ")"@,
        MetaShape::Lambda(names, body) => "(lambda ("@ + join_spec(names, " "@) + ") "@
            + meta_print_spec(*body) + ")"@,
        MetaShape::Quote(q) => "(quote "@ + meta_print_spec(*q) + ")"@,
        MetaShape::Variable(name) => name,
        MetaShape::If(c, a, b) => "(if "@ + meta_print_spec(*c) + " "@ + meta_print_spec(*a) + " "@
            + meta_print_spec(*b) + ")"@,
        MetaShape::Cons(h, tl) => "(cons "@ + meta_print_spec(*h) + " "@ + meta_print_spec(*tl)
            + ")"@,
        MetaShape::Nil => "nil"@,
        MetaShape::Number(n) => decimal_digits(n),
        MetaShape::Bool(b) => if b {
            "true"@
        } else {
            "false"@
        },
        MetaShape::Atom(op) => operator_symbol(op),
        MetaShape::List(items) => "(list "@ + join_spec(meta_print_parts(items), " "@) + ")"@,
    }
}

/// The printed form of a function of a recursive group: its name, its
/// argument names in parentheses, its body.
pub open spec fn fun_print_spec(fun: DefRecFunView) -> Seq<char> {
    fun.name + " ("@ + join_spec(fun.args, " "@) + ") "@ + meta_print_spec(fun.body)
}

/// The printed form of an export item.
pub open spec fn export_print_spec(item: ExportView) -> Seq<char> {
    match item {
        ExportView::Var(v) => v,
        ExportView::Path(p) => quoted_spec(p),
    }
}

/// The printed form of a statement.
pub open spec fn stmt_print_spec(stmt: StatementView) -> Seq<char> {
    match stmt {
        StatementView::Def(_, name, t) => "(def "@ + name + " "@ + meta_print_spec(t) + ")"@,
        StatementView::DefRec(_, funs) => "(defrec "@ + join_spec(
            Seq::new(funs.len(), |i: int| fun_print_spec(funs[i])),
            " "@,
        ) + ")"@,
        StatementView::Term(_, t) => meta_print_spec(t),
        StatementView::Assert(_, t) => "(assert "@ + meta_print_spec(t) + ")"@,
        StatementView::Import(_, paths) => "(import "@ + join_spec(
            Seq::new(paths.len(), |i: int| quoted_spec(paths[i])),
            " "@,
        ) + ")"@,
        StatementView::Export(_, items) => "(export "@ + join_spec(
            Seq::new(items.len(), |i: int| export_print_spec(items[i])),
            " "@,
        ) + ")"@,
    }
}

fn print_string_into(s: &String, out: &mut Vec<char>)
    ensures
        final(out)@ == old(out)@ + quoted_spec(s@),
{
    let cs = chars_of(s.as_str());
    push_str(out, "\"");
    let mut i: usize = 0;
    assert(cs@.subrange(0, 0) =~= Seq::<char>::empty());
    assert(out@ =~= old(out)@ + "\""@ + escape_spec(cs@.subrange(0, 0)));
    while i < cs.len()
        invariant
            i <= cs.len(),
            out@ == old(out)@ + "\""@ + escape_spec(cs@.subrange(0, i as int)),
        decreases cs.len() - i,
    {
        let ghost upto = cs@.subrange(0, i + 1);
        proof {
            assert(upto.drop_last() =~= cs@.subrange(0, i as int));
            assert(upto.last() == cs@[i as int]);
        }
        let c = cs[i];
        if c == '\\' {
            push_str(out, "\\\\");
        } else if c == '\n' {
            push_str(out, "\\n");
        } else if c == '\r' {
            push_str(out, "\\r");
        } else if c == '\t' {
            push_str(out, "\\t");
        } else if c == '"' {
            push_str(out, "\\\"");
        } else {
            out.push(c);
        }
        assert(out@ =~= old(out)@ + "\""@ + escape_spec(upto));
        i += 1;
    }
    assert(cs@.subrange(0, cs.len() as int) =~= cs@);
    push_str(out, "\"");
    assert(out@ =~= old(out)@ + quoted_spec(s@));
}

/// The printed form of the string `s`: escaped, in double quotation marks.
pub fn print_string(s: &String) -> (r: String)
    ensures
        r@ == quoted_spec(s@),
{
    let mut out: Vec<char> = Vec::new();
    print_string_into(s, &mut out);
    assert(out@ =~= quoted_spec(s@));
    string_from_chars(&out)
}

/// A printer of surface terms and statements.
pub struct SimplePrinter {}

impl Default for SimplePrinter {
    fn default() -> Self {
        Self {  }
    }
}

impl SimplePrinter {
    fn print_term_vec(&self, vec: &Vec<MetaTerm>, out: &mut Vec<char>)
        ensures
            final(out)@ == old(out)@ + join_spec(meta_print_parts(meta_view_seq(vec@)), " "@),
        decreases vec, 0nat,
    {
        let ghost parts = meta_print_parts(meta_view_seq(vec@));
        let mut i: usize = 0;
        assert(parts.subrange(0, 0) =~= Seq::<Seq<char>>::empty());
        assert(out@ =~= old(out)@ + join_spec(parts.subrange(0, 0), " "@));
        while i < vec.len()
            invariant
                i <= vec.len(),
                parts == meta_print_parts(meta_view_seq(vec@)),
                out@ == old(out)@ + join_spec(parts.subrange(0, i as int), " "@),
            decreases vec.len() - i,
        {
            let ghost upto = parts.subrange(0, i + 1);
            proof {
                assert(upto.drop_last() =~= parts.subrange(0, i as int));
                assert(upto.last() == meta_print_spec(vec@[i as int]@));
            }
            if i > 0 {
                push_str(out, " ");
            }
            self.print_term_into(&vec[i], out);
            assert(out@ =~= old(out)@ + join_spec(upto, " "@));
            i += 1;
        }
        assert(parts.subrange(0, vec.len() as int) =~= parts);
    }

    fn print_arg_name_vec(&self, arg_name_vec: &Vec<String>, out: &mut Vec<char>)
        ensures
            final(out)@ == old(out)@ + join_spec(names_view(arg_name_vec@), " "@),
    {
        let ghost parts = names_view(arg_name_vec@);
        let mut i: usize = 0;
        assert(parts.subrange(0, 0) =~= Seq::<Seq<char>>::empty());
        assert(out@ =~= old(out)@ + join_spec(parts.subrange(0, 0), " "@));
        while i < arg_name_vec.len()
            invariant
                i <= arg_name_vec.len(),
                parts == names_view(arg_name_vec@),
                out@ == old(out)@ + join_spec(parts.subrange(0, i as int), " "@),
            decreases arg_name_vec.len() - i,
        {
            let ghost upto = parts.subrange(0, i + 1);
            proof {
                assert(upto.drop_last() =~= parts.subrange(0, i as int));
                assert(upto.last() == arg_name_vec@[i as int]@);
            }
            if i > 0 {
                push_str(out, " ");
            }
            push_str(out, arg_name_vec[i].as_str());
            assert(out@ =~= old(out)@ + join_spec(upto, " "@));
            i += 1;
        }
        assert(parts.subrange(0, arg_name_vec.len() as int) =~= parts);
    }

    fn print_term_into(&self, term: &MetaTerm, out: &mut Vec<char>)
        ensures
            final(out)@ == old(out)@ + meta_print_spec(term@),
        decreases term, 1nat,
    {
        match term {
            MetaTerm::Apply(_, t, ts) => {
                push_str(out, "(");
                self.print_term_into(t, out);
                push_str(out, " ");
                self.print_term_vec(ts, out);
                push_str(out, ")");
            },
            MetaTerm::Lambda(_, arg_name_vec, body) => {
                push_str(out, "(lambda (");
                self.print_arg_name_vec(arg_name_vec, out);
                push_str(out, ") ");
                self.print_term_into(body, out);
                push_str(out, ")");
            },
            MetaTerm::Quote(_, t) => {
                push_str(out, "(quote ");
                self.print_term_into(t, out);
                push_str(out, ")");
            },
            MetaTerm::Variable(_, name) => push_str(out, name.as_str()),
            MetaTerm::Eq(_) => push_str(out, "eq"),
            MetaTerm::If(_, t1, t2, t3) => {
                push_str(out, "(if ");
                self.print_term_into(t1, out);
                push_str(out, " ");
                self.print_term_into(t2, out);
                push_str(out, " ");
                self.print_term_into(t3, out);
                push_str(out, ")");
            },
            MetaTerm::Cons(_, t1, t2) => {
                push_str(out, "(cons ");
                self.print_term_into(t1, out);
                push_str(out, " ");
                self.print_term_into(t2, out);
                push_str(out, ")");
            },
            MetaTerm::Nil(_) => push_str(out, "nil"),
            MetaTerm::Number(_, n) => {
                let text = n.to_string();
                push_str(out, text.as_str());
            },
            MetaTerm::Bool(_, b) => {
                if *b {
                    push_str(out, "true");
                } else {
                    push_str(out, "false");
                }
            },
            MetaTerm::Eval(_) => push_str(out, "eval"),
            MetaTerm::Add(_) => push_str(out, "+"),
            MetaTerm::Sub(_) => push_str(out, "-"),
            MetaTerm::Mul(_) => push_str(out, "*"),
            MetaTerm::Div(_) => push_str(out, "/"),
            MetaTerm::Rem(_) => push_str(out, "%"),
            MetaTerm::Car(_) => push_str(out, "car"),
            MetaTerm::Cdr(_) => push_str(out, "cdr"),
            MetaTerm::List(_, list) => {
                push_str(out, "(list ");
                self.print_term_vec(list, out);
                push_str(out, ")");
            },
        }
        assert(out@ =~= old(out)@ + meta_print_spec(term@));
    }

    /// The printed form of a surface term.
    pub fn print_term(&self, term: &MetaTerm) -> (r: String)
        ensures
            r@ == meta_print_spec(term@),
    {
        let mut out: Vec<char> = Vec::new();
        self.print_term_into(term, &mut out);
        assert(out@ =~= meta_print_spec(term@));
        string_from_chars(&out)
    }

    fn print_defrec_fun_into(&self, fun: &DefRecFun, out: &mut Vec<char>)
        ensures
            final(out)@ == old(out)@ + fun_print_spec(fun@),
    {
        push_str(out, fun.name.as_str());
        push_str(out, " (");
        self.print_arg_name_vec(&fun.arg_name_vec, out);
        push_str(out, ") ");
        self.print_term_into(&fun.term, out);
        assert(out@ =~= old(out)@ + fun_print_spec(fun@));
    }

    /// The printed form of a function of a recursive group.
    pub fn print_defrec_fun(&self, fun: &DefRecFun) -> (r: String)
        ensures
            r@ == fun_print_spec(fun@),
    {
        let mut out: Vec<char> = Vec::new();
        self.print_defrec_fun_into(fun, &mut out);
        assert(out@ =~= fun_print_spec(fun@));
        string_from_chars(&out)
    }

    fn print_defrec_fun_vec_into(&self, fun_vec: &Vec<DefRecFun>, out: &mut Vec<char>)
        ensures
            final(out)@ == old(out)@ + join_spec(
                Seq::new(fun_vec@.len(), |i: int| fun_print_spec(funs_view(fun_vec@)[i])),
                " "@,
            ),
    {
        let ghost parts = Seq::new(fun_vec@.len(), |i: int| fun_print_spec(funs_view(fun_vec@)[i]));
        let mut i: usize = 0;
        assert(parts.subrange(0, 0) =~= Seq::<Seq<char>>::empty());
        assert(out@ =~= old(out)@ + join_spec(parts.subrange(0, 0), " "@));
        while i < fun_vec.len()
            invariant
                i <= fun_vec.len(),
                parts == Seq::new(fun_vec@.len(), |i: int| fun_print_spec(funs_view(fun_vec@)[i])),
                out@ == old(out)@ + join_spec(parts.subrange(0, i as int), " "@),
            decreases fun_vec.len() - i,
        {
            let ghost upto = parts.subrange(0, i + 1);
            proof {
                assert(upto.drop_last() =~= parts.subrange(0, i as int));
                assert(upto.last() == fun_print_spec(fun_vec@[i as int]@));
            }
            if i > 0 {
                push_str(out, " ");
            }
            self.print_defrec_fun_into(&fun_vec[i], out);
            assert(out@ =~= old(out)@ + join_spec(upto, " "@));
            i += 1;
        }
        assert(parts.subrange(0, fun_vec.len() as int) =~= parts);
    }

    /// The printed forms of the functions of a recursive group, with a
    /// space between neighbours.
    pub fn print_defrec_fun_vec(&self, fun_vec: &Vec<DefRecFun>) -> (r: String)
        ensures
            r@ == join_spec(
                Seq::new(fun_vec@.len(), |i: int| fun_print_spec(funs_view(fun_vec@)[i])),
                " "@,
            ),
    {
        let mut out: Vec<char> = Vec::new();
        self.print_defrec_fun_vec_into(fun_vec, &mut out);
        let ghost want = join_spec(
            Seq::new(fun_vec@.len(), |i: int| fun_print_spec(funs_view(fun_vec@)[i])),
            " "@,
        );
        assert(out@ =~= want);
        string_from_chars(&out)
    }

    fn print_import_vec_into(&self, import_vec: &Vec<String>, out: &mut Vec<char>)
        ensures
            final(out)@ == old(out)@ + join_spec(
                Seq::new(import_vec@.len(), |i: int| quoted_spec(names_view(import_vec@)[i])),
                " "@,
            ),
    {
        let ghost parts = Seq::new(
            import_vec@.len(),
            |i: int| quoted_spec(names_view(import_vec@)[i]),
        );
        let mut i: usize = 0;
        assert(parts.subrange(0, 0) =~= Seq::<Seq<char>>::empty());
        assert(out@ =~= old(out)@ + join_spec(parts.subrange(0, 0), " "@));
        while i < import_vec.len()
            invariant
                i <= import_vec.len(),
                parts == Seq::new(
                    import_vec@.len(),
                    |i: int| quoted_spec(names_view(import_vec@)[i]),
                ),
                out@ == old(out)@ + join_spec(parts.subrange(0, i as int), " "@),
            decreases import_vec.len() - i,
        {
            let ghost upto = parts.subrange(0, i + 1);
            proof {
                assert(upto.drop_last() =~= parts.subrange(0, i as int));
                assert(upto.last() == quoted_spec(import_vec@[i as int]@));
            }
            if i > 0 {
                push_str(out, " ");
            }
            print_string_into(&import_vec[i], out);
            assert(out@ =~= old(out)@ + join_spec(upto, " "@));
            i += 1;
        }
        assert(parts.subrange(0, import_vec.len() as int) =~= parts);
    }

    /// The printed forms of the paths of an import, with a space between
    /// neighbours.
    pub fn print_import_vec(&self, import_vec: &Vec<String>) -> (r: String)
        ensures
            r@ == join_spec(
                Seq::new(import_vec@.len(), |i: int| quoted_spec(names_view(import_vec@)[i])),
                " "@,
            ),
    {
        let mut out: Vec<char> = Vec::new();
        self.print_import_vec_into(import_vec, &mut out);
        let ghost want = join_spec(
            Seq::new(import_vec@.len(), |i: int| quoted_spec(names_view(import_vec@)[i])),
            " "@,
        );
        assert(out@ =~= want);
        string_from_chars(&out)
    }

    /// The printed form of the path of an import.
    pub fn print_import(&self, import: &String) -> (r: String)
        ensures
            r@ == quoted_spec(import@),
    {
        print_string(import)
    }

    fn print_export_into(&self, export: &MetaExport, out: &mut Vec<char>)
        ensures
            final(out)@ == old(out)@ + export_print_spec(export@),
    {
        match export {
            MetaExport::Var(v) => push_str(out, v.as_str()),
            MetaExport::Path(p) => print_string_into(p, out),
        }
    }

    fn print_export_vec_into(&self, export_vec: &Vec<MetaExport>, out: &mut Vec<char>)
        ensures
            final(out)@ == old(out)@ + join_spec(
                Seq::new(export_vec@.len(), |i: int| export_print_spec(exports_view(export_vec@)[i])),
                " "@,
            ),
    {
        let ghost parts = Seq::new(
            export_vec@.len(),
            |i: int| export_print_spec(exports_view(export_vec@)[i]),
        );
        let mut i: usize = 0;
        assert(parts.subrange(0, 0) =~= Seq::<Seq<char>>::empty());
        assert(out@ =~= old(out)@ + join_spec(parts.subrange(0, 0), " "@));
        while i < export_vec.len()
            invariant
                i <= export_vec.len(),
                parts == Seq::new(
                    export_vec@.len(),
                    |i: int| export_print_spec(exports_view(export_vec@)[i]),
                ),
                out@ == old(out)@ + join_spec(parts.subrange(0, i as int), " "@),
            decreases export_vec.len() - i,
        {
            let ghost upto = parts.subrange(0, i + 1);
            proof {
                assert(upto.drop_last() =~= parts.subrange(0, i as int));
                assert(upto.last() == export_print_spec(export_vec@[i as int]@));
            }
            if i > 0 {
                push_str(out, " ");
            }
            self.print_export_into(&export_vec[i], out);
            assert(out@ =~= old(out)@ + join_spec(upto, " "@));
            i += 1;
        }
        assert(parts.subrange(0, export_vec.len() as int) =~= parts);
    }

    /// The printed forms of the items of an export, with a space between
    /// neighbours.
    pub fn print_export_vec(&self, export_vec: &Vec<MetaExport>) -> (r: String)
        ensures
            r@ == join_spec(
                Seq::new(export_vec@.len(), |i: int| export_print_spec(exports_view(export_vec@)[i])),
                " "@,
            ),
    {
        let mut out: Vec<char> = Vec::new();
        self.print_export_vec_into(export_vec, &mut out);
        let ghost want = join_spec(
            Seq::new(export_vec@.len(), |i: int| export_print_spec(exports_view(export_vec@)[i])),
            " "@,
        );
        assert(out@ =~= want);
        string_from_chars(&out)
    }

    /// The printed form of an export item: a name as it is, a path as a
    /// string.
    pub fn print_export(&self, export: &MetaExport) -> (r: String)
        ensures
            r@ == export_print_spec(export@),
    {
        let mut out: Vec<char> = Vec::new();
        self.print_export_into(export, &mut out);
        assert(out@ =~= export_print_spec(export@));
        string_from_chars(&out)
    }

    /// The printed form of a statement.
    pub fn print_stmt(&self, term: &MetaStatement) -> (r: String)
        ensures
            r@ == stmt_print_spec(term@),
    {
        let mut out: Vec<char> = Vec::new();
        match term {
            MetaStatement::Def(_, name, def) => {
                push_str(&mut out, "(def ");
                push_str(&mut out, name.as_str());
                push_str(&mut out, " ");
                self.print_term_into(def, &mut out);
                push_str(&mut out, ")");
            },
            MetaStatement::DefRec(_, fun_vec) => {
                push_str(&mut out, "(defrec ");
                self.print_defrec_fun_vec_into(fun_vec, &mut out);
                push_str(&mut out, ")");
                assert(funs_view(fun_vec@).len() == fun_vec@.len());
            },
            MetaStatement::Term(_, term) => {
                self.print_term_into(term, &mut out);
            },
            MetaStatement::Assert(_, term) => {
                push_str(&mut out, "(assert ");
                self.print_term_into(term, &mut out);
                push_str(&mut out, ")");
            },
            MetaStatement::Import(_, import_vec) => {
                push_str(&mut out, "(import ");
                self.print_import_vec_into(import_vec, &mut out);
                push_str(&mut out, ")");
                assert(names_view(import_vec@).len() == import_vec@.len());
            },
            MetaStatement::Export(_, export_vec) => {
                push_str(&mut out, "(export ");
                self.print_export_vec_into(export_vec, &mut out);
                push_str(&mut out, ")");
                assert(exports_view(export_vec@).len() == export_vec@.len());
            },
        }
        assert(out@ =~= stmt_print_spec(term@));
        string_from_chars(&out)
    }
}

} // verus!
