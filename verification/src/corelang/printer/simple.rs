//! Printing of core terms as S-expressions. Position metadata is not
//! printed.
use vstd::prelude::*;
use crate::common::text::{decimal_digits, join_spec, push_decimal, push_str, string_from_chars};
use crate::corelang::syntax::{Operator, Shape, Term, TermView, view_seq};

verus! {

/// The symbol of a primitive operator.
pub open spec fn operator_symbol(op: Operator) -> Seq<char> {
    match op {
        Operator::Eq => "eq"@,
        Operator::Eval => "eval"@,
        Operator::Add => "+"@,
        Operator::Sub => "-"@,
        Operator::Mul => "*"@,
        Operator::Div => "/"@,
        Operator::Rem => "%"@,
        Operator::Car => "car"@,
        Operator::Cdr => "cdr"@,
    }
}

/// The printed form of each term of `ts`.
pub open spec fn print_parts(ts: Seq<TermView>) -> Seq<Seq<char>>
    decreases ts,
{
    Seq::new(
        ts.len(),
        |i: int|
            if 0 <= i < ts.len() {
                print_spec(ts[i])
            } else {
                arbitrary()
            },
    )
}

/// The printed form of a core term.
pub open spec fn print_spec(t: TermView) -> Seq<char>
    decreases t,
{
    match t.shape {
        Shape::Apply(op, args) => "("@ + print_spec(*op) + " "@ + join_spec(
            print_parts(args),
            " "@,
        ) + ")"@,
        Shape::Lambda(n, body) => "(lambda<"@ + decimal_digits(n) + "-ary> "@ + print_spec(*body)
            + ")"@,
        Shape::Quote(q) => "(quote "@ + print_spec(*q) + ")"@,
        Shape::Variable(v, a) => "ARG<"@ + decimal_digits(v) + "-up "@ + decimal_digits(a)
            + "-th>"@,
        Shape::If(c, a, b) => "(if "@ + print_spec(*c) + " "@ + print_spec(*a) + " "@ + print_spec(
            *b,
        ) + ")"@,
        Shape::Cons(h, tl) => "(cons "@ + print_spec(*h) + " "@ + print_spec(*tl) + ")"@,
        Shape::Nil => "nil"@,
        Shape::Number(n) => decimal_digits(n),
        Shape::Bool(b) => if b {
            "true"@
        } else {
            "false"@
        },
        Shape::Atom(op) => operator_symbol(op),
    }
}

/// A printer of core terms.
pub struct SimplePrinter {}

impl Default for SimplePrinter {
    fn default() -> Self {
        Self {  }
    }
}

impl SimplePrinter {
    fn print_vec(&self, vec: &Vec<Term>, out: &mut Vec<char>)
        ensures
            final(out)@ == old(out)@ + join_spec(print_parts(view_seq(vec@)), " "@),
        decreases vec, 0nat,
    {
        let ghost parts = print_parts(view_seq(vec@));
        let mut i: usize = 0;
        assert(parts.subrange(0, 0) =~= Seq::<Seq<char>>::empty());
        assert(out@ =~= old(out)@ + join_spec(parts.subrange(0, 0), " "@));
        while i < vec.len()
            invariant
                i <= vec.len(),
                parts == print_parts(view_seq(vec@)),
                out@ == old(out)@ + join_spec(parts.subrange(0, i as int), " "@),
            decreases vec.len() - i,
        {
            let ghost upto = parts.subrange(0, i + 1);
            proof {
                assert(upto.drop_last() =~= parts.subrange(0, i as int));
                assert(upto.last() == print_spec(vec@[i as int]@));
            }
            if i > 0 {
                push_str(out, " ");
            }
            self.print_into(&vec[i], out);
            assert(out@ =~= old(out)@ + join_spec(upto, " "@));
            i += 1;
        }
        assert(parts.subrange(0, vec.len() as int) =~= parts);
    }

    fn print_into(&self, term: &Term, out: &mut Vec<char>)
        ensures
            final(out)@ == old(out)@ + print_spec(term@),
        decreases term, 1nat,
    {
        match term {
            Term::Apply(_, t, ts) => {
                push_str(out, "(");
                self.print_into(t, out);
                push_str(out, " ");
                self.print_vec(ts, out);
                push_str(out, ")");
            },
            Term::Lambda(_, a, body) => {
                push_str(out, "(lambda<");
                push_decimal(out, *a);
                push_str(out, "-ary> ");
                self.print_into(body, out);
                push_str(out, ")");
            },
            Term::Quote(_, t) => {
                push_str(out, "(quote ");
                self.print_into(t, out);
                push_str(out, ")");
            },
            Term::Variable(_, v, a) => {
                push_str(out, "ARG<");
                push_decimal(out, *v);
                push_str(out, "-up ");
                push_decimal(out, *a);
                push_str(out, "-th>");
            },
            Term::Eq(_) => push_str(out, "eq"),
            Term::If(_, t1, t2, t3) => {
                push_str(out, "(if ");
                self.print_into(t1, out);
                push_str(out, " ");
                self.print_into(t2, out);
                push_str(out, " ");
                self.print_into(t3, out);
                push_str(out, ")");
            },
            Term::Cons(_, t1, t2) => {
                push_str(out, "(cons ");
                self.print_into(t1, out);
                push_str(out, " ");
                self.print_into(t2, out);
                push_str(out, ")");
            },
            Term::Nil(_) => push_str(out, "nil"),
            Term::Number(_, n) => {
                let text = n.to_string();
                push_str(out, text.as_str());
            },
            Term::Bool(_, b) => {
                if *b {
                    push_str(out, "true");
                } else {
                    push_str(out, "false");
                }
            },
            Term::Eval(_) => push_str(out, "eval"),
            Term::Add(_) => push_str(out, "+"),
            Term::Sub(_) => push_str(out, "-"),
            Term::Mul(_) => push_str(out, "*"),
            Term::Div(_) => push_str(out, "/"),
            Term::Rem(_) => push_str(out, "%"),
            Term::Car(_) => push_str(out, "car"),
            Term::Cdr(_) => push_str(out, "cdr"),
        }
        assert(out@ =~= old(out)@ + print_spec(term@));
    }

    /// The printed form of `term`.
    pub fn print(&self, term: &Term) -> (r: String)
        ensures
            r@ == print_spec(term@),
    {
        let mut out: Vec<char> = Vec::new();
        self.print_into(term, &mut out);
        assert(out@ =~= print_spec(term@));
        string_from_chars(&out)
    }
}

} // verus!
