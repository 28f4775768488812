//! The reducer of the core language: call-by-value, arguments from left to
//! right, `if` lazy in the branch not taken, `quote` opaque until `eval`.
use vstd::prelude::*;
use crate::common::fileinfo::{
    CompileError, ErrorView, FileInfo, clone_info, fault_at, first_info, info_or,
};
use crate::common::natural::Natural;
use crate::common::text::{decimal_digits, push_decimal, push_str};
use crate::corelang::syntax::{
    Operator, Shape, Term, TermView, checked_substitution, equiv_spec, equiv_term,
    substitutable, substitute_spec, view_seq,
};

verus! {

/// The nesting depth that `eval` allows a reduction: the largest that a
/// machine word counts.
pub const DEFAULT_DEPTH: usize = usize::MAX;

/// A number without position metadata.
pub open spec fn number_value(n: nat) -> TermView {
    TermView { info: None, shape: Shape::Number(n) }
}

/// A boolean without position metadata.
pub open spec fn bool_value(b: bool) -> TermView {
    TermView { info: None, shape: Shape::Bool(b) }
}

/// The message for a subtraction that did not get two numbers.
pub open spec fn sub_message(found: nat) -> Seq<char> {
    "subtraction operator only accepts 2 numbers: found "@ + decimal_digits(found) + " args"@
}

/// The message for a lambda applied to the wrong number of operands.
pub open spec fn arity_message(needs: nat, found: nat) -> Seq<char> {
    "the lambda function needs "@ + decimal_digits(needs) + " args but found "@ + decimal_digits(
        found,
    ) + " arg(s)"@
}

/// The values of `args`, reduced from left to right, or the first error.
pub open spec fn eval_args_spec(args: Seq<TermView>, fuel: nat) -> Result<Seq<TermView>, ErrorView>
    decreases fuel, args.len() + 1,
{
    if args.len() == 0 {
        Ok(Seq::empty())
    } else {
        match eval_args_spec(args.drop_last(), fuel) {
            Err(e) => Err(e),
            Ok(vs) => match eval_spec(args.last(), fuel) {
                Err(e) => Err(e),
                Ok(v) => Ok(vs.push(v)),
            },
        }
    }
}

/// The values of the two operands, the first reduced first, or the first
/// error.
pub open spec fn eval_pair_spec(args: Seq<TermView>, fuel: nat) -> Result<
    (TermView, TermView),
    ErrorView,
>
    recommends
        args.len() == 2,
    decreases fuel, 1nat,
{
    match eval_spec(args[0], fuel) {
        Err(e) => Err(e),
        Ok(a) => match eval_spec(args[1], fuel) {
            Err(e) => Err(e),
            Ok(b) => Ok((a, b)),
        },
    }
}

/// What the arithmetic operator `op` makes of the numbers `x` and `y`, both
/// operands reduced; `second` is the position of the second.
pub open spec fn arith_spec(
    op: Operator,
    x: nat,
    y: nat,
    second: Option<FileInfo>,
    at: Option<FileInfo>,
) -> Result<TermView, ErrorView> {
    match op {
        Operator::Add => Ok(number_value(x + y)),
        Operator::Sub => Ok(
            number_value(
                if x < y {
                    0
                } else {
                    (x - y) as nat
                },
            ),
        ),
        Operator::Mul => Ok(number_value(x * y)),
        Operator::Div => if y == 0 {
            Err(fault_at(info_or(second, at), "division operator got 0 for divisor."@))
        } else {
            Ok(number_value(x / y))
        },
        _ => if y == 0 {
            Err(fault_at(info_or(second, at), "remainder operator got 0 for divisor."@))
        } else {
            Ok(number_value(x % y))
        },
    }
}

/// The message for an arithmetic operator that did not get two numbers.
pub open spec fn operands_message(op: Operator, found: nat) -> Seq<char> {
    match op {
        Operator::Add => "addition operator only accepts 2 numbers."@,
        Operator::Sub => sub_message(found),
        Operator::Mul => "multiplication operator only accepts 2 numbers."@,
        Operator::Div => "division operator only accepts 2 numbers."@,
        _ => "remainder operator only accepts 2 numbers."@,
    }
}

/// The result of applying the reduced operator `f` to the operands `args`,
/// in an application at position `info`.
pub open spec fn apply_spec(info: Option<FileInfo>, f: TermView, args: Seq<TermView>, fuel: nat)
    -> Result<TermView, ErrorView>
    decreases fuel, args.len() + 2,
{
    let at = info_or(f.info, info);
    match f.shape {
        Shape::Atom(Operator::Eq) => if args.len() == 2 {
            match eval_pair_spec(args, fuel) {
                Err(e) => Err(e),
                Ok(p) => Ok(bool_value(equiv_spec(p.0, p.1))),
            }
        } else {
            Err(ErrorView { info: at, message: None })
        },
        Shape::Atom(Operator::Eval) => if args.len() == 1 {
            match eval_spec(args[0], fuel) {
                Err(e) => Err(e),
                Ok(q) => match q.shape {
                    Shape::Quote(inner) => eval_spec(*inner, fuel),
                    _ => Err(fault_at(at, "quote expected"@)),
                },
            }
        } else {
            Err(fault_at(at, "eval error"@))
        },
        Shape::Atom(Operator::Car) => if args.len() == 1 {
            match eval_spec(args[0], fuel) {
                Err(e) => Err(e),
                Ok(c) => match c.shape {
                    Shape::Cons(h, _) => Ok(*h),
                    _ => Err(fault_at(at, "car operator only 1 cons."@)),
                },
            }
        } else {
            Err(fault_at(at, "car operator only 1 cons."@))
        },
        Shape::Atom(Operator::Cdr) => if args.len() == 1 {
            match eval_spec(args[0], fuel) {
                Err(e) => Err(e),
                Ok(c) => match c.shape {
                    Shape::Cons(_, t) => Ok(*t),
                    _ => Err(fault_at(at, "cdr operator only 1 cons."@)),
                },
            }
        } else {
            Err(fault_at(at, "cdr operator only 1 cons."@))
        },
        Shape::Atom(op) => if args.len() == 2 {
            match eval_pair_spec(args, fuel) {
                Err(e) => Err(e),
                Ok(p) => match (p.0.shape, p.1.shape) {
                    (Shape::Number(x), Shape::Number(y)) => arith_spec(op, x, y, p.1.info, at),
                    _ => Err(fault_at(at, operands_message(op, args.len()))),
                },
            }
        } else {
            Err(fault_at(at, operands_message(op, args.len())))
        },
        Shape::Lambda(n, body) => if args.len() == n {
            match eval_args_spec(args, fuel) {
                Err(e) => Err(e),
                Ok(vs) => if substitutable(*body, 0, vs) {
                    eval_spec(substitute_spec(*body, 0, vs), fuel)
                } else {
                    Err(fault_at(at, "substitution failed"@))
                },
            }
        } else {
            Err(fault_at(at, arity_message(n, args.len())))
        },
        _ => Err(fault_at(info, "operator expected"@)),
    }
}

/// The value of `t`, or the error of its reduction, where no reduction nests
/// deeper than `fuel`. Everything but an application and an `if` is a value
/// and reduces to itself without its own position metadata.
pub open spec fn eval_spec(t: TermView, fuel: nat) -> Result<TermView, ErrorView>
    decreases fuel, 0nat,
{
    match t.shape {
        Shape::Apply(op, args) => if fuel == 0 {
            Err(fault_at(t.info, "evaluation nests too deep"@))
        } else {
            match eval_spec(*op, (fuel - 1) as nat) {
                Err(e) => Err(e),
                Ok(f) => apply_spec(t.info, f, args, (fuel - 1) as nat),
            }
        },
        Shape::If(c, a, b) => if fuel == 0 {
            Err(fault_at(t.info, "evaluation nests too deep"@))
        } else {
            match eval_spec(*c, (fuel - 1) as nat) {
                Err(e) => Err(e),
                Ok(v) => match v.shape {
                    Shape::Bool(true) => eval_spec(*a, (fuel - 1) as nat),
                    Shape::Bool(false) => eval_spec(*b, (fuel - 1) as nat),
                    _ => Err(fault_at(info_or(v.info, t.info), "expect bool for if condition"@)),
                },
            }
        },
        _ => Ok(TermView { info: None, shape: t.shape }),
    }
}

/// The executable result `r` is the modelled result `want`.
pub open spec fn agrees(r: Result<Term, CompileError>, want: Result<TermView, ErrorView>) -> bool {
    match r {
        Ok(v) => want == Ok::<TermView, ErrorView>(v@),
        Err(e) => want == Err::<TermView, ErrorView>(e@),
    }
}


fn eval_args(args: &Vec<Term>, fuel: usize) -> (r: Result<Vec<Term>, CompileError>)
    ensures
        match r {
            Ok(vs) => eval_args_spec(view_seq(args@), fuel as nat) == Ok::<
                Seq<TermView>,
                ErrorView,
            >(view_seq(vs@)),
            Err(e) => eval_args_spec(view_seq(args@), fuel as nat) == Err::<
                Seq<TermView>,
                ErrorView,
            >(e@),
        },
    decreases fuel, 1nat,
{
    let ghost all = view_seq(args@);
    let mut out: Vec<Term> = Vec::new();
    let mut i: usize = 0;
    assert(all.subrange(0, 0) =~= Seq::<TermView>::empty());
    assert(view_seq(out@) =~= Seq::<TermView>::empty());
    while i < args.len()
        invariant
            i <= args.len(),
            all == view_seq(args@),
            eval_args_spec(all.subrange(0, i as int), fuel as nat) == Ok::<
                Seq<TermView>,
                ErrorView,
            >(view_seq(out@)),
        decreases args.len() - i,
    {
        let ghost before = all.subrange(0, i as int);
        let ghost upto = all.subrange(0, i + 1);
        proof {
            assert(upto.drop_last() =~= before);
            assert(upto.last() == args@[i as int]@);
        }
        match eval_bounded(&args[i], fuel) {
            Ok(v) => {
                let ghost old_out = view_seq(out@);
                out.push(v);
                assert(view_seq(out@) =~= old_out.push(v@));
            },
            Err(e) => {
                proof {
                    lemma_args_error(all, i as int, fuel as nat);
                }
                return Err(e);
            },
        }
        i += 1;
    }
    assert(all.subrange(0, args.len() as int) =~= all);
    Ok(out)
}

/// Once the operands up to position `i` reduce to an error, so do all of
/// them: later operands are not looked at.
proof fn lemma_args_error(all: Seq<TermView>, i: int, fuel: nat)
    requires
        0 <= i < all.len(),
        eval_args_spec(all.subrange(0, i + 1), fuel) is Err,
    ensures
        eval_args_spec(all, fuel) == eval_args_spec(all.subrange(0, i + 1), fuel),
    decreases all.len(),
{
    if i + 1 == all.len() {
        assert(all.subrange(0, i + 1) =~= all);
    } else {
        assert(all.drop_last().subrange(0, i + 1) =~= all.subrange(0, i + 1));
        lemma_args_error(all.drop_last(), i, fuel);
    }
}

fn eval_pair(args: &Vec<Term>, fuel: usize) -> (r: Result<(Term, Term), CompileError>)
    requires
        args@.len() == 2,
    ensures
        match r {
            Ok(p) => eval_pair_spec(view_seq(args@), fuel as nat) == Ok::<
                (TermView, TermView),
                ErrorView,
            >((p.0@, p.1@)),
            Err(e) => eval_pair_spec(view_seq(args@), fuel as nat) == Err::<
                (TermView, TermView),
                ErrorView,
            >(e@),
        },
    decreases fuel, 1nat,
{
    let a = match eval_bounded(&args[0], fuel) {
        Ok(a) => a,
        Err(e) => {
            return Err(e);
        },
    };
    let b = match eval_bounded(&args[1], fuel) {
        Ok(b) => b,
        Err(e) => {
            return Err(e);
        },
    };
    Ok((a, b))
}

fn operands_fault(op: &Operator, at: Option<FileInfo>, found: usize) -> (r: CompileError)
    ensures
        r@ == fault_at(at, operands_message(*op, found as nat)),
{
    match op {
        Operator::Add => CompileError::at(at, "addition operator only accepts 2 numbers."),
        Operator::Sub => {
            let mut text: Vec<char> = Vec::new();
            push_str(&mut text, "subtraction operator only accepts 2 numbers: found ");
            push_decimal(&mut text, found);
            push_str(&mut text, " args");
            assert(text@ =~= sub_message(found as nat));
            CompileError::with_chars(at, &text)
        },
        Operator::Mul => CompileError::at(at, "multiplication operator only accepts 2 numbers."),
        Operator::Div => CompileError::at(at, "division operator only accepts 2 numbers."),
        _ => CompileError::at(at, "remainder operator only accepts 2 numbers."),
    }
}

fn arith(op: &Operator, x: &Natural, y: &Natural, second: Option<FileInfo>, at: Option<FileInfo>) -> (r:
    Result<Term, CompileError>)
    ensures
        agrees(r, arith_spec(*op, x@, y@, second, at)),
{
    match op {
        Operator::Add => Ok(Term::Number(None, x.plus(y))),
        Operator::Sub => Ok(Term::Number(None, x.minus_saturating(y))),
        Operator::Mul => Ok(Term::Number(None, x.times(y))),
        Operator::Div => match x.quotient(y) {
            Some(q) => Ok(Term::Number(None, q)),
            None => Err(
                CompileError::at(first_info(second, &at), "division operator got 0 for divisor."),
            ),
        },
        _ => match x.remainder(y) {
            Some(q) => Ok(Term::Number(None, q)),
            None => Err(
                CompileError::at(first_info(second, &at), "remainder operator got 0 for divisor."),
            ),
        },
    }
}

fn apply_arith(
    op: Operator,
    own: Option<FileInfo>,
    info: &Option<FileInfo>,
    args: &Vec<Term>,
    fuel: usize,
) -> (r: Result<Term, CompileError>)
    requires
        op is Add || op is Sub || op is Mul || op is Div || op is Rem,
    ensures
        agrees(
            r,
            apply_spec(
                *info,
                TermView { info: own, shape: Shape::Atom(op) },
                view_seq(args@),
                fuel as nat,
            ),
        ),
    decreases fuel, 2nat,
{
    let at = first_info(own, info);
    if args.len() == 2 {
        let (a, b) = match eval_pair(args, fuel) {
            Ok(p) => p,
            Err(e) => {
                return Err(e);
            },
        };
        match a {
            Term::Number(_, x) => match b {
                Term::Number(second, y) => arith(&op, &x, &y, second, at),
                _ => Err(operands_fault(&op, at, args.len())),
            },
            _ => Err(operands_fault(&op, at, args.len())),
        }
    } else {
        Err(operands_fault(&op, at, args.len()))
    }
}

fn apply(info: &Option<FileInfo>, f: Term, args: &Vec<Term>, fuel: usize) -> (r: Result<
    Term,
    CompileError,
>)
    ensures
        agrees(r, apply_spec(*info, f@, view_seq(args@), fuel as nat)),
    decreases fuel, 3nat,
{
    match f {
        Term::Eq(own) => {
            if args.len() == 2 {
                let (a, b) = match eval_pair(args, fuel) {
                    Ok(p) => p,
                    Err(e) => {
                        return Err(e);
                    },
                };
                Ok(Term::Bool(None, equiv_term(&a, &b)))
            } else {
                Err(CompileError { info: first_info(own, info), message: None })
            }
        },
        Term::Eval(own) => {
            let at = first_info(own, info);
            if args.len() == 1 {
                match eval_bounded(&args[0], fuel) {
                    Err(e) => Err(e),
                    Ok(q) => match q {
                        Term::Quote(_, inner) => eval_bounded(&inner, fuel),
                        _ => Err(CompileError::at(at, "quote expected")),
                    },
                }
            } else {
                Err(CompileError::at(at, "eval error"))
            }
        },
        Term::Car(own) => {
            let at = first_info(own, info);
            if args.len() == 1 {
                match eval_bounded(&args[0], fuel) {
                    Err(e) => Err(e),
                    Ok(c) => match c {
                        Term::Cons(_, h, _) => Ok(*h),
                        _ => Err(CompileError::at(at, "car operator only 1 cons.")),
                    },
                }
            } else {
                Err(CompileError::at(at, "car operator only 1 cons."))
            }
        },
        Term::Cdr(own) => {
            let at = first_info(own, info);
            if args.len() == 1 {
                match eval_bounded(&args[0], fuel) {
                    Err(e) => Err(e),
                    Ok(c) => match c {
                        Term::Cons(_, _, t) => Ok(*t),
                        _ => Err(CompileError::at(at, "cdr operator only 1 cons.")),
                    },
                }
            } else {
                Err(CompileError::at(at, "cdr operator only 1 cons."))
            }
        },
        Term::Add(own) => apply_arith(Operator::Add, own, info, args, fuel),
        Term::Sub(own) => apply_arith(Operator::Sub, own, info, args, fuel),
        Term::Mul(own) => apply_arith(Operator::Mul, own, info, args, fuel),
        Term::Div(own) => apply_arith(Operator::Div, own, info, args, fuel),
        Term::Rem(own) => apply_arith(Operator::Rem, own, info, args, fuel),
        Term::Lambda(own, n, body) => {
            let at = first_info(own, info);
            if args.len() == n {
                let values = match eval_args(args, fuel) {
                    Ok(vs) => vs,
                    Err(e) => {
                        return Err(e);
                    },
                };
                match checked_substitution(&body, 0, &values) {
                    Some(t) => eval_bounded(&t, fuel),
                    None => Err(CompileError::at(at, "substitution failed")),
                }
            } else {
                let mut text: Vec<char> = Vec::new();
                push_str(&mut text, "the lambda function needs ");
                push_decimal(&mut text, n);
                push_str(&mut text, " args but found ");
                push_decimal(&mut text, args.len());
                push_str(&mut text, " arg(s)");
                assert(text@ =~= arity_message(n as nat, args@.len()));
                Err(CompileError::with_chars(at, &text))
            }
        },
        _ => Err(CompileError::at(clone_info(info), "operator expected")),
    }
}

/// Reduces `term`, letting reductions nest at most `fuel` deep.
pub fn eval_bounded(term: &Term, fuel: usize) -> (r: Result<Term, CompileError>)
    ensures
        agrees(r, eval_spec(term@, fuel as nat)),
    decreases fuel, 0nat,
{
    match term {
        Term::Apply(info, op, args) => {
            if fuel == 0 {
                return Err(CompileError::at(clone_info(info), "evaluation nests too deep"));
            }
            match eval_bounded(op, fuel - 1) {
                Err(e) => Err(e),
                Ok(f) => apply(info, f, args, fuel - 1),
            }
        },
        Term::If(info, c, a, b) => {
            if fuel == 0 {
                return Err(CompileError::at(clone_info(info), "evaluation nests too deep"));
            }
            match eval_bounded(c, fuel - 1) {
                Err(e) => Err(e),
                Ok(v) => match v {
                    Term::Bool(_, true) => eval_bounded(a, fuel - 1),
                    Term::Bool(_, false) => eval_bounded(b, fuel - 1),
                    other => {
                        let at = first_info(clone_info(other.file_info()), info);
                        Err(CompileError::at(at, "expect bool for if condition"))
                    },
                },
            }
        },
        _ => Ok(term.clone().with_info(None)),
    }
}

/// Reduces `term` to a value, or fails with the error of the reduction.
pub fn eval(term: &Term) -> (r: Result<Term, CompileError>)
    ensures
        agrees(r, eval_spec(term@, DEFAULT_DEPTH as nat)),
{
    eval_bounded(term, DEFAULT_DEPTH)
}


/// `t` is a value that carries no position metadata of its own: it reduces
/// to itself.
pub open spec fn is_plain_value(t: TermView) -> bool {
    t.info is None && !(t.shape is Apply) && !(t.shape is If)
}

/// A sequence of plain values reduces to itself.
pub proof fn plain_values_reduce_to_themselves(vs: Seq<TermView>, fuel: nat)
    requires
        forall|i: int| 0 <= i < vs.len() ==> is_plain_value(#[trigger] vs[i]),
    ensures
        eval_args_spec(vs, fuel) == Ok::<Seq<TermView>, ErrorView>(vs),
    decreases vs.len(),
{
    if vs.len() > 0 {
        plain_values_reduce_to_themselves(vs.drop_last(), fuel);
        assert(is_plain_value(vs.last()));
        assert(eval_spec(vs.last(), fuel) == Ok::<TermView, ErrorView>(vs.last()));
        assert(vs.drop_last().push(vs.last()) =~= vs);
    } else {
        assert(vs =~= Seq::<TermView>::empty());
    }
}

/// Applying a lambda of `n` arguments to `n` plain values is reducing its
/// body with the values substituted at level zero, wherever that
/// substitution can be carried out.
pub proof fn apply_lambda_substitutes(
    info: Option<FileInfo>,
    own: Option<FileInfo>,
    n: nat,
    body: TermView,
    vs: Seq<TermView>,
    fuel: nat,
)
    requires
        vs.len() == n,
        forall|i: int| 0 <= i < vs.len() ==> is_plain_value(#[trigger] vs[i]),
        substitutable(body, 0, vs),
    ensures
        eval_spec(
            TermView {
                info,
                shape: Shape::Apply(
                    Box::new(TermView { info: own, shape: Shape::Lambda(n, Box::new(body)) }),
                    vs,
                ),
            },
            fuel + 1,
        ) == eval_spec(substitute_spec(body, 0, vs), fuel),
{
    plain_values_reduce_to_themselves(vs, fuel);
    let lam = TermView { info: own, shape: Shape::Lambda(n, Box::new(body)) };
    let whole = TermView { info, shape: Shape::Apply(Box::new(lam), vs) };
    assert(eval_spec(lam, fuel) == Ok::<TermView, ErrorView>(
        TermView { info: None, shape: lam.shape },
    ));
    assert(eval_spec(whole, fuel + 1) == apply_spec(
        info,
        TermView { info: None, shape: lam.shape },
        vs,
        fuel,
    ));
}

/// `eval` applied to a quoted term reduces the term itself.
pub proof fn eval_of_quote(
    info: Option<FileInfo>,
    own: Option<FileInfo>,
    quote_info: Option<FileInfo>,
    t: TermView,
    fuel: nat,
)
    ensures
        eval_spec(
            TermView {
                info,
                shape: Shape::Apply(
                    Box::new(TermView { info: own, shape: Shape::Atom(Operator::Eval) }),
                    seq![TermView { info: quote_info, shape: Shape::Quote(Box::new(t)) }],
                ),
            },
            fuel + 1,
        ) == eval_spec(t, fuel),
{
    let op = TermView { info: own, shape: Shape::Atom(Operator::Eval) };
    let quoted = TermView { info: quote_info, shape: Shape::Quote(Box::new(t)) };
    let whole = TermView { info, shape: Shape::Apply(Box::new(op), seq![quoted]) };
    assert(eval_spec(op, fuel) == Ok::<TermView, ErrorView>(
        TermView { info: None, shape: op.shape },
    ));
    assert(eval_spec(quoted, fuel) == Ok::<TermView, ErrorView>(
        TermView { info: None, shape: quoted.shape },
    ));
    assert(eval_spec(whole, fuel + 1) == apply_spec(
        info,
        TermView { info: None, shape: op.shape },
        seq![quoted],
        fuel,
    ));
}

/// Subtraction saturates: the difference of two numbers is never below
/// zero.
pub proof fn sub_saturates(
    info: Option<FileInfo>,
    own: Option<FileInfo>,
    a_info: Option<FileInfo>,
    a: nat,
    b_info: Option<FileInfo>,
    b: nat,
    fuel: nat,
)
    ensures
        eval_spec(
            TermView {
                info,
                shape: Shape::Apply(
                    Box::new(TermView { info: own, shape: Shape::Atom(Operator::Sub) }),
                    seq![
                        TermView { info: a_info, shape: Shape::Number(a) },
                        TermView { info: b_info, shape: Shape::Number(b) },
                    ],
                ),
            },
            fuel + 1,
        ) == Ok::<TermView, ErrorView>(
            number_value(
                if a - b > 0 {
                    (a - b) as nat
                } else {
                    0
                },
            ),
        ),
{
    let op = TermView { info: own, shape: Shape::Atom(Operator::Sub) };
    let x = TermView { info: a_info, shape: Shape::Number(a) };
    let y = TermView { info: b_info, shape: Shape::Number(b) };
    let whole = TermView { info, shape: Shape::Apply(Box::new(op), seq![x, y]) };
    assert(eval_spec(op, fuel) == Ok::<TermView, ErrorView>(
        TermView { info: None, shape: op.shape },
    ));
    assert(eval_spec(x, fuel) == Ok::<TermView, ErrorView>(number_value(a)));
    assert(eval_spec(y, fuel) == Ok::<TermView, ErrorView>(number_value(b)));
    assert(eval_pair_spec(seq![x, y], fuel) == Ok::<(TermView, TermView), ErrorView>(
        (number_value(a), number_value(b)),
    ));
    assert(eval_spec(whole, fuel + 1) == apply_spec(
        info,
        TermView { info: None, shape: op.shape },
        seq![x, y],
        fuel,
    ));
}

} // verus!
