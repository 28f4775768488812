//! The depth allowed to a reduction matters only where it runs out: a
//! reduction that ends within some depth ends alike within every larger
//! one.
use vstd::prelude::*;
use crate::common::fileinfo::{ErrorView, FileInfo};
use crate::corelang::eval::{
    apply_spec, eval_args_spec, eval_of_quote, eval_pair_spec, eval_spec, number_value,
};
use crate::corelang::metadata::{apply_lambda_substitutes_values, is_value, same_outcome};
use crate::corelang::syntax::{Operator, Shape, TermView, substitutable, substitute_spec};

verus! {

/// The error `e` says that a reduction ran out of depth.
pub open spec fn depth_error(e: ErrorView) -> bool {
    e.message == Some("evaluation nests too deep"@)
}

/// The reduction with the outcome `r` ran out of depth.
pub open spec fn out_of_depth(r: Result<TermView, ErrorView>) -> bool {
    r is Err && depth_error(r->Err_0)
}

/// A term that reduces within depth `f` without running out of it reduces
/// to the same outcome within every depth `g` from `f` on.
pub proof fn deeper_reduces_alike(t: TermView, f: nat, g: nat)
    requires
        f <= g,
        !out_of_depth(eval_spec(t, f)),
    ensures
        eval_spec(t, g) == eval_spec(t, f),
    decreases f, 0nat, 0nat,
{
    match t.shape {
        Shape::Apply(op, xs) => {
            assert(f > 0);
            let f1 = (f - 1) as nat;
            let g1 = (g - 1) as nat;
            deeper_reduces_alike(*op, f1, g1);
            if eval_spec(*op, f1) is Ok {
                deeper_applies_alike(t.info, eval_spec(*op, f1)->Ok_0, xs, f1, g1);
            }
        },
        Shape::If(c, a, b) => {
            assert(f > 0);
            let f1 = (f - 1) as nat;
            let g1 = (g - 1) as nat;
            deeper_reduces_alike(*c, f1, g1);
            if eval_spec(*c, f1) is Ok {
                match eval_spec(*c, f1)->Ok_0.shape {
                    Shape::Bool(true) => {
                        deeper_reduces_alike(*a, f1, g1);
                    },
                    Shape::Bool(false) => {
                        deeper_reduces_alike(*b, f1, g1);
                    },
                    _ => {},
                }
            }
        },
        _ => {},
    }
}

/// The same, for the operands of an application.
pub proof fn deeper_operands_alike(xs: Seq<TermView>, f: nat, g: nat)
    requires
        f <= g,
        !(eval_args_spec(xs, f) is Err && depth_error(eval_args_spec(xs, f)->Err_0)),
    ensures
        eval_args_spec(xs, g) == eval_args_spec(xs, f),
    decreases f, 1nat, xs.len(),
{
    if xs.len() > 0 {
        deeper_operands_alike(xs.drop_last(), f, g);
        if eval_args_spec(xs.drop_last(), f) is Ok {
            deeper_reduces_alike(xs.last(), f, g);
        }
    }
}

/// The same, for two operands.
pub proof fn deeper_pair_alike(xs: Seq<TermView>, f: nat, g: nat)
    requires
        f <= g,
        xs.len() == 2,
        !(eval_pair_spec(xs, f) is Err && depth_error(eval_pair_spec(xs, f)->Err_0)),
    ensures
        eval_pair_spec(xs, g) == eval_pair_spec(xs, f),
    decreases f, 1nat, 0nat,
{
    deeper_reduces_alike(xs[0], f, g);
    if eval_spec(xs[0], f) is Ok {
        deeper_reduces_alike(xs[1], f, g);
    }
}

/// The same, for the application of a reduced operator.
pub proof fn deeper_applies_alike(
    info: Option<FileInfo>,
    op: TermView,
    xs: Seq<TermView>,
    f: nat,
    g: nat,
)
    requires
        f <= g,
        !out_of_depth(apply_spec(info, op, xs, f)),
    ensures
        apply_spec(info, op, xs, g) == apply_spec(info, op, xs, f),
    decreases f, 2nat, 0nat,
{
    match op.shape {
        Shape::Atom(o) => {
            if xs.len() == 2 && !(o is Eval) && !(o is Car) && !(o is Cdr) {
                deeper_pair_alike(xs, f, g);
            }
            if xs.len() == 1 && (o is Eval || o is Car || o is Cdr) {
                deeper_reduces_alike(xs[0], f, g);
                if o is Eval && eval_spec(xs[0], f) is Ok {
                    match eval_spec(xs[0], f)->Ok_0.shape {
                        Shape::Quote(inner) => {
                            deeper_reduces_alike(*inner, f, g);
                        },
                        _ => {},
                    }
                }
            }
        },
        Shape::Lambda(n, body) => {
            if xs.len() == n {
                deeper_operands_alike(xs, f, g);
                if eval_args_spec(xs, f) is Ok {
                    let vs = eval_args_spec(xs, f)->Ok_0;
                    if substitutable(*body, 0, vs) {
                        deeper_reduces_alike(substitute_spec(*body, 0, vs), f, g);
                    }
                }
            }
        },
        _ => {},
    }
}

/// `eval` applied to a quoted term reduces as the term itself does at the
/// same depth, where the term does not run out of the depth below.
pub proof fn eval_of_quote_at_depth(
    info: Option<FileInfo>,
    own: Option<FileInfo>,
    quote_info: Option<FileInfo>,
    t: TermView,
    depth: nat,
)
    requires
        depth > 0,
        !out_of_depth(eval_spec(t, (depth - 1) as nat)),
    ensures
        eval_spec(
            TermView {
                info,
                shape: Shape::Apply(
                    Box::new(TermView { info: own, shape: Shape::Atom(Operator::Eval) }),
                    seq![TermView { info: quote_info, shape: Shape::Quote(Box::new(t)) }],
                ),
            },
            depth,
        ) == eval_spec(t, depth),
{
    eval_of_quote(info, own, quote_info, t, (depth - 1) as nat);
    deeper_reduces_alike(t, (depth - 1) as nat, depth);
}

/// Applying a lambda to values has, at the same depth and metadata aside,
/// the outcome of its body with the values substituted, where that
/// substitution can be carried out and the body so substituted does not run
/// out of the depth below.
pub proof fn apply_lambda_substitutes_at_depth(
    info: Option<FileInfo>,
    own: Option<FileInfo>,
    n: nat,
    body: TermView,
    vs: Seq<TermView>,
    depth: nat,
)
    requires
        vs.len() == n,
        forall|i: int| 0 <= i < vs.len() ==> is_value(#[trigger] vs[i]),
        substitutable(body, 0, vs),
        depth > 0,
        !out_of_depth(eval_spec(substitute_spec(body, 0, vs), (depth - 1) as nat)),
    ensures
        same_outcome(
            eval_spec(
                TermView {
                    info,
                    shape: Shape::Apply(
                        Box::new(TermView { info: own, shape: Shape::Lambda(n, Box::new(body)) }),
                        vs,
                    ),
                },
                depth,
            ),
            eval_spec(substitute_spec(body, 0, vs), depth),
        ),
{
    apply_lambda_substitutes_values(info, own, n, body, vs, (depth - 1) as nat);
    deeper_reduces_alike(substitute_spec(body, 0, vs), (depth - 1) as nat, depth);
}

/// The difference of two operands that reduce to the numbers `a` and `b`
/// within depth `f` is `a - b`, or zero where `b` is the larger, at every
/// depth above `f`.
pub proof fn sub_of_operands_saturates(
    info: Option<FileInfo>,
    own: Option<FileInfo>,
    x: TermView,
    y: TermView,
    a: nat,
    b: nat,
    f: nat,
    depth: nat,
)
    requires
        eval_spec(x, f) is Ok,
        eval_spec(x, f)->Ok_0.shape == Shape::Number(a),
        eval_spec(y, f) is Ok,
        eval_spec(y, f)->Ok_0.shape == Shape::Number(b),
        depth > f,
    ensures
        eval_spec(
            TermView {
                info,
                shape: Shape::Apply(
                    Box::new(TermView { info: own, shape: Shape::Atom(Operator::Sub) }),
                    seq![x, y],
                ),
            },
            depth,
        ) == Ok::<TermView, ErrorView>(
            number_value(
                if a - b > 0 {
                    (a - b) as nat
                } else {
                    0
                },
            ),
        ),
{
    let d1 = (depth - 1) as nat;
    deeper_reduces_alike(x, f, d1);
    deeper_reduces_alike(y, f, d1);
    let op = TermView { info: own, shape: Shape::Atom(Operator::Sub) };
    let whole = TermView { info, shape: Shape::Apply(Box::new(op), seq![x, y]) };
    assert(eval_spec(op, d1) == Ok::<TermView, ErrorView>(
        TermView { info: None, shape: op.shape },
    ));
    assert(seq![x, y][0] == x && seq![x, y][1] == y);
    assert(eval_pair_spec(seq![x, y], d1) == Ok::<(TermView, TermView), ErrorView>(
        (eval_spec(x, f)->Ok_0, eval_spec(y, f)->Ok_0),
    ));
    assert(eval_spec(whole, depth) == apply_spec(
        info,
        TermView { info: None, shape: op.shape },
        seq![x, y],
        d1,
    ));
}

} // verus!
