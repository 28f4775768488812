//! Reduction does not look at position metadata: terms that differ in
//! metadata only shift, substitute and reduce alike.
use vstd::prelude::*;
use crate::common::fileinfo::{ErrorView, FileInfo};
use crate::corelang::eval::{
    apply_spec, arith_spec, eval_args_spec, eval_pair_spec, eval_spec, operands_message,
};
use crate::corelang::syntax::{
    Operator, Shape, TermView, equiv_spec, erase, erase_seq, index_bounded, shift_seq,
    shift_spec, substitutable, substitute_spec,
};

verus! {

/// Shifting and removing metadata can be done in either order.
pub proof fn erase_commutes_with_shift(t: TermView, c: nat, d: nat)
    ensures
        erase(shift_spec(t, c, d)) == shift_spec(erase(t), c, d),
    decreases t,
{
    match t.shape {
        Shape::Apply(op, args) => {
            erase_commutes_with_shift(*op, c, d);
            assert forall|i: int| 0 <= i < args.len() implies erase(shift_spec(args[i], c, d))
                == shift_spec(erase(args[i]), c, d) by {
                erase_commutes_with_shift(args[i], c, d);
            }
            assert(erase_seq(shift_seq(args, c, d)) =~= shift_seq(erase_seq(args), c, d));
        },
        Shape::Lambda(_, body) => {
            erase_commutes_with_shift(*body, c + 1, d);
        },
        Shape::Quote(q) => {
            erase_commutes_with_shift(*q, c, d);
        },
        Shape::If(a, b, e) => {
            erase_commutes_with_shift(*a, c, d);
            erase_commutes_with_shift(*b, c, d);
            erase_commutes_with_shift(*e, c, d);
        },
        Shape::Cons(h, tl) => {
            erase_commutes_with_shift(*h, c, d);
            erase_commutes_with_shift(*tl, c, d);
        },
        _ => {},
    }
}

/// The same, for every term of a sequence.
pub proof fn erase_commutes_with_shift_seq(vs: Seq<TermView>, c: nat, d: nat)
    ensures
        erase_seq(shift_seq(vs, c, d)) == shift_seq(erase_seq(vs), c, d),
{
    assert forall|i: int| 0 <= i < vs.len() implies erase(shift_spec(vs[i], c, d)) == shift_spec(
        erase(vs[i]),
        c,
        d,
    ) by {
        erase_commutes_with_shift(vs[i], c, d);
    }
    assert(erase_seq(shift_seq(vs, c, d)) =~= shift_seq(erase_seq(vs), c, d));
}

/// Removing metadata leaves the variable depths as they are.
pub proof fn erase_keeps_index_bounds(t: TermView)
    ensures
        index_bounded(erase(t)) == index_bounded(t),
    decreases t,
{
    match t.shape {
        Shape::Apply(op, args) => {
            erase_keeps_index_bounds(*op);
            let erased = erase_seq(args);
            assert forall|i: int| 0 <= i < args.len() implies index_bounded(#[trigger] erased[i])
                == index_bounded(args[i]) by {
                erase_keeps_index_bounds(args[i]);
            }
            if index_bounded(t) {
                assert(forall|i: int| 0 <= i < args.len() ==> index_bounded(#[trigger] args[i]));
                assert forall|i: int| 0 <= i < erased.len() implies index_bounded(
                    #[trigger] erased[i],
                ) by {
                    assert(index_bounded(args[i]));
                }
            }
            if index_bounded(erase(t)) {
                assert(erase(t).shape->Apply_1 == erased);
                assert(forall|i: int|
                    0 <= i < erased.len() ==> index_bounded(#[trigger] erased[i]));
                assert forall|i: int| 0 <= i < args.len() implies index_bounded(
                    #[trigger] args[i],
                ) by {
                    assert(index_bounded(erased[i]));
                }
            }
        },
        Shape::Lambda(_, body) => {
            erase_keeps_index_bounds(*body);
        },
        Shape::Quote(q) => {
            erase_keeps_index_bounds(*q);
        },
        Shape::If(a, b, e) => {
            erase_keeps_index_bounds(*a);
            erase_keeps_index_bounds(*b);
            erase_keeps_index_bounds(*e);
        },
        Shape::Cons(h, tl) => {
            erase_keeps_index_bounds(*h);
            erase_keeps_index_bounds(*tl);
        },
        _ => {},
    }
}

/// Substituting and removing metadata can be done in either order.
pub proof fn erase_commutes_with_substitute(t: TermView, level: nat, vs: Seq<TermView>)
    ensures
        erase(substitute_spec(t, level, vs)) == substitute_spec(erase(t), level, erase_seq(vs)),
    decreases t,
{
    match t.shape {
        Shape::Apply(op, args) => {
            erase_commutes_with_substitute(*op, level, vs);
            assert forall|i: int| 0 <= i < args.len() implies erase(
                substitute_spec(args[i], level, vs),
            ) == substitute_spec(erase(args[i]), level, erase_seq(vs)) by {
                erase_commutes_with_substitute(args[i], level, vs);
            }
            let mid = substitute_spec(t, level, vs).shape->Apply_1;
            let left = erase(substitute_spec(t, level, vs)).shape->Apply_1;
            let right = substitute_spec(erase(t), level, erase_seq(vs)).shape->Apply_1;
            assert(left == erase_seq(mid));
            assert(left.len() == right.len());
            assert forall|i: int| 0 <= i < left.len() implies left[i] == right[i] by {
                assert(mid[i] == substitute_spec(args[i], level, vs));
                assert(erase_seq(args)[i] == erase(args[i]));
            }
            assert(left =~= right);
        },
        Shape::Lambda(_, body) => {
            erase_commutes_with_substitute(*body, level + 1, shift_seq(vs, 0, 1));
            erase_commutes_with_shift_seq(vs, 0, 1);
        },
        Shape::Quote(q) => {
            erase_commutes_with_substitute(*q, level, vs);
        },
        Shape::If(a, b, e) => {
            erase_commutes_with_substitute(*a, level, vs);
            erase_commutes_with_substitute(*b, level, vs);
            erase_commutes_with_substitute(*e, level, vs);
        },
        Shape::Cons(h, tl) => {
            erase_commutes_with_substitute(*h, level, vs);
            erase_commutes_with_substitute(*tl, level, vs);
        },
        _ => {},
    }
}

/// Whether a substitution can be carried out does not depend on metadata.
pub proof fn erase_keeps_substitutable(t: TermView, level: nat, vs: Seq<TermView>)
    ensures
        substitutable(erase(t), level, erase_seq(vs)) == substitutable(t, level, vs),
    decreases t,
{
    let evs = erase_seq(vs);
    match t.shape {
        Shape::Apply(op, args) => {
            erase_keeps_substitutable(*op, level, vs);
            let erased = erase_seq(args);
            assert forall|i: int| 0 <= i < args.len() implies substitutable(
                #[trigger] erased[i],
                level,
                evs,
            ) == substitutable(args[i], level, vs) by {
                erase_keeps_substitutable(args[i], level, vs);
            }
            if substitutable(t, level, vs) {
                assert(forall|i: int|
                    0 <= i < args.len() ==> substitutable(#[trigger] args[i], level, vs));
                assert forall|i: int| 0 <= i < erased.len() implies substitutable(
                    #[trigger] erased[i],
                    level,
                    evs,
                ) by {
                    assert(substitutable(args[i], level, vs));
                }
            }
            if substitutable(erase(t), level, evs) {
                assert(erase(t).shape->Apply_1 == erased);
                assert(forall|i: int|
                    0 <= i < erased.len() ==> substitutable(#[trigger] erased[i], level, evs));
                assert forall|i: int| 0 <= i < args.len() implies substitutable(
                    #[trigger] args[i],
                    level,
                    vs,
                ) by {
                    assert(substitutable(erased[i], level, evs));
                }
            }
        },
        Shape::Lambda(_, body) => {
            erase_keeps_substitutable(*body, level + 1, shift_seq(vs, 0, 1));
            erase_commutes_with_shift_seq(vs, 0, 1);
            assert forall|i: int| 0 <= i < vs.len() implies index_bounded(
                shift_spec(evs[i], 0, 1),
            ) == index_bounded(shift_spec(vs[i], 0, 1)) by {
                erase_commutes_with_shift(vs[i], 0, 1);
                erase_keeps_index_bounds(shift_spec(vs[i], 0, 1));
            }
            if substitutable(t, level, vs) {
                assert(forall|i: int|
                    0 <= i < vs.len() ==> index_bounded(#[trigger] shift_spec(vs[i], 0, 1)));
                assert forall|i: int| 0 <= i < evs.len() implies index_bounded(
                    #[trigger] shift_spec(evs[i], 0, 1),
                ) by {
                    assert(index_bounded(shift_spec(vs[i], 0, 1)));
                }
            }
            if substitutable(erase(t), level, evs) {
                assert(forall|i: int|
                    0 <= i < evs.len() ==> index_bounded(#[trigger] shift_spec(evs[i], 0, 1)));
                assert forall|i: int| 0 <= i < vs.len() implies index_bounded(
                    #[trigger] shift_spec(vs[i], 0, 1),
                ) by {
                    assert(index_bounded(shift_spec(evs[i], 0, 1)));
                }
            }
        },
        Shape::Quote(q) => {
            erase_keeps_substitutable(*q, level, vs);
        },
        Shape::If(a, b, e) => {
            erase_keeps_substitutable(*a, level, vs);
            erase_keeps_substitutable(*b, level, vs);
            erase_keeps_substitutable(*e, level, vs);
        },
        Shape::Cons(h, tl) => {
            erase_keeps_substitutable(*h, level, vs);
            erase_keeps_substitutable(*tl, level, vs);
        },
        _ => {},
    }
}


/// Two outcomes of a reduction agree but for metadata: both are values that
/// differ in metadata only, or both are errors with the same message.
pub open spec fn same_outcome(a: Result<TermView, ErrorView>, b: Result<TermView, ErrorView>)
    -> bool {
    match a {
        Ok(x) => b is Ok && erase(x) == erase(b->Ok_0),
        Err(e) => b is Err && e.message == b->Err_0.message,
    }
}

/// The same, for the outcomes of reducing a sequence of operands.
pub open spec fn same_values(
    a: Result<Seq<TermView>, ErrorView>,
    b: Result<Seq<TermView>, ErrorView>,
) -> bool {
    match a {
        Ok(x) => b is Ok && erase_seq(x) == erase_seq(b->Ok_0),
        Err(e) => b is Err && e.message == b->Err_0.message,
    }
}

/// The same, for the outcomes of reducing two operands.
pub open spec fn same_pair(
    a: Result<(TermView, TermView), ErrorView>,
    b: Result<(TermView, TermView), ErrorView>,
) -> bool {
    match a {
        Ok(x) => b is Ok && erase(x.0) == erase(b->Ok_0.0) && erase(x.1) == erase(b->Ok_0.1),
        Err(e) => b is Err && e.message == b->Err_0.message,
    }
}

/// Sequences that differ in metadata only have the same length and differ
/// in metadata only at each position.
proof fn lemma_erased_items(xs: Seq<TermView>, ys: Seq<TermView>)
    requires
        erase_seq(xs) == erase_seq(ys),
    ensures
        xs.len() == ys.len(),
        forall|i: int| 0 <= i < xs.len() ==> erase(#[trigger] xs[i]) == erase(ys[i]),
{
    assert(erase_seq(xs).len() == xs.len());
    assert(erase_seq(ys).len() == ys.len());
    assert forall|i: int| 0 <= i < xs.len() implies erase(#[trigger] xs[i]) == erase(ys[i]) by {
        assert(erase_seq(xs)[i] == erase(xs[i]));
        assert(erase_seq(ys)[i] == erase(ys[i]));
    }
}

/// Terms that differ in metadata only reduce to outcomes that differ in
/// metadata only.
pub proof fn reduction_ignores_metadata(a: TermView, b: TermView, fuel: nat)
    requires
        erase(a) == erase(b),
    ensures
        same_outcome(eval_spec(a, fuel), eval_spec(b, fuel)),
    decreases fuel, 0nat, 0nat,
{
    match a.shape {
        Shape::Apply(opa, xs) => {
            assert(b.shape is Apply);
            let opb = b.shape->Apply_0;
            let ys = b.shape->Apply_1;
            assert(erase(*opa) == erase(*opb));
            assert(erase_seq(xs) == erase_seq(ys));
            if fuel > 0 {
                let f = (fuel - 1) as nat;
                reduction_ignores_metadata(*opa, *opb, f);
                if eval_spec(*opa, f) is Ok {
                    application_ignores_metadata(
                        a.info,
                        b.info,
                        eval_spec(*opa, f)->Ok_0,
                        eval_spec(*opb, f)->Ok_0,
                        xs,
                        ys,
                        f,
                    );
                }
            }
        },
        Shape::If(ca, ta, ea) => {
            assert(b.shape is If);
            let cb = b.shape->If_0;
            let tb = b.shape->If_1;
            let eb = b.shape->If_2;
            assert(erase(*ca) == erase(*cb));
            assert(erase(*ta) == erase(*tb));
            assert(erase(*ea) == erase(*eb));
            if fuel > 0 {
                let f = (fuel - 1) as nat;
                reduction_ignores_metadata(*ca, *cb, f);
                reduction_ignores_metadata(*ta, *tb, f);
                reduction_ignores_metadata(*ea, *eb, f);
            }
        },
        _ => {
            assert(!(b.shape is Apply) && !(b.shape is If));
        },
    }
}

/// Operands that differ in metadata only reduce to outcomes that differ in
/// metadata only.
pub proof fn arguments_ignore_metadata(xs: Seq<TermView>, ys: Seq<TermView>, fuel: nat)
    requires
        erase_seq(xs) == erase_seq(ys),
    ensures
        same_values(eval_args_spec(xs, fuel), eval_args_spec(ys, fuel)),
    decreases fuel, 1nat, xs.len(),
{
    lemma_erased_items(xs, ys);
    if xs.len() > 0 {
        assert(erase_seq(xs.drop_last()) =~= erase_seq(ys.drop_last())) by {
            assert forall|i: int| 0 <= i < xs.len() - 1 implies erase(xs.drop_last()[i]) == erase(
                ys.drop_last()[i],
            ) by {
                assert(erase(xs[i]) == erase(ys[i]));
            }
        }
        arguments_ignore_metadata(xs.drop_last(), ys.drop_last(), fuel);
        assert(erase(xs.last()) == erase(ys.last())) by {
            assert(erase(xs[xs.len() - 1]) == erase(ys[xs.len() - 1]));
        }
        reduction_ignores_metadata(xs.last(), ys.last(), fuel);
        let ra = eval_args_spec(xs.drop_last(), fuel);
        let rb = eval_args_spec(ys.drop_last(), fuel);
        let la = eval_spec(xs.last(), fuel);
        let lb = eval_spec(ys.last(), fuel);
        if ra is Ok && la is Ok {
            lemma_erased_items(ra->Ok_0, rb->Ok_0);
            let va = ra->Ok_0.push(la->Ok_0);
            let vb = rb->Ok_0.push(lb->Ok_0);
            assert(erase_seq(va) =~= erase_seq(vb)) by {
                assert forall|i: int| 0 <= i < va.len() implies erase(va[i]) == erase(vb[i]) by {
                    if i < va.len() - 1 {
                        assert(erase(ra->Ok_0[i]) == erase(rb->Ok_0[i]));
                    }
                }
            }
        }
    } else {
        assert(erase_seq(Seq::<TermView>::empty()) =~= erase_seq(Seq::<TermView>::empty()));
    }
}

/// Two operands that differ in metadata only reduce to outcomes that differ
/// in metadata only.
pub proof fn pair_ignores_metadata(xs: Seq<TermView>, ys: Seq<TermView>, fuel: nat)
    requires
        erase_seq(xs) == erase_seq(ys),
        xs.len() == 2,
    ensures
        same_pair(eval_pair_spec(xs, fuel), eval_pair_spec(ys, fuel)),
    decreases fuel, 1nat, 0nat,
{
    lemma_erased_items(xs, ys);
    assert(erase(xs[0]) == erase(ys[0]));
    assert(erase(xs[1]) == erase(ys[1]));
    reduction_ignores_metadata(xs[0], ys[0], fuel);
    reduction_ignores_metadata(xs[1], ys[1], fuel);
}

/// Applications whose operators and operands differ in metadata only have
/// outcomes that differ in metadata only.
pub proof fn application_ignores_metadata(
    ia: Option<FileInfo>,
    ib: Option<FileInfo>,
    fa: TermView,
    fb: TermView,
    xs: Seq<TermView>,
    ys: Seq<TermView>,
    fuel: nat,
)
    requires
        erase(fa) == erase(fb),
        erase_seq(xs) == erase_seq(ys),
    ensures
        same_outcome(apply_spec(ia, fa, xs, fuel), apply_spec(ib, fb, ys, fuel)),
    decreases fuel, 2nat, 0nat,
{
    lemma_erased_items(xs, ys);
    match fa.shape {
        Shape::Atom(op) => {
            assert(fb.shape == Shape::Atom(op));
            if xs.len() == 2 {
                pair_ignores_metadata(xs, ys, fuel);
            }
            if xs.len() == 1 {
                assert(erase(xs[0]) == erase(ys[0]));
                reduction_ignores_metadata(xs[0], ys[0], fuel);
                let qa = eval_spec(xs[0], fuel);
                let qb = eval_spec(ys[0], fuel);
                if qa is Ok {
                    match qa->Ok_0.shape {
                        Shape::Quote(inner) => {
                            assert(qb->Ok_0.shape is Quote);
                            let other = qb->Ok_0.shape->Quote_0;
                            assert(erase(*inner) == erase(*other));
                            if op is Eval {
                                reduction_ignores_metadata(*inner, *other, fuel);
                            }
                        },
                        Shape::Cons(h, tl) => {
                            assert(qb->Ok_0.shape is Cons);
                            assert(erase(*h) == erase(*qb->Ok_0.shape->Cons_0));
                            assert(erase(*tl) == erase(*qb->Ok_0.shape->Cons_1));
                        },
                        _ => {
                            assert(!(qb->Ok_0.shape is Quote) && !(qb->Ok_0.shape is Cons));
                        },
                    }
                }
            }
        },
        Shape::Lambda(n, body) => {
            assert(fb.shape is Lambda);
            let other = fb.shape->Lambda_1;
            assert(fb.shape->Lambda_0 == n);
            assert(erase(*body) == erase(*other));
            if xs.len() == n {
                arguments_ignore_metadata(xs, ys, fuel);
                let ra = eval_args_spec(xs, fuel);
                let rb = eval_args_spec(ys, fuel);
                if ra is Ok {
                    let va = ra->Ok_0;
                    let vb = rb->Ok_0;
                    erase_keeps_substitutable(*body, 0, va);
                    erase_keeps_substitutable(*other, 0, vb);
                    erase_commutes_with_substitute(*body, 0, va);
                    erase_commutes_with_substitute(*other, 0, vb);
                    if substitutable(*body, 0, va) {
                        reduction_ignores_metadata(
                            substitute_spec(*body, 0, va),
                            substitute_spec(*other, 0, vb),
                            fuel,
                        );
                    }
                }
            }
        },
        _ => {
            assert(!(fb.shape is Atom) && !(fb.shape is Lambda));
        },
    }
}


/// `t` is a value: neither an application nor an `if`.
pub open spec fn is_value(t: TermView) -> bool {
    !(t.shape is Apply) && !(t.shape is If)
}

/// The values `vs`, each without its own metadata: what they reduce to.
pub open spec fn reduced_values(vs: Seq<TermView>) -> Seq<TermView> {
    Seq::new(vs.len(), |i: int| TermView { info: None, shape: vs[i].shape })
}

/// A sequence of values reduces to the same values without their own
/// metadata.
pub proof fn values_reduce_to_themselves(vs: Seq<TermView>, fuel: nat)
    requires
        forall|i: int| 0 <= i < vs.len() ==> is_value(#[trigger] vs[i]),
    ensures
        eval_args_spec(vs, fuel) == Ok::<Seq<TermView>, ErrorView>(reduced_values(vs)),
        erase_seq(reduced_values(vs)) == erase_seq(vs),
    decreases vs.len(),
{
    assert(erase_seq(reduced_values(vs)) =~= erase_seq(vs));
    if vs.len() > 0 {
        values_reduce_to_themselves(vs.drop_last(), fuel);
        assert(is_value(vs.last()));
        assert(eval_spec(vs.last(), fuel) == Ok::<TermView, ErrorView>(
            TermView { info: None, shape: vs.last().shape },
        ));
        assert(reduced_values(vs.drop_last()).push(
            TermView { info: None, shape: vs.last().shape },
        ) =~= reduced_values(vs));
    } else {
        assert(reduced_values(vs) =~= Seq::<TermView>::empty());
    }
}

/// Applying a lambda of `n` arguments to `n` values has the outcome of
/// reducing its body with the values substituted at level zero, metadata
/// aside, wherever that substitution can be carried out.
pub proof fn apply_lambda_substitutes_values(
    info: Option<FileInfo>,
    own: Option<FileInfo>,
    n: nat,
    body: TermView,
    vs: Seq<TermView>,
    fuel: nat,
)
    requires
        vs.len() == n,
        forall|i: int| 0 <= i < vs.len() ==> is_value(#[trigger] vs[i]),
        substitutable(body, 0, vs),
    ensures
        same_outcome(
            eval_spec(
                TermView {
                    info,
                    shape: Shape::Apply(
                        Box::new(TermView { info: own, shape: Shape::Lambda(n, Box::new(body)) }),
                        vs,
                    ),
                },
                fuel + 1,
            ),
            eval_spec(substitute_spec(body, 0, vs), fuel),
        ),
{
    let reduced = reduced_values(vs);
    values_reduce_to_themselves(vs, fuel);
    erase_keeps_substitutable(body, 0, vs);
    erase_keeps_substitutable(body, 0, reduced);
    erase_commutes_with_substitute(body, 0, vs);
    erase_commutes_with_substitute(body, 0, reduced);
    reduction_ignores_metadata(
        substitute_spec(body, 0, reduced),
        substitute_spec(body, 0, vs),
        fuel,
    );
    let lam = TermView { info: own, shape: Shape::Lambda(n, Box::new(body)) };
    let whole = TermView { info, shape: Shape::Apply(Box::new(lam), vs) };
    assert(eval_spec(lam, fuel) == Ok::<TermView, ErrorView>(
        TermView { info: None, shape: lam.shape },
    ));
    assert(eval_spec(whole, fuel + 1) == apply_spec(
        info,
        TermView { info: None, shape: lam.shape },
        vs,
        fuel,
    ));
    assert(eval_spec(whole, fuel + 1) == eval_spec(substitute_spec(body, 0, reduced), fuel));
}

/// Equivalent terms reduce to equivalent values, or both to an error.
pub proof fn equivalent_terms_reduce_alike(a: TermView, b: TermView, fuel: nat)
    requires
        equiv_spec(a, b),
    ensures
        eval_spec(a, fuel) is Ok <==> eval_spec(b, fuel) is Ok,
        eval_spec(a, fuel) is Ok ==> equiv_spec(eval_spec(a, fuel)->Ok_0, eval_spec(b, fuel)->Ok_0),
{
    reduction_ignores_metadata(a, b, fuel);
}

} // verus!
