//! The driver: statements are evaluated one at a time against a definition
//! environment; groups of recursive definitions are turned into closed
//! lambda terms by an n-ary fixed-point encoding.
use vstd::prelude::*;
use crate::common::fileinfo::{CompileError, ErrorView, FileInfo, clone_info, fault_at};
use crate::common::resolver::{ContentResolveResult, ContentResolver};
use crate::common::text::{chars_of, push_str};
use crate::corelang::eval::{DEFAULT_DEPTH, eval_bounded, eval_spec};
use crate::corelang::syntax::{Shape, Term, TermView, view_seq};
use crate::metalang::parser::{MetaParser, parse_spec};
use crate::metalang::syntax::{
    DefRecFun, DefRecFunView, ExportView, MetaEnv, MetaExport, MetaShape, MetaStatement, MetaTerm,
    MetaTermView, StatementView, clone_meta_terms, clone_names, exports_view, funs_view,
    lower_spec, meta_view_seq, names_view, stmts_view, transform_to_core,
};
use std::path::PathBuf;

verus! {

/// The names of the functions of a group, in order.
pub open spec fn group_names(funs: Seq<DefRecFunView>) -> Seq<Seq<char>> {
    Seq::new(funs.len(), |i: int| funs[i].name)
}

/// A reference to each of `names`, with the metadata `info`.
pub open spec fn name_refs(info: Option<FileInfo>, names: Seq<Seq<char>>) -> Seq<MetaTermView> {
    Seq::new(names.len(), |i: int| MetaTermView { info, shape: MetaShape::Variable(names[i]) })
}

/// `rewrite_spec` on each term of `ts`.
pub open spec fn rewrite_seq(
    ts: Seq<MetaTermView>,
    names: Seq<Seq<char>>,
    shadowed: Seq<Seq<char>>,
) -> Seq<MetaTermView>
    decreases ts,
{
    Seq::new(
        ts.len(),
        |i: int|
            if 0 <= i < ts.len() {
                rewrite_spec(ts[i], names, shadowed)
            } else {
                arbitrary()
            },
    )
}

/// `name` refers to a function of the group: it is one of `names` and no
/// lambda around it binds it.
pub open spec fn refers_to_group(
    name: Seq<char>,
    names: Seq<Seq<char>>,
    shadowed: Seq<Seq<char>>,
) -> bool {
    names.contains(name) && !shadowed.contains(name)
}

/// `t` with every application whose operator is a free reference to one of
/// `names` given references to all of `names` in front of its operands. A
/// reference that is not applied stays as it is.
pub open spec fn rewrite_spec(t: MetaTermView, names: Seq<Seq<char>>, shadowed: Seq<Seq<char>>)
    -> MetaTermView
    decreases t,
{
    MetaTermView {
        info: t.info,
        shape: match t.shape {
            MetaShape::Apply(op, args) => MetaShape::Apply(
                Box::new(rewrite_spec(*op, names, shadowed)),
                if op.shape is Variable && refers_to_group(op.shape->Variable_0, names, shadowed) {
                    name_refs(None, names) + rewrite_seq(args, names, shadowed)
                } else {
                    rewrite_seq(args, names, shadowed)
                },
            ),
            MetaShape::Lambda(args, body) => MetaShape::Lambda(
                args,
                Box::new(rewrite_spec(*body, names, shadowed + args)),
            ),
            MetaShape::Quote(q) => MetaShape::Quote(Box::new(rewrite_spec(*q, names, shadowed))),
            MetaShape::If(c, a, b) => MetaShape::If(
                Box::new(rewrite_spec(*c, names, shadowed)),
                Box::new(rewrite_spec(*a, names, shadowed)),
                Box::new(rewrite_spec(*b, names, shadowed)),
            ),
            MetaShape::Cons(h, tl) => MetaShape::Cons(
                Box::new(rewrite_spec(*h, names, shadowed)),
                Box::new(rewrite_spec(*tl, names, shadowed)),
            ),
            MetaShape::List(items) => MetaShape::List(rewrite_seq(items, names, shadowed)),
            other => other,
        },
    }
}

/// The self-abstracted form of function `i`: a lambda over the names of the
/// group followed by the function's own arguments, around its rewritten
/// body.
pub open spec fn self_abstracted(info: Option<FileInfo>, funs: Seq<DefRecFunView>, i: int)
    -> MetaTermView {
    MetaTermView {
        info,
        shape: MetaShape::Lambda(
            group_names(funs) + funs[i].args,
            Box::new(rewrite_spec(funs[i].body, group_names(funs), Seq::empty())),
        ),
    }
}

/// The self-abstracted forms of all functions of the group.
pub open spec fn all_self_abstracted(info: Option<FileInfo>, funs: Seq<DefRecFunView>) -> Seq<
    MetaTermView,
> {
    Seq::new(funs.len(), |i: int| self_abstracted(info, funs, i))
}

/// The term that function `i` is bound to: a lambda over its own arguments
/// that applies its self-abstracted form to the self-abstracted forms of the
/// whole group and to the arguments.
pub open spec fn bound_value(info: Option<FileInfo>, funs: Seq<DefRecFunView>, i: int)
    -> MetaTermView {
    MetaTermView {
        info,
        shape: MetaShape::Lambda(
            funs[i].args,
            Box::new(
                MetaTermView {
                    info,
                    shape: MetaShape::Apply(
                        Box::new(self_abstracted(info, funs, i)),
                        all_self_abstracted(info, funs) + name_refs(info, funs[i].args),
                    ),
                },
            ),
        ),
    }
}

/// The environment after the first `n` functions of the group have been
/// defined in order, and the error that stopped the definitions, if any.
pub open spec fn define_group(
    env: Map<Seq<char>, TermView>,
    info: Option<FileInfo>,
    funs: Seq<DefRecFunView>,
    n: nat,
) -> (Map<Seq<char>, TermView>, Option<ErrorView>)
    decreases n,
{
    if n == 0 {
        (env, None)
    } else {
        let before = define_group(env, info, funs, (n - 1) as nat);
        if before.1 is Some {
            before
        } else {
            match lower_spec(before.0, bound_value(info, funs, n - 1), Seq::empty()) {
                Ok(t) => (before.0.insert(funs[n - 1].name, t), None),
                Err(e) => (before.0, Some(e)),
            }
        }
    }
}

/// Whether `name` is one of `names`.
pub fn name_in(names: &Vec<String>, name: &String) -> (r: bool)
    ensures
        r == names_view(names@).contains(name@),
{
    let ghost nv = names_view(names@);
    let mut i: usize = 0;
    while i < names.len()
        invariant
            i <= names.len(),
            nv == names_view(names@),
            forall|j: int| 0 <= j < i ==> nv[j] != name@,
        decreases names.len() - i,
    {
        if names[i] == *name {
            assert(nv[i as int] == name@);
            return true;
        }
        i += 1;
    }
    false
}

/// The names of `a` followed by the names of `b`.
pub fn concat_names(a: &Vec<String>, b: &Vec<String>) -> (r: Vec<String>)
    ensures
        names_view(r@) == names_view(a@) + names_view(b@),
{
    let mut out = clone_names(a);
    let mut i: usize = 0;
    assert(names_view(out@) =~= names_view(a@) + names_view(b@).subrange(0, 0));
    while i < b.len()
        invariant
            i <= b.len(),
            names_view(out@) == names_view(a@) + names_view(b@).subrange(0, i as int),
        decreases b.len() - i,
    {
        let ghost before = names_view(out@);
        out.push(b[i].clone());
        assert(names_view(out@) =~= before.push(b@[i as int]@));
        assert(names_view(out@) =~= names_view(a@) + names_view(b@).subrange(0, i + 1));
        i += 1;
    }
    assert(names_view(b@).subrange(0, b.len() as int) =~= names_view(b@));
    out
}

/// A reference to each of `names`, with the metadata `info`, followed by
/// `rest`.
fn refs_then(info: &Option<FileInfo>, names: &Vec<String>, rest: Vec<MetaTerm>) -> (r: Vec<
    MetaTerm,
>)
    ensures
        meta_view_seq(r@) == name_refs(*info, names_view(names@)) + meta_view_seq(rest@),
{
    let mut out: Vec<MetaTerm> = Vec::new();
    let mut i: usize = 0;
    while i < names.len()
        invariant
            i <= names.len(),
            out@.len() == i,
            forall|j: int|
                0 <= j < i ==> (#[trigger] out@[j])@ == (MetaTermView {
                    info: *info,
                    shape: MetaShape::Variable(names@[j]@),
                }),
        decreases names.len() - i,
    {
        out.push(MetaTerm::Variable(clone_info(info), names[i].clone()));
        i += 1;
    }
    let ghost head = out@;
    let mut rest = rest;
    let ghost tail = rest@;
    out.append(&mut rest);
    proof {
        let want = name_refs(*info, names_view(names@)) + meta_view_seq(tail);
        assert(out@ == head + tail);
        assert(meta_view_seq(out@).len() == want.len());
        assert forall|x: int| 0 <= x < want.len() implies meta_view_seq(out@)[x] == want[x] by {
            if x < head.len() {
                assert(out@[x] == head[x]);
            } else {
                assert(out@[x] == tail[x - head.len()]);
            }
        }
        assert(meta_view_seq(out@) =~= want);
    }
    out
}

fn rewrite_terms(ts: &Vec<MetaTerm>, names: &Vec<String>, shadowed: &Vec<String>) -> (r: Vec<
    MetaTerm,
>)
    ensures
        meta_view_seq(r@) == rewrite_seq(
            meta_view_seq(ts@),
            names_view(names@),
            names_view(shadowed@),
        ),
    decreases ts,
{
    let mut out: Vec<MetaTerm> = Vec::new();
    let mut i: usize = 0;
    while i < ts.len()
        invariant
            i <= ts.len(),
            out@.len() == i,
            forall|j: int|
                0 <= j < i ==> (#[trigger] out@[j])@ == rewrite_spec(
                    ts@[j]@,
                    names_view(names@),
                    names_view(shadowed@),
                ),
        decreases ts.len() - i,
    {
        out.push(substitution_rec(&ts[i], names, shadowed));
        i += 1;
    }
    assert(meta_view_seq(out@) =~= rewrite_seq(
        meta_view_seq(ts@),
        names_view(names@),
        names_view(shadowed@),
    ));
    out
}

/// Rewrites the applications of the group's functions in `mt`: each gets
/// references to all of `names` in front of its operands. `shadowed` holds
/// the names that lambdas around `mt` bind.
pub fn substitution_rec(mt: &MetaTerm, names: &Vec<String>, shadowed: &Vec<String>) -> (r: MetaTerm)
    ensures
        r@ == rewrite_spec(mt@, names_view(names@), names_view(shadowed@)),
    decreases mt,
{
    match mt {
        MetaTerm::Apply(info, op, args) => {
            let new_op = substitution_rec(op, names, shadowed);
            let new_args = rewrite_terms(args, names, shadowed);
            let applied = match &**op {
                MetaTerm::Variable(_, v) => name_in(names, v) && !name_in(shadowed, v),
                _ => false,
            };
            if applied {
                MetaTerm::Apply(clone_info(info), Box::new(new_op), refs_then(&None, names, new_args))
            } else {
                MetaTerm::Apply(clone_info(info), Box::new(new_op), new_args)
            }
        },
        MetaTerm::Lambda(info, args, body) => {
            let inner = concat_names(shadowed, args);
            MetaTerm::Lambda(
                clone_info(info),
                clone_names(args),
                Box::new(substitution_rec(body, names, &inner)),
            )
        },
        MetaTerm::Quote(info, q) => MetaTerm::Quote(
            clone_info(info),
            Box::new(substitution_rec(q, names, shadowed)),
        ),
        MetaTerm::If(info, c, a, b) => MetaTerm::If(
            clone_info(info),
            Box::new(substitution_rec(c, names, shadowed)),
            Box::new(substitution_rec(a, names, shadowed)),
            Box::new(substitution_rec(b, names, shadowed)),
        ),
        MetaTerm::Cons(info, h, tl) => MetaTerm::Cons(
            clone_info(info),
            Box::new(substitution_rec(h, names, shadowed)),
            Box::new(substitution_rec(tl, names, shadowed)),
        ),
        MetaTerm::List(info, items) => MetaTerm::List(
            clone_info(info),
            rewrite_terms(items, names, shadowed),
        ),
        _ => mt.clone(),
    }
}


/// The terms of `a` followed by the terms of `b`.
fn concat_terms(a: Vec<MetaTerm>, b: Vec<MetaTerm>) -> (r: Vec<MetaTerm>)
    ensures
        meta_view_seq(r@) == meta_view_seq(a@) + meta_view_seq(b@),
{
    let mut out = a;
    let mut rest = b;
    out.append(&mut rest);
    proof {
        let want = meta_view_seq(a@) + meta_view_seq(b@);
        assert(out@ == a@ + b@);
        assert forall|x: int| 0 <= x < want.len() implies meta_view_seq(out@)[x] == want[x] by {
            if x < a@.len() {
                assert(out@[x] == a@[x]);
            } else {
                assert(out@[x] == b@[x - a@.len()]);
            }
        }
        assert(meta_view_seq(out@) =~= want);
    }
    out
}

/// Defines the functions of a recursive group in order. Each is bound to a
/// closed lambda term that hands the self-abstracted forms of the whole
/// group to its own; the first lowering error stops the definitions.
pub fn define_rec(env: &mut MetaEnv, info: &Option<FileInfo>, fun_vec: &Vec<DefRecFun>) -> (r:
    Result<(), CompileError>)
    ensures
        final(env)@ == define_group(
            old(env)@,
            *info,
            funs_view(fun_vec@),
            fun_vec@.len(),
        ).0,
        match r {
            Ok(_) => define_group(old(env)@, *info, funs_view(fun_vec@), fun_vec@.len()).1 is None,
            Err(e) => define_group(old(env)@, *info, funs_view(fun_vec@), fun_vec@.len()).1
                == Some(e@),
        },
{
    let ghost fv = funs_view(fun_vec@);
    let mut names: Vec<String> = Vec::new();
    let mut i: usize = 0;
    while i < fun_vec.len()
        invariant
            i <= fun_vec.len(),
            names@.len() == i,
            forall|j: int| 0 <= j < i ==> (#[trigger] names@[j])@ == fun_vec@[j].name@,
        decreases fun_vec.len() - i,
    {
        names.push(fun_vec[i].name.clone());
        i += 1;
    }
    assert(names_view(names@) =~= group_names(fv));
    let shadowed: Vec<String> = Vec::new();
    assert(names_view(shadowed@) =~= Seq::<Seq<char>>::empty());
    let mut lambdas: Vec<MetaTerm> = Vec::new();
    let mut i: usize = 0;
    while i < fun_vec.len()
        invariant
            i <= fun_vec.len(),
            lambdas@.len() == i,
            fv == funs_view(fun_vec@),
            names_view(names@) == group_names(fv),
            names_view(shadowed@) == Seq::<Seq<char>>::empty(),
            forall|j: int| 0 <= j < i ==> (#[trigger] lambdas@[j])@ == self_abstracted(*info, fv, j),
        decreases fun_vec.len() - i,
    {
        let body = substitution_rec(&fun_vec[i].term, &names, &shadowed);
        let all_args = concat_names(&names, &fun_vec[i].arg_name_vec);
        lambdas.push(MetaTerm::Lambda(clone_info(info), all_args, Box::new(body)));
        i += 1;
    }
    assert(meta_view_seq(lambdas@) =~= all_self_abstracted(*info, fv));
    let mut i: usize = 0;
    while i < fun_vec.len()
        invariant
            i <= fun_vec.len(),
            lambdas@.len() == fun_vec.len(),
            fv == funs_view(fun_vec@),
            meta_view_seq(lambdas@) == all_self_abstracted(*info, fv),
            define_group(old(env)@, *info, fv, i as nat) == (env@, None::<ErrorView>),
        decreases fun_vec.len() - i,
    {
        let fun = &fun_vec[i];
        let refs = refs_then(info, &fun.arg_name_vec, Vec::new());
        let operands = concat_terms(clone_meta_terms(&lambdas), refs);
        proof {
            assert(meta_view_seq(Seq::<MetaTerm>::empty()) =~= Seq::<MetaTermView>::empty());
            assert(meta_view_seq(operands@) =~= all_self_abstracted(*info, fv) + name_refs(
                *info,
                fv[i as int].args,
            ));
            assert(meta_view_seq(lambdas@)[i as int] == lambdas@[i as int]@);
            assert(all_self_abstracted(*info, fv)[i as int] == self_abstracted(
                *info,
                fv,
                i as int,
            ));
            assert(names_view(fun.arg_name_vec@) == fv[i as int].args);
        }
        let inner = MetaTerm::Apply(clone_info(info), Box::new(lambdas[i].clone()), operands);
        assert(inner@ == (MetaTermView {
            info: *info,
            shape: MetaShape::Apply(
                Box::new(self_abstracted(*info, fv, i as int)),
                all_self_abstracted(*info, fv) + name_refs(*info, fv[i as int].args),
            ),
        }));
        let bound = MetaTerm::Lambda(
            clone_info(info),
            clone_names(&fun.arg_name_vec),
            Box::new(inner),
        );
        assert(bound@ == bound_value(*info, fv, i as int));
        match transform_to_core(env, &bound) {
            Ok(t) => {
                env.insert(fun.name.clone(), t);
            },
            Err(e) => {
                proof {
                    lemma_group_stops(old(env)@, *info, fv, (i + 1) as nat, fun_vec@.len());
                }
                return Err(e);
            },
        }
        i += 1;
    }
    Ok(())
}

/// Once the definitions of a group have met an error they stay as they are.
proof fn lemma_group_stops(
    env: Map<Seq<char>, TermView>,
    info: Option<FileInfo>,
    funs: Seq<DefRecFunView>,
    n: nat,
    m: nat,
)
    requires
        n <= m,
        define_group(env, info, funs, n).1 is Some,
    ensures
        define_group(env, info, funs, m) == define_group(env, info, funs, n),
    decreases m,
{
    if n < m {
        lemma_group_stops(env, info, funs, n, (m - 1) as nat);
    }
}


/// How deep the imports of a new driver may nest: the largest depth that a
/// machine word counts.
pub const IMPORT_DEPTH: usize = usize::MAX;

/// The value of the surface term `t` under the definitions `env`: lowered,
/// then reduced, nesting at most `depth` deep.
pub open spec fn run_term(env: Map<Seq<char>, TermView>, t: MetaTermView, depth: nat) -> Result<
    TermView,
    ErrorView,
> {
    match lower_spec(env, t, Seq::empty()) {
        Err(e) => Err(e),
        Ok(c) => eval_spec(c, depth),
    }
}

/// How statements are run: whether assertions are checked, and how deep the
/// reduction of a term may nest.
#[derive(Clone, Copy)]
pub struct RunMode {
    pub do_assert: bool,
    pub depth: usize,
}

/// The message for an exported name that is not defined.
pub open spec fn export_message(name: Seq<char>) -> Seq<char> {
    "variable \""@ + name + "\" cannot be exported. not found"@
}

/// Every item of `items` is a name.
pub open spec fn only_names(items: Seq<ExportView>) -> bool {
    forall|i: int| 0 <= i < items.len() ==> #[trigger] items[i] is Var
}

/// The exported environment after the first `n` names of `items` have been
/// exported in order, and the error that stopped the export, if any.
pub open spec fn export_names(
    env: Map<Seq<char>, TermView>,
    exported: Map<Seq<char>, TermView>,
    info: Option<FileInfo>,
    items: Seq<ExportView>,
    n: nat,
) -> (Map<Seq<char>, TermView>, Option<ErrorView>)
    decreases n,
{
    if n == 0 {
        (exported, None)
    } else {
        let before = export_names(env, exported, info, items, (n - 1) as nat);
        if before.1 is Some {
            before
        } else {
            match items[n - 1] {
                ExportView::Var(name) => if env.contains_key(name) {
                    (before.0.insert(name, env[name]), None)
                } else {
                    (before.0, Some(fault_at(info, export_message(name))))
                },
                ExportView::Path(_) => before,
            }
        }
    }
}

/// The statement asks the resolver for a module.
pub open spec fn needs_resolver(stmt: StatementView) -> bool {
    match stmt {
        StatementView::Import(_, paths) => paths.len() > 0,
        StatementView::Export(_, items) => !only_names(items),
        _ => false,
    }
}

/// The state of a driver after a statement, and what the statement gave.
pub struct StepView {
    pub env: Map<Seq<char>, TermView>,
    pub exported: Map<Seq<char>, TermView>,
    pub result: Result<Option<TermView>, ErrorView>,
}

/// What a statement that asks for no module does to the definitions `env`
/// and the exports `exported`, and what it gives: a value for a term,
/// nothing otherwise.
pub open spec fn step_spec(
    env: Map<Seq<char>, TermView>,
    exported: Map<Seq<char>, TermView>,
    mode: RunMode,
    stmt: StatementView,
) -> StepView {
    match stmt {
        StatementView::Def(_, name, t) => match lower_spec(env, t, Seq::empty()) {
            Ok(c) => StepView { env: env.insert(name, c), exported, result: Ok(None) },
            Err(e) => StepView { env, exported, result: Err(e) },
        },
        StatementView::DefRec(info, funs) => {
            let g = define_group(env, info, funs, funs.len());
            StepView {
                env: g.0,
                exported,
                result: match g.1 {
                    Some(e) => Err(e),
                    None => Ok(None),
                },
            }
        },
        StatementView::Term(_, t) => StepView {
            env,
            exported,
            result: match run_term(env, t, mode.depth as nat) {
                Ok(v) => Ok(Some(v)),
                Err(e) => Err(e),
            },
        },
        StatementView::Assert(info, t) => StepView {
            env,
            exported,
            result: if mode.do_assert {
                match run_term(env, t, mode.depth as nat) {
                    Err(e) => Err(e),
                    Ok(v) => if v.shape == Shape::Bool(true) {
                        Ok(None)
                    } else {
                        Err(fault_at(info, "assertion failed"@))
                    },
                }
            } else {
                Ok(None)
            },
        },
        StatementView::Import(_, _) => StepView { env, exported, result: Ok(None) },
        StatementView::Export(info, items) => {
            let x = export_names(env, exported, info, items, items.len());
            StepView {
                env,
                exported: x.0,
                result: match x.1 {
                    Some(e) => Err(e),
                    None => Ok(None),
                },
            }
        },
    }
}

/// The state of a driver after a run of statements, the values of the terms
/// among them, and the error that stopped the run, if any.
pub struct RunView {
    pub env: Map<Seq<char>, TermView>,
    pub exported: Map<Seq<char>, TermView>,
    pub values: Seq<TermView>,
    pub error: Option<ErrorView>,
}

/// The first `n` statements of `stmts`, none of which asks for a module,
/// run in order from the definitions `env` and the exports `exported`.
pub open spec fn run_spec(
    env: Map<Seq<char>, TermView>,
    exported: Map<Seq<char>, TermView>,
    mode: RunMode,
    stmts: Seq<StatementView>,
    n: nat,
) -> RunView
    decreases n,
{
    if n == 0 {
        RunView { env, exported, values: Seq::empty(), error: None }
    } else {
        let before = run_spec(env, exported, mode, stmts, (n - 1) as nat);
        if before.error is Some {
            before
        } else {
            let s = step_spec(before.env, before.exported, mode, stmts[n - 1]);
            RunView {
                env: s.env,
                exported: s.exported,
                values: match s.result {
                    Ok(Some(v)) => before.values.push(v),
                    _ => before.values,
                },
                error: match s.result {
                    Err(e) => Some(e),
                    _ => None,
                },
            }
        }
    }
}

/// No statement of `stmts` asks for a module.
pub open spec fn resolver_free(stmts: Seq<StatementView>) -> bool {
    forall|i: int| 0 <= i < stmts.len() ==> !needs_resolver(#[trigger] stmts[i])
}

/// The executable outcome `r` of a statement is the modelled one.
pub open spec fn step_agrees(
    r: Result<Option<Term>, CompileError>,
    want: Result<Option<TermView>, ErrorView>,
) -> bool {
    match r {
        Ok(Some(v)) => want == Ok::<Option<TermView>, ErrorView>(Some(v@)),
        Ok(None) => want == Ok::<Option<TermView>, ErrorView>(None),
        Err(e) => want == Err::<Option<TermView>, ErrorView>(e@),
    }
}

fn run_meta_term(env: &MetaEnv, mt: &MetaTerm, depth: usize) -> (r: Result<Term, CompileError>)
    ensures
        match r {
            Ok(v) => run_term(env@, mt@, depth as nat) == Ok::<TermView, ErrorView>(v@),
            Err(e) => run_term(env@, mt@, depth as nat) == Err::<TermView, ErrorView>(e@),
        },
{
    match transform_to_core(env, mt) {
        Err(e) => Err(e),
        Ok(c) => eval_bounded(&c, depth),
    }
}

/// Once a run of statements has met an error it stays as it is.
proof fn lemma_run_stops(
    env: Map<Seq<char>, TermView>,
    exported: Map<Seq<char>, TermView>,
    mode: RunMode,
    stmts: Seq<StatementView>,
    n: nat,
    m: nat,
)
    requires
        n <= m,
        run_spec(env, exported, mode, stmts, n).error is Some,
    ensures
        run_spec(env, exported, mode, stmts, m) == run_spec(env, exported, mode, stmts, n),
    decreases m,
{
    if n < m {
        lemma_run_stops(env, exported, mode, stmts, n, (m - 1) as nat);
    }
}

/// Once an export has met an error it stays as it is.
proof fn lemma_export_stops(
    env: Map<Seq<char>, TermView>,
    exported: Map<Seq<char>, TermView>,
    info: Option<FileInfo>,
    items: Seq<ExportView>,
    n: nat,
    m: nat,
)
    requires
        n <= m,
        export_names(env, exported, info, items, n).1 is Some,
    ensures
        export_names(env, exported, info, items, m) == export_names(env, exported, info, items, n),
    decreases m,
{
    if n < m {
        lemma_export_stops(env, exported, info, items, n, (m - 1) as nat);
    }
}

/// Runs the text of a module that the resolver has found, and gives what
/// the module exports. The module starts from empty environments; its
/// own imports may nest `depth` deep.
pub fn run_module<R: ContentResolver>(
    resolver: &mut R,
    name: &String,
    found: ContentResolveResult,
    mode: RunMode,
    depth: usize,
) -> (r: Result<MetaEnv, CompileError>)
    ensures
        module_agrees(r, *name, found.content@, mode),
    decreases depth, 3nat,
{
    let chars = chars_of(found.content.as_str());
    let mut p = MetaParser::new(name.clone(), chars);
    let stmt_vec = match p.parse_stmt_vec() {
        Ok(v) => v,
        Err(e) => {
            return Err(e);
        },
    };
    let mut env = MetaEnv::new();
    let mut exported = MetaEnv::new();
    match run_statements(
        &mut env,
        &mut exported,
        &found.filepath,
        mode,
        resolver,
        &stmt_vec,
        depth,
    ) {
        Ok(_) => Ok(exported),
        Err(e) => Err(e),
    }
}

/// Asks the resolver for the module `to_resolve` and runs it; at depth zero the import fails.
fn import_module<R: ContentResolver>(
    resolver: &mut R,
    filepath: &Option<PathBuf>,
    mode: RunMode,
    to_resolve: &String,
    depth: usize,
) -> (r: Result<MetaEnv, CompileError>)
    ensures
        depth == 0 ==> r is Err && r->Err_0@ == fault_at(None, "imports nest too deep"@),
    decreases depth, 0nat,
{
    if depth == 0 {
        return Err(CompileError::at(None, "imports nest too deep"));
    }
    let answer = resolver.resolve(filepath, to_resolve);
    module_from_answer(resolver, to_resolve, answer, mode, depth - 1)
}

/// The message for a module that the resolver did not find; `reason` is
/// what the resolver said.
pub open spec fn resolve_error_message(reason: Seq<char>) -> Seq<char> {
    "resolve error: "@ + reason
}

/// The outcome `r` of running the module text `content` of the module
/// `name` is the modelled one: the parse error of the text, or, where no
/// statement of the text asks for a module, its exports or the error that
/// stopped it. Where a statement asks for a module, the statements before it
/// run as modelled: an error among them is the outcome, and what they export
/// is among the exports.
pub open spec fn module_agrees(
    r: Result<MetaEnv, CompileError>,
    name: String,
    content: Seq<char>,
    mode: RunMode,
) -> bool {
    match parse_spec(name, content) {
        Err(e) => r is Err && r->Err_0@ == e,
        Ok(stmts) => (resolver_free(stmts) ==> {
            let want = run_spec(Map::empty(), Map::empty(), mode, stmts, stmts.len());
            match r {
                Ok(exported) => want.error is None && exported@ == want.exported,
                Err(e) => want.error == Some(e@),
            }
        }) && forall|k: nat| #[trigger]
            first_asking(stmts, k) ==> {
                let head = run_spec(Map::empty(), Map::empty(), mode, stmts, k);
                if head.error is Some {
                    r is Err && r->Err_0@ == head.error->0
                } else {
                    r is Ok ==> head.exported.dom().subset_of(r->Ok_0@.dom())
                }
            },
    }
}

/// What an import makes of the resolver's answer for the module
/// `to_resolve`: a refusal becomes an error without position that passes the
/// resolver's reason on; a text is run as a module of its own.
pub fn module_from_answer<R: ContentResolver>(
    resolver: &mut R,
    to_resolve: &String,
    answer: Result<ContentResolveResult, String>,
    mode: RunMode,
    depth: usize,
) -> (r: Result<MetaEnv, CompileError>)
    ensures
        match answer {
            Err(reason) => r is Err && r->Err_0@ == fault_at(
                None,
                resolve_error_message(reason@),
            ),
            Ok(found) => module_agrees(r, *to_resolve, found.content@, mode),
        },
    decreases depth, 4nat,
{
    match answer {
        Ok(found) => run_module(resolver, to_resolve, found, mode, depth),
        Err(e) => {
            let mut text: Vec<char> = Vec::new();
            push_str(&mut text, "resolve error: ");
            push_str(&mut text, e.as_str());
            assert(text@ =~= resolve_error_message(e@));
            Err(CompileError::with_chars(None, &text))
        },
    }
}

/// Adds what a module gave to the environment `env`: the bindings of its
/// exports, which replace earlier bindings of the same names. The error of a
/// module that failed is passed on and leaves the environment as it is.
pub fn absorb_module(env: &mut MetaEnv, outcome: Result<MetaEnv, CompileError>) -> (r: Result<
    (),
    CompileError,
>)
    ensures
        match outcome {
            Ok(m) => r is Ok && final(env)@ == old(env)@.union_prefer_right(m@),
            Err(e) => r == Err::<(), CompileError>(e) && final(env)@ == old(env)@,
        },
{
    match outcome {
        Ok(m) => {
            env.absorb(&m);
            Ok(())
        },
        Err(e) => Err(e),
    }
}

/// `k` is where the first path stands among `items`: the items before it
/// are names.
pub open spec fn first_path(items: Seq<ExportView>, k: nat) -> bool {
    k <= items.len() && only_names(items.subrange(0, k as int)) && (k < items.len()
        ==> items[k as int] is Path)
}

/// What is known of an export whatever the resolver answers: the names
/// before the first path are exported in order. Where one of them is not
/// defined, the export ends there with its error; otherwise what they
/// exported is among the exports `after`.
pub open spec fn export_head_agrees(
    env: Map<Seq<char>, TermView>,
    exported: Map<Seq<char>, TermView>,
    info: Option<FileInfo>,
    items: Seq<ExportView>,
    after: Map<Seq<char>, TermView>,
    r: Result<Option<Term>, CompileError>,
) -> bool {
    forall|k: nat| #[trigger]
        first_path(items, k) ==> {
            let head = export_names(env, exported, info, items, k);
            if head.1 is Some {
                r is Err && r->Err_0@ == head.1->0 && after == head.0
            } else {
                head.0.dom().subset_of(after.dom())
            }
        }
}

/// `k` is where the first statement that asks for a module stands among
/// `stmts`.
pub open spec fn first_asking(stmts: Seq<StatementView>, k: nat) -> bool {
    k <= stmts.len() && resolver_free(stmts.subrange(0, k as int)) && (k < stmts.len()
        ==> needs_resolver(stmts[k as int]))
}

/// What is known of a run whatever the resolver answers: the statements
/// before the first that asks for a module run as `run_spec` says. Where one
/// of them fails, the run ends there with its error and its environments;
/// otherwise their definitions and exports are among those after the run,
/// and their values come first among the values of the run.
pub open spec fn run_head_agrees(
    env: Map<Seq<char>, TermView>,
    exported: Map<Seq<char>, TermView>,
    mode: RunMode,
    stmts: Seq<StatementView>,
    env_after: Map<Seq<char>, TermView>,
    exported_after: Map<Seq<char>, TermView>,
    r: Result<Vec<Term>, CompileError>,
) -> bool {
    forall|k: nat| #[trigger]
        first_asking(stmts, k) ==> {
            let head = run_spec(env, exported, mode, stmts, k);
            if head.error is Some {
                r is Err && r->Err_0@ == head.error->0 && env_after == head.env && exported_after
                    == head.exported
            } else {
                head.env.dom().subset_of(env_after.dom()) && head.exported.dom().subset_of(
                    exported_after.dom(),
                ) && (r is Ok ==> head.values.is_prefix_of(view_seq(r->Ok_0@)))
            }
        }
}

/// The definitions of a recursive group add to the environment and take
/// nothing from it.
pub proof fn lemma_group_grows(
    env: Map<Seq<char>, TermView>,
    info: Option<FileInfo>,
    funs: Seq<DefRecFunView>,
    n: nat,
)
    ensures
        env.dom().subset_of(define_group(env, info, funs, n).0.dom()),
    decreases n,
{
    if n > 0 {
        lemma_group_grows(env, info, funs, (n - 1) as nat);
    }
}

/// The start of a run of names is a run of names.
proof fn lemma_names_prefix(items: Seq<ExportView>, a: int, b: int)
    requires
        0 <= a <= b <= items.len(),
        only_names(items.subrange(0, b)),
    ensures
        only_names(items.subrange(0, a)),
        forall|j: int| 0 <= j < b ==> #[trigger] items[j] is Var,
{
    assert forall|j: int| 0 <= j < b implies #[trigger] items[j] is Var by {
        assert(items.subrange(0, b)[j] is Var);
    }
    assert forall|j: int| 0 <= j < a implies #[trigger] items.subrange(0, a)[j] is Var by {
        assert(items[j] is Var);
    }
}

/// The start of a run of statements that ask for no module asks for none.
proof fn lemma_free_prefix(stmts: Seq<StatementView>, a: int, b: int)
    requires
        0 <= a <= b <= stmts.len(),
        resolver_free(stmts.subrange(0, b)),
    ensures
        resolver_free(stmts.subrange(0, a)),
        forall|j: int| 0 <= j < b ==> !needs_resolver(#[trigger] stmts[j]),
{
    assert forall|j: int| 0 <= j < b implies !needs_resolver(#[trigger] stmts[j]) by {
        assert(!needs_resolver(stmts.subrange(0, b)[j]));
    }
    assert forall|j: int| 0 <= j < a implies !needs_resolver(
        #[trigger] stmts.subrange(0, a)[j],
    ) by {
        assert(!needs_resolver(stmts[j]));
    }
}

/// Runs one statement against the definitions `env` and the exports
/// `exported`.
#[verifier::loop_isolation(false)]
pub fn eval_statement<R: ContentResolver>(
    env: &mut MetaEnv,
    exported: &mut MetaEnv,
    filepath: &Option<PathBuf>,
    mode: RunMode,
    resolver: &mut R,
    stmt: &MetaStatement,
    depth: usize,
) -> (r: Result<Option<Term>, CompileError>)
    ensures
        !needs_resolver(stmt@) ==> {
            let want = step_spec(old(env)@, old(exported)@, mode, stmt@);
            final(env)@ == want.env && final(exported)@ == want.exported && step_agrees(
                r,
                want.result,
            )
        },
        !(stmt is Export) ==> final(exported)@ == old(exported)@,
        stmt is Export ==> final(env)@ == old(env)@,
        stmt is Import || stmt is Export ==> !(r is Ok && r->Ok_0 is Some),
        old(env)@.dom().subset_of(final(env)@.dom()),
        old(exported)@.dom().subset_of(final(exported)@.dom()),
        stmt@ matches StatementView::Export(info, items) ==> export_head_agrees(
            old(env)@,
            old(exported)@,
            info,
            items,
            final(exported)@,
            r,
        ),
        stmt@ matches StatementView::Import(_, paths) ==> paths.len() > 0 && depth == 0 ==> r is Err
            && r->Err_0@ == fault_at(None, "imports nest too deep"@) && final(env)@ == old(env)@,
    decreases depth, 1nat,
{
    match stmt {
        MetaStatement::Def(_, name, term) => {
            match transform_to_core(env, term) {
                Ok(c) => {
                    env.insert(name.clone(), c);
                    Ok(None)
                },
                Err(e) => Err(e),
            }
        },
        MetaStatement::DefRec(info, fun_vec) => {
            proof {
                lemma_group_grows(old(env)@, *info, funs_view(fun_vec@), fun_vec@.len());
            }
            match define_rec(env, info, fun_vec) {
                Ok(_) => Ok(None),
                Err(e) => Err(e),
            }
        },
        MetaStatement::Term(_, mt) => {
            match run_meta_term(env, mt, mode.depth) {
                Ok(v) => Ok(Some(v)),
                Err(e) => Err(e),
            }
        },
        MetaStatement::Assert(info, mt) => {
            if mode.do_assert {
                match run_meta_term(env, mt, mode.depth) {
                    Err(e) => Err(e),
                    Ok(v) => match v {
                        Term::Bool(_, true) => Ok(None),
                        _ => Err(CompileError::at(clone_info(info), "assertion failed")),
                    },
                }
            } else {
                Ok(None)
            }
        },
        MetaStatement::Import(_, import) => {
            let mut i: usize = 0;
            while i < import.len()
                invariant
                    i <= import.len(),
                    exported@ == old(exported)@,
                    i == 0 ==> env@ == old(env)@,
                    depth == 0 ==> i == 0,
                    old(env)@.dom().subset_of(env@.dom()),
                decreases import.len() - i,
            {
                let outcome = import_module(resolver, filepath, mode, &import[i], depth);
                match absorb_module(env, outcome) {
                    Ok(_) => {},
                    Err(e) => {
                        return Err(e);
                    },
                }
                i += 1;
            }
            assert(names_view(import@).len() == import@.len());
            Ok(None)
        },
        MetaStatement::Export(info, export) => {
            let ghost items = exports_view(export@);
            let mut i: usize = 0;
            while i < export.len()
                invariant
                    i <= export.len(),
                    env@ == old(env)@,
                    old(exported)@.dom().subset_of(exported@.dom()),
                    items == exports_view(export@),
                    only_names(items.subrange(0, i as int)) ==> export_names(
                        env@,
                        old(exported)@,
                        *info,
                        items,
                        i as nat,
                    ) == (exported@, None::<ErrorView>),
                    forall|k: nat|
                        k <= i && #[trigger] first_path(items, k) ==> export_names(
                            env@,
                            old(exported)@,
                            *info,
                            items,
                            k,
                        ).1 is None && export_names(
                            env@,
                            old(exported)@,
                            *info,
                            items,
                            k,
                        ).0.dom().subset_of(exported@.dom()),
                decreases export.len() - i,
            {
                let ghost at_entry = exported@;
                proof {
                    if only_names(items.subrange(0, i + 1)) {
                        assert forall|j: int| 0 <= j < i implies #[trigger] items.subrange(
                            0,
                            i as int,
                        )[j] is Var by {
                            assert(items.subrange(0, i + 1)[j] is Var);
                        }
                        assert(items.subrange(0, i + 1)[i as int] is Var);
                    }
                }
                match &export[i] {
                    MetaExport::Var(v) => match env.get(v) {
                        Some(val) => {
                            exported.insert(v.clone(), val.clone());
                        },
                        None => {
                            let mut text: Vec<char> = Vec::new();
                            push_str(&mut text, "variable \"");
                            push_str(&mut text, v.as_str());
                            push_str(&mut text, "\" cannot be exported. not found");
                            assert(text@ =~= export_message(v@));
                            proof {
                                if only_names(items) {
                                    assert forall|j: int| 0 <= j < i implies #[trigger] items.subrange(
                                        0,
                                        i as int,
                                    )[j] is Var by {
                                        assert(items[j] is Var);
                                    }
                                    lemma_export_stops(
                                        env@,
                                        old(exported)@,
                                        *info,
                                        items,
                                        (i + 1) as nat,
                                        items.len(),
                                    );
                                }
                            }
                            let failure = CompileError::with_chars(clone_info(info), &text);
                            proof {
                                assert forall|k: nat| #[trigger] first_path(items, k) implies ({
                                    let head = export_names(
                                        env@,
                                        old(exported)@,
                                        *info,
                                        items,
                                        k,
                                    );
                                    if head.1 is Some {
                                        failure@ == head.1->0 && exported@ == head.0
                                    } else {
                                        head.0.dom().subset_of(exported@.dom())
                                    }
                                }) by {
                                    if k > i {
                                        lemma_names_prefix(items, i as int, k as int);
                                        lemma_export_stops(
                                            env@,
                                            old(exported)@,
                                            *info,
                                            items,
                                            (i + 1) as nat,
                                            k,
                                        );
                                    }
                                }
                            }
                            return Err(failure);
                        },
                    },
                    MetaExport::Path(path) => {
                        assert(!(items.subrange(0, i + 1)[i as int] is Var));
                        assert(items[i as int] is Path);
                        proof {
                            assert forall|k: nat| #[trigger] first_path(items, k) implies k
                                <= i by {
                                if k > i {
                                    lemma_names_prefix(items, i as int, k as int);
                                }
                            }
                        }
                        let outcome = import_module(resolver, filepath, mode, path, depth);
                        match absorb_module(exported, outcome) {
                            Ok(_) => {},
                            Err(e) => {
                                return Err(e);
                            },
                        }
                    },
                }
                i += 1;
                proof {
                    assert(at_entry.dom().subset_of(exported@.dom()));
                }
            }
            assert(items.subrange(0, export.len() as int) =~= items);
            Ok(None)
        },
    }
}

/// Runs the statements of `stmt_vec` in order and gives the values of the
/// terms among them; the first error stops the run.
#[verifier::loop_isolation(false)]
pub fn run_statements<R: ContentResolver>(
    env: &mut MetaEnv,
    exported: &mut MetaEnv,
    filepath: &Option<PathBuf>,
    mode: RunMode,
    resolver: &mut R,
    stmt_vec: &Vec<MetaStatement>,
    depth: usize,
) -> (r: Result<Vec<Term>, CompileError>)
    ensures
        resolver_free(stmts_view(stmt_vec@)) ==> {
            let want = run_spec(
                old(env)@,
                old(exported)@,
                mode,
                stmts_view(stmt_vec@),
                stmt_vec@.len(),
            );
            final(env)@ == want.env && final(exported)@ == want.exported && match r {
                Ok(vs) => want.error is None && view_seq(vs@) == want.values,
                Err(e) => want.error == Some(e@),
            }
        },
        run_head_agrees(
            old(env)@,
            old(exported)@,
            mode,
            stmts_view(stmt_vec@),
            final(env)@,
            final(exported)@,
            r,
        ),
    decreases depth, 2nat,
{
    let ghost stmts = stmts_view(stmt_vec@);
    let mut value_vec: Vec<Term> = Vec::new();
    let mut i: usize = 0;
    assert(view_seq(value_vec@) =~= Seq::<TermView>::empty());
    while i < stmt_vec.len()
        invariant
            i <= stmt_vec.len(),
            stmts == stmts_view(stmt_vec@),
            resolver_free(stmts.subrange(0, i as int)) ==> run_spec(
                old(env)@,
                old(exported)@,
                mode,
                stmts,
                i as nat,
            ) == (RunView {
                env: env@,
                exported: exported@,
                values: view_seq(value_vec@),
                error: None,
            }),
            forall|k: nat|
                k <= i && #[trigger] first_asking(stmts, k) ==> {
                    let head = run_spec(old(env)@, old(exported)@, mode, stmts, k);
                    head.error is None && head.env.dom().subset_of(env@.dom())
                        && head.exported.dom().subset_of(exported@.dom())
                        && head.values.is_prefix_of(view_seq(value_vec@))
                },
        decreases stmt_vec.len() - i,
    {
        assert(stmts[i as int] == stmt_vec@[i as int]@);
        let ghost env_before = env@;
        let ghost exported_before = exported@;
        let ghost values_before = view_seq(value_vec@);
        proof {
            if resolver_free(stmts.subrange(0, i + 1)) {
                lemma_free_prefix(stmts, i as int, i + 1);
            }
        }
        match eval_statement(env, exported, filepath, mode, resolver, &stmt_vec[i], depth) {
            Ok(Some(v)) => {
                let ghost before = view_seq(value_vec@);
                value_vec.push(v);
                assert(view_seq(value_vec@) =~= before.push(v@));
            },
            Ok(None) => {},
            Err(e) => {
                proof {
                    if resolver_free(stmts) {
                        assert(stmts.subrange(0, stmts.len() as int) =~= stmts);
                        lemma_free_prefix(stmts, i + 1, stmts.len() as int);
                        lemma_run_stops(
                            old(env)@,
                            old(exported)@,
                            mode,
                            stmts,
                            (i + 1) as nat,
                            stmts.len(),
                        );
                    }
                    assert forall|k: nat| #[trigger] first_asking(stmts, k) implies ({
                        let head = run_spec(old(env)@, old(exported)@, mode, stmts, k);
                        if head.error is Some {
                            e@ == head.error->0 && env@ == head.env && exported@ == head.exported
                        } else {
                            head.env.dom().subset_of(env@.dom()) && head.exported.dom().subset_of(
                                exported@.dom(),
                            )
                        }
                    }) by {
                        if k > i {
                            lemma_free_prefix(stmts, i + 1, k as int);
                            lemma_run_stops(
                                old(env)@,
                                old(exported)@,
                                mode,
                                stmts,
                                (i + 1) as nat,
                                k,
                            );
                        }
                    }
                }
                return Err(e);
            },
        }
        i += 1;
        proof {
            assert(env_before.dom().subset_of(env@.dom()));
            assert(exported_before.dom().subset_of(exported@.dom()));
            assert(values_before.is_prefix_of(view_seq(value_vec@)));
            assert forall|k: nat| k <= i && #[trigger] first_asking(stmts, k) implies ({
                let head = run_spec(old(env)@, old(exported)@, mode, stmts, k);
                head.error is None && head.env.dom().subset_of(env@.dom())
                    && head.exported.dom().subset_of(exported@.dom())
                    && head.values.is_prefix_of(view_seq(value_vec@))
            }) by {
                let head = run_spec(old(env)@, old(exported)@, mode, stmts, k);
                if k < i {
                    assert(head.values.is_prefix_of(values_before));
                }
            }
        }
    }
    proof {
        if resolver_free(stmts) {
            assert(stmts.subrange(0, stmts.len() as int) =~= stmts);
        }
    }
    Ok(value_vec)
}

/// A driver: the definitions and exports of one statement stream, and the
/// resolver that its imports ask.
pub struct MetaEvaluator<R: ContentResolver> {
    pub env: MetaEnv,
    pub exported: MetaEnv,
    pub filepath: Option<PathBuf>,
    pub do_assert: bool,
    /// How deep the reduction of a term may nest.
    pub depth: usize,
    /// How deep imports may nest.
    pub import_depth: usize,
    pub resolver: R,
}

impl<R: ContentResolver> MetaEvaluator<R> {
    /// How this driver runs statements.
    pub open spec fn mode(&self) -> RunMode {
        RunMode { do_assert: self.do_assert, depth: self.depth }
    }

    /// A driver with empty environments, no file path, assertions off and
    /// the default depths of reduction and of imports.
    pub fn new(resolver: R) -> (r: Self)
        ensures
            r.env@ == Map::<Seq<char>, TermView>::empty(),
            r.exported@ == Map::<Seq<char>, TermView>::empty(),
            r.filepath is None,
            !r.do_assert,
            r.depth == DEFAULT_DEPTH,
            r.import_depth == IMPORT_DEPTH,
            r.resolver == resolver,
    {
        MetaEvaluator {
            env: MetaEnv::new(),
            exported: MetaEnv::new(),
            filepath: None,
            do_assert: false,
            depth: DEFAULT_DEPTH,
            import_depth: IMPORT_DEPTH,
            resolver,
        }
    }

    /// Replaces the resolver.
    pub fn set_resolver(&mut self, resolver: R)
        ensures
            final(self).resolver == resolver,
            final(self).env == old(self).env,
            final(self).exported == old(self).exported,
            final(self).filepath == old(self).filepath,
            final(self).do_assert == old(self).do_assert,
            final(self).depth == old(self).depth,
            final(self).import_depth == old(self).import_depth,
    {
        self.resolver = resolver;
    }

    /// Runs one statement. A term gives its value, every other statement
    /// nothing.
    pub fn eval(&mut self, stmt: &MetaStatement) -> (r: Result<Option<Term>, CompileError>)
        ensures
            final(self).do_assert == old(self).do_assert,
            final(self).depth == old(self).depth,
            final(self).import_depth == old(self).import_depth,
            final(self).filepath == old(self).filepath,
            !needs_resolver(stmt@) ==> {
                let want = step_spec(old(self).env@, old(self).exported@, old(self).mode(), stmt@);
                final(self).env@ == want.env && final(self).exported@ == want.exported
                    && step_agrees(r, want.result)
            },
            !(stmt is Export) ==> final(self).exported@ == old(self).exported@,
            stmt is Export ==> final(self).env@ == old(self).env@,
            old(self).env@.dom().subset_of(final(self).env@.dom()),
            old(self).exported@.dom().subset_of(final(self).exported@.dom()),
            stmt@ matches StatementView::Export(info, items) ==> export_head_agrees(
                old(self).env@,
                old(self).exported@,
                info,
                items,
                final(self).exported@,
                r,
            ),
            stmt@ matches StatementView::Import(_, paths) ==> paths.len() > 0 && old(self).import_depth == 0 ==> r is Err && r->Err_0@ == fault_at(
                None,
                "imports nest too deep"@,
            ) && final(self).env@ == old(self).env@,
    {
        eval_statement(
            &mut self.env,
            &mut self.exported,
            &self.filepath,
            RunMode { do_assert: self.do_assert, depth: self.depth },
            &mut self.resolver,
            stmt,
            self.import_depth,
        )
    }

    /// Runs the statements in order and gives the values of the terms among
    /// them; the first error stops the run.
    pub fn eval_vec(&mut self, stmt_vec: &Vec<MetaStatement>) -> (r: Result<Vec<Term>, CompileError>)
        ensures
            final(self).do_assert == old(self).do_assert,
            final(self).depth == old(self).depth,
            final(self).import_depth == old(self).import_depth,
            final(self).filepath == old(self).filepath,
            resolver_free(stmts_view(stmt_vec@)) ==> {
                let want = run_spec(
                    old(self).env@,
                    old(self).exported@,
                    old(self).mode(),
                    stmts_view(stmt_vec@),
                    stmt_vec@.len(),
                );
                final(self).env@ == want.env && final(self).exported@ == want.exported && match r {
                    Ok(vs) => want.error is None && view_seq(vs@) == want.values,
                    Err(e) => want.error == Some(e@),
                }
            },
            run_head_agrees(
                old(self).env@,
                old(self).exported@,
                old(self).mode(),
                stmts_view(stmt_vec@),
                final(self).env@,
                final(self).exported@,
                r,
            ),
    {
        run_statements(
            &mut self.env,
            &mut self.exported,
            &self.filepath,
            RunMode { do_assert: self.do_assert, depth: self.depth },
            &mut self.resolver,
            stmt_vec,
            self.import_depth,
        )
    }
}

} // verus!
