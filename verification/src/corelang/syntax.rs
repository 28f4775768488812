//! The core term algebra: terms, their mathematical model, De Bruijn
//! shifting, substitution and structural equivalence.
use vstd::prelude::*;
use crate::common::fileinfo::{FileInfo, clone_info};
use crate::common::natural::Natural;

verus! {

/// A term of the core language. Every variant carries optional position
/// metadata first.
#[derive(Debug)]
pub enum Term {
    /// (operator, operands)
    Apply(Option<FileInfo>, Box<Term>, Vec<Term>),
    /// (number of arguments, body)
    Lambda(Option<FileInfo>, usize, Box<Term>),
    Quote(Option<FileInfo>, Box<Term>),
    /// (lambdas crossed to the binder, argument position in the binder)
    Variable(Option<FileInfo>, usize, usize),
    Eq(Option<FileInfo>),
    /// (condition, then-clause, else-clause)
    If(Option<FileInfo>, Box<Term>, Box<Term>, Box<Term>),
    Cons(Option<FileInfo>, Box<Term>, Box<Term>),
    Nil(Option<FileInfo>),
    Number(Option<FileInfo>, Natural),
    Bool(Option<FileInfo>, bool),
    Eval(Option<FileInfo>),
    Add(Option<FileInfo>),
    Sub(Option<FileInfo>),
    Mul(Option<FileInfo>),
    Div(Option<FileInfo>),
    Rem(Option<FileInfo>),
    Car(Option<FileInfo>),
    Cdr(Option<FileInfo>),
}

/// The primitive operators.
pub enum Operator {
    Eq,
    Eval,
    Add,
    Sub,
    Mul,
    Div,
    Rem,
    Car,
    Cdr,
}

/// What a term is, apart from its position metadata.
pub enum Shape {
    Apply(Box<TermView>, Seq<TermView>),
    Lambda(nat, Box<TermView>),
    Quote(Box<TermView>),
    Variable(nat, nat),
    If(Box<TermView>, Box<TermView>, Box<TermView>),
    Cons(Box<TermView>, Box<TermView>),
    Nil,
    Number(nat),
    Bool(bool),
    Atom(Operator),
}

/// The mathematical model of a term.
pub struct TermView {
    pub info: Option<FileInfo>,
    pub shape: Shape,
}

/// The models of the terms in `ts`, in order.
pub open spec fn view_seq(ts: Seq<Term>) -> Seq<TermView>
    decreases ts,
{
    Seq::new(
        ts.len(),
        |i: int|
            if 0 <= i < ts.len() {
                ts[i].model()
            } else {
                arbitrary()
            },
    )
}

impl Term {
    /// The mathematical model of the term.
    pub open spec fn model(&self) -> TermView
        decreases self,
    {
        match self {
            Term::Apply(info, op, args) => TermView {
                info: *info,
                shape: Shape::Apply(Box::new(op.model()), view_seq(args@)),
            },
            Term::Lambda(info, n, body) => TermView {
                info: *info,
                shape: Shape::Lambda(*n as nat, Box::new(body.model())),
            },
            Term::Quote(info, t) => TermView { info: *info, shape: Shape::Quote(Box::new(t.model())) },
            Term::Variable(info, d, s) => TermView {
                info: *info,
                shape: Shape::Variable(*d as nat, *s as nat),
            },
            Term::Eq(info) => TermView { info: *info, shape: Shape::Atom(Operator::Eq) },
            Term::If(info, c, t, e) => TermView {
                info: *info,
                shape: Shape::If(Box::new(c.model()), Box::new(t.model()), Box::new(e.model())),
            },
            Term::Cons(info, h, t) => TermView {
                info: *info,
                shape: Shape::Cons(Box::new(h.model()), Box::new(t.model())),
            },
            Term::Nil(info) => TermView { info: *info, shape: Shape::Nil },
            Term::Number(info, n) => TermView { info: *info, shape: Shape::Number(n@) },
            Term::Bool(info, b) => TermView { info: *info, shape: Shape::Bool(*b) },
            Term::Eval(info) => TermView { info: *info, shape: Shape::Atom(Operator::Eval) },
            Term::Add(info) => TermView { info: *info, shape: Shape::Atom(Operator::Add) },
            Term::Sub(info) => TermView { info: *info, shape: Shape::Atom(Operator::Sub) },
            Term::Mul(info) => TermView { info: *info, shape: Shape::Atom(Operator::Mul) },
            Term::Div(info) => TermView { info: *info, shape: Shape::Atom(Operator::Div) },
            Term::Rem(info) => TermView { info: *info, shape: Shape::Atom(Operator::Rem) },
            Term::Car(info) => TermView { info: *info, shape: Shape::Atom(Operator::Car) },
            Term::Cdr(info) => TermView { info: *info, shape: Shape::Atom(Operator::Cdr) },
        }
    }
}

impl View for Term {
    type V = TermView;

    open spec fn view(&self) -> TermView {
        self.model()
    }
}

/// `shift_spec` on each term of `ts`.
pub open spec fn shift_seq(ts: Seq<TermView>, c: nat, d: nat) -> Seq<TermView>
    decreases ts,
{
    Seq::new(
        ts.len(),
        |i: int|
            if 0 <= i < ts.len() {
                shift_spec(ts[i], c, d)
            } else {
                arbitrary()
            },
    )
}

/// `t` with every variable of depth at least `c` moved `d` lambdas up; the
/// cutoff grows by one under each lambda.
pub open spec fn shift_spec(t: TermView, c: nat, d: nat) -> TermView
    decreases t,
{
    TermView {
        info: t.info,
        shape: match t.shape {
            Shape::Apply(op, args) => Shape::Apply(
                Box::new(shift_spec(*op, c, d)),
                shift_seq(args, c, d),
            ),
            Shape::Lambda(n, body) => Shape::Lambda(n, Box::new(shift_spec(*body, c + 1, d))),
            Shape::Quote(q) => Shape::Quote(Box::new(shift_spec(*q, c, d))),
            Shape::Variable(v, s) => Shape::Variable(
                if v < c {
                    v
                } else {
                    v + d
                },
                s,
            ),
            Shape::If(a, b, e) => Shape::If(
                Box::new(shift_spec(*a, c, d)),
                Box::new(shift_spec(*b, c, d)),
                Box::new(shift_spec(*e, c, d)),
            ),
            Shape::Cons(h, tl) => Shape::Cons(
                Box::new(shift_spec(*h, c, d)),
                Box::new(shift_spec(*tl, c, d)),
            ),
            other => other,
        },
    }
}


/// Every variable depth of `t` fits a machine word.
pub open spec fn index_bounded(t: TermView) -> bool
    decreases t,
{
    match t.shape {
        Shape::Apply(op, args) => index_bounded(*op) && forall|i: int|
            0 <= i < args.len() ==> index_bounded(#[trigger] args[i]),
        Shape::Lambda(_, body) => index_bounded(*body),
        Shape::Quote(q) => index_bounded(*q),
        Shape::Variable(v, _) => v <= usize::MAX,
        Shape::If(a, b, e) => index_bounded(*a) && index_bounded(*b) && index_bounded(*e),
        Shape::Cons(h, tl) => index_bounded(*h) && index_bounded(*tl),
        _ => true,
    }
}

/// `t` with each variable bound at `level` replaced by the value at its slot
/// (left as it is where `values` has no such slot). Under a lambda the level
/// grows by one and every value is shifted up by one.
pub open spec fn substitute_spec(t: TermView, level: nat, values: Seq<TermView>) -> TermView
    decreases t,
{
    match t.shape {
        Shape::Variable(v, s) => if v == level && s < values.len() {
            values[s as int]
        } else {
            t
        },
        Shape::Apply(op, args) => TermView {
            info: t.info,
            shape: Shape::Apply(
                Box::new(substitute_spec(*op, level, values)),
                Seq::new(
                    args.len(),
                    |i: int|
                        if 0 <= i < args.len() {
                            substitute_spec(args[i], level, values)
                        } else {
                            arbitrary()
                        },
                ),
            ),
        },
        Shape::Lambda(n, body) => TermView {
            info: t.info,
            shape: Shape::Lambda(
                n,
                Box::new(substitute_spec(*body, level + 1, shift_seq(values, 0, 1))),
            ),
        },
        Shape::Quote(q) => TermView {
            info: t.info,
            shape: Shape::Quote(Box::new(substitute_spec(*q, level, values))),
        },
        Shape::If(a, b, e) => TermView {
            info: t.info,
            shape: Shape::If(
                Box::new(substitute_spec(*a, level, values)),
                Box::new(substitute_spec(*b, level, values)),
                Box::new(substitute_spec(*e, level, values)),
            ),
        },
        Shape::Cons(h, tl) => TermView {
            info: t.info,
            shape: Shape::Cons(
                Box::new(substitute_spec(*h, level, values)),
                Box::new(substitute_spec(*tl, level, values)),
            ),
        },
        _ => t,
    }
}

/// The substitution can be carried out: every variable bound at `level` has
/// a value at its slot, and the values stay within machine words when they
/// are shifted under the lambdas of `t`.
pub open spec fn substitutable(t: TermView, level: nat, values: Seq<TermView>) -> bool
    decreases t,
{
    match t.shape {
        Shape::Variable(v, s) => v == level ==> s < values.len(),
        Shape::Apply(op, args) => substitutable(*op, level, values) && forall|i: int|
            0 <= i < args.len() ==> substitutable(#[trigger] args[i], level, values),
        Shape::Lambda(_, body) => (forall|i: int|
            0 <= i < values.len() ==> index_bounded(#[trigger] shift_spec(values[i], 0, 1)))
            && substitutable(*body, level + 1, shift_seq(values, 0, 1)),
        Shape::Quote(q) => substitutable(*q, level, values),
        Shape::If(a, b, e) => substitutable(*a, level, values) && substitutable(
            *b,
            level,
            values,
        ) && substitutable(*e, level, values),
        Shape::Cons(h, tl) => substitutable(*h, level, values) && substitutable(
            *tl,
            level,
            values,
        ),
        _ => true,
    }
}

/// `erase` on each term of `ts`.
pub open spec fn erase_seq(ts: Seq<TermView>) -> Seq<TermView>
    decreases ts,
{
    Seq::new(
        ts.len(),
        |i: int|
            if 0 <= i < ts.len() {
                erase(ts[i])
            } else {
                arbitrary()
            },
    )
}

/// `t` with all position metadata removed, at every depth.
pub open spec fn erase(t: TermView) -> TermView
    decreases t,
{
    TermView {
        info: None,
        shape: match t.shape {
            Shape::Apply(op, args) => Shape::Apply(Box::new(erase(*op)), erase_seq(args)),
            Shape::Lambda(n, body) => Shape::Lambda(n, Box::new(erase(*body))),
            Shape::Quote(q) => Shape::Quote(Box::new(erase(*q))),
            Shape::If(a, b, e) => Shape::If(
                Box::new(erase(*a)),
                Box::new(erase(*b)),
                Box::new(erase(*e)),
            ),
            Shape::Cons(h, tl) => Shape::Cons(Box::new(erase(*h)), Box::new(erase(*tl))),
            other => other,
        },
    }
}

/// Structural equivalence: the two terms agree on everything but position
/// metadata.
pub open spec fn equiv_spec(a: TermView, b: TermView) -> bool {
    erase(a) == erase(b)
}

/// A copy of each term of `ts`.
pub fn clone_terms(ts: &Vec<Term>) -> (r: Vec<Term>)
    ensures
        view_seq(r@) == view_seq(ts@),
    decreases ts,
{
    let mut out: Vec<Term> = Vec::new();
    let mut i: usize = 0;
    while i < ts.len()
        invariant
            i <= ts.len(),
            out@.len() == i,
            forall|j: int| 0 <= j < i ==> (#[trigger] out@[j])@ == ts@[j]@,
        decreases ts.len() - i,
    {
        out.push(ts[i].clone());
        i += 1;
    }
    assert(view_seq(out@) =~= view_seq(ts@));
    out
}

impl Clone for Term {
    fn clone(&self) -> (r: Self)
        ensures
            r@ == self@,
        decreases self,
    {
        match self {
            Term::Apply(info, op, args) => Term::Apply(
                clone_info(info),
                Box::new((**op).clone()),
                clone_terms(args),
            ),
            Term::Lambda(info, n, body) => Term::Lambda(
                clone_info(info),
                *n,
                Box::new((**body).clone()),
            ),
            Term::Quote(info, t) => Term::Quote(clone_info(info), Box::new((**t).clone())),
            Term::Variable(info, d, s) => Term::Variable(clone_info(info), *d, *s),
            Term::Eq(info) => Term::Eq(clone_info(info)),
            Term::If(info, c, t, e) => Term::If(
                clone_info(info),
                Box::new((**c).clone()),
                Box::new((**t).clone()),
                Box::new((**e).clone()),
            ),
            Term::Cons(info, h, t) => Term::Cons(
                clone_info(info),
                Box::new((**h).clone()),
                Box::new((**t).clone()),
            ),
            Term::Nil(info) => Term::Nil(clone_info(info)),
            Term::Number(info, n) => Term::Number(clone_info(info), n.clone()),
            Term::Bool(info, b) => Term::Bool(clone_info(info), *b),
            Term::Eval(info) => Term::Eval(clone_info(info)),
            Term::Add(info) => Term::Add(clone_info(info)),
            Term::Sub(info) => Term::Sub(clone_info(info)),
            Term::Mul(info) => Term::Mul(clone_info(info)),
            Term::Div(info) => Term::Div(clone_info(info)),
            Term::Rem(info) => Term::Rem(clone_info(info)),
            Term::Car(info) => Term::Car(clone_info(info)),
            Term::Cdr(info) => Term::Cdr(clone_info(info)),
        }
    }
}

impl Term {
    /// The position metadata of the term.
    pub fn file_info(&self) -> (r: &Option<FileInfo>)
        ensures
            *r == self@.info,
    {
        match self {
            Term::Apply(info, _, _) => info,
            Term::Lambda(info, _, _) => info,
            Term::Quote(info, _) => info,
            Term::Variable(info, _, _) => info,
            Term::Eq(info) => info,
            Term::Cons(info, _, _) => info,
            Term::Nil(info) => info,
            Term::Number(info, _) => info,
            Term::Bool(info, _) => info,
            Term::Eval(info) => info,
            Term::If(info, _, _, _) => info,
            Term::Add(info) => info,
            Term::Sub(info) => info,
            Term::Mul(info) => info,
            Term::Div(info) => info,
            Term::Rem(info) => info,
            Term::Car(info) => info,
            Term::Cdr(info) => info,
        }
    }

    /// The term with its own position metadata replaced by `info`; the
    /// subterms keep theirs.
    pub fn with_info(self, info: Option<FileInfo>) -> (r: Term)
        ensures
            r@ == (TermView { info, shape: self@.shape }),
    {
        match self {
            Term::Apply(_, a, b) => Term::Apply(info, a, b),
            Term::Lambda(_, a, b) => Term::Lambda(info, a, b),
            Term::Quote(_, a) => Term::Quote(info, a),
            Term::Variable(_, a, b) => Term::Variable(info, a, b),
            Term::Eq(_) => Term::Eq(info),
            Term::Cons(_, a, b) => Term::Cons(info, a, b),
            Term::Nil(_) => Term::Nil(info),
            Term::Number(_, a) => Term::Number(info, a),
            Term::Bool(_, a) => Term::Bool(info, a),
            Term::Eval(_) => Term::Eval(info),
            Term::If(_, a, b, c) => Term::If(info, a, b, c),
            Term::Add(_) => Term::Add(info),
            Term::Sub(_) => Term::Sub(info),
            Term::Mul(_) => Term::Mul(info),
            Term::Div(_) => Term::Div(info),
            Term::Rem(_) => Term::Rem(info),
            Term::Car(_) => Term::Car(info),
            Term::Cdr(_) => Term::Cdr(info),
        }
    }

    /// A copy of the term whose own position metadata is what `f` makes of
    /// it.
    pub fn map_file_info<F>(&self, f: F) -> (r: Term) where
        F: FnOnce(Option<FileInfo>) -> Option<FileInfo>,

        requires
            f.requires((self@.info,)),
        ensures
            f.ensures((self@.info,), r@.info),
            r@.shape == self@.shape,
    {
        let copy = self.clone();
        let info = f(clone_info(self.file_info()));
        copy.with_info(info)
    }
}


/// The cutoff or level one lambda further in; `None` stands for a number
/// beyond every machine word.
fn step_in(c: Option<usize>, Ghost(cn): Ghost<nat>) -> (r: Option<usize>)
    requires
        tracks(c, cn),
    ensures
        tracks(r, cn + 1),
{
    match c {
        Some(x) => if x < usize::MAX {
            Some(x + 1)
        } else {
            None
        },
        None => None,
    }
}

/// The machine value `c` stands for the number `cn`.
pub open spec fn tracks(c: Option<usize>, cn: nat) -> bool {
    match c {
        Some(x) => cn == x,
        None => cn > usize::MAX,
    }
}

fn shift_terms(ts: &Vec<Term>, c: Option<usize>, Ghost(cn): Ghost<nat>, d: usize) -> (r: Option<
    Vec<Term>,
>)
    requires
        tracks(c, cn),
    ensures
        r is Some <==> forall|i: int|
            0 <= i < ts@.len() ==> index_bounded(#[trigger] shift_spec(ts@[i]@, cn, d as nat)),
        r is Some ==> view_seq(r->0@) == shift_seq(view_seq(ts@), cn, d as nat),
    decreases ts,
{
    let mut out: Vec<Term> = Vec::new();
    let mut i: usize = 0;
    while i < ts.len()
        invariant
            tracks(c, cn),
            i <= ts.len(),
            out@.len() == i,
            forall|j: int|
                0 <= j < i ==> index_bounded(#[trigger] shift_spec(ts@[j]@, cn, d as nat)),
            forall|j: int| 0 <= j < i ==> (#[trigger] out@[j])@ == shift_spec(ts@[j]@, cn, d as nat),
        decreases ts.len() - i,
    {
        match shift_within(&ts[i], c, Ghost(cn), d) {
            Some(t) => out.push(t),
            None => {
                return None;
            },
        }
        i += 1;
    }
    assert(view_seq(out@) =~= shift_seq(view_seq(ts@), cn, d as nat));
    Some(out)
}

fn shift_within(t: &Term, c: Option<usize>, Ghost(cn): Ghost<nat>, d: usize) -> (r: Option<Term>)
    requires
        tracks(c, cn),
    ensures
        r is Some <==> index_bounded(shift_spec(t@, cn, d as nat)),
        r is Some ==> r->0@ == shift_spec(t@, cn, d as nat),
    decreases t,
{
    match t {
        Term::Variable(info, v, a) => {
            let below = match c {
                Some(x) => *v < x,
                None => true,
            };
            if below {
                Some(Term::Variable(clone_info(info), *v, *a))
            } else if *v <= usize::MAX - d {
                Some(Term::Variable(clone_info(info), *v + d, *a))
            } else {
                None
            }
        },
        Term::Lambda(info, n, body) => {
            let inner = step_in(c, Ghost(cn));
            match shift_within(body, inner, Ghost(cn + 1), d) {
                Some(b) => Some(Term::Lambda(clone_info(info), *n, Box::new(b))),
                None => None,
            }
        },
        Term::Apply(info, op, args) => {
            let o = shift_within(op, c, Ghost(cn), d);
            let a = shift_terms(args, c, Ghost(cn), d);
            proof {
                let sa = shift_seq(view_seq(args@), cn, d as nat);
                assert forall|i: int| 0 <= i < args@.len() implies #[trigger] sa[i] == shift_spec(
                    args@[i]@,
                    cn,
                    d as nat,
                ) by {}
                if a is Some {
                    assert forall|i: int| 0 <= i < sa.len() implies index_bounded(
                        #[trigger] sa[i],
                    ) by {
                        assert(index_bounded(shift_spec(args@[i]@, cn, d as nat)));
                    }
                }
                assert(shift_spec(t@, cn, d as nat).shape == Shape::Apply(
                    Box::new(shift_spec(op@, cn, d as nat)),
                    sa,
                ));
                if index_bounded(shift_spec(t@, cn, d as nat)) {
                    assert forall|i: int| 0 <= i < args@.len() implies index_bounded(
                        #[trigger] shift_spec(args@[i]@, cn, d as nat),
                    ) by {
                        let st = shift_spec(t@, cn, d as nat);
                        assert(st.shape->Apply_1 == sa);
                        assert(index_bounded(st));
                        assert(0 <= i < sa.len());
                        assert(forall|k: int| 0 <= k < sa.len() ==> index_bounded(#[trigger] sa[k]));
                        assert(index_bounded(sa[i]));
                    }
                }
            }
            match (o, a) {
                (Some(o), Some(a)) => Some(Term::Apply(clone_info(info), Box::new(o), a)),
                _ => None,
            }
        },
        Term::Quote(info, q) => {
            match shift_within(q, c, Ghost(cn), d) {
                Some(b) => Some(Term::Quote(clone_info(info), Box::new(b))),
                None => None,
            }
        },
        Term::If(info, a, b, e) => {
            let a = shift_within(a, c, Ghost(cn), d);
            let b = shift_within(b, c, Ghost(cn), d);
            let e = shift_within(e, c, Ghost(cn), d);
            match (a, b, e) {
                (Some(a), Some(b), Some(e)) => Some(
                    Term::If(clone_info(info), Box::new(a), Box::new(b), Box::new(e)),
                ),
                _ => None,
            }
        },
        Term::Cons(info, h, tl) => {
            let h = shift_within(h, c, Ghost(cn), d);
            let tl = shift_within(tl, c, Ghost(cn), d);
            match (h, tl) {
                (Some(h), Some(tl)) => Some(Term::Cons(clone_info(info), Box::new(h), Box::new(tl))),
                _ => None,
            }
        },
        _ => Some(t.clone()),
    }
}

/// Shifts every variable of depth at least `c` up by `d`, or returns `None`
/// where a shifted depth would not fit a machine word.
pub fn checked_shift_index(t: &Term, c: usize, d: usize) -> (r: Option<Term>)
    ensures
        r is Some <==> index_bounded(shift_spec(t@, c as nat, d as nat)),
        r is Some ==> r->0@ == shift_spec(t@, c as nat, d as nat),
{
    shift_within(t, Some(c), Ghost(c as nat), d)
}

/// Shifts every variable of depth at least `c` up by `d`.
pub fn shift_index(t: &Term, c: usize, d: usize) -> (r: Term)
    requires
        index_bounded(shift_spec(t@, c as nat, d as nat)),
    ensures
        r@ == shift_spec(t@, c as nat, d as nat),
{
    match shift_within(t, Some(c), Ghost(c as nat), d) {
        Some(r) => r,
        None => {
            proof {
                assert(false);
            }
            t.clone()
        },
    }
}


fn substitute_terms(
    ts: &Vec<Term>,
    level: Option<usize>,
    Ghost(ln): Ghost<nat>,
    values: &Vec<Term>,
) -> (r: Option<Vec<Term>>)
    requires
        tracks(level, ln),
    ensures
        r is Some <==> forall|i: int|
            0 <= i < ts@.len() ==> substitutable(#[trigger] ts@[i]@, ln, view_seq(values@)),
        r is Some ==> r->0@.len() == ts@.len() && forall|i: int|
            0 <= i < ts@.len() ==> (#[trigger] r->0@[i])@ == substitute_spec(
                ts@[i]@,
                ln,
                view_seq(values@),
            ),
    decreases ts,
{
    let mut out: Vec<Term> = Vec::new();
    let mut i: usize = 0;
    while i < ts.len()
        invariant
            tracks(level, ln),
            i <= ts.len(),
            out@.len() == i,
            forall|j: int|
                0 <= j < i ==> substitutable(#[trigger] ts@[j]@, ln, view_seq(values@)),
            forall|j: int|
                0 <= j < i ==> (#[trigger] out@[j])@ == substitute_spec(
                    ts@[j]@,
                    ln,
                    view_seq(values@),
                ),
        decreases ts.len() - i,
    {
        match substitute_within(&ts[i], level, Ghost(ln), values) {
            Some(t) => out.push(t),
            None => {
                return None;
            },
        }
        i += 1;
    }
    Some(out)
}

fn substitute_within(
    t: &Term,
    level: Option<usize>,
    Ghost(ln): Ghost<nat>,
    values: &Vec<Term>,
) -> (r: Option<Term>)
    requires
        tracks(level, ln),
    ensures
        r is Some <==> substitutable(t@, ln, view_seq(values@)),
        r is Some ==> r->0@ == substitute_spec(t@, ln, view_seq(values@)),
    decreases t,
{
    let ghost vs = view_seq(values@);
    match t {
        Term::Variable(_, v, a) => {
            let bound_here = match level {
                Some(x) => *v == x,
                None => false,
            };
            if bound_here {
                if *a < values.len() {
                    Some(values[*a].clone())
                } else {
                    None
                }
            } else {
                Some(t.clone())
            }
        },
        Term::Lambda(info, n, body) => {
            let shifted = shift_terms(values, Some(0), Ghost(0), 1);
            proof {
                if shifted is Some {
                    assert forall|i: int| 0 <= i < vs.len() implies index_bounded(
                        #[trigger] shift_spec(vs[i], 0, 1),
                    ) by {
                        assert(index_bounded(shift_spec(values@[i]@, 0, 1)));
                    }
                }
                if substitutable(t@, ln, vs) {
                    assert forall|i: int| 0 <= i < values@.len() implies index_bounded(
                        #[trigger] shift_spec(values@[i]@, 0, 1),
                    ) by {
                        assert(index_bounded(shift_spec(vs[i], 0, 1)));
                    }
                }
            }
            match shifted {
                Some(inner_values) => {
                    let inner = step_in(level, Ghost(ln));
                    match substitute_within(body, inner, Ghost(ln + 1), &inner_values) {
                        Some(b) => Some(Term::Lambda(clone_info(info), *n, Box::new(b))),
                        None => None,
                    }
                },
                None => None,
            }
        },
        Term::Apply(info, op, args) => {
            let o = substitute_within(op, level, Ghost(ln), values);
            let a = substitute_terms(args, level, Ghost(ln), values);
            proof {
                let va = view_seq(args@);
                if a is Some {
                    assert forall|i: int| 0 <= i < va.len() implies substitutable(
                        #[trigger] va[i],
                        ln,
                        vs,
                    ) by {
                        assert(substitutable(args@[i]@, ln, vs));
                    }
                }
                if substitutable(t@, ln, vs) {
                    assert(forall|k: int|
                        0 <= k < va.len() ==> substitutable(#[trigger] va[k], ln, vs));
                    assert forall|i: int| 0 <= i < args@.len() implies substitutable(
                        #[trigger] args@[i]@,
                        ln,
                        vs,
                    ) by {
                        assert(substitutable(va[i], ln, vs));
                    }
                }
            }
            match (o, a) {
                (Some(o), Some(a)) => {
                    proof {
                        let want = substitute_spec(t@, ln, vs).shape->Apply_1;
                        assert(view_seq(a@) =~= want);
                    }
                    Some(Term::Apply(clone_info(info), Box::new(o), a))
                },
                _ => None,
            }
        },
        Term::Quote(info, q) => {
            match substitute_within(q, level, Ghost(ln), values) {
                Some(b) => Some(Term::Quote(clone_info(info), Box::new(b))),
                None => None,
            }
        },
        Term::If(info, a, b, e) => {
            let a = substitute_within(a, level, Ghost(ln), values);
            let b = substitute_within(b, level, Ghost(ln), values);
            let e = substitute_within(e, level, Ghost(ln), values);
            match (a, b, e) {
                (Some(a), Some(b), Some(e)) => Some(
                    Term::If(clone_info(info), Box::new(a), Box::new(b), Box::new(e)),
                ),
                _ => None,
            }
        },
        Term::Cons(info, h, tl) => {
            let h = substitute_within(h, level, Ghost(ln), values);
            let tl = substitute_within(tl, level, Ghost(ln), values);
            match (h, tl) {
                (Some(h), Some(tl)) => Some(Term::Cons(clone_info(info), Box::new(h), Box::new(tl))),
                _ => None,
            }
        },
        _ => Some(t.clone()),
    }
}

/// Replaces each variable bound at `from` by the value at its slot, or
/// returns `None` where a slot has no value or a shifted value would not fit
/// a machine word.
pub fn checked_substitution(term: &Term, from: usize, to_vec: &Vec<Term>) -> (r: Option<Term>)
    ensures
        r is Some <==> substitutable(term@, from as nat, view_seq(to_vec@)),
        r is Some ==> r->0@ == substitute_spec(term@, from as nat, view_seq(to_vec@)),
{
    substitute_within(term, Some(from), Ghost(from as nat), to_vec)
}

/// Replaces each variable bound at `from` by the value at its slot.
pub fn substitution(term: &Term, from: usize, to_vec: &Vec<Term>) -> (r: Term)
    requires
        substitutable(term@, from as nat, view_seq(to_vec@)),
    ensures
        r@ == substitute_spec(term@, from as nat, view_seq(to_vec@)),
{
    match substitute_within(term, Some(from), Ghost(from as nat), to_vec) {
        Some(r) => r,
        None => {
            proof {
                assert(false);
            }
            term.clone()
        },
    }
}

/// Whether the two vectors have the same length and equivalent terms at
/// each position.
pub fn equiv_term_vec(t1: &Vec<Term>, t2: &Vec<Term>) -> (r: bool)
    ensures
        r == (erase_seq(view_seq(t1@)) == erase_seq(view_seq(t2@))),
    decreases t1,
{
    let ghost e1 = erase_seq(view_seq(t1@));
    let ghost e2 = erase_seq(view_seq(t2@));
    if t1.len() != t2.len() {
        assert(e1.len() != e2.len());
        return false;
    }
    let mut i: usize = 0;
    while i < t1.len()
        invariant
            i <= t1.len(),
            t1.len() == t2.len(),
            e1 == erase_seq(view_seq(t1@)),
            e2 == erase_seq(view_seq(t2@)),
            forall|j: int| 0 <= j < i ==> #[trigger] e1[j] == e2[j],
        decreases t1.len() - i,
    {
        if !equiv_term(&t1[i], &t2[i]) {
            assert(e1[i as int] == erase(t1@[i as int]@));
            assert(e2[i as int] == erase(t2@[i as int]@));
            return false;
        }
        assert(e1[i as int] == erase(t1@[i as int]@));
        assert(e2[i as int] == erase(t2@[i as int]@));
        i += 1;
    }
    assert(e1 =~= e2);
    true
}

/// Structural equivalence of two terms: equal apart from position metadata.
pub fn equiv_term(t1: &Term, t2: &Term) -> (r: bool)
    ensures
        r == equiv_spec(t1@, t2@),
    decreases t1,
{
    match t1 {
        Term::Apply(_, a1, s1) => match t2 {
            Term::Apply(_, a2, s2) => {
                let x = equiv_term(a1, a2);
                let y = equiv_term_vec(s1, s2);
                x && y
            },
            _ => false,
        },
        Term::Lambda(_, n1, b1) => match t2 {
            Term::Lambda(_, n2, b2) => {
                let x = equiv_term(b1, b2);
                *n1 == *n2 && x
            },
            _ => false,
        },
        Term::Quote(_, q1) => match t2 {
            Term::Quote(_, q2) => equiv_term(q1, q2),
            _ => false,
        },
        Term::Variable(_, v1, a1) => match t2 {
            Term::Variable(_, v2, a2) => *v1 == *v2 && *a1 == *a2,
            _ => false,
        },
        Term::If(_, a1, b1, c1) => match t2 {
            Term::If(_, a2, b2, c2) => {
                let x = equiv_term(a1, a2);
                let y = equiv_term(b1, b2);
                let z = equiv_term(c1, c2);
                x && y && z
            },
            _ => false,
        },
        Term::Cons(_, h1, l1) => match t2 {
            Term::Cons(_, h2, l2) => {
                let x = equiv_term(h1, h2);
                let y = equiv_term(l1, l2);
                x && y
            },
            _ => false,
        },
        Term::Number(_, n1) => match t2 {
            Term::Number(_, n2) => n1.equals(n2),
            _ => false,
        },
        Term::Bool(_, b1) => match t2 {
            Term::Bool(_, b2) => *b1 == *b2,
            _ => false,
        },
        Term::Eq(_) => match t2 {
            Term::Eq(_) => true,
            _ => false,
        },
        Term::Nil(_) => match t2 {
            Term::Nil(_) => true,
            _ => false,
        },
        Term::Eval(_) => match t2 {
            Term::Eval(_) => true,
            _ => false,
        },
        Term::Add(_) => match t2 {
            Term::Add(_) => true,
            _ => false,
        },
        Term::Sub(_) => match t2 {
            Term::Sub(_) => true,
            _ => false,
        },
        Term::Mul(_) => match t2 {
            Term::Mul(_) => true,
            _ => false,
        },
        Term::Div(_) => match t2 {
            Term::Div(_) => true,
            _ => false,
        },
        Term::Rem(_) => match t2 {
            Term::Rem(_) => true,
            _ => false,
        },
        Term::Car(_) => match t2 {
            Term::Car(_) => true,
            _ => false,
        },
        Term::Cdr(_) => match t2 {
            Term::Cdr(_) => true,
            _ => false,
        },
    }
}


/// Every term is equivalent to itself.
pub proof fn equiv_reflexive(a: TermView)
    ensures
        equiv_spec(a, a),
{
}

/// Equivalence does not depend on the order of the two terms.
pub proof fn equiv_symmetric(a: TermView, b: TermView)
    ensures
        equiv_spec(a, b) == equiv_spec(b, a),
{
}

/// Two terms equivalent to a third are equivalent to each other.
pub proof fn equiv_transitive(a: TermView, b: TermView, c: TermView)
    requires
        equiv_spec(a, b),
        equiv_spec(b, c),
    ensures
        equiv_spec(a, c),
{
}

/// Removing position metadata twice is removing it once.
pub proof fn erase_idempotent(t: TermView)
    ensures
        erase(erase(t)) == erase(t),
    decreases t,
{
    match t.shape {
        Shape::Apply(op, args) => {
            erase_idempotent(*op);
            assert forall|i: int| 0 <= i < args.len() implies erase(erase(args[i])) == erase(
                args[i],
            ) by {
                erase_idempotent(args[i]);
            }
            assert(erase_seq(erase_seq(args)) =~= erase_seq(args));
        },
        Shape::Lambda(_, body) => {
            erase_idempotent(*body);
        },
        Shape::Quote(q) => {
            erase_idempotent(*q);
        },
        Shape::If(a, b, e) => {
            erase_idempotent(*a);
            erase_idempotent(*b);
            erase_idempotent(*e);
        },
        Shape::Cons(h, tl) => {
            erase_idempotent(*h);
            erase_idempotent(*tl);
        },
        _ => {},
    }
}

/// Equivalence looks past position metadata: a term is equivalent to itself
/// with all metadata removed and to itself with other metadata at its top,
/// and replacing a term by one that differs from it in metadata only does
/// not change what it is equivalent to.
pub proof fn equiv_ignores_metadata(a: TermView, a2: TermView, b: TermView, info: Option<FileInfo>)
    ensures
        equiv_spec(a, erase(a)),
        equiv_spec(a, TermView { info, shape: a.shape }),
        erase(a) == erase(a2) ==> equiv_spec(a, b) == equiv_spec(a2, b),
{
    erase_idempotent(a);
}

/// Shifting by zero changes nothing, whatever the cutoff.
pub proof fn shift_by_zero(t: TermView, c: nat)
    ensures
        shift_spec(t, c, 0) == t,
    decreases t,
{
    match t.shape {
        Shape::Apply(op, args) => {
            shift_by_zero(*op, c);
            assert forall|i: int| 0 <= i < args.len() implies shift_spec(args[i], c, 0)
                == args[i] by {
                shift_by_zero(args[i], c);
            }
            assert(shift_seq(args, c, 0) =~= args);
        },
        Shape::Lambda(_, body) => {
            shift_by_zero(*body, c + 1);
        },
        Shape::Quote(q) => {
            shift_by_zero(*q, c);
        },
        Shape::If(a, b, e) => {
            shift_by_zero(*a, c);
            shift_by_zero(*b, c);
            shift_by_zero(*e, c);
        },
        Shape::Cons(h, tl) => {
            shift_by_zero(*h, c);
            shift_by_zero(*tl, c);
        },
        _ => {},
    }
}


/// The direct subterms of `t`, from left to right.
pub open spec fn direct_subterms(t: TermView) -> Seq<TermView> {
    match t.shape {
        Shape::Apply(op, args) => seq![*op] + args,
        Shape::Lambda(_, body) => seq![*body],
        Shape::Quote(q) => seq![*q],
        Shape::If(c, a, b) => seq![*c, *a, *b],
        Shape::Cons(h, tl) => seq![*h, *tl],
        _ => Seq::empty(),
    }
}

/// `t` with its direct subterms replaced by `subs`, from left to right.
pub open spec fn with_subterms(t: TermView, subs: Seq<TermView>) -> TermView {
    TermView {
        info: t.info,
        shape: match t.shape {
            Shape::Apply(_, _) => Shape::Apply(Box::new(subs[0]), subs.subrange(1, subs.len() as int)),
            Shape::Lambda(n, _) => Shape::Lambda(n, Box::new(subs[0])),
            Shape::Quote(_) => Shape::Quote(Box::new(subs[0])),
            Shape::If(_, _, _) => Shape::If(
                Box::new(subs[0]),
                Box::new(subs[1]),
                Box::new(subs[2]),
            ),
            Shape::Cons(_, _) => Shape::Cons(Box::new(subs[0]), Box::new(subs[1])),
            other => other,
        },
    }
}

/// `f` can turn a term whose model is `a` into one whose model is `b`.
pub open spec fn maps_to<F: Fn(Term) -> Term>(f: F, a: TermView, b: TermView) -> bool {
    exists|s: Term, o: Term| s@ == a && o@ == b && #[trigger] f.ensures((s,), o)
}

impl Term {
    /// A copy of the term in which `f` has been applied to a copy of each
    /// direct subterm; a term without subterms is copied as it is.
    pub fn map_subterm<F>(&self, f: F) -> (r: Term) where F: Fn(Term) -> Term
        requires
            forall|s: Term| direct_subterms(self@).contains(s@) ==> #[trigger] f.requires((s,)),
        ensures
            r@ == with_subterms(self@, direct_subterms(r@)),
            direct_subterms(r@).len() == direct_subterms(self@).len(),
            forall|i: int|
                0 <= i < direct_subterms(self@).len() ==> maps_to(
                    f,
                    #[trigger] direct_subterms(self@)[i],
                    direct_subterms(r@)[i],
                ),
    {
        let ghost subs = direct_subterms(self@);
        match self {
            Term::Apply(info, t1, ts) => {
                assert(subs[0] == t1@);
                let copy = (**t1).clone();
                let op = f(copy);
                assert(maps_to(f, subs[0], op@));
                let mut out: Vec<Term> = Vec::new();
                let mut i: usize = 0;
                while i < ts.len()
                    invariant
                        i <= ts.len(),
                        out@.len() == i,
                        subs == seq![t1@] + view_seq(ts@),
                        forall|s: Term| subs.contains(s@) ==> #[trigger] f.requires((s,)),
                        forall|j: int| 0 <= j < i ==> maps_to(f, ts@[j]@, (#[trigger] out@[j])@),
                    decreases ts.len() - i,
                {
                    let copy = ts[i].clone();
                    assert(subs[i + 1] == copy@);
                    let mapped = f(copy);
                    assert(maps_to(f, ts@[i as int]@, mapped@));
                    out.push(mapped);
                    i += 1;
                }
                let r = Term::Apply(clone_info(info), Box::new(op), out);
                proof {
                    let rs = direct_subterms(r@);
                    assert(rs =~= seq![op@] + view_seq(out@));
                    assert(rs.subrange(1, rs.len() as int) =~= view_seq(out@));
                    assert forall|i: int| 0 <= i < subs.len() implies maps_to(
                        f,
                        #[trigger] subs[i],
                        rs[i],
                    ) by {
                        if i > 0 {
                            assert(maps_to(f, ts@[i - 1]@, out@[i - 1]@));
                        }
                    }
                }
                r
            },
            Term::Lambda(info, a1, t1) => {
                assert(subs[0] == t1@);
                let body = f((**t1).clone());
                assert(maps_to(f, subs[0], body@));
                Term::Lambda(clone_info(info), *a1, Box::new(body))
            },
            Term::Quote(info, t1) => {
                assert(subs[0] == t1@);
                let q = f((**t1).clone());
                assert(maps_to(f, subs[0], q@));
                Term::Quote(clone_info(info), Box::new(q))
            },
            Term::Cons(info, t1, t2) => {
                assert(subs[0] == t1@ && subs[1] == t2@);
                let h = f((**t1).clone());
                let tl = f((**t2).clone());
                assert(maps_to(f, subs[0], h@));
                assert(maps_to(f, subs[1], tl@));
                Term::Cons(clone_info(info), Box::new(h), Box::new(tl))
            },
            Term::If(info, t1, t2, t3) => {
                assert(subs[0] == t1@ && subs[1] == t2@ && subs[2] == t3@);
                let c = f((**t1).clone());
                let a = f((**t2).clone());
                let b = f((**t3).clone());
                assert(maps_to(f, subs[0], c@));
                assert(maps_to(f, subs[1], a@));
                assert(maps_to(f, subs[2], b@));
                Term::If(clone_info(info), Box::new(c), Box::new(a), Box::new(b))
            },
            _ => self.clone(),
        }
    }
}

} // verus!
