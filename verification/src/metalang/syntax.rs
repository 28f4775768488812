//! The surface language: terms with named binders, statements, the
//! definition environment, and the lowering of surface terms to core terms.
use vstd::prelude::*;
use crate::common::fileinfo::{CompileError, ErrorView, FileInfo, clone_info, fault_at};
use crate::common::natural::Natural;
use crate::common::text::push_str;
use crate::corelang::eval::{agrees, apply_spec, eval_spec};
use crate::corelang::syntax::{Operator, Shape, Term, TermView, view_seq};

verus! {

/// A term of the surface language. Every variant carries optional position
/// metadata first.
#[derive(Debug)]
pub enum MetaTerm {
    /// (operator, operands)
    Apply(Option<FileInfo>, Box<MetaTerm>, Vec<MetaTerm>),
    /// (argument names, body)
    Lambda(Option<FileInfo>, Vec<String>, Box<MetaTerm>),
    Quote(Option<FileInfo>, Box<MetaTerm>),
    Variable(Option<FileInfo>, String),
    Eq(Option<FileInfo>),
    If(Option<FileInfo>, Box<MetaTerm>, Box<MetaTerm>, Box<MetaTerm>),
    Cons(Option<FileInfo>, Box<MetaTerm>, Box<MetaTerm>),
    Nil(Option<FileInfo>),
    Number(Option<FileInfo>, Natural),
    Bool(Option<FileInfo>, bool),
    Eval(Option<FileInfo>),
    Add(Option<FileInfo>),
    Sub(Option<FileInfo>),
    Mul(Option<FileInfo>),
    Div(Option<FileInfo>),
    Rem(Option<FileInfo>),
    Car(Option<FileInfo>),
    Cdr(Option<FileInfo>),
    /// List sugar: the items of a list.
    List(Option<FileInfo>, Vec<MetaTerm>),
}

/// What a surface term is, apart from its position metadata.
pub enum MetaShape {
    Apply(Box<MetaTermView>, Seq<MetaTermView>),
    Lambda(Seq<Seq<char>>, Box<MetaTermView>),
    Quote(Box<MetaTermView>),
    Variable(Seq<char>),
    If(Box<MetaTermView>, Box<MetaTermView>, Box<MetaTermView>),
    Cons(Box<MetaTermView>, Box<MetaTermView>),
    Nil,
    Number(nat),
    Bool(bool),
    Atom(Operator),
    List(Seq<MetaTermView>),
}

/// The mathematical model of a surface term.
pub struct MetaTermView {
    pub info: Option<FileInfo>,
    pub shape: MetaShape,
}

/// The characters of each name in `names`, in order.
pub open spec fn names_view(names: Seq<String>) -> Seq<Seq<char>> {
    Seq::new(names.len(), |i: int| names[i]@)
}

/// The models of the surface terms in `ts`, in order.
pub open spec fn meta_view_seq(ts: Seq<MetaTerm>) -> Seq<MetaTermView>
    decreases ts,
{
    Seq::new(
        ts.len(),
        |i: int|
            if 0 <= i < ts.len() {
                ts[i].model()
            } else {
                arbitrary()
            },
    )
}

impl MetaTerm {
    /// The mathematical model of the term.
    pub open spec fn model(&self) -> MetaTermView
        decreases self,
    {
        match self {
            MetaTerm::Apply(info, op, args) => MetaTermView {
                info: *info,
                shape: MetaShape::Apply(Box::new(op.model()), meta_view_seq(args@)),
            },
            MetaTerm::Lambda(info, names, body) => MetaTermView {
                info: *info,
                shape: MetaShape::Lambda(names_view(names@), Box::new(body.model())),
            },
            MetaTerm::Quote(info, t) => MetaTermView {
                info: *info,
                shape: MetaShape::Quote(Box::new(t.model())),
            },
            MetaTerm::Variable(info, name) => MetaTermView {
                info: *info,
                shape: MetaShape::Variable(name@),
            },
            MetaTerm::Eq(info) => MetaTermView { info: *info, shape: MetaShape::Atom(Operator::Eq) },
            MetaTerm::If(info, c, t, e) => MetaTermView {
                info: *info,
                shape: MetaShape::If(Box::new(c.model()), Box::new(t.model()), Box::new(e.model())),
            },
            MetaTerm::Cons(info, h, t) => MetaTermView {
                info: *info,
                shape: MetaShape::Cons(Box::new(h.model()), Box::new(t.model())),
            },
            MetaTerm::Nil(info) => MetaTermView { info: *info, shape: MetaShape::Nil },
            MetaTerm::Number(info, n) => MetaTermView { info: *info, shape: MetaShape::Number(n@) },
            MetaTerm::Bool(info, b) => MetaTermView { info: *info, shape: MetaShape::Bool(*b) },
            MetaTerm::Eval(info) => MetaTermView {
                info: *info,
                shape: MetaShape::Atom(Operator::Eval),
            },
            MetaTerm::Add(info) => MetaTermView { info: *info, shape: MetaShape::Atom(Operator::Add) },
            MetaTerm::Sub(info) => MetaTermView { info: *info, shape: MetaShape::Atom(Operator::Sub) },
            MetaTerm::Mul(info) => MetaTermView { info: *info, shape: MetaShape::Atom(Operator::Mul) },
            MetaTerm::Div(info) => MetaTermView { info: *info, shape: MetaShape::Atom(Operator::Div) },
            MetaTerm::Rem(info) => MetaTermView { info: *info, shape: MetaShape::Atom(Operator::Rem) },
            MetaTerm::Car(info) => MetaTermView { info: *info, shape: MetaShape::Atom(Operator::Car) },
            MetaTerm::Cdr(info) => MetaTermView { info: *info, shape: MetaShape::Atom(Operator::Cdr) },
            MetaTerm::List(info, items) => MetaTermView {
                info: *info,
                shape: MetaShape::List(meta_view_seq(items@)),
            },
        }
    }

    /// The position metadata of the term.
    pub fn file_info(&self) -> (r: &Option<FileInfo>)
        ensures
            *r == self@.info,
    {
        match self {
            MetaTerm::Apply(info, _, _) => info,
            MetaTerm::Lambda(info, _, _) => info,
            MetaTerm::Quote(info, _) => info,
            MetaTerm::Variable(info, _) => info,
            MetaTerm::Eq(info) => info,
            MetaTerm::Cons(info, _, _) => info,
            MetaTerm::Nil(info) => info,
            MetaTerm::Number(info, _) => info,
            MetaTerm::Bool(info, _) => info,
            MetaTerm::Eval(info) => info,
            MetaTerm::Add(info) => info,
            MetaTerm::Sub(info) => info,
            MetaTerm::Mul(info) => info,
            MetaTerm::Div(info) => info,
            MetaTerm::Rem(info) => info,
            MetaTerm::If(info, _, _, _) => info,
            MetaTerm::Car(info) => info,
            MetaTerm::Cdr(info) => info,
            MetaTerm::List(info, _) => info,
        }
    }
}

impl View for MetaTerm {
    type V = MetaTermView;

    open spec fn view(&self) -> MetaTermView {
        self.model()
    }
}

/// A copy of each name of `names`.
pub fn clone_names(names: &Vec<String>) -> (r: Vec<String>)
    ensures
        names_view(r@) == names_view(names@),
{
    let mut out: Vec<String> = Vec::new();
    let mut i: usize = 0;
    while i < names.len()
        invariant
            i <= names.len(),
            out@.len() == i,
            forall|j: int| 0 <= j < i ==> (#[trigger] out@[j])@ == names@[j]@,
        decreases names.len() - i,
    {
        out.push(names[i].clone());
        i += 1;
    }
    assert(names_view(out@) =~= names_view(names@));
    out
}

/// A copy of each surface term of `ts`.
pub fn clone_meta_terms(ts: &Vec<MetaTerm>) -> (r: Vec<MetaTerm>)
    ensures
        meta_view_seq(r@) == meta_view_seq(ts@),
    decreases ts,
{
    let mut out: Vec<MetaTerm> = Vec::new();
    let mut i: usize = 0;
    while i < ts.len()
        invariant
            i <= ts.len(),
            out@.len() == i,
            forall|j: int| 0 <= j < i ==> (#[trigger] out@[j])@ == ts@[j]@,
        decreases ts.len() - i,
    {
        out.push(ts[i].clone());
        i += 1;
    }
    assert(meta_view_seq(out@) =~= meta_view_seq(ts@));
    out
}

impl Clone for MetaTerm {
    fn clone(&self) -> (r: Self)
        ensures
            r@ == self@,
        decreases self,
    {
        match self {
            MetaTerm::Apply(info, op, args) => MetaTerm::Apply(
                clone_info(info),
                Box::new((**op).clone()),
                clone_meta_terms(args),
            ),
            MetaTerm::Lambda(info, names, body) => MetaTerm::Lambda(
                clone_info(info),
                clone_names(names),
                Box::new((**body).clone()),
            ),
            MetaTerm::Quote(info, t) => MetaTerm::Quote(clone_info(info), Box::new((**t).clone())),
            MetaTerm::Variable(info, name) => MetaTerm::Variable(clone_info(info), name.clone()),
            MetaTerm::Eq(info) => MetaTerm::Eq(clone_info(info)),
            MetaTerm::If(info, c, t, e) => MetaTerm::If(
                clone_info(info),
                Box::new((**c).clone()),
                Box::new((**t).clone()),
                Box::new((**e).clone()),
            ),
            MetaTerm::Cons(info, h, t) => MetaTerm::Cons(
                clone_info(info),
                Box::new((**h).clone()),
                Box::new((**t).clone()),
            ),
            MetaTerm::Nil(info) => MetaTerm::Nil(clone_info(info)),
            MetaTerm::Number(info, n) => MetaTerm::Number(clone_info(info), n.clone()),
            MetaTerm::Bool(info, b) => MetaTerm::Bool(clone_info(info), *b),
            MetaTerm::Eval(info) => MetaTerm::Eval(clone_info(info)),
            MetaTerm::Add(info) => MetaTerm::Add(clone_info(info)),
            MetaTerm::Sub(info) => MetaTerm::Sub(clone_info(info)),
            MetaTerm::Mul(info) => MetaTerm::Mul(clone_info(info)),
            MetaTerm::Div(info) => MetaTerm::Div(clone_info(info)),
            MetaTerm::Rem(info) => MetaTerm::Rem(clone_info(info)),
            MetaTerm::Car(info) => MetaTerm::Car(clone_info(info)),
            MetaTerm::Cdr(info) => MetaTerm::Cdr(clone_info(info)),
            MetaTerm::List(info, items) => MetaTerm::List(clone_info(info), clone_meta_terms(items)),
        }
    }
}

/// One function of a group of mutually recursive definitions.
#[derive(Debug)]
pub struct DefRecFun {
    pub name: String,
    pub arg_name_vec: Vec<String>,
    pub term: MetaTerm,
}

/// An item of an export statement: a defined name, or the path of a module
/// whose exports are passed on.
#[derive(Debug)]
pub enum MetaExport {
    Var(String),
    Path(String),
}

/// A top-level statement.
#[derive(Debug)]
pub enum MetaStatement {
    /// (name, value)
    Def(Option<FileInfo>, String, MetaTerm),
    DefRec(Option<FileInfo>, Vec<DefRecFun>),
    Term(Option<FileInfo>, MetaTerm),
    Assert(Option<FileInfo>, MetaTerm),
    /// (paths)
    Import(Option<FileInfo>, Vec<String>),
    /// (names and paths)
    Export(Option<FileInfo>, Vec<MetaExport>),
}

impl MetaStatement {
    /// The position metadata of the statement.
    pub fn file_info(&self) -> (r: &Option<FileInfo>)
        ensures
            *r == match *self {
                MetaStatement::Def(info, _, _) => info,
                MetaStatement::DefRec(info, _) => info,
                MetaStatement::Term(info, _) => info,
                MetaStatement::Assert(info, _) => info,
                MetaStatement::Import(info, _) => info,
                MetaStatement::Export(info, _) => info,
            },
    {
        match self {
            MetaStatement::Def(info, _, _) => info,
            MetaStatement::DefRec(info, _) => info,
            MetaStatement::Term(info, _) => info,
            MetaStatement::Assert(info, _) => info,
            MetaStatement::Import(info, _) => info,
            MetaStatement::Export(info, _) => info,
        }
    }
}


/// The mathematical model of one function of a recursive group.
pub struct DefRecFunView {
    pub name: Seq<char>,
    pub args: Seq<Seq<char>>,
    pub body: MetaTermView,
}

impl View for DefRecFun {
    type V = DefRecFunView;

    open spec fn view(&self) -> DefRecFunView {
        DefRecFunView {
            name: self.name@,
            args: names_view(self.arg_name_vec@),
            body: self.term@,
        }
    }
}

/// The models of the functions in `funs`, in order.
pub open spec fn funs_view(funs: Seq<DefRecFun>) -> Seq<DefRecFunView> {
    Seq::new(funs.len(), |i: int| funs[i]@)
}

/// The mathematical model of an export item.
pub enum ExportView {
    Var(Seq<char>),
    Path(Seq<char>),
}

impl View for MetaExport {
    type V = ExportView;

    open spec fn view(&self) -> ExportView {
        match self {
            MetaExport::Var(v) => ExportView::Var(v@),
            MetaExport::Path(p) => ExportView::Path(p@),
        }
    }
}

/// The models of the export items in `items`, in order.
pub open spec fn exports_view(items: Seq<MetaExport>) -> Seq<ExportView> {
    Seq::new(items.len(), |i: int| items[i]@)
}

/// The mathematical model of a statement.
pub enum StatementView {
    Def(Option<FileInfo>, Seq<char>, MetaTermView),
    DefRec(Option<FileInfo>, Seq<DefRecFunView>),
    Term(Option<FileInfo>, MetaTermView),
    Assert(Option<FileInfo>, MetaTermView),
    Import(Option<FileInfo>, Seq<Seq<char>>),
    Export(Option<FileInfo>, Seq<ExportView>),
}

impl View for MetaStatement {
    type V = StatementView;

    open spec fn view(&self) -> StatementView {
        match self {
            MetaStatement::Def(info, name, t) => StatementView::Def(*info, name@, t@),
            MetaStatement::DefRec(info, funs) => StatementView::DefRec(*info, funs_view(funs@)),
            MetaStatement::Term(info, t) => StatementView::Term(*info, t@),
            MetaStatement::Assert(info, t) => StatementView::Assert(*info, t@),
            MetaStatement::Import(info, paths) => StatementView::Import(*info, names_view(paths@)),
            MetaStatement::Export(info, items) => StatementView::Export(*info, exports_view(items@)),
        }
    }
}

/// The models of the statements in `stmts`, in order.
pub open spec fn stmts_view(stmts: Seq<MetaStatement>) -> Seq<StatementView> {
    Seq::new(stmts.len(), |i: int| stmts[i]@)
}

/// The map that a list of bindings stands for: a later binding of a name
/// replaces an earlier one.
pub open spec fn entries_map(s: Seq<(String, Term)>) -> Map<Seq<char>, TermView>
    decreases s.len(),
{
    if s.len() == 0 {
        Map::empty()
    } else {
        entries_map(s.drop_last()).insert(s.last().0@, s.last().1@)
    }
}

/// An environment: names bound to lowered core terms.
#[derive(Debug)]
pub struct MetaEnv {
    /// The bindings in the order they were made.
    pub entries: Vec<(String, Term)>,
}

impl View for MetaEnv {
    type V = Map<Seq<char>, TermView>;

    open spec fn view(&self) -> Map<Seq<char>, TermView> {
        entries_map(self.entries@)
    }
}

impl Default for MetaEnv {
    fn default() -> (r: Self)
        ensures
            r@ == Map::<Seq<char>, TermView>::empty(),
    {
        MetaEnv { entries: Vec::new() }
    }
}

impl MetaEnv {
    /// The empty environment.
    pub fn new() -> (r: Self)
        ensures
            r@ == Map::<Seq<char>, TermView>::empty(),
    {
        MetaEnv { entries: Vec::new() }
    }

    /// The term bound to `name`, if any.
    pub fn get(&self, name: &String) -> (r: Option<&Term>)
        ensures
            r is Some <==> self@.contains_key(name@),
            r is Some ==> r->0@ == self@[name@],
    {
        let ghost full = self.entries@;
        let mut i: usize = self.entries.len();
        assert(full.subrange(0, i as int) =~= full);
        while i > 0
            invariant
                i <= self.entries.len(),
                full == self.entries@,
                entries_map(full).contains_key(name@) == entries_map(
                    full.subrange(0, i as int),
                ).contains_key(name@),
                entries_map(full).contains_key(name@) ==> entries_map(full)[name@] == entries_map(
                    full.subrange(0, i as int),
                )[name@],
            decreases i,
        {
            let ghost part = full.subrange(0, i as int);
            assert(part.drop_last() =~= full.subrange(0, i - 1));
            assert(part.last() == full[i - 1]);
            i -= 1;
            if self.entries[i].0 == *name {
                return Some(&self.entries[i].1);
            }
        }
        None
    }

    /// Binds `name` to `term`, replacing an earlier binding of the name.
    pub fn insert(&mut self, name: String, term: Term)
        ensures
            final(self)@ == old(self)@.insert(name@, term@),
    {
        self.entries.push((name, term));
        assert(self.entries@.drop_last() =~= old(self).entries@);
    }

    /// Adds every binding of `other`, replacing earlier bindings of the same
    /// names.
    pub fn absorb(&mut self, other: &MetaEnv)
        ensures
            final(self)@ == old(self)@.union_prefer_right(other@),
    {
        let ghost theirs = other.entries@;
        let mut i: usize = 0;
        assert(theirs.subrange(0, 0) =~= Seq::<(String, Term)>::empty());
        assert(self@ =~= old(self)@.union_prefer_right(entries_map(theirs.subrange(0, 0))));
        while i < other.entries.len()
            invariant
                i <= other.entries.len(),
                theirs == other.entries@,
                self@ == old(self)@.union_prefer_right(entries_map(theirs.subrange(0, i as int))),
            decreases other.entries.len() - i,
        {
            let ghost part = theirs.subrange(0, i + 1);
            assert(part.drop_last() =~= theirs.subrange(0, i as int));
            assert(part.last() == theirs[i as int]);
            let name = other.entries[i].0.clone();
            let term = other.entries[i].1.clone();
            self.insert(name, term);
            assert(self@ =~= old(self)@.union_prefer_right(entries_map(part)));
            i += 1;
        }
        assert(theirs.subrange(0, other.entries.len() as int) =~= theirs);
    }
}

/// The binders in scope while a term is lowered: name, depth and slot of
/// each argument, in the order they were bound.
pub struct ArgNameMap {
    pub entries: Vec<(String, usize, usize)>,
}

impl View for ArgNameMap {
    type V = Seq<(Seq<char>, nat, nat)>;

    open spec fn view(&self) -> Seq<(Seq<char>, nat, nat)> {
        Seq::new(
            self.entries@.len(),
            |i: int| (self.entries@[i].0@, self.entries@[i].1 as nat, self.entries@[i].2 as nat),
        )
    }
}

/// Depth and slot of the innermost binder of `name` in `scope`.
pub open spec fn scope_lookup(scope: Seq<(Seq<char>, nat, nat)>, name: Seq<char>) -> Option<
    (nat, nat),
>
    decreases scope.len(),
{
    if scope.len() == 0 {
        None
    } else if scope.last().0 == name {
        Some((scope.last().1, scope.last().2))
    } else {
        scope_lookup(scope.drop_last(), name)
    }
}

/// Every depth of `scope` can grow by one within a machine word.
pub open spec fn scope_fits(scope: Seq<(Seq<char>, nat, nat)>) -> bool {
    forall|i: int| 0 <= i < scope.len() ==> (#[trigger] scope[i]).1 < usize::MAX
}

/// The scope inside a lambda that binds `names`: what was in scope lies one
/// lambda deeper, and each name is bound at depth zero to its position.
pub open spec fn enter_scope(scope: Seq<(Seq<char>, nat, nat)>, names: Seq<Seq<char>>) -> Seq<
    (Seq<char>, nat, nat),
> {
    Seq::new(scope.len(), |i: int| (scope[i].0, scope[i].1 + 1, scope[i].2)) + Seq::new(
        names.len(),
        |i: int| (names[i], 0nat, i as nat),
    )
}

impl ArgNameMap {
    /// The empty scope.
    pub fn new() -> (r: Self)
        ensures
            r@ == Seq::<(Seq<char>, nat, nat)>::empty(),
    {
        let r = ArgNameMap { entries: Vec::new() };
        assert(r@ =~= Seq::<(Seq<char>, nat, nat)>::empty());
        r
    }

    /// Depth and slot of the innermost binder of `name`.
    pub fn get(&self, name: &String) -> (r: Option<(usize, usize)>)
        ensures
            match r {
                Some(p) => scope_lookup(self@, name@) == Some((p.0 as nat, p.1 as nat)),
                None => scope_lookup(self@, name@) is None,
            },
    {
        let ghost full = self@;
        let mut i: usize = self.entries.len();
        assert(full.subrange(0, i as int) =~= full);
        while i > 0
            invariant
                i <= self.entries.len(),
                full == self@,
                scope_lookup(full, name@) == scope_lookup(full.subrange(0, i as int), name@),
            decreases i,
        {
            let ghost part = full.subrange(0, i as int);
            assert(part.drop_last() =~= full.subrange(0, i - 1));
            assert(part.last() == full[i - 1]);
            i -= 1;
            if self.entries[i].0 == *name {
                return Some((self.entries[i].1, self.entries[i].2));
            }
        }
        None
    }

    /// The scope inside a lambda that binds `names`, or `None` where a depth
    /// would leave the machine word.
    pub fn enter(&self, names: &Vec<String>) -> (r: Option<ArgNameMap>)
        ensures
            r is Some <==> scope_fits(self@),
            r is Some ==> r->0@ == enter_scope(self@, names_view(names@)),
    {
        let mut out: Vec<(String, usize, usize)> = Vec::new();
        let mut i: usize = 0;
        while i < self.entries.len()
            invariant
                i <= self.entries.len(),
                out@.len() == i,
                forall|j: int| 0 <= j < i ==> (#[trigger] self@[j]).1 < usize::MAX,
                forall|j: int|
                    0 <= j < i ==> (#[trigger] out@[j]).0@ == self.entries@[j].0@ && out@[j].1
                        == self.entries@[j].1 + 1 && out@[j].2 == self.entries@[j].2,
            decreases self.entries.len() - i,
        {
            let depth = self.entries[i].1;
            if depth == usize::MAX {
                assert(self@[i as int].1 == usize::MAX);
                return None;
            }
            out.push((self.entries[i].0.clone(), depth + 1, self.entries[i].2));
            i += 1;
        }
        let mut k: usize = 0;
        while k < names.len()
            invariant
                k <= names.len(),
                i == self.entries.len(),
                out@.len() == i + k,
                forall|j: int|
                    0 <= j < i ==> (#[trigger] out@[j]).0@ == self.entries@[j].0@ && out@[j].1
                        == self.entries@[j].1 + 1 && out@[j].2 == self.entries@[j].2,
                forall|j: int|
                    0 <= j < k ==> (#[trigger] out@[i + j]).0@ == names@[j]@ && out@[i + j].1 == 0
                        && out@[i + j].2 == j,
            decreases names.len() - k,
        {
            out.push((names[k].clone(), 0, k));
            k += 1;
        }
        let r = ArgNameMap { entries: out };
        proof {
            let want = enter_scope(self@, names_view(names@));
            assert(r@.len() == want.len());
            assert forall|x: int| 0 <= x < want.len() implies r@[x] == want[x] by {
                if x >= i {
                    let j = x - i;
                    assert(out@[i + j].0@ == names@[j]@);
                } else {
                    assert(out@[x].0@ == self.entries@[x].0@);
                }
            }
            assert(r@ =~= want);
        }
        Some(r)
    }
}

/// The message for a name that is neither bound nor defined.
pub open spec fn undefined_message(name: Seq<char>) -> Seq<char> {
    "Variable name \""@ + name + "\" is not defined variable."@
}

/// The values of `results` in order, or the first error among them.
pub open spec fn collect_results(results: Seq<Result<TermView, ErrorView>>) -> Result<
    Seq<TermView>,
    ErrorView,
>
    decreases results.len(),
{
    if results.len() == 0 {
        Ok(Seq::empty())
    } else {
        match collect_results(results.drop_last()) {
            Err(e) => Err(e),
            Ok(vs) => match results.last() {
                Err(e) => Err(e),
                Ok(v) => Ok(vs.push(v)),
            },
        }
    }
}

/// The list of `items` as cons cells, each with the metadata `info`, ended
/// by `nil`.
pub open spec fn cons_chain(info: Option<FileInfo>, items: Seq<TermView>) -> TermView
    decreases items.len(),
{
    if items.len() == 0 {
        TermView { info, shape: Shape::Nil }
    } else {
        TermView {
            info,
            shape: Shape::Cons(
                Box::new(items[0]),
                Box::new(cons_chain(info, items.drop_first())),
            ),
        }
    }
}

/// `lower_spec` on each term of `ts`.
pub open spec fn lower_seq(
    env: Map<Seq<char>, TermView>,
    ts: Seq<MetaTermView>,
    scope: Seq<(Seq<char>, nat, nat)>,
) -> Seq<Result<TermView, ErrorView>>
    decreases ts,
{
    Seq::new(
        ts.len(),
        |i: int|
            if 0 <= i < ts.len() {
                lower_spec(env, ts[i], scope)
            } else {
                arbitrary()
            },
    )
}

/// The core term that `t` lowers to under the definitions `env` and the
/// binders `scope`, or the first error met from left to right. A name is
/// looked up among the binders first, innermost first, then among the
/// definitions, whose term is put in its place.
pub open spec fn lower_spec(
    env: Map<Seq<char>, TermView>,
    t: MetaTermView,
    scope: Seq<(Seq<char>, nat, nat)>,
) -> Result<TermView, ErrorView>
    decreases t,
{
    match t.shape {
        MetaShape::Lambda(names, body) => if !names.no_duplicates() {
            Err(fault_at(t.info, "Variable names in one lambda should be unique."@))
        } else if !scope_fits(scope) {
            Err(fault_at(t.info, "lambdas nest too deep"@))
        } else {
            match lower_spec(env, *body, enter_scope(scope, names)) {
                Err(e) => Err(e),
                Ok(b) => Ok(TermView { info: t.info, shape: Shape::Lambda(names.len(), Box::new(b)) }),
            }
        },
        MetaShape::Variable(name) => match scope_lookup(scope, name) {
            Some(p) => Ok(TermView { info: t.info, shape: Shape::Variable(p.0, p.1) }),
            None => if env.contains_key(name) {
                Ok(env[name])
            } else {
                Err(fault_at(t.info, undefined_message(name)))
            },
        },
        MetaShape::Apply(op, args) => match lower_spec(env, *op, scope) {
            Err(e) => Err(e),
            Ok(o) => match collect_results(lower_seq(env, args, scope)) {
                Err(e) => Err(e),
                Ok(a) => Ok(TermView { info: t.info, shape: Shape::Apply(Box::new(o), a) }),
            },
        },
        MetaShape::Quote(q) => match lower_spec(env, *q, scope) {
            Err(e) => Err(e),
            Ok(b) => Ok(TermView { info: t.info, shape: Shape::Quote(Box::new(b)) }),
        },
        MetaShape::If(c, a, b) => match lower_spec(env, *c, scope) {
            Err(e) => Err(e),
            Ok(c) => match lower_spec(env, *a, scope) {
                Err(e) => Err(e),
                Ok(a) => match lower_spec(env, *b, scope) {
                    Err(e) => Err(e),
                    Ok(b) => Ok(
                        TermView {
                            info: t.info,
                            shape: Shape::If(Box::new(c), Box::new(a), Box::new(b)),
                        },
                    ),
                },
            },
        },
        MetaShape::Cons(h, tl) => match lower_spec(env, *h, scope) {
            Err(e) => Err(e),
            Ok(h) => match lower_spec(env, *tl, scope) {
                Err(e) => Err(e),
                Ok(tl) => Ok(TermView { info: t.info, shape: Shape::Cons(Box::new(h), Box::new(tl)) }),
            },
        },
        MetaShape::Nil => Ok(TermView { info: t.info, shape: Shape::Nil }),
        MetaShape::Number(n) => Ok(TermView { info: t.info, shape: Shape::Number(n) }),
        MetaShape::Bool(b) => Ok(TermView { info: t.info, shape: Shape::Bool(b) }),
        MetaShape::Atom(op) => Ok(TermView { info: t.info, shape: Shape::Atom(op) }),
        MetaShape::List(items) => match collect_results(lower_seq(env, items, scope)) {
            Err(e) => Err(e),
            Ok(vs) => Ok(cons_chain(t.info, vs)),
        },
    }
}


/// Whether no name occurs twice in `names`.
pub fn all_distinct(names: &Vec<String>) -> (r: bool)
    ensures
        r == names_view(names@).no_duplicates(),
{
    let ghost nv = names_view(names@);
    let mut i: usize = 0;
    while i < names.len()
        invariant
            i <= names.len(),
            nv == names_view(names@),
            forall|a: int, b: int| 0 <= a < i && 0 <= b < a ==> nv[a] != nv[b],
        decreases names.len() - i,
    {
        let mut j: usize = 0;
        while j < i
            invariant
                j <= i,
                i < names.len(),
                nv == names_view(names@),
                forall|b: int| 0 <= b < j ==> nv[i as int] != nv[b],
            decreases i - j,
        {
            if names[i] == names[j] {
                assert(nv[i as int] == nv[j as int]);
                return false;
            }
            j += 1;
        }
        i += 1;
    }
    assert forall|a: int, b: int| 0 <= a < nv.len() && 0 <= b < nv.len() && a != b implies nv[a]
        != nv[b] by {
        if b < a {
        } else {
            assert(nv[b] != nv[a]);
        }
    }
    true
}

/// Once the results up to position `i` hold an error, the first error of
/// all of them is the first error up to there.
proof fn lemma_collect_error(all: Seq<Result<TermView, ErrorView>>, i: int)
    requires
        0 <= i < all.len(),
        collect_results(all.subrange(0, i + 1)) is Err,
    ensures
        collect_results(all) == collect_results(all.subrange(0, i + 1)),
    decreases all.len(),
{
    if i + 1 == all.len() {
        assert(all.subrange(0, i + 1) =~= all);
    } else {
        assert(all.drop_last().subrange(0, i + 1) =~= all.subrange(0, i + 1));
        lemma_collect_error(all.drop_last(), i);
    }
}

fn lower_terms(env: &MetaEnv, ts: &Vec<MetaTerm>, scope: &ArgNameMap) -> (r: Result<
    Vec<Term>,
    CompileError,
>)
    ensures
        match r {
            Ok(vs) => collect_results(lower_seq(env@, meta_view_seq(ts@), scope@)) == Ok::<
                Seq<TermView>,
                ErrorView,
            >(view_seq(vs@)),
            Err(e) => collect_results(lower_seq(env@, meta_view_seq(ts@), scope@)) == Err::<
                Seq<TermView>,
                ErrorView,
            >(e@),
        },
    decreases ts,
{
    let ghost all = lower_seq(env@, meta_view_seq(ts@), scope@);
    let mut out: Vec<Term> = Vec::new();
    let mut i: usize = 0;
    assert(all.subrange(0, 0) =~= Seq::<Result<TermView, ErrorView>>::empty());
    assert(view_seq(out@) =~= Seq::<TermView>::empty());
    while i < ts.len()
        invariant
            i <= ts.len(),
            all == lower_seq(env@, meta_view_seq(ts@), scope@),
            collect_results(all.subrange(0, i as int)) == Ok::<Seq<TermView>, ErrorView>(
                view_seq(out@),
            ),
        decreases ts.len() - i,
    {
        let ghost upto = all.subrange(0, i + 1);
        proof {
            assert(upto.drop_last() =~= all.subrange(0, i as int));
            assert(upto.last() == lower_spec(env@, ts@[i as int]@, scope@));
        }
        match transform_to_core_internal(env, &ts[i], scope) {
            Ok(v) => {
                let ghost old_out = view_seq(out@);
                out.push(v);
                assert(view_seq(out@) =~= old_out.push(v@));
            },
            Err(e) => {
                proof {
                    lemma_collect_error(all, i as int);
                }
                return Err(e);
            },
        }
        i += 1;
    }
    assert(all.subrange(0, ts.len() as int) =~= all);
    Ok(out)
}

/// The cons cells that hold `items` in order, each with the metadata `info`,
/// ended by `nil`.
pub fn build_chain(info: &Option<FileInfo>, items: Vec<Term>) -> (r: Term)
    ensures
        r@ == cons_chain(*info, view_seq(items@)),
{
    let ghost all = view_seq(items@);
    let mut items = items;
    let mut acc = Term::Nil(clone_info(info));
    assert(all.subrange(all.len() as int, all.len() as int) =~= Seq::<TermView>::empty());
    while items.len() > 0
        invariant
            items@.len() <= all.len(),
            forall|j: int| 0 <= j < items@.len() ==> (#[trigger] items@[j])@ == all[j],
            acc@ == cons_chain(*info, all.subrange(items@.len() as int, all.len() as int)),
        decreases items@.len(),
    {
        let ghost n = items@.len() as int;
        let ghost rest = all.subrange(n - 1, all.len() as int);
        let last = items.pop().unwrap();
        proof {
            assert(rest.drop_first() =~= all.subrange(n, all.len() as int));
            assert(rest[0] == last@);
        }
        acc = Term::Cons(clone_info(info), Box::new(last), Box::new(acc));
    }
    assert(all.subrange(0, all.len() as int) =~= all);
    acc
}

/// Lowers `mt` under the definitions `env` and the binders `arg_map`.
pub fn transform_to_core_internal(env: &MetaEnv, mt: &MetaTerm, arg_map: &ArgNameMap) -> (r: Result<
    Term,
    CompileError,
>)
    ensures
        agrees(r, lower_spec(env@, mt@, arg_map@)),
    decreases mt,
{
    match mt {
        MetaTerm::Lambda(info, args, body) => {
            if !all_distinct(args) {
                return Err(
                    CompileError::at(
                        clone_info(info),
                        "Variable names in one lambda should be unique.",
                    ),
                );
            }
            let inner = match arg_map.enter(args) {
                Some(inner) => inner,
                None => {
                    return Err(CompileError::at(clone_info(info), "lambdas nest too deep"));
                },
            };
            match transform_to_core_internal(env, body, &inner) {
                Err(e) => Err(e),
                Ok(b) => {
                    assert(names_view(args@).len() == args@.len());
                    Ok(Term::Lambda(clone_info(info), args.len(), Box::new(b)))
                },
            }
        },
        MetaTerm::Variable(info, var) => {
            match arg_map.get(var) {
                Some(p) => Ok(Term::Variable(clone_info(info), p.0, p.1)),
                None => match env.get(var) {
                    Some(t) => Ok(t.clone()),
                    None => {
                        let mut text: Vec<char> = Vec::new();
                        push_str(&mut text, "Variable name \"");
                        push_str(&mut text, var.as_str());
                        push_str(&mut text, "\" is not defined variable.");
                        assert(text@ =~= undefined_message(var@));
                        Err(CompileError::with_chars(clone_info(info), &text))
                    },
                },
            }
        },
        MetaTerm::Apply(info, op, args) => {
            let o = match transform_to_core_internal(env, op, arg_map) {
                Ok(o) => o,
                Err(e) => {
                    return Err(e);
                },
            };
            match lower_terms(env, args, arg_map) {
                Err(e) => Err(e),
                Ok(a) => Ok(Term::Apply(clone_info(info), Box::new(o), a)),
            }
        },
        MetaTerm::Quote(info, q) => {
            match transform_to_core_internal(env, q, arg_map) {
                Err(e) => Err(e),
                Ok(b) => Ok(Term::Quote(clone_info(info), Box::new(b))),
            }
        },
        MetaTerm::If(info, c, a, b) => {
            let c = match transform_to_core_internal(env, c, arg_map) {
                Ok(c) => c,
                Err(e) => {
                    return Err(e);
                },
            };
            let a = match transform_to_core_internal(env, a, arg_map) {
                Ok(a) => a,
                Err(e) => {
                    return Err(e);
                },
            };
            match transform_to_core_internal(env, b, arg_map) {
                Err(e) => Err(e),
                Ok(b) => Ok(Term::If(clone_info(info), Box::new(c), Box::new(a), Box::new(b))),
            }
        },
        MetaTerm::Cons(info, h, tl) => {
            let h = match transform_to_core_internal(env, h, arg_map) {
                Ok(h) => h,
                Err(e) => {
                    return Err(e);
                },
            };
            match transform_to_core_internal(env, tl, arg_map) {
                Err(e) => Err(e),
                Ok(tl) => Ok(Term::Cons(clone_info(info), Box::new(h), Box::new(tl))),
            }
        },
        MetaTerm::Nil(info) => Ok(Term::Nil(clone_info(info))),
        MetaTerm::Number(info, n) => Ok(Term::Number(clone_info(info), n.clone())),
        MetaTerm::Bool(info, b) => Ok(Term::Bool(clone_info(info), *b)),
        MetaTerm::Eq(info) => Ok(Term::Eq(clone_info(info))),
        MetaTerm::Eval(info) => Ok(Term::Eval(clone_info(info))),
        MetaTerm::Add(info) => Ok(Term::Add(clone_info(info))),
        MetaTerm::Sub(info) => Ok(Term::Sub(clone_info(info))),
        MetaTerm::Mul(info) => Ok(Term::Mul(clone_info(info))),
        MetaTerm::Div(info) => Ok(Term::Div(clone_info(info))),
        MetaTerm::Rem(info) => Ok(Term::Rem(clone_info(info))),
        MetaTerm::Car(info) => Ok(Term::Car(clone_info(info))),
        MetaTerm::Cdr(info) => Ok(Term::Cdr(clone_info(info))),
        MetaTerm::List(info, items) => {
            match lower_terms(env, items, arg_map) {
                Err(e) => Err(e),
                Ok(vs) => Ok(build_chain(info, vs)),
            }
        },
    }
}

/// Lowers the surface term `mt` to a core term under the definitions `env`,
/// with no binder in scope.
pub fn transform_to_core(env: &MetaEnv, mt: &MetaTerm) -> (r: Result<Term, CompileError>)
    ensures
        agrees(r, lower_spec(env@, mt@, Seq::empty())),
{
    let scope = ArgNameMap::new();
    transform_to_core_internal(env, mt, &scope)
}

/// The surface constant that stands for the core constant `c`.
pub open spec fn constant_as_meta(c: TermView) -> MetaTermView {
    MetaTermView {
        info: c.info,
        shape: match c.shape {
            Shape::Number(n) => MetaShape::Number(n),
            Shape::Bool(b) => MetaShape::Bool(b),
            Shape::Atom(op) => MetaShape::Atom(op),
            _ => MetaShape::Nil,
        },
    }
}

/// `c` is a number, a boolean, `nil` or an operator.
pub open spec fn is_constant(c: TermView) -> bool {
    c.shape is Number || c.shape is Bool || c.shape is Nil || c.shape is Atom
}

/// Lowering leaves constants alone: a lowered constant, read as a surface
/// term, lowers to itself under every environment and scope.
pub proof fn lowering_keeps_constants(
    env: Map<Seq<char>, TermView>,
    scope: Seq<(Seq<char>, nat, nat)>,
    c: TermView,
)
    requires
        is_constant(c),
    ensures
        lower_spec(env, constant_as_meta(c), scope) == Ok::<TermView, ErrorView>(c),
{
}

/// The tail of the cons chain `t` after `k` cells.
pub open spec fn chain_tail(info: Option<FileInfo>, items: Seq<TermView>, k: nat) -> TermView {
    cons_chain(info, items.subrange(k as int, items.len() as int))
}

/// A list whose items lower without error lowers to the cons chain of the
/// lowered items, with the metadata of the list on every cell.
pub proof fn list_lowers_to_chain(
    env: Map<Seq<char>, TermView>,
    scope: Seq<(Seq<char>, nat, nat)>,
    info: Option<FileInfo>,
    items: Seq<MetaTermView>,
    lowered: Seq<TermView>,
)
    requires
        collect_results(lower_seq(env, items, scope)) == Ok::<Seq<TermView>, ErrorView>(lowered),
    ensures
        lower_spec(env, MetaTermView { info, shape: MetaShape::List(items) }, scope) == Ok::<
            TermView,
            ErrorView,
        >(cons_chain(info, lowered)),
{
}

/// `cdr` applied `k` times to `t`, then `car`: the surface of `(car (cdr ..
/// (cdr t)))` as a core term without metadata.
pub open spec fn car_after_cdrs(t: TermView, k: nat) -> TermView {
    TermView {
        info: None,
        shape: Shape::Apply(
            Box::new(TermView { info: None, shape: Shape::Atom(Operator::Car) }),
            seq![cdrs(t, k)],
        ),
    }
}

/// `cdr` applied `k` times to `t`.
pub open spec fn cdrs(t: TermView, k: nat) -> TermView
    decreases k,
{
    if k == 0 {
        t
    } else {
        TermView {
            info: None,
            shape: Shape::Apply(
                Box::new(TermView { info: None, shape: Shape::Atom(Operator::Cdr) }),
                seq![cdrs(t, (k - 1) as nat)],
            ),
        }
    }
}


/// `cdr` applied `k` times to a cons chain reduces to what is left of the
/// chain after `k` cells, but for the metadata of its first cell.
pub proof fn cdrs_reduce_to_tail(info: Option<FileInfo>, items: Seq<TermView>, k: nat, fuel: nat)
    requires
        k <= items.len(),
        fuel >= k,
    ensures
        eval_spec(cdrs(cons_chain(info, items), k), fuel) is Ok,
        eval_spec(cdrs(cons_chain(info, items), k), fuel)->Ok_0.shape == chain_tail(
            info,
            items,
            k,
        ).shape,
    decreases k,
{
    let chain = cons_chain(info, items);
    if k == 0 {
        assert(items.subrange(0, items.len() as int) =~= items);
    } else {
        let below = (k - 1) as nat;
        let f = (fuel - 1) as nat;
        cdrs_reduce_to_tail(info, items, below, f);
        let part = items.subrange(below as int, items.len() as int);
        assert(part.drop_first() =~= items.subrange(k as int, items.len() as int));
        let op = TermView { info: None, shape: Shape::Atom(Operator::Cdr) };
        assert(eval_spec(op, f) == Ok::<TermView, ErrorView>(op));
        let inner = cdrs(chain, below);
        assert(cdrs(chain, k).shape == Shape::Apply(Box::new(op), seq![inner]));
        assert(eval_spec(cdrs(chain, k), fuel) == apply_spec(None, op, seq![inner], f));
        assert(seq![inner][0] == inner);
    }
}

/// `car` of `cdr` applied `k` times to the cons chain of `items` is the
/// item at position `k`, as it stands in the chain.
pub proof fn car_of_cdrs_selects(info: Option<FileInfo>, items: Seq<TermView>, k: nat, fuel: nat)
    requires
        k < items.len(),
        fuel > k,
    ensures
        eval_spec(car_after_cdrs(cons_chain(info, items), k), fuel) == Ok::<TermView, ErrorView>(
            items[k as int],
        ),
{
    let chain = cons_chain(info, items);
    let f = (fuel - 1) as nat;
    cdrs_reduce_to_tail(info, items, k, f);
    let part = items.subrange(k as int, items.len() as int);
    assert(part[0] == items[k as int]);
    let op = TermView { info: None, shape: Shape::Atom(Operator::Car) };
    assert(eval_spec(op, f) == Ok::<TermView, ErrorView>(op));
    let inner = cdrs(chain, k);
    assert(eval_spec(car_after_cdrs(chain, k), fuel) == apply_spec(None, op, seq![inner], f));
    assert(seq![inner][0] == inner);
}


/// The direct subterms of the surface term `t`, from left to right.
pub open spec fn meta_subterms(t: MetaTermView) -> Seq<MetaTermView> {
    match t.shape {
        MetaShape::Apply(op, args) => seq![*op] + args,
        MetaShape::Lambda(_, body) => seq![*body],
        MetaShape::Quote(q) => seq![*q],
        MetaShape::If(c, a, b) => seq![*c, *a, *b],
        MetaShape::Cons(h, tl) => seq![*h, *tl],
        MetaShape::List(items) => items,
        _ => Seq::empty(),
    }
}

/// The surface term `t` with its direct subterms replaced by `subs`, from
/// left to right.
pub open spec fn with_meta_subterms(t: MetaTermView, subs: Seq<MetaTermView>) -> MetaTermView {
    MetaTermView {
        info: t.info,
        shape: match t.shape {
            MetaShape::Apply(_, _) => MetaShape::Apply(
                Box::new(subs[0]),
                subs.subrange(1, subs.len() as int),
            ),
            MetaShape::Lambda(names, _) => MetaShape::Lambda(names, Box::new(subs[0])),
            MetaShape::Quote(_) => MetaShape::Quote(Box::new(subs[0])),
            MetaShape::If(_, _, _) => MetaShape::If(
                Box::new(subs[0]),
                Box::new(subs[1]),
                Box::new(subs[2]),
            ),
            MetaShape::Cons(_, _) => MetaShape::Cons(Box::new(subs[0]), Box::new(subs[1])),
            MetaShape::List(_) => MetaShape::List(subs),
            other => other,
        },
    }
}

/// `f` can turn a surface term whose model is `a` into one whose model is
/// `b`.
pub open spec fn meta_maps_to<F: Fn(MetaTerm) -> MetaTerm>(
    f: F,
    a: MetaTermView,
    b: MetaTermView,
) -> bool {
    exists|s: MetaTerm, o: MetaTerm| s@ == a && o@ == b && #[trigger] f.ensures((s,), o)
}

fn map_terms<F>(ts: &Vec<MetaTerm>, f: &F) -> (r: Vec<MetaTerm>) where F: Fn(MetaTerm) -> MetaTerm
    requires
        forall|s: MetaTerm| meta_view_seq(ts@).contains(s@) ==> #[trigger] f.requires((s,)),
    ensures
        r@.len() == ts@.len(),
        forall|j: int| 0 <= j < ts@.len() ==> meta_maps_to(*f, ts@[j]@, (#[trigger] r@[j])@),
{
    let mut out: Vec<MetaTerm> = Vec::new();
    let mut i: usize = 0;
    while i < ts.len()
        invariant
            i <= ts.len(),
            out@.len() == i,
            forall|s: MetaTerm| meta_view_seq(ts@).contains(s@) ==> #[trigger] f.requires((s,)),
            forall|j: int| 0 <= j < i ==> meta_maps_to(*f, ts@[j]@, (#[trigger] out@[j])@),
        decreases ts.len() - i,
    {
        let copy = ts[i].clone();
        assert(meta_view_seq(ts@)[i as int] == copy@);
        let mapped = f(copy);
        assert(meta_maps_to(*f, ts@[i as int]@, mapped@));
        out.push(mapped);
        i += 1;
    }
    out
}

impl MetaTerm {
    /// A copy of the term in which `f` has been applied to a copy of each
    /// direct subterm; a term without subterms is copied as it is.
    pub fn map_subterm<F>(&self, f: F) -> (r: MetaTerm) where F: Fn(MetaTerm) -> MetaTerm
        requires
            forall|s: MetaTerm| meta_subterms(self@).contains(s@) ==> #[trigger] f.requires((s,)),
        ensures
            r@ == with_meta_subterms(self@, meta_subterms(r@)),
            meta_subterms(r@).len() == meta_subterms(self@).len(),
            forall|i: int|
                0 <= i < meta_subterms(self@).len() ==> meta_maps_to(
                    f,
                    #[trigger] meta_subterms(self@)[i],
                    meta_subterms(r@)[i],
                ),
    {
        let ghost subs = meta_subterms(self@);
        match self {
            MetaTerm::Apply(info, t1, ts) => {
                assert(subs =~= seq![t1@] + meta_view_seq(ts@));
                assert(subs[0] == t1@);
                assert forall|s: MetaTerm| meta_view_seq(ts@).contains(s@) implies #[trigger] f.requires(
                    (s,),
                ) by {
                    let k = choose|k: int|
                        0 <= k < meta_view_seq(ts@).len() && meta_view_seq(ts@)[k] == s@;
                    assert(subs[k + 1] == s@);
                }
                let op = f((**t1).clone());
                assert(meta_maps_to(f, subs[0], op@));
                let out = map_terms(ts, &f);
                let r = MetaTerm::Apply(clone_info(info), Box::new(op), out);
                proof {
                    let rs = meta_subterms(r@);
                    assert(rs =~= seq![op@] + meta_view_seq(out@));
                    assert(rs.subrange(1, rs.len() as int) =~= meta_view_seq(out@));
                    assert forall|i: int| 0 <= i < subs.len() implies meta_maps_to(
                        f,
                        #[trigger] subs[i],
                        rs[i],
                    ) by {
                        if i > 0 {
                            assert(meta_maps_to(f, ts@[i - 1]@, out@[i - 1]@));
                        }
                    }
                }
                r
            },
            MetaTerm::Lambda(info, a1, t1) => {
                assert(subs[0] == t1@);
                let body = f((**t1).clone());
                assert(meta_maps_to(f, subs[0], body@));
                MetaTerm::Lambda(clone_info(info), clone_names(a1), Box::new(body))
            },
            MetaTerm::If(info, t1, t2, t3) => {
                assert(subs[0] == t1@ && subs[1] == t2@ && subs[2] == t3@);
                let c = f((**t1).clone());
                let a = f((**t2).clone());
                let b = f((**t3).clone());
                assert(meta_maps_to(f, subs[0], c@));
                assert(meta_maps_to(f, subs[1], a@));
                assert(meta_maps_to(f, subs[2], b@));
                MetaTerm::If(clone_info(info), Box::new(c), Box::new(a), Box::new(b))
            },
            MetaTerm::Quote(info, t1) => {
                assert(subs[0] == t1@);
                let q = f((**t1).clone());
                assert(meta_maps_to(f, subs[0], q@));
                MetaTerm::Quote(clone_info(info), Box::new(q))
            },
            MetaTerm::Cons(info, t1, t2) => {
                assert(subs[0] == t1@ && subs[1] == t2@);
                let h = f((**t1).clone());
                let tl = f((**t2).clone());
                assert(meta_maps_to(f, subs[0], h@));
                assert(meta_maps_to(f, subs[1], tl@));
                MetaTerm::Cons(clone_info(info), Box::new(h), Box::new(tl))
            },
            MetaTerm::List(info, ts) => {
                assert(subs == meta_view_seq(ts@));
                let out = map_terms(ts, &f);
                let r = MetaTerm::List(clone_info(info), out);
                proof {
                    assert(meta_subterms(r@) == meta_view_seq(out@));
                    assert forall|i: int| 0 <= i < subs.len() implies meta_maps_to(
                        f,
                        #[trigger] subs[i],
                        meta_subterms(r@)[i],
                    ) by {
                        assert(meta_maps_to(f, ts@[i]@, out@[i]@));
                    }
                }
                r
            },
            _ => self.clone(),
        }
    }
}

} // verus!
