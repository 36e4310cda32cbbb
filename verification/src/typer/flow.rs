//! What conditions prove about locals, and which names statements declare and
//! assign.

use crate::typer::ast::{
    texts, AssignTarget, BinOp, CatchClause, Expr, Stmt, Ty, Type, UnaryOp, views,
};
use crate::typer::hierarchy::push_texts;
use crate::typer::keyed::{entries, find, insert, lookup, put, put_back, restore};
use vstd::prelude::*;

verus! {

// ---------------------------------------------------------------------------
// Names
// ---------------------------------------------------------------------------

/// The names that the first `n` statements declare.
pub open spec fn declared_upto(stmts: Vec<Stmt>, n: int) -> Seq<Seq<char>>
    decreases stmts, n,
{
    if n <= 0 || n > stmts@.len() {
        seq![]
    } else {
        declared_upto(stmts, n - 1) + declared_in(stmts@[n - 1])
    }
}

/// The names that a list of statements declares.
pub open spec fn declared_by(stmts: Vec<Stmt>) -> Seq<Seq<char>>
    decreases stmts, stmts@.len() + 1,
{
    declared_upto(stmts, stmts@.len() as int)
}

/// The names that an optional list of statements declares.
pub open spec fn declared_by_opt(stmts: Option<Vec<Stmt>>) -> Seq<Seq<char>>
    decreases stmts, 0int,
{
    match stmts {
        Some(s) => declared_by(s),
        None => seq![],
    }
}

/// The names that the first `n` handlers declare.
pub open spec fn declared_catches(catches: Vec<CatchClause>, n: int) -> Seq<Seq<char>>
    decreases catches, n,
{
    if n <= 0 || n > catches@.len() {
        seq![]
    } else {
        declared_catches(catches, n - 1) + (seq![catches@[n - 1].name@] + declared_by(
            catches@[n - 1].body,
        ))
    }
}

/// The names that a statement declares.
pub open spec fn declared_in(stmt: Stmt) -> Seq<Seq<char>>
    decreases stmt, 0int,
{
    match stmt {
        Stmt::VarDecl(_, name, _) => seq![name@],
        Stmt::TupleDecl(names, _) => texts(names@),
        Stmt::If(_, a, b) => declared_by(a) + declared_by_opt(b),
        Stmt::IfLet(_, _, a, b) => declared_by(a) + declared_by_opt(b),
        Stmt::While { label: _, condition: _, body } => declared_by(body),
        Stmt::DoWhile { label: _, body, condition: _ } => declared_by(body),
        Stmt::Block(body) => declared_by(body),
        Stmt::For { label: _, init, condition: _, update, body } => declared_in(*init)
            + declared_in(*update) + declared_by(body),
        Stmt::ForIn { label: _, var_type: _, var_name, iterable: _, body } => seq![var_name@]
            + declared_by(body),
        Stmt::Try { try_body, catches, finally_body } => declared_by(try_body) + declared_catches(
            catches,
            catches@.len() as int,
        ) + declared_by_opt(finally_body),
        Stmt::Using { resource_ty: _, name, expr: _, body } => match name {
            Some(n) => seq![n@] + declared_by(body),
            None => declared_by(body),
        },
        _ => seq![],
    }
}

/// The locals that the first `n` statements assign.
pub open spec fn assigned_upto(stmts: Vec<Stmt>, n: int) -> Seq<Seq<char>>
    decreases stmts, n,
{
    if n <= 0 || n > stmts@.len() {
        seq![]
    } else {
        assigned_upto(stmts, n - 1) + assigned_in(stmts@[n - 1])
    }
}

/// The locals that a list of statements assigns.
pub open spec fn assigned_by(stmts: Vec<Stmt>) -> Seq<Seq<char>>
    decreases stmts, stmts@.len() + 1,
{
    assigned_upto(stmts, stmts@.len() as int)
}

/// The locals that an optional list of statements assigns.
pub open spec fn assigned_by_opt(stmts: Option<Vec<Stmt>>) -> Seq<Seq<char>>
    decreases stmts, 0int,
{
    match stmts {
        Some(s) => assigned_by(s),
        None => seq![],
    }
}

/// The locals that the first `n` handlers assign.
pub open spec fn assigned_catches(catches: Vec<CatchClause>, n: int) -> Seq<Seq<char>>
    decreases catches, n,
{
    if n <= 0 || n > catches@.len() {
        seq![]
    } else {
        assigned_catches(catches, n - 1) + assigned_by(catches@[n - 1].body)
    }
}

/// The locals that a statement assigns.
pub open spec fn assigned_in(stmt: Stmt) -> Seq<Seq<char>>
    decreases stmt, 0int,
{
    match stmt {
        Stmt::Assign(target, _) => match target {
            AssignTarget::Local(name) => seq![name@],
            _ => seq![],
        },
        Stmt::If(_, a, b) => assigned_by(a) + assigned_by_opt(b),
        Stmt::IfLet(_, _, a, b) => assigned_by(a) + assigned_by_opt(b),
        Stmt::While { label: _, condition: _, body } => assigned_by(body),
        Stmt::DoWhile { label: _, body, condition: _ } => assigned_by(body),
        Stmt::Block(body) => assigned_by(body),
        Stmt::For { label: _, init, condition: _, update, body } => assigned_in(*init)
            + assigned_in(*update) + assigned_by(body),
        Stmt::ForIn { label: _, var_type: _, var_name: _, iterable: _, body } => assigned_by(body),
        Stmt::Try { try_body, catches, finally_body } => assigned_by(try_body) + assigned_catches(
            catches,
            catches@.len() as int,
        ) + assigned_by_opt(finally_body),
        Stmt::Using { resource_ty: _, name: _, expr: _, body } => assigned_by(body),
        _ => seq![],
    }
}

/// Appends a text.
fn push_text(out: &mut Vec<String>, s: &String)
    ensures
        texts(final(out)@) == texts(old(out)@) + seq![s@],
{
    let ghost before = out@;
    out.push(s.clone());
    assert(texts(out@) =~= texts(before) + seq![s@]);
}

/// Collect names declared anywhere inside these statements (variable
/// declarations, loop variables, tuple destructuring, `using` bindings,
/// catch bindings). Used by lambda capture checking; a flat list is a safe
/// over-approximation.
pub fn collect_declared_names(stmts: &Vec<Stmt>, out: &mut Vec<String>)
    ensures
        texts(final(out)@) == texts(old(out)@) + declared_by(*stmts),
    decreases stmts, 0int,
{
    let ghost before = texts(out@);
    let mut i: usize = 0;
    assert(before + declared_upto(*stmts, 0) =~= before);
    while i < stmts.len()
        invariant
            i <= stmts@.len(),
            texts(out@) == before + declared_upto(*stmts, i as int),
        decreases stmts.len() - i,
    {
        proof {
            assert(decreases_to!(stmts => stmts@[i as int]));
            assert(before + (declared_upto(*stmts, i as int) + declared_in(stmts@[i as int]))
                =~= before + declared_upto(*stmts, i as int) + declared_in(stmts@[i as int]));
        }
        collect_declared(&stmts[i], out);
        i = i + 1;
    }
}

fn collect_declared_opt(stmts: &Option<Vec<Stmt>>, out: &mut Vec<String>)
    ensures
        texts(final(out)@) == texts(old(out)@) + declared_by_opt(*stmts),
    decreases stmts, 0int,
{
    match stmts {
        Some(s) => collect_declared_names(s, out),
        None => {
            assert(texts(out@) + Seq::<Seq<char>>::empty() =~= texts(out@));
        },
    }
}

fn collect_declared_catches(catches: &Vec<CatchClause>, out: &mut Vec<String>)
    ensures
        texts(final(out)@) == texts(old(out)@) + declared_catches(*catches, catches@.len() as int),
    decreases catches, 0int,
{
    let ghost before = texts(out@);
    let mut i: usize = 0;
    assert(before + declared_catches(*catches, 0) =~= before);
    while i < catches.len()
        invariant
            i <= catches@.len(),
            texts(out@) == before + declared_catches(*catches, i as int),
        decreases catches.len() - i,
    {
        let ghost mid = texts(out@);
        push_text(out, &catches[i].name);
        proof {
            assert(decreases_to!(catches => catches@[i as int]));
            assert(decreases_to!(catches => catches@[i as int].body));
        }
        collect_declared_names(&catches[i].body, out);
        proof {
            let c = catches@[i as int];
            assert(before + (declared_catches(*catches, i as int) + (seq![c.name@] + declared_by(
                c.body,
            ))) =~= before + declared_catches(*catches, i as int) + seq![c.name@] + declared_by(
                c.body,
            ));
        }
        i = i + 1;
    }
}

fn collect_declared(stmt: &Stmt, out: &mut Vec<String>)
    ensures
        texts(final(out)@) == texts(old(out)@) + declared_in(*stmt),
    decreases stmt, 0int,
{
    let ghost before = texts(out@);
    match stmt {
        Stmt::VarDecl(_, name, _) => {
            push_text(out, name);
        },
        Stmt::TupleDecl(names, _) => {
            push_texts(out, names);
        },
        Stmt::If(_, a, b) => {
            collect_declared_names(a, out);
            collect_declared_opt(b, out);
        },
        Stmt::IfLet(_, _, a, b) => {
            collect_declared_names(a, out);
            collect_declared_opt(b, out);
        },
        Stmt::While { label: _, condition: _, body } => collect_declared_names(body, out),
        Stmt::DoWhile { label: _, body, condition: _ } => collect_declared_names(body, out),
        Stmt::Block(body) => collect_declared_names(body, out),
        Stmt::For { label: _, init, condition: _, update, body } => {
            collect_declared(init, out);
            collect_declared(update, out);
            collect_declared_names(body, out);
        },
        Stmt::ForIn { label: _, var_type: _, var_name, iterable: _, body } => {
            push_text(out, var_name);
            collect_declared_names(body, out);
        },
        Stmt::Try { try_body, catches, finally_body } => {
            collect_declared_names(try_body, out);
            collect_declared_catches(catches, out);
            collect_declared_opt(finally_body, out);
        },
        Stmt::Using { resource_ty: _, name, expr: _, body } => {
            if let Some(n) = name {
                push_text(out, n);
            }
            collect_declared_names(body, out);
        },
        _ => {},
    }
    assert(texts(out@) =~= before + declared_in(*stmt));
}

/// Collect local names assigned anywhere inside these statements.
pub fn collect_assigned_locals(stmts: &Vec<Stmt>, out: &mut Vec<String>)
    ensures
        texts(final(out)@) == texts(old(out)@) + assigned_by(*stmts),
    decreases stmts, 0int,
{
    let ghost before = texts(out@);
    let mut i: usize = 0;
    assert(before + assigned_upto(*stmts, 0) =~= before);
    while i < stmts.len()
        invariant
            i <= stmts@.len(),
            texts(out@) == before + assigned_upto(*stmts, i as int),
        decreases stmts.len() - i,
    {
        proof {
            assert(decreases_to!(stmts => stmts@[i as int]));
            assert(before + (assigned_upto(*stmts, i as int) + assigned_in(stmts@[i as int]))
                =~= before + assigned_upto(*stmts, i as int) + assigned_in(stmts@[i as int]));
        }
        collect_assigned(&stmts[i], out);
        i = i + 1;
    }
}

fn collect_assigned_opt(stmts: &Option<Vec<Stmt>>, out: &mut Vec<String>)
    ensures
        texts(final(out)@) == texts(old(out)@) + assigned_by_opt(*stmts),
    decreases stmts, 0int,
{
    match stmts {
        Some(s) => collect_assigned_locals(s, out),
        None => {
            assert(texts(out@) + Seq::<Seq<char>>::empty() =~= texts(out@));
        },
    }
}

fn collect_assigned_catches(catches: &Vec<CatchClause>, out: &mut Vec<String>)
    ensures
        texts(final(out)@) == texts(old(out)@) + assigned_catches(*catches, catches@.len() as int),
    decreases catches, 0int,
{
    let ghost before = texts(out@);
    let mut i: usize = 0;
    assert(before + assigned_catches(*catches, 0) =~= before);
    while i < catches.len()
        invariant
            i <= catches@.len(),
            texts(out@) == before + assigned_catches(*catches, i as int),
        decreases catches.len() - i,
    {
        proof {
            assert(decreases_to!(catches => catches@[i as int]));
            assert(decreases_to!(catches => catches@[i as int].body));
        }
        collect_assigned_locals(&catches[i].body, out);
        proof {
            let c = catches@[i as int];
            assert(before + (assigned_catches(*catches, i as int) + assigned_by(c.body)) =~= before
                + assigned_catches(*catches, i as int) + assigned_by(c.body));
        }
        i = i + 1;
    }
}

fn collect_assigned(stmt: &Stmt, out: &mut Vec<String>)
    ensures
        texts(final(out)@) == texts(old(out)@) + assigned_in(*stmt),
    decreases stmt, 0int,
{
    let ghost before = texts(out@);
    match stmt {
        Stmt::Assign(target, _) => {
            if let AssignTarget::Local(name) = target {
                push_text(out, name);
            }
        },
        Stmt::If(_, a, b) => {
            collect_assigned_locals(a, out);
            collect_assigned_opt(b, out);
        },
        Stmt::IfLet(_, _, a, b) => {
            collect_assigned_locals(a, out);
            collect_assigned_opt(b, out);
        },
        Stmt::While { label: _, condition: _, body } => collect_assigned_locals(body, out),
        Stmt::DoWhile { label: _, body, condition: _ } => collect_assigned_locals(body, out),
        Stmt::Block(body) => collect_assigned_locals(body, out),
        Stmt::For { label: _, init, condition: _, update, body } => {
            collect_assigned(init, out);
            collect_assigned(update, out);
            collect_assigned_locals(body, out);
        },
        Stmt::ForIn { label: _, var_type: _, var_name: _, iterable: _, body } => {
            collect_assigned_locals(body, out);
        },
        Stmt::Try { try_body, catches, finally_body } => {
            collect_assigned_locals(try_body, out);
            collect_assigned_catches(catches, out);
            collect_assigned_opt(finally_body, out);
        },
        Stmt::Using { resource_ty: _, name: _, expr: _, body } => {
            collect_assigned_locals(body, out);
        },
        _ => {},
    }
    assert(texts(out@) =~= before + assigned_in(*stmt));
}

// ---------------------------------------------------------------------------
// Facts
// ---------------------------------------------------------------------------

/// A single narrowing fact derived from a condition.
#[derive(Debug)]
pub enum GuardFact {
    /// Local `name` (declared as the nullable version of `inner`) is known
    /// non-null and narrows to `inner`.
    NonNull {
        /// Local.
        name: String,
        /// Its type without `null`.
        inner: Type,
    },
    /// An `is`-test binding `name` holding the subject typed as `ty`.
    Binding {
        /// Name.
        name: String,
        /// Type.
        ty: Type,
    },
}

/// A fact by value.
pub ghost enum Fact {
    /// A local is not null.
    NonNull(Seq<char>, Ty),
    /// A name is bound.
    Binding(Seq<char>, Ty),
}

impl View for GuardFact {
    type V = Fact;

    open spec fn view(&self) -> Fact {
        match *self {
            GuardFact::NonNull { name, inner } => Fact::NonNull(name@, inner@),
            GuardFact::Binding { name, ty } => Fact::Binding(name@, ty@),
        }
    }
}

/// The local that a condition compares with `null`, and whether it asks for
/// inequality.
pub open spec fn null_test(cond: Expr) -> Option<(Seq<char>, bool)> {
    match cond {
        Expr::Binary(op, l, r) => if op == BinOp::Ne || op == BinOp::Eq {
            match (*l, *r) {
                (Expr::Var(n), Expr::Null) => Some((n@, op == BinOp::Ne)),
                (Expr::Null, Expr::Var(n)) => Some((n@, op == BinOp::Ne)),
                _ => None,
            }
        } else {
            None
        },
        _ => None,
    }
}

/// The fact that a local is not null, where it is nullable.
pub open spec fn non_null(locals: Seq<(Seq<char>, Ty)>, name: Seq<char>) -> Seq<Fact> {
    match lookup(locals, name) {
        Some(Ty::Nullable(t)) => seq![Fact::NonNull(name, *t)],
        _ => seq![],
    }
}

/// Everything that a condition proves about locals when it evaluates to
/// `positive`.
pub open spec fn facts(cond: Expr, locals: Seq<(Seq<char>, Ty)>, positive: bool) -> Seq<Fact>
    decreases cond,
{
    match null_test(cond) {
        Some((name, is_ne)) => if is_ne == positive {
            non_null(locals, name)
        } else {
            seq![]
        },
        None => match cond {
            Expr::Is(subject, ty, binding) => if positive {
                (match binding {
                    Some(b) => seq![Fact::Binding(b@, ty@)],
                    None => seq![],
                }) + (match *subject {
                    Expr::Var(name) => non_null(locals, name@),
                    _ => seq![],
                })
            } else {
                seq![]
            },
            Expr::Binary(op, a, b) => if op == BinOp::And && positive {
                facts(*a, locals, true) + facts(*b, locals, true)
            } else if op == BinOp::Or && !positive {
                facts(*a, locals, false) + facts(*b, locals, false)
            } else {
                seq![]
            },
            Expr::Unary(op, a) => if op == UnaryOp::Not {
                facts(*a, locals, !positive)
            } else {
                seq![]
            },
            _ => seq![],
        },
    }
}

/// A double negation proves what the condition proves.
pub proof fn double_negation(cond: Expr, locals: Seq<(Seq<char>, Ty)>, positive: bool)
    ensures
        facts(
            Expr::Unary(UnaryOp::Not, Box::new(Expr::Unary(UnaryOp::Not, Box::new(cond)))),
            locals,
            positive,
        ) == facts(cond, locals, positive),
{
    reveal_with_fuel(facts, 3);
}

/// Recognize `x != null` / `x == null` (either operand order) on a local
/// variable. Returns (name, is_not_null).
pub fn null_comparison<'a>(cond: &'a Expr) -> (r: Option<(&'a String, bool)>)
    ensures
        match r {
            Some((n, b)) => null_test(*cond) == Some((n@, b)),
            None => null_test(*cond) is None,
        },
{
    match cond {
        Expr::Binary(op, l, r) => {
            if !matches!(op, BinOp::Ne | BinOp::Eq) {
                return None;
            }
            let is_ne: bool = matches!(op, BinOp::Ne);
            match (&**l, &**r) {
                (Expr::Var(n), Expr::Null) => Some((n, is_ne)),
                (Expr::Null, Expr::Var(n)) => Some((n, is_ne)),
                _ => None,
            }
        },
        _ => None,
    }
}

fn push_non_null(name: &String, locals: &Vec<(String, Type)>, out: &mut Vec<GuardFact>)
    ensures
        views(final(out)@) == views(old(out)@) + non_null(entries(locals@), name@),
{
    let ghost before = views(out@);
    match find(locals, name.as_str()) {
        Some(t) => {
            if let Type::Nullable(inner) = t {
                let f: GuardFact = GuardFact::NonNull {
                    name: name.clone(),
                    inner: (&**inner).clone(),
                };
                out.push(f);
            }
        },
        None => {},
    }
    assert(views(out@) =~= before + non_null(entries(locals@), name@));
}

/// Collects everything a condition proves about locals when it evaluates to
/// `positive`. Facts compose through `&&` (both sides hold when true),
/// `||` (both negations hold when false) and `!` (flips polarity):
///
/// * `x != null` when true / `x == null` when false: `x` is non-null.
/// * `x is T [name]` when true: the binding `name` holds the subject
///   typed as `T`, and a nullable subject variable is known non-null.
///
/// `&&`/`||` deliberately contribute nothing in the other polarity — a
/// false `a && b` doesn't say which side failed.
pub fn collect_facts(
    cond: &Expr,
    locals: &Vec<(String, Type)>,
    positive: bool,
    out: &mut Vec<GuardFact>,
)
    ensures
        views(final(out)@) == views(old(out)@) + facts(*cond, entries(locals@), positive),
    decreases cond,
{
    let ghost before = views(out@);
    if let Some((name, is_ne)) = null_comparison(cond) {
        if is_ne == positive {
            push_non_null(name, locals, out);
        }
        assert(views(out@) =~= before + facts(*cond, entries(locals@), positive));
        return ;
    }
    match cond {
        Expr::Is(subject, ty, binding) => {
            if positive {
                if let Some(b) = binding {
                    let f: GuardFact = GuardFact::Binding { name: b.clone(), ty: ty.clone() };
                    out.push(f);
                    assert(views(out@) =~= before.push(Fact::Binding(b@, ty@)));
                }
                if let Expr::Var(name) = &**subject {
                    push_non_null(name, locals, out);
                }
            }
        },
        Expr::Binary(op, a, b) => {
            if matches!(op, BinOp::And) && positive {
                collect_facts(a, locals, true, out);
                collect_facts(b, locals, true, out);
            } else if matches!(op, BinOp::Or) && !positive {
                collect_facts(a, locals, false, out);
                collect_facts(b, locals, false, out);
            }
        },
        Expr::Unary(op, a) => {
            if matches!(op, UnaryOp::Not) {
                collect_facts(a, locals, !positive, out);
            }
        },
        _ => {},
    }
    assert(views(out@) =~= before + facts(*cond, entries(locals@), positive));
}

/// Everything a condition proves about locals when it evaluates to `positive`.
pub fn condition_facts(cond: &Expr, locals: &Vec<(String, Type)>, positive: bool) -> (r: Vec<
    GuardFact,
>)
    ensures
        views(r@) == facts(*cond, entries(locals@), positive),
{
    let mut out: Vec<GuardFact> = Vec::new();
    collect_facts(cond, locals, positive, &mut out);
    assert(views(out@) =~= facts(*cond, entries(locals@), positive));
    out
}

/// A branch always transfers control away.
pub open spec fn terminates(body: Seq<Stmt>) -> bool {
    body.len() > 0 && match body.last() {
        Stmt::Return(_) => true,
        Stmt::Throw(_) => true,
        Stmt::Break(_) => true,
        Stmt::Continue(_) => true,
        _ => false,
    }
}

/// True if a branch always transfers control away (so code after the
/// enclosing `if` only runs when the branch was not taken).
pub fn branch_terminates(body: &Vec<Stmt>) -> (r: bool)
    ensures
        r == terminates(body@),
{
    if body.len() == 0 {
        return false;
    }
    matches!(
        &body[body.len() - 1],
        Stmt::Return(_) | Stmt::Throw(_) | Stmt::Break(_) | Stmt::Continue(_)
    )
}

// ---------------------------------------------------------------------------
// Narrowing
// ---------------------------------------------------------------------------

/// What changes while statements are checked.
pub struct State {
    /// Locals currently narrowed from `T?` to `T` by a null check, mapped to
    /// their declared (nullable) type. Assigning to a narrowed local widens
    /// it back to the declared type.
    pub narrowed: Vec<(String, Type)>,
    /// Source line of the statement currently being checked; 0 when outside
    /// statement context.
    pub line: usize,
}

/// What changes while statements are checked, by value.
#[verifier::ext_equal]
pub ghost struct Status {
    /// Narrowed locals with their declared types.
    pub narrowed: Seq<(Seq<char>, Ty)>,
    /// Source line.
    pub line: usize,
}

impl View for State {
    type V = Status;

    open spec fn view(&self) -> Status {
        Status { narrowed: entries(self.narrowed@), line: self.line }
    }
}

/// The name that a fact is about.
pub open spec fn fact_name(f: Fact) -> Seq<char> {
    match f {
        Fact::NonNull(n, _) => n,
        Fact::Binding(n, _) => n,
    }
}

/// The type that a fact gives to its name.
pub open spec fn fact_ty(f: Fact) -> Ty {
    match f {
        Fact::NonNull(_, t) => t,
        Fact::Binding(_, t) => t,
    }
}

/// The locals under the first `n` facts.
pub open spec fn locals_under(
    locals: Seq<(Seq<char>, Ty)>,
    fs: Seq<Fact>,
    n: int,
) -> Seq<(Seq<char>, Ty)>
    decreases n,
{
    if n <= 0 {
        locals
    } else {
        put(locals_under(locals, fs, n - 1), fact_name(fs[n - 1]), fact_ty(fs[n - 1]))
    }
}

/// What the names of the first `n` facts stood for before.
pub open spec fn saved_locals(
    locals: Seq<(Seq<char>, Ty)>,
    fs: Seq<Fact>,
    n: int,
) -> Seq<(Seq<char>, Option<Ty>)>
    decreases n,
{
    if n <= 0 {
        seq![]
    } else {
        saved_locals(locals, fs, n - 1).push(
            (
                fact_name(fs[n - 1]),
                lookup(locals_under(locals, fs, n - 1), fact_name(fs[n - 1])),
            ),
        )
    }
}

/// The narrowed locals under the first `n` facts.
pub open spec fn narrowed_under(
    narrowed: Seq<(Seq<char>, Ty)>,
    fs: Seq<Fact>,
    n: int,
) -> Seq<(Seq<char>, Ty)>
    decreases n,
{
    if n <= 0 {
        narrowed
    } else {
        match fs[n - 1] {
            Fact::NonNull(name, t) => put(
                narrowed_under(narrowed, fs, n - 1),
                name,
                Ty::Nullable(Box::new(t)),
            ),
            Fact::Binding(_, _) => narrowed_under(narrowed, fs, n - 1),
        }
    }
}

/// What the names of the first `n` facts were narrowed from before.
pub open spec fn saved_narrowed(
    narrowed: Seq<(Seq<char>, Ty)>,
    fs: Seq<Fact>,
    n: int,
) -> Seq<(Seq<char>, Option<Ty>)>
    decreases n,
{
    if n <= 0 {
        seq![]
    } else {
        match fs[n - 1] {
            Fact::NonNull(name, t) => saved_narrowed(narrowed, fs, n - 1).push(
                (name, lookup(narrowed_under(narrowed, fs, n - 1), name)),
            ),
            Fact::Binding(_, _) => saved_narrowed(narrowed, fs, n - 1),
        }
    }
}

/// The first `n` saved entries are put back, the last one first.
pub open spec fn restored(
    s: Seq<(Seq<char>, Ty)>,
    saved: Seq<(Seq<char>, Option<Ty>)>,
    n: int,
) -> Seq<(Seq<char>, Ty)>
    decreases n,
{
    if n <= 0 {
        s
    } else {
        restored(put_back(s, saved[n - 1].0, saved[n - 1].1), saved, n - 1)
    }
}

/// Saved entries by value.
pub open spec fn saved_of(s: Seq<(String, Option<Type>)>) -> Seq<(Seq<char>, Option<Ty>)> {
    Seq::new(
        s.len(),
        |i: int|
            (
                s[i].0@,
                match s[i].1 {
                    Some(t) => Some(t@),
                    None => None,
                },
            ),
    )
}

fn copy_of(v: &Vec<(String, Type)>, name: &str) -> (r: Option<Type>)
    ensures
        match r {
            Some(t) => lookup(entries(v@), name@) == Some(t@),
            None => lookup(entries(v@), name@) is None,
        },
{
    match find(v, name) {
        Some(t) => Some(t.clone()),
        None => None,
    }
}

/// Remembers what `name` stands for.
pub fn save(saved: &mut Vec<(String, Option<Type>)>, v: &Vec<(String, Type)>, name: &str)
    ensures
        saved_of(final(saved)@) == saved_of(old(saved)@).push(
            (name@, lookup(entries(v@), name@)),
        ),
{
    let ghost before = saved_of(saved@);
    let prev: Option<Type> = copy_of(v, name);
    let key: String = crate::text::own(name);
    saved.push((key, prev));
    assert(saved_of(saved@) =~= before.push((name@, lookup(entries(v@), name@))));
}

/// Puts back what was remembered, the last one first.
pub fn restore_all(v: &mut Vec<(String, Type)>, saved: Vec<(String, Option<Type>)>)
    ensures
        entries(final(v)@) == restored(
            entries(old(v)@),
            saved_of(saved@),
            saved@.len() as int,
        ),
{
    let mut k: usize = saved.len();
    let ghost want = restored(entries(v@), saved_of(saved@), saved@.len() as int);
    while k > 0
        invariant
            k <= saved@.len(),
            want == restored(entries(v@), saved_of(saved@), k as int),
        decreases k,
    {
        k = k - 1;
        let prev: Option<Type> = match &saved[k].1 {
            Some(t) => Some(t.clone()),
            None => None,
        };
        restore(v, saved[k].0.as_str(), prev);
    }
}

/// What has to be put back when facts end to hold.
pub struct Saved {
    /// For the locals.
    pub locals: Vec<(String, Option<Type>)>,
    /// For the narrowed locals.
    pub narrowed: Vec<(String, Option<Type>)>,
}

/// Applies every fact to `locals` (narrowed types registered for assignment
/// re-widening; `is`-bindings introduced) and returns what to put back.
pub fn apply_facts(
    locals: &mut Vec<(String, Type)>,
    narrowed: &mut Vec<(String, Type)>,
    fs: &Vec<GuardFact>,
) -> (r: Saved)
    ensures
        entries(final(locals)@) == locals_under(
            entries(old(locals)@),
            views(fs@),
            fs@.len() as int,
        ),
        entries(final(narrowed)@) == narrowed_under(
            entries(old(narrowed)@),
            views(fs@),
            fs@.len() as int,
        ),
        saved_of(r.locals@) == saved_locals(entries(old(locals)@), views(fs@), fs@.len() as int),
        saved_of(r.narrowed@) == saved_narrowed(
            entries(old(narrowed)@),
            views(fs@),
            fs@.len() as int,
        ),
{
    let mut keep: Vec<(String, Option<Type>)> = Vec::new();
    let mut keep_narrowed: Vec<(String, Option<Type>)> = Vec::new();
    let ghost l0 = entries(locals@);
    let ghost n0 = entries(narrowed@);
    let mut i: usize = 0;
    assert(saved_of(keep@) =~= seq![]);
    assert(saved_of(keep_narrowed@) =~= seq![]);
    while i < fs.len()
        invariant
            i <= fs@.len(),
            entries(locals@) == locals_under(l0, views(fs@), i as int),
            entries(narrowed@) == narrowed_under(n0, views(fs@), i as int),
            saved_of(keep@) == saved_locals(l0, views(fs@), i as int),
            saved_of(keep_narrowed@) == saved_narrowed(n0, views(fs@), i as int),
        decreases fs.len() - i,
    {
        assert(views(fs@)[i as int] == fs@[i as int]@);
        match &fs[i] {
            GuardFact::NonNull { name, inner } => {
                save(&mut keep, locals, name.as_str());
                insert(locals, name.as_str(), inner.clone());
                save(&mut keep_narrowed, narrowed, name.as_str());
                insert(narrowed, name.as_str(), Type::Nullable(Box::new(inner.clone())));
            },
            GuardFact::Binding { name, ty } => {
                save(&mut keep, locals, name.as_str());
                insert(locals, name.as_str(), ty.clone());
            },
        }
        i = i + 1;
    }
    Saved { locals: keep, narrowed: keep_narrowed }
}

/// Apply facts' type effects to a scratch locals map (expression
/// contexts: typing the rhs of `&&`/`||`, where no assignments occur).
pub fn apply_fact_types(fs: &Vec<GuardFact>, locals: &mut Vec<(String, Type)>)
    ensures
        entries(final(locals)@) == locals_under(
            entries(old(locals)@),
            views(fs@),
            fs@.len() as int,
        ),
{
    let ghost l0 = entries(locals@);
    let mut i: usize = 0;
    while i < fs.len()
        invariant
            i <= fs@.len(),
            entries(locals@) == locals_under(l0, views(fs@), i as int),
        decreases fs.len() - i,
    {
        assert(views(fs@)[i as int] == fs@[i as int]@);
        match &fs[i] {
            GuardFact::NonNull { name, inner } => insert(locals, name.as_str(), inner.clone()),
            GuardFact::Binding { name, ty } => insert(locals, name.as_str(), ty.clone()),
        }
        i = i + 1;
    }
}

/// The locals that stay narrowed after a branch that always leaves: the first
/// `n` facts that say that a local is not null.
pub open spec fn locals_after(
    locals: Seq<(Seq<char>, Ty)>,
    fs: Seq<Fact>,
    n: int,
) -> Seq<(Seq<char>, Ty)>
    decreases n,
{
    if n <= 0 {
        locals
    } else {
        match fs[n - 1] {
            Fact::NonNull(name, t) => put(locals_after(locals, fs, n - 1), name, t),
            Fact::Binding(_, _) => locals_after(locals, fs, n - 1),
        }
    }
}

/// Keeps the facts that a local is not null.
pub fn keep_non_null(
    locals: &mut Vec<(String, Type)>,
    narrowed: &mut Vec<(String, Type)>,
    fs: &Vec<GuardFact>,
)
    ensures
        entries(final(locals)@) == locals_after(
            entries(old(locals)@),
            views(fs@),
            fs@.len() as int,
        ),
        entries(final(narrowed)@) == narrowed_under(
            entries(old(narrowed)@),
            views(fs@),
            fs@.len() as int,
        ),
{
    let ghost l0 = entries(locals@);
    let ghost n0 = entries(narrowed@);
    let mut i: usize = 0;
    while i < fs.len()
        invariant
            i <= fs@.len(),
            entries(locals@) == locals_after(l0, views(fs@), i as int),
            entries(narrowed@) == narrowed_under(n0, views(fs@), i as int),
        decreases fs.len() - i,
    {
        assert(views(fs@)[i as int] == fs@[i as int]@);
        if let GuardFact::NonNull { name, inner } = &fs[i] {
            insert(locals, name.as_str(), inner.clone());
            insert(narrowed, name.as_str(), Type::Nullable(Box::new(inner.clone())));
        }
        i = i + 1;
    }
}

/// A copy of a list of locals.
pub fn clone_locals(v: &Vec<(String, Type)>) -> (r: Vec<(String, Type)>)
    ensures
        entries(r@) == entries(v@),
{
    let mut out: Vec<(String, Type)> = Vec::new();
    let mut i: usize = 0;
    while i < v.len()
        invariant
            i <= v@.len(),
            out@.len() == i,
            forall|j: int|
                0 <= j < i ==> (#[trigger] out@[j]).0@ == v@[j].0@ && out@[j].1@ == v@[j].1@,
        decreases v.len() - i,
    {
        out.push((v[i].0.clone(), v[i].1.clone()));
        i = i + 1;
    }
    assert(entries(out@) =~= entries(v@));
    out
}

} // verus!
