//! Constant expression collection phase.
//!
//! Every `ConstCollected` expression is hoisted into the job's constant pool:
//! it is replaced by a reference to the next pool index, and its (already
//! processed) inner expression becomes the pool entry at that index. Views are
//! visited root first; within a view, the operations of its arrow functions,
//! then its creation operations, then its update operations.

use vstd::prelude::*;
use crate::expr_transform::{create_op_expr, same_but_expr, same_create_but_expr, update_op_expr};
use crate::ir::{
    ev, ev_list, lemma_ev_list, ComponentCompilationJob, ConstValue, CreateOp, Expr, IrExpression, UpdateOp,
    ViewCompilationUnit,
};

verus! {

/// The result of collecting in an expression: the rewritten expression, the
/// collected inner expressions (in index order) and the next free index.
pub struct Collected {
    pub expr: Expr,
    pub found: Seq<Expr>,
    pub next: nat,
}

/// The result of collecting in a list of expressions.
pub struct CollectedList {
    pub exprs: Seq<Expr>,
    pub found: Seq<Expr>,
    pub next: nat,
}

/// Collection in the children of an expression (left to right), starting at
/// index `n`; the node itself is rebuilt from the rewritten children.
pub open spec fn collect_children(e: Expr, n: nat) -> Collected
    decreases e, 0nat,
{
    match e {
        Expr::ResolvedCall { receiver, args } => {
            let r = collect(*receiver, n);
            let a = collect_list(args, r.next);
            Collected { expr: Expr::ResolvedCall { receiver: Box::new(r.expr), args: a.exprs }, found: r.found + a.found, next: a.next }
        },
        Expr::ResolvedPropertyRead { receiver, name } => {
            let r = collect(*receiver, n);
            Collected { expr: Expr::ResolvedPropertyRead { receiver: Box::new(r.expr), name }, found: r.found, next: r.next }
        },
        Expr::Binary { operator, lhs, rhs } => {
            let l = collect(*lhs, n);
            let r = collect(*rhs, l.next);
            Collected { expr: Expr::Binary { operator, lhs: Box::new(l.expr), rhs: Box::new(r.expr) }, found: l.found + r.found, next: r.next }
        },
        Expr::Ternary { condition, true_expr, false_expr } => {
            let c = collect(*condition, n);
            let t = collect(*true_expr, c.next);
            let f = collect(*false_expr, t.next);
            Collected {
                expr: Expr::Ternary { condition: Box::new(c.expr), true_expr: Box::new(t.expr), false_expr: Box::new(f.expr) },
                found: c.found + t.found + f.found,
                next: f.next,
            }
        },
        Expr::Not(x) => {
            let r = collect(*x, n);
            Collected { expr: Expr::Not(Box::new(r.expr)), found: r.found, next: r.next }
        },
        Expr::Interpolation { strings, expressions, i18n_placeholders } => {
            let a = collect_list(expressions, n);
            Collected {
                expr: Expr::Interpolation { strings, expressions: a.exprs, i18n_placeholders },
                found: a.found,
                next: a.next,
            }
        },
        Expr::PipeBinding { target, target_slot, name, args, var_offset } => {
            let a = collect_list(args, n);
            Collected { expr: Expr::PipeBinding { target, target_slot, name, args: a.exprs, var_offset }, found: a.found, next: a.next }
        },
        Expr::PipeBindingVariadic { target, target_slot, name, args, num_args, var_offset } => {
            let r = collect(*args, n);
            Collected {
                expr: Expr::PipeBindingVariadic { target, target_slot, name, args: Box::new(r.expr), num_args, var_offset },
                found: r.found,
                next: r.next,
            }
        },
        Expr::DerivedLiteralArray { entries, spreads } => {
            let a = collect_list(entries, n);
            Collected { expr: Expr::DerivedLiteralArray { entries: a.exprs, spreads }, found: a.found, next: a.next }
        },
        Expr::LiteralArray(entries) => {
            let a = collect_list(entries, n);
            Collected { expr: Expr::LiteralArray(a.exprs), found: a.found, next: a.next }
        },
        Expr::ConstCollected(x) => {
            let r = collect(*x, n);
            Collected { expr: Expr::ConstCollected(Box::new(r.expr)), found: r.found, next: r.next }
        },
        Expr::StoreLet { target, value } => {
            let r = collect(*value, n);
            Collected { expr: Expr::StoreLet { target, value: Box::new(r.expr) }, found: r.found, next: r.next }
        },
        _ => Collected { expr: e, found: seq![], next: n },
    }
}

/// Collection in one expression, starting at index `n`: children first, then a
/// `ConstCollected` node becomes a reference to the next index and its (already
/// rewritten) inner expression is collected.
pub open spec fn collect(e: Expr, n: nat) -> Collected
    decreases e, 1nat,
{
    let m = collect_children(e, n);
    match m.expr {
        Expr::ConstCollected(inner) => Collected {
            expr: Expr::ConstReference(m.next as u32),
            found: m.found.push(*inner),
            next: m.next + 1,
        },
        _ => m,
    }
}

/// Collection in a list of expressions, left to right, starting at index `n`.
pub open spec fn collect_list(s: Seq<Expr>, n: nat) -> CollectedList
    decreases s, 1nat,
{
    if s.len() == 0 {
        CollectedList { exprs: seq![], found: seq![], next: n }
    } else {
        let p = collect_list(s.drop_last(), n);
        let r = collect(s.last(), p.next);
        CollectedList { exprs: p.exprs.push(r.expr), found: p.found + r.found, next: r.next }
    }
}

/// Collecting advances the next index by the number of expressions found.
pub proof fn lemma_collect_count(e: Expr, n: nat)
    ensures
        collect(e, n).next == n + collect(e, n).found.len(),
    decreases e, 1nat,
{
    lemma_collect_children_count(e, n);
}

/// [`lemma_collect_count`] for the children of an expression.
pub proof fn lemma_collect_children_count(e: Expr, n: nat)
    ensures
        collect_children(e, n).next == n + collect_children(e, n).found.len(),
    decreases e, 0nat,
{
    match e {
        Expr::ResolvedCall { receiver, args } => {
            lemma_collect_count(*receiver, n);
            lemma_collect_list_count(args, collect(*receiver, n).next);
        },
        Expr::ResolvedPropertyRead { receiver, .. } => lemma_collect_count(*receiver, n),
        Expr::Binary { lhs, rhs, .. } => {
            lemma_collect_count(*lhs, n);
            lemma_collect_count(*rhs, collect(*lhs, n).next);
        },
        Expr::Ternary { condition, true_expr, false_expr } => {
            lemma_collect_count(*condition, n);
            lemma_collect_count(*true_expr, collect(*condition, n).next);
            lemma_collect_count(*false_expr, collect(*true_expr, collect(*condition, n).next).next);
        },
        Expr::Not(x) => lemma_collect_count(*x, n),
        Expr::Interpolation { expressions, .. } => lemma_collect_list_count(expressions, n),
        Expr::PipeBinding { args, .. } => lemma_collect_list_count(args, n),
        Expr::PipeBindingVariadic { args, .. } => lemma_collect_count(*args, n),
        Expr::DerivedLiteralArray { entries, .. } => lemma_collect_list_count(entries, n),
        Expr::LiteralArray(entries) => lemma_collect_list_count(entries, n),
        Expr::ConstCollected(x) => lemma_collect_count(*x, n),
        Expr::StoreLet { value, .. } => lemma_collect_count(*value, n),
        _ => {},
    }
}

/// The list version of [`lemma_collect_count`].
pub proof fn lemma_collect_list_count(s: Seq<Expr>, n: nat)
    ensures
        collect_list(s, n).next == n + collect_list(s, n).found.len(),
        collect_list(s, n).exprs.len() == s.len(),
    decreases s, 1nat,
{
    if s.len() > 0 {
        lemma_collect_list_count(s.drop_last(), n);
        lemma_collect_count(s.last(), collect_list(s.drop_last(), n).next);
    }
}

/// Collecting in a prefix of a list ends at an index no later than collecting
/// in the whole list.
pub proof fn lemma_collect_list_prefix(s: Seq<Expr>, n: nat, k: int)
    requires
        0 <= k <= s.len(),
    ensures
        collect_list(s.take(k), n).next <= collect_list(s, n).next,
    decreases s.len(),
{
    if k == s.len() {
        assert(s.take(k) =~= s);
    } else {
        assert(s.drop_last().take(k) =~= s.take(k));
        lemma_collect_list_prefix(s.drop_last(), n, k);
        lemma_collect_count(s.last(), collect_list(s.drop_last(), n).next);
    }
}

/// What a pass over a sequence of items collects: the expressions found, in
/// index order, and the next free index.
pub struct Gathered {
    pub found: Seq<Expr>,
    pub next: nat,
}

/// A pass over a sequence of items, left to right, starting at index `n`.
pub open spec fn gather<A>(s: Seq<A>, n: nat, step: spec_fn(A, nat) -> Gathered) -> Gathered
    decreases s.len(),
{
    if s.len() == 0 {
        Gathered { found: seq![], next: n }
    } else {
        let p = gather(s.drop_last(), n, step);
        let c = step(s.last(), p.next);
        Gathered { found: p.found + c.found, next: c.next }
    }
}

/// Whether a step advances the index by exactly the number of expressions it finds.
pub open spec fn counts<A>(step: spec_fn(A, nat) -> Gathered) -> bool {
    forall|a: A, m: nat| #[trigger] step(a, m).next == m + step(a, m).found.len()
}

/// A pass of a counting step counts too, and a prefix of the pass ends no later.
pub proof fn lemma_gather<A>(s: Seq<A>, n: nat, step: spec_fn(A, nat) -> Gathered, k: int)
    requires
        counts(step),
        0 <= k <= s.len(),
    ensures
        gather(s, n, step).next == n + gather(s, n, step).found.len(),
        gather(s.take(k), n, step).next <= gather(s, n, step).next,
    decreases s.len(),
{
    if s.len() > 0 {
        let p = gather(s.drop_last(), n, step);
        let c = step(s.last(), p.next);
        if k == s.len() {
            assert(s.take(k) =~= s);
            lemma_gather(s.drop_last(), n, step, 0);
        } else {
            assert(s.drop_last().take(k) =~= s.take(k));
            lemma_gather(s.drop_last(), n, step, k);
        }
    } else {
        assert(s.take(k) =~= s);
    }
}

/// One more item of a pass.
pub proof fn lemma_gather_step<A>(s: Seq<A>, n: nat, step: spec_fn(A, nat) -> Gathered, k: int)
    requires
        0 <= k < s.len(),
    ensures
        gather(s.take(k + 1), n, step) == ({
            let p = gather(s.take(k), n, step);
            let c = step(s[k], p.next);
            Gathered { found: p.found + c.found, next: c.next }
        }),
{
    assert(s.take(k + 1).drop_last() =~= s.take(k));
}

/// What collecting in an optional expression finds.
pub open spec fn gather_opt(e: Option<IrExpression>, m: nat) -> Gathered {
    match e {
        Some(x) => Gathered { found: collect(ev(x), m).found, next: collect(ev(x), m).next },
        None => Gathered { found: seq![], next: m },
    }
}

/// The step of a pass over update operations.
pub open spec fn update_step() -> spec_fn(UpdateOp, nat) -> Gathered {
    |op: UpdateOp, m: nat| gather_opt(update_op_expr(op), m)
}

/// The step of a pass over creation operations.
pub open spec fn create_step() -> spec_fn(CreateOp, nat) -> Gathered {
    |op: CreateOp, m: nat| gather_opt(create_op_expr(op), m)
}

/// The step of a pass over the operation lists of arrow functions.
pub open spec fn function_step() -> spec_fn(Vec<UpdateOp>, nat) -> Gathered {
    |ops: Vec<UpdateOp>, m: nat| gather(ops@, m, update_step())
}

/// What a pass over one view finds: its arrow functions' operations first,
/// then its creation operations, then its update operations.
pub open spec fn view_gather(v: ViewCompilationUnit, n: nat) -> Gathered {
    let f = gather(v.functions@, n, function_step());
    let c = gather(v.create@, f.next, create_step());
    let u = gather(v.update@, c.next, update_step());
    Gathered { found: f.found + c.found + u.found, next: u.next }
}

/// The step of a pass over views.
pub open spec fn view_step() -> spec_fn(ViewCompilationUnit, nat) -> Gathered {
    |v: ViewCompilationUnit, m: nat| view_gather(v, m)
}

/// What the phase finds in a job: the root view first, then the other views in
/// order, starting at the current size of the constant pool.
pub open spec fn job_gather(job: ComponentCompilationJob) -> Gathered {
    let r = view_gather(job.root, job.consts@.len());
    let v = gather(job.views@, r.next, view_step());
    Gathered { found: r.found + v.found, next: v.next }
}

/// The steps of the passes count.
pub proof fn lemma_steps_count()
    ensures
        counts(update_step()),
        counts(create_step()),
        counts(function_step()),
        counts(view_step()),
{
    assert forall|op: UpdateOp, m: nat| #[trigger] update_step()(op, m).next == m + update_step()(op, m).found.len() by {
        if let Some(x) = update_op_expr(op) {
            lemma_collect_count(ev(x), m);
        }
    }
    assert forall|op: CreateOp, m: nat| #[trigger] create_step()(op, m).next == m + create_step()(op, m).found.len() by {
        if let Some(x) = create_op_expr(op) {
            lemma_collect_count(ev(x), m);
        }
    }
    assert forall|ops: Vec<UpdateOp>, m: nat| #[trigger] function_step()(ops, m).next == m + function_step()(ops, m).found.len() by {
        lemma_gather(ops@, m, update_step(), 0);
    }
    assert forall|v: ViewCompilationUnit, m: nat| #[trigger] view_step()(v, m).next == m + view_step()(v, m).found.len() by {
        let f = gather(v.functions@, m, function_step());
        let c = gather(v.create@, f.next, create_step());
        lemma_gather(v.functions@, m, function_step(), 0);
        lemma_gather(v.create@, f.next, create_step(), 0);
        lemma_gather(v.update@, c.next, update_step(), 0);
    }
}

/// Whether `after` is the update operation `before` with its bound expression
/// collected from index `n` on.
pub open spec fn update_op_collected(before: UpdateOp, after: UpdateOp, n: nat) -> bool {
    &&& same_but_expr(before, after)
    &&& match update_op_expr(before) {
        Some(e) => update_op_expr(after) matches Some(e2) && ev(e2) == collect(ev(e), n).expr,
        None => true,
    }
}

/// Whether `after` is the creation operation `before` with its expression
/// collected from index `n` on.
pub open spec fn create_op_collected(before: CreateOp, after: CreateOp, n: nat) -> bool {
    &&& same_create_but_expr(before, after)
    &&& match create_op_expr(before) {
        Some(e) => create_op_expr(after) matches Some(e2) && ev(e2) == collect(ev(e), n).expr,
        None => true,
    }
}

/// Whether each update operation of `after` is that of `before` collected from
/// the index its predecessors leave.
#[verifier::opaque]
pub open spec fn update_list_collected(before: Seq<UpdateOp>, after: Seq<UpdateOp>, n: nat) -> bool {
    &&& after.len() == before.len()
    &&& forall|i: int|
        0 <= i < before.len() ==> update_op_collected(
            #[trigger] before[i],
            after[i],
            gather(before.take(i), n, update_step()).next,
        )
}

/// Whether each creation operation of `after` is that of `before` collected
/// from the index its predecessors leave.
#[verifier::opaque]
pub open spec fn create_list_collected(before: Seq<CreateOp>, after: Seq<CreateOp>, n: nat) -> bool {
    &&& after.len() == before.len()
    &&& forall|i: int|
        0 <= i < before.len() ==> create_op_collected(
            #[trigger] before[i],
            after[i],
            gather(before.take(i), n, create_step()).next,
        )
}

/// Whether the view `after` is `before` with its expressions collected from
/// index `n` on, in the order of [`view_gather`].
#[verifier::opaque]
pub open spec fn view_collected(before: ViewCompilationUnit, after: ViewCompilationUnit, n: nat) -> bool {
    let f = gather(before.functions@, n, function_step());
    let c = gather(before.create@, f.next, create_step());
    &&& after.xref == before.xref
    &&& after.decl_count == before.decl_count
    &&& after.functions@.len() == before.functions@.len()
    &&& forall|k: int|
        0 <= k < before.functions@.len() ==> update_list_collected(
            (#[trigger] before.functions@[k])@,
            after.functions@[k]@,
            gather(before.functions@.take(k), n, function_step()).next,
        )
    &&& create_list_collected(before.create@, after.create@, f.next)
    &&& update_list_collected(before.update@, after.update@, c.next)
}

/// Whether the job `after` is `before` with every constant expression hoisted:
/// each view's expressions collected from the index the views before it leave,
/// and the collected expressions appended to the constant pool in index order.
pub open spec fn job_collected(before: ComponentCompilationJob, after: ComponentCompilationJob) -> bool {
    let r = view_gather(before.root, before.consts@.len());
    let total = job_gather(before);
    &&& view_collected(before.root, after.root, before.consts@.len())
    &&& after.views@.len() == before.views@.len()
    &&& forall|i: int|
        0 <= i < before.views@.len() ==> view_collected(
            #[trigger] before.views@[i],
            after.views@[i],
            gather(before.views@.take(i), r.next, view_step()).next,
        )
    &&& after.consts@.len() == before.consts@.len() + total.found.len()
    &&& forall|i: int| 0 <= i < before.consts@.len() ==> #[trigger] after.consts@[i] == before.consts@[i]
    &&& forall|j: int|
        0 <= j < total.found.len() ==> (#[trigger] after.consts@[before.consts@.len() + j] matches ConstValue::Expression(x)
            && ev(x) == total.found[j])
    &&& after.diagnostics == before.diagnostics
    &&& after.next_xref == before.next_xref
    &&& after.compatibility_mode == before.compatibility_mode
    &&& after.mode == before.mode
    &&& after.enable_debug_locations == before.enable_debug_locations
    &&& after.relative_template_path == before.relative_template_path
    &&& after.template_source == before.template_source
}

/// The view of a list grows by the view of what is pushed.
proof fn lemma_ev_list_push(s: Seq<IrExpression>, x: IrExpression)
    ensures
        ev_list(s.push(x)) == ev_list(s).push(ev(x)),
{
    assert(s.push(x).drop_last() =~= s);
}

/// Collects in an expression (consumed) from index `*next` on, appending what
/// it finds to `found`.
fn collect_in_expr(e: IrExpression, next: &mut u32, found: &mut Vec<IrExpression>) -> (r: IrExpression)
    requires
        *old(next) + collect(ev(e), *old(next) as nat).found.len() <= u32::MAX,
    ensures
        ev(r) == collect(ev(e), *old(next) as nat).expr,
        *final(next) == collect(ev(e), *old(next) as nat).next,
        ev_list(final(found)@) == ev_list(old(found)@) + collect(ev(e), *old(next) as nat).found,
    decreases e, 1nat,
{
    let ghost e0 = e;
    let ghost n0 = *next as nat;
    let ghost f0 = ev_list(found@);
    let ghost m = collect_children(ev(e0), n0);
    proof {
        lemma_collect_count(ev(e0), n0);
        lemma_collect_children_count(ev(e0), n0);
    }
    let mapped = match e {
        IrExpression::ResolvedCall { receiver, args } => {
            proof {
                lemma_ev_list(args@);
                lemma_collect_count(ev(*receiver), n0);
                lemma_collect_list_count(ev_list(args@), collect(ev(*receiver), n0).next);
                assert forall|i: int| 0 <= i < args@.len() implies decreases_to!(e0 => #[trigger] args@[i]) by {
                    assert(decreases_to!(args => args@));
                    assert(decreases_to!(args@ => args@[i]));
                }
            }
            let r = collect_in_expr(*receiver, next, found);
            let a = collect_in_list(args, next, found, Ghost(e0));
            IrExpression::ResolvedCall { receiver: Box::new(r), args: a }
        },
        IrExpression::ResolvedPropertyRead { receiver, name } => {
            let r = collect_in_expr(*receiver, next, found);
            IrExpression::ResolvedPropertyRead { receiver: Box::new(r), name }
        },
        IrExpression::Binary { operator, lhs, rhs } => {
            proof {
                lemma_collect_count(ev(*lhs), n0);
                lemma_collect_count(ev(*rhs), collect(ev(*lhs), n0).next);
            }
            let l = collect_in_expr(*lhs, next, found);
            let r = collect_in_expr(*rhs, next, found);
            IrExpression::Binary { operator, lhs: Box::new(l), rhs: Box::new(r) }
        },
        IrExpression::Ternary { condition, true_expr, false_expr } => {
            proof {
                let c = collect(ev(*condition), n0);
                let t = collect(ev(*true_expr), c.next);
                lemma_collect_count(ev(*condition), n0);
                lemma_collect_count(ev(*true_expr), c.next);
                lemma_collect_count(ev(*false_expr), t.next);
            }
            let c = collect_in_expr(*condition, next, found);
            let t = collect_in_expr(*true_expr, next, found);
            let f = collect_in_expr(*false_expr, next, found);
            IrExpression::Ternary { condition: Box::new(c), true_expr: Box::new(t), false_expr: Box::new(f) }
        },
        IrExpression::Not(x) => {
            let r = collect_in_expr(*x, next, found);
            IrExpression::Not(Box::new(r))
        },
        IrExpression::Interpolation { strings, expressions, i18n_placeholders } => {
            proof {
                assert forall|i: int| 0 <= i < expressions@.len() implies decreases_to!(e0 => #[trigger] expressions@[i]) by {
                    assert(decreases_to!(expressions => expressions@));
                    assert(decreases_to!(expressions@ => expressions@[i]));
                }
            }
            let x = collect_in_list(expressions, next, found, Ghost(e0));
            IrExpression::Interpolation { strings, expressions: x, i18n_placeholders }
        },
        IrExpression::PipeBinding { target, target_slot, name, args, var_offset } => {
            proof {
                assert forall|i: int| 0 <= i < args@.len() implies decreases_to!(e0 => #[trigger] args@[i]) by {
                    assert(decreases_to!(args => args@));
                    assert(decreases_to!(args@ => args@[i]));
                }
            }
            let a = collect_in_list(args, next, found, Ghost(e0));
            IrExpression::PipeBinding { target, target_slot, name, args: a, var_offset }
        },
        IrExpression::PipeBindingVariadic { target, target_slot, name, args, num_args, var_offset } => {
            let a = collect_in_expr(*args, next, found);
            IrExpression::PipeBindingVariadic { target, target_slot, name, args: Box::new(a), num_args, var_offset }
        },
        IrExpression::DerivedLiteralArray { entries, spreads } => {
            proof {
                assert forall|i: int| 0 <= i < entries@.len() implies decreases_to!(e0 => #[trigger] entries@[i]) by {
                    assert(decreases_to!(entries => entries@));
                    assert(decreases_to!(entries@ => entries@[i]));
                }
            }
            let x = collect_in_list(entries, next, found, Ghost(e0));
            IrExpression::DerivedLiteralArray { entries: x, spreads }
        },
        IrExpression::LiteralArray(entries) => {
            proof {
                assert forall|i: int| 0 <= i < entries@.len() implies decreases_to!(e0 => #[trigger] entries@[i]) by {
                    assert(decreases_to!(entries => entries@));
                    assert(decreases_to!(entries@ => entries@[i]));
                }
            }
            let x = collect_in_list(entries, next, found, Ghost(e0));
            IrExpression::LiteralArray(x)
        },
        IrExpression::ConstCollected(x) => {
            let r = collect_in_expr(*x, next, found);
            IrExpression::ConstCollected(Box::new(r))
        },
        IrExpression::StoreLet { target, value } => {
            let r = collect_in_expr(*value, next, found);
            IrExpression::StoreLet { target, value: Box::new(r) }
        },
        other => other,
    };
    assert(ev(mapped) =~~= m.expr);
    assert(ev_list(found@) =~= f0 + m.found);
    assert(*next == m.next);
    match mapped {
        IrExpression::ConstCollected(inner) => {
            let idx = *next;
            proof {
                lemma_ev_list_push(found@, *inner);
            }
            found.push(*inner);
            *next = idx + 1;
            assert(ev_list(found@) =~= f0 + collect(ev(e0), n0).found);
            IrExpression::ConstReference(idx)
        },
        other => other,
    }
}

/// Collects in a list of expressions (consumed), left to right.
fn collect_in_list(
    v: Vec<IrExpression>,
    next: &mut u32,
    found: &mut Vec<IrExpression>,
    Ghost(parent): Ghost<IrExpression>,
) -> (r: Vec<IrExpression>)
    requires
        forall|i: int| 0 <= i < v@.len() ==> decreases_to!(parent => #[trigger] v@[i]),
        *old(next) + collect_list(ev_list(v@), *old(next) as nat).found.len() <= u32::MAX,
    ensures
        ev_list(r@) == collect_list(ev_list(v@), *old(next) as nat).exprs,
        *final(next) == collect_list(ev_list(v@), *old(next) as nat).next,
        ev_list(final(found)@) == ev_list(old(found)@) + collect_list(ev_list(v@), *old(next) as nat).found,
    decreases parent, 0nat,
{
    let ghost orig = v@;
    let ghost es = ev_list(orig);
    let ghost n0 = *next as nat;
    let ghost f0 = ev_list(found@);
    let mut rev: Vec<IrExpression> = Vec::new();
    let mut v = v;
    while v.len() > 0
        invariant
            v@.len() + rev@.len() == orig.len(),
            forall|i: int| 0 <= i < v@.len() ==> #[trigger] v@[i] == orig[i],
            forall|j: int| 0 <= j < rev@.len() ==> #[trigger] rev@[j] == orig[orig.len() - 1 - j],
        decreases v.len(),
    {
        let x = v.pop().unwrap();
        rev.push(x);
    }
    let mut out: Vec<IrExpression> = Vec::new();
    proof {
        lemma_ev_list(orig);
        lemma_collect_list_count(es, n0);
        assert(es.take(0) =~= Seq::<Expr>::empty());
        assert(ev_list(found@) =~= f0 + collect_list(es.take(0), n0).found);
    }
    while rev.len() > 0
        invariant
            out@.len() + rev@.len() == orig.len(),
            forall|j: int| 0 <= j < rev@.len() ==> #[trigger] rev@[j] == orig[orig.len() - 1 - j],
            forall|i: int| 0 <= i < orig.len() ==> decreases_to!(parent => #[trigger] orig[i]),
            es == ev_list(orig),
            es.len() == orig.len(),
            forall|i: int| 0 <= i < orig.len() ==> #[trigger] es[i] == ev(orig[i]),
            collect_list(es, n0).next == n0 + collect_list(es, n0).found.len(),
            n0 + collect_list(es, n0).found.len() <= u32::MAX,
            ev_list(out@) == collect_list(es.take(out@.len() as int), n0).exprs,
            *next == collect_list(es.take(out@.len() as int), n0).next,
            ev_list(found@) == f0 + collect_list(es.take(out@.len() as int), n0).found,
        decreases rev.len(),
    {
        let ghost k = out@.len() as int;
        let x = rev.pop().unwrap();
        assert(x == orig[k]);
        proof {
            assert(es.take(k + 1).drop_last() =~= es.take(k));
            assert(es.take(k + 1).last() == es[k]);
            lemma_collect_list_prefix(es, n0, k + 1);
            lemma_collect_list_count(es.take(k + 1), n0);
            lemma_collect_list_count(es.take(k), n0);
            lemma_collect_count(es[k], *next as nat);
        }
        let y = collect_in_expr(x, next, found);
        proof {
            lemma_ev_list_push(out@, y);
        }
        out.push(y);
        assert(ev_list(found@) =~= f0 + collect_list(es.take(k + 1), n0).found);
    }
    assert(es.take(orig.len() as int) =~= es);
    out
}

fn collect_in_place(e: &mut IrExpression, next: &mut u32, found: &mut Vec<IrExpression>)
    requires
        *old(next) + collect(ev(*old(e)), *old(next) as nat).found.len() <= u32::MAX,
    ensures
        ev(*final(e)) == collect(ev(*old(e)), *old(next) as nat).expr,
        *final(next) == collect(ev(*old(e)), *old(next) as nat).next,
        ev_list(final(found)@) == ev_list(old(found)@) + collect(ev(*old(e)), *old(next) as nat).found,
{
    let mut taken = IrExpression::Empty;
    std::mem::swap(e, &mut taken);
    *e = collect_in_expr(taken, next, found);
}

fn collect_in_opt(e: &mut Option<IrExpression>, next: &mut u32, found: &mut Vec<IrExpression>)
    requires
        *old(next) + gather_opt(*old(e), *old(next) as nat).found.len() <= u32::MAX,
    ensures
        ((*final(e)) is Some <==> (*old(e)) is Some),
        (*old(e)) is Some ==> ev((*final(e))->0) == collect(ev((*old(e))->0), *old(next) as nat).expr,
        *final(next) == gather_opt(*old(e), *old(next) as nat).next,
        ev_list(final(found)@) == ev_list(old(found)@) + gather_opt(*old(e), *old(next) as nat).found,
{
    match e {
        Some(x) => collect_in_place(x, next, found),
        None => {
            assert(ev_list(found@) =~= ev_list(found@) + Seq::<Expr>::empty());
        },
    }
}

/// Collects in the bound expression of an update operation.
fn collect_in_update_op(op: &mut UpdateOp, next: &mut u32, found: &mut Vec<IrExpression>)
    requires
        *old(next) + update_step()(*old(op), *old(next) as nat).found.len() <= u32::MAX,
    ensures
        update_op_collected(*old(op), *final(op), *old(next) as nat),
        *final(next) == update_step()(*old(op), *old(next) as nat).next,
        ev_list(final(found)@) == ev_list(old(found)@) + update_step()(*old(op), *old(next) as nat).found,
{
    match op {
        UpdateOp::Property(b) => collect_in_place(&mut b.expression, next, found),
        UpdateOp::TwoWayProperty(b) => collect_in_place(&mut b.expression, next, found),
        UpdateOp::DomProperty(b) => collect_in_place(&mut b.expression, next, found),
        UpdateOp::Attribute(b) => collect_in_place(&mut b.expression, next, found),
        UpdateOp::StyleProp(b) => collect_in_place(&mut b.expression, next, found),
        UpdateOp::ClassProp(b) => collect_in_place(&mut b.expression, next, found),
        UpdateOp::StyleMap(b) => collect_in_place(&mut b.expression, next, found),
        UpdateOp::ClassMap(b) => collect_in_place(&mut b.expression, next, found),
        UpdateOp::Control(b) => collect_in_place(&mut b.expression, next, found),
        UpdateOp::Binding(b) => collect_in_place(&mut b.expression, next, found),
        UpdateOp::InterpolateText(b) => collect_in_place(&mut b.expression, next, found),
        UpdateOp::I18nExpression(b) => collect_in_place(&mut b.expression, next, found),
        UpdateOp::AnimationBinding(b) => collect_in_place(&mut b.expression, next, found),
        UpdateOp::Repeater(b) => collect_in_place(&mut b.expression, next, found),
        UpdateOp::Conditional(b) => collect_in_place(&mut b.expression, next, found),
        UpdateOp::StoreLet(b) => collect_in_place(&mut b.expression, next, found),
        UpdateOp::DeferWhen(b) => collect_in_place(&mut b.expression, next, found),
        UpdateOp::Variable(v) => collect_in_place(&mut v.initializer, next, found),
        _ => {
            assert(ev_list(found@) =~= ev_list(found@) + Seq::<Expr>::empty());
        },
    }
}

/// Collects in the expression a creation operation holds.
fn collect_in_create_op(op: &mut CreateOp, next: &mut u32, found: &mut Vec<IrExpression>)
    requires
        *old(next) + create_step()(*old(op), *old(next) as nat).found.len() <= u32::MAX,
    ensures
        create_op_collected(*old(op), *final(op), *old(next) as nat),
        *final(next) == create_step()(*old(op), *old(next) as nat).next,
        ev_list(final(found)@) == ev_list(old(found)@) + create_step()(*old(op), *old(next) as nat).found,
{
    match op {
        CreateOp::Listener(l) => collect_in_opt(&mut l.handler_expression, next, found),
        CreateOp::TwoWayListener(l) => collect_in_opt(&mut l.handler_expression, next, found),
        CreateOp::AnimationListener(l) => collect_in_opt(&mut l.handler_expression, next, found),
        CreateOp::Animation(l) => collect_in_opt(&mut l.handler_expression, next, found),
        CreateOp::ExtractedAttribute(a) => collect_in_opt(&mut a.value, next, found),
        CreateOp::AnimationString(a) => collect_in_place(&mut a.expression, next, found),
        _ => {
            assert(ev_list(found@) =~= ev_list(found@) + Seq::<Expr>::empty());
        },
    }
}

/// Collects in every update operation of a list, in order.
fn collect_in_update_ops(list: &mut Vec<UpdateOp>, next: &mut u32, found: &mut Vec<IrExpression>)
    requires
        *old(next) + gather(old(list)@, *old(next) as nat, update_step()).found.len() <= u32::MAX,
    ensures
        update_list_collected(old(list)@, final(list)@, *old(next) as nat),
        *final(next) == gather(old(list)@, *old(next) as nat, update_step()).next,
        ev_list(final(found)@) == ev_list(old(found)@) + gather(old(list)@, *old(next) as nat, update_step()).found,
{
    let ghost s = list@;
    let ghost n0 = *next as nat;
    let ghost f0 = ev_list(found@);
    proof {
        reveal(update_list_collected);
        lemma_steps_count();
        lemma_gather(s, n0, update_step(), 0);
        assert(s.take(0) =~= Seq::<UpdateOp>::empty());
        assert(ev_list(found@) =~= f0 + gather(s.take(0), n0, update_step()).found);
    }
    let n = list.len();
    let mut i: usize = 0;
    while i < n
        invariant
            n == list@.len(),
            n == s.len(),
            i <= n,
            counts(update_step()),
            gather(s, n0, update_step()).next == n0 + gather(s, n0, update_step()).found.len(),
            n0 + gather(s, n0, update_step()).found.len() <= u32::MAX,
            forall|j: int|
                0 <= j < i ==> update_op_collected(#[trigger] s[j], list@[j], gather(s.take(j), n0, update_step()).next),
            forall|j: int| i <= j < n ==> #[trigger] list@[j] == s[j],
            *next == gather(s.take(i as int), n0, update_step()).next,
            ev_list(found@) == f0 + gather(s.take(i as int), n0, update_step()).found,
        decreases n - i,
    {
        proof {
            lemma_gather_step(s, n0, update_step(), i as int);
            lemma_gather(s, n0, update_step(), i + 1);
        }
        collect_in_update_op(&mut list[i], next, found);
        assert(ev_list(found@) =~= f0 + gather(s.take(i + 1), n0, update_step()).found);
        i = i + 1;
    }
    assert(s.take(n as int) =~= s);
}

/// Collects in every creation operation of a list, in order.
#[verifier::rlimit(30)]
fn collect_in_create_ops(list: &mut Vec<CreateOp>, next: &mut u32, found: &mut Vec<IrExpression>)
    requires
        *old(next) + gather(old(list)@, *old(next) as nat, create_step()).found.len() <= u32::MAX,
    ensures
        create_list_collected(old(list)@, final(list)@, *old(next) as nat),
        *final(next) == gather(old(list)@, *old(next) as nat, create_step()).next,
        ev_list(final(found)@) == ev_list(old(found)@) + gather(old(list)@, *old(next) as nat, create_step()).found,
{
    let ghost s = list@;
    let ghost n0 = *next as nat;
    let ghost f0 = ev_list(found@);
    proof {
        reveal(create_list_collected);
        lemma_steps_count();
        lemma_gather(s, n0, create_step(), 0);
        assert(s.take(0) =~= Seq::<CreateOp>::empty());
        assert(ev_list(found@) =~= f0 + gather(s.take(0), n0, create_step()).found);
    }
    let n = list.len();
    let mut i: usize = 0;
    while i < n
        invariant
            n == list@.len(),
            n == s.len(),
            i <= n,
            counts(create_step()),
            gather(s, n0, create_step()).next == n0 + gather(s, n0, create_step()).found.len(),
            n0 + gather(s, n0, create_step()).found.len() <= u32::MAX,
            forall|j: int|
                0 <= j < i ==> create_op_collected(#[trigger] s[j], list@[j], gather(s.take(j), n0, create_step()).next),
            forall|j: int| i <= j < n ==> #[trigger] list@[j] == s[j],
            *next == gather(s.take(i as int), n0, create_step()).next,
            ev_list(found@) == f0 + gather(s.take(i as int), n0, create_step()).found,
        decreases n - i,
    {
        proof {
            lemma_gather_step(s, n0, create_step(), i as int);
            lemma_gather(s, n0, create_step(), i + 1);
        }
        collect_in_create_op(&mut list[i], next, found);
        assert(ev_list(found@) =~= f0 + gather(s.take(i + 1), n0, create_step()).found);
        i = i + 1;
    }
    assert(s.take(n as int) =~= s);
}

/// Collects in the operation lists of a view's arrow functions, in order.
fn collect_in_functions(fns: &mut Vec<Vec<UpdateOp>>, next: &mut u32, found: &mut Vec<IrExpression>)
    requires
        *old(next) + gather(old(fns)@, *old(next) as nat, function_step()).found.len() <= u32::MAX,
    ensures
        final(fns)@.len() == old(fns)@.len(),
        forall|k: int|
            0 <= k < old(fns)@.len() ==> update_list_collected(
                (#[trigger] old(fns)@[k])@,
                final(fns)@[k]@,
                gather(old(fns)@.take(k), *old(next) as nat, function_step()).next,
            ),
        *final(next) == gather(old(fns)@, *old(next) as nat, function_step()).next,
        ev_list(final(found)@) == ev_list(old(found)@) + gather(old(fns)@, *old(next) as nat, function_step()).found,
{
    let ghost s = fns@;
    let ghost n0 = *next as nat;
    let ghost f0 = ev_list(found@);
    proof {
        lemma_steps_count();
        lemma_gather(s, n0, function_step(), 0);
        assert(s.take(0) =~= Seq::<Vec<UpdateOp>>::empty());
        assert(ev_list(found@) =~= f0 + gather(s.take(0), n0, function_step()).found);
    }
    let n = fns.len();
    let mut i: usize = 0;
    while i < n
        invariant
            n == fns@.len(),
            n == s.len(),
            i <= n,
            counts(function_step()),
            gather(s, n0, function_step()).next == n0 + gather(s, n0, function_step()).found.len(),
            n0 + gather(s, n0, function_step()).found.len() <= u32::MAX,
            forall|j: int|
                0 <= j < i ==> update_list_collected(
                    (#[trigger] s[j])@,
                    fns@[j]@,
                    gather(s.take(j), n0, function_step()).next,
                ),
            forall|j: int| i <= j < n ==> #[trigger] fns@[j] == s[j],
            *next == gather(s.take(i as int), n0, function_step()).next,
            ev_list(found@) == f0 + gather(s.take(i as int), n0, function_step()).found,
        decreases n - i,
    {
        proof {
            lemma_gather_step(s, n0, function_step(), i as int);
            lemma_gather(s, n0, function_step(), i + 1);
        }
        collect_in_update_ops(&mut fns[i], next, found);
        assert(ev_list(found@) =~= f0 + gather(s.take(i + 1), n0, function_step()).found);
        i = i + 1;
    }
    assert(s.take(n as int) =~= s);
}

/// Collects in one view: its arrow functions, then creation, then update operations.
fn collect_in_view(view: &mut ViewCompilationUnit, next: &mut u32, found: &mut Vec<IrExpression>)
    requires
        *old(next) + view_gather(*old(view), *old(next) as nat).found.len() <= u32::MAX,
    ensures
        view_collected(*old(view), *final(view), *old(next) as nat),
        *final(next) == view_gather(*old(view), *old(next) as nat).next,
        ev_list(final(found)@) == ev_list(old(found)@) + view_gather(*old(view), *old(next) as nat).found,
{
    let ghost v0 = *view;
    let ghost n0 = *next as nat;
    let ghost f0 = ev_list(found@);
    proof {
        lemma_steps_count();
        let f = gather(v0.functions@, n0, function_step());
        let c = gather(v0.create@, f.next, create_step());
        lemma_gather(v0.functions@, n0, function_step(), 0);
        lemma_gather(v0.create@, f.next, create_step(), 0);
        lemma_gather(v0.update@, c.next, update_step(), 0);
    }
    collect_in_functions(&mut view.functions, next, found);
    collect_in_create_ops(&mut view.create, next, found);
    collect_in_update_ops(&mut view.update, next, found);
    assert(ev_list(found@) =~= f0 + view_gather(v0, n0).found);
    proof {
        reveal(view_collected);
    }
}

/// Hoists every constant-collected expression of a template job into the
/// constant pool.
///
/// Views are visited root first, then the others in order; within a view the
/// arrow functions' operations come first, then the creation operations, then
/// the update operations. Each `ConstCollected(e)` (after the expressions inside
/// `e` have been handled) becomes `ConstReference(i)`, where `i` counts on from
/// the size of the pool before the phase, and `e` is appended to the pool as
/// entry `i`.
#[verifier::rlimit(40)]
pub fn collect_const_expressions(job: &mut ComponentCompilationJob)
    requires
        old(job).consts@.len() + job_gather(*old(job)).found.len() <= u32::MAX,
    ensures
        job_collected(*old(job), *final(job)),
{
    let ghost j0 = *job;
    let ghost c0 = job.consts@.len();
    let ghost r = view_gather(j0.root, c0);
    proof {
        lemma_steps_count();
        assert(view_step()(j0.root, c0) == r);
        lemma_gather(j0.views@, r.next, view_step(), 0);
    }
    let mut next: u32 = job.consts.len() as u32;
    let mut found: Vec<IrExpression> = Vec::new();
    proof {
        assert(ev_list(found@) =~= Seq::<Expr>::empty());
    }
    collect_in_view(&mut job.root, &mut next, &mut found);
    let ghost s = j0.views@;
    proof {
        assert(s.take(0) =~= Seq::<ViewCompilationUnit>::empty());
        assert(ev_list(found@) =~= r.found + gather(s.take(0), r.next, view_step()).found);
    }
    let n = job.views.len();
    let mut i: usize = 0;
    while i < n
        invariant
            n == job.views@.len(),
            n == s.len(),
            s == j0.views@,
            i <= n,
            counts(view_step()),
            r == view_gather(j0.root, c0),
            gather(s, r.next, view_step()).next == r.next + gather(s, r.next, view_step()).found.len(),
            r.next == c0 + r.found.len(),
            c0 + r.found.len() + gather(s, r.next, view_step()).found.len() <= u32::MAX,
            view_collected(j0.root, job.root, c0),
            forall|j: int|
                0 <= j < i ==> view_collected(#[trigger] s[j], job.views@[j], gather(s.take(j), r.next, view_step()).next),
            forall|j: int| i <= j < n ==> #[trigger] job.views@[j] == s[j],
            next == gather(s.take(i as int), r.next, view_step()).next,
            ev_list(found@) == r.found + gather(s.take(i as int), r.next, view_step()).found,
            job.consts == j0.consts,
            job.diagnostics == j0.diagnostics,
            job.next_xref == j0.next_xref,
            job.compatibility_mode == j0.compatibility_mode,
            job.mode == j0.mode,
            job.enable_debug_locations == j0.enable_debug_locations,
            job.relative_template_path == j0.relative_template_path,
            job.template_source == j0.template_source,
        decreases n - i,
    {
        proof {
            lemma_gather_step(s, r.next, view_step(), i as int);
            lemma_gather(s, r.next, view_step(), i + 1);
        }
        collect_in_view(&mut job.views[i], &mut next, &mut found);
        assert(ev_list(found@) =~= r.found + gather(s.take(i + 1), r.next, view_step()).found);
        i = i + 1;
    }
    assert(s.take(n as int) =~= s);
    let ghost total = job_gather(j0);
    assert(ev_list(found@) == total.found);
    proof {
        lemma_ev_list(found@);
    }
    // Append the collected expressions to the pool in index order.
    let ghost fs = found@;
    let mut rev: Vec<IrExpression> = Vec::new();
    while found.len() > 0
        invariant
            found@.len() + rev@.len() == fs.len(),
            forall|k: int| 0 <= k < found@.len() ==> #[trigger] found@[k] == fs[k],
            forall|k: int| 0 <= k < rev@.len() ==> #[trigger] rev@[k] == fs[fs.len() - 1 - k],
        decreases found.len(),
    {
        let x = found.pop().unwrap();
        rev.push(x);
    }
    let ghost consts0 = job.consts@;
    let ghost j1 = *job;
    while rev.len() > 0
        invariant
            job.root == j1.root,
            job.views == j1.views,
            job.diagnostics == j1.diagnostics,
            job.next_xref == j1.next_xref,
            job.compatibility_mode == j1.compatibility_mode,
            job.mode == j1.mode,
            job.enable_debug_locations == j1.enable_debug_locations,
            job.relative_template_path == j1.relative_template_path,
            job.template_source == j1.template_source,
            job.consts@.len() + rev@.len() == c0 + fs.len(),
            consts0 == j0.consts@,
            consts0.len() == c0,
            forall|k: int| 0 <= k < rev@.len() ==> #[trigger] rev@[k] == fs[fs.len() - 1 - k],
            forall|k: int| 0 <= k < c0 ==> #[trigger] job.consts@[k] == consts0[k],
            forall|k: int|
                c0 <= k < job.consts@.len() ==> (#[trigger] job.consts@[k] matches ConstValue::Expression(x) && x
                    == fs[k - c0]),
            job.consts@.len() >= c0,
        decreases rev.len(),
    {
        let x = rev.pop().unwrap();
        job.consts.push(ConstValue::Expression(x));
    }
    assert forall|j: int| 0 <= j < total.found.len() implies (#[trigger] job.consts@[c0 + j] matches ConstValue::Expression(
        x,
    ) && ev(x) == total.found[j]) by {
        assert(ev_list(fs)[j] == ev(fs[j]));
    }
}

} // verus!
