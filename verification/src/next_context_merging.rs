//! Next-context merging phase.
//!
//! A statement `nextContext(n)` whose result is not used steps up the
//! runtime's context stack. When a later operation's expression steps up
//! again (`nextContext(m)`) before anything reads the current context (the
//! current view, a local reference or a `@let` value of an enclosing view),
//! the two merge: the later one becomes `nextContext(n + m)` and the statement
//! goes away. Expressions are searched in order, each node before its children.

use vstd::prelude::*;
use crate::expr_transform::{same_but_expr, update_op_expr};
use crate::ir::{
    ev, ev_list, lemma_ev_list, ComponentCompilationJob, CreateOp, Expr, IrExpression, OutputExpression, OutputStatement, UpdateOp,
    ListenerOp, ViewCompilationUnit,
};

verus! {

/// What the search of an expression found first.
#[derive(Clone, Copy, Debug, PartialEq, Eq, Structural)]
pub enum MergeResult {
    /// A `nextContext` expression, now stepping the merged number of views.
    FoundTarget,
    /// An expression that reads the current context.
    FoundBlocker,
    /// Neither.
    Continue,
}

/// The steps of the `nextContext` expressions the search visits in an expression.
pub open spec fn nc_sum(e: Expr) -> nat
    decreases e, 1nat,
{
    match e {
        Expr::NextContext(n) => n as nat,
        Expr::ResolvedCall { receiver, args } => nc_sum(*receiver) + nc_sum_list(args),
        Expr::ResolvedPropertyRead { receiver, .. } => nc_sum(*receiver),
        Expr::Binary { lhs, rhs, .. } => nc_sum(*lhs) + nc_sum(*rhs),
        Expr::Ternary { condition, true_expr, false_expr } => nc_sum(*condition) + nc_sum(*true_expr) + nc_sum(
            *false_expr,
        ),
        Expr::Not(x) => nc_sum(*x),
        Expr::Interpolation { expressions, .. } => nc_sum_list(expressions),
        Expr::PipeBinding { args, .. } => nc_sum_list(args),
        Expr::PipeBindingVariadic { args, .. } => nc_sum(*args),
        Expr::DerivedLiteralArray { entries, .. } => nc_sum_list(entries),
        Expr::LiteralArray(v) => nc_sum_list(v),
        Expr::ConstCollected(x) => nc_sum(*x),
        Expr::StoreLet { value, .. } => nc_sum(*value),
        _ => 0,
    }
}

/// The steps of the `nextContext` expressions in a list of expressions.
pub open spec fn nc_sum_list(s: Seq<Expr>) -> nat
    decreases s, 0nat,
{
    if s.len() == 0 {
        0
    } else {
        nc_sum_list(s.drop_last()) + nc_sum(s.last())
    }
}

/// The search of an expression for a `nextContext` to merge `s` steps into:
/// the expression afterwards and what was found. A node is looked at before
/// its children, the children in order, and the search stops at the first
/// target or blocker.
pub open spec fn merge_expr(e: Expr, s: u32) -> (Expr, MergeResult)
    decreases e, 1nat,
{
    match e {
        Expr::GetCurrentView | Expr::Reference { .. } | Expr::ContextLetReference { .. } => (e, MergeResult::FoundBlocker),
        Expr::NextContext(n) => (Expr::NextContext((n + s) as u32), MergeResult::FoundTarget),
        Expr::ResolvedCall { receiver, args } => {
            let r = merge_expr(*receiver, s);
            if !(r.1 is Continue) {
                (Expr::ResolvedCall { receiver: Box::new(r.0), args }, r.1)
            } else {
                let a = merge_list(args, s);
                (Expr::ResolvedCall { receiver: Box::new(r.0), args: a.0 }, a.1)
            }
        },
        Expr::ResolvedPropertyRead { receiver, name } => {
            let r = merge_expr(*receiver, s);
            (Expr::ResolvedPropertyRead { receiver: Box::new(r.0), name }, r.1)
        },
        Expr::Binary { operator, lhs, rhs } => {
            let l = merge_expr(*lhs, s);
            if !(l.1 is Continue) {
                (Expr::Binary { operator, lhs: Box::new(l.0), rhs }, l.1)
            } else {
                let r = merge_expr(*rhs, s);
                (Expr::Binary { operator, lhs: Box::new(l.0), rhs: Box::new(r.0) }, r.1)
            }
        },
        Expr::Ternary { condition, true_expr, false_expr } => {
            let c = merge_expr(*condition, s);
            if !(c.1 is Continue) {
                (Expr::Ternary { condition: Box::new(c.0), true_expr, false_expr }, c.1)
            } else {
                let t = merge_expr(*true_expr, s);
                if !(t.1 is Continue) {
                    (Expr::Ternary { condition: Box::new(c.0), true_expr: Box::new(t.0), false_expr }, t.1)
                } else {
                    let f = merge_expr(*false_expr, s);
                    (
                        Expr::Ternary {
                            condition: Box::new(c.0),
                            true_expr: Box::new(t.0),
                            false_expr: Box::new(f.0),
                        },
                        f.1,
                    )
                }
            }
        },
        Expr::Not(x) => {
            let r = merge_expr(*x, s);
            (Expr::Not(Box::new(r.0)), r.1)
        },
        Expr::Interpolation { strings, expressions, i18n_placeholders } => {
            let a = merge_list(expressions, s);
            (Expr::Interpolation { strings, expressions: a.0, i18n_placeholders }, a.1)
        },
        Expr::PipeBinding { target, target_slot, name, args, var_offset } => {
            let a = merge_list(args, s);
            (Expr::PipeBinding { target, target_slot, name, args: a.0, var_offset }, a.1)
        },
        Expr::PipeBindingVariadic { target, target_slot, name, args, num_args, var_offset } => {
            let r = merge_expr(*args, s);
            (Expr::PipeBindingVariadic { target, target_slot, name, args: Box::new(r.0), num_args, var_offset }, r.1)
        },
        Expr::DerivedLiteralArray { entries, spreads } => {
            let a = merge_list(entries, s);
            (Expr::DerivedLiteralArray { entries: a.0, spreads }, a.1)
        },
        Expr::LiteralArray(v) => {
            let a = merge_list(v, s);
            (Expr::LiteralArray(a.0), a.1)
        },
        Expr::ConstCollected(x) => {
            let r = merge_expr(*x, s);
            (Expr::ConstCollected(Box::new(r.0)), r.1)
        },
        Expr::StoreLet { target, value } => {
            let r = merge_expr(*value, s);
            (Expr::StoreLet { target, value: Box::new(r.0) }, r.1)
        },
        _ => (e, MergeResult::Continue),
    }
}

/// The search of a list of expressions, left to right.
pub open spec fn merge_list(l: Seq<Expr>, s: u32) -> (Seq<Expr>, MergeResult)
    decreases l, 0nat,
{
    if l.len() == 0 {
        (l, MergeResult::Continue)
    } else {
        let p = merge_list(l.drop_last(), s);
        if !(p.1 is Continue) {
            (p.0.push(l.last()), p.1)
        } else {
            let x = merge_expr(l.last(), s);
            (p.0.push(x.0), x.1)
        }
    }
}

/// A search that finds no target leaves the expression as it is; one that
/// finds a target adds `s` steps to it.
pub proof fn lemma_merge_expr(e: Expr, s: u32)
    requires
        nc_sum(e) + s <= u32::MAX,
    ensures
        merge_expr(e, s).1 is FoundTarget ==> nc_sum(merge_expr(e, s).0) == nc_sum(e) + s,
        !(merge_expr(e, s).1 is FoundTarget) ==> merge_expr(e, s).0 == e,
    decreases e, 1nat,
{
    match e {
        Expr::ResolvedCall { receiver, args } => {
            lemma_merge_expr(*receiver, s);
            lemma_merge_list(args, s);
        },
        Expr::ResolvedPropertyRead { receiver, .. } => lemma_merge_expr(*receiver, s),
        Expr::Binary { lhs, rhs, .. } => {
            lemma_merge_expr(*lhs, s);
            lemma_merge_expr(*rhs, s);
        },
        Expr::Ternary { condition, true_expr, false_expr } => {
            lemma_merge_expr(*condition, s);
            lemma_merge_expr(*true_expr, s);
            lemma_merge_expr(*false_expr, s);
        },
        Expr::Not(x) => lemma_merge_expr(*x, s),
        Expr::Interpolation { expressions, .. } => lemma_merge_list(expressions, s),
        Expr::PipeBinding { args, .. } => lemma_merge_list(args, s),
        Expr::PipeBindingVariadic { args, .. } => lemma_merge_expr(*args, s),
        Expr::DerivedLiteralArray { entries, .. } => lemma_merge_list(entries, s),
        Expr::LiteralArray(v) => lemma_merge_list(v, s),
        Expr::ConstCollected(x) => lemma_merge_expr(*x, s),
        Expr::StoreLet { value, .. } => lemma_merge_expr(*value, s),
        _ => {},
    }
}

/// The list form of [`lemma_merge_expr`].
pub proof fn lemma_merge_list(l: Seq<Expr>, s: u32)
    requires
        nc_sum_list(l) + s <= u32::MAX,
    ensures
        merge_list(l, s).1 is FoundTarget ==> nc_sum_list(merge_list(l, s).0) == nc_sum_list(l) + s,
        !(merge_list(l, s).1 is FoundTarget) ==> merge_list(l, s).0 == l,
        merge_list(l, s).0.len() == l.len(),
    decreases l, 0nat,
{
    if l.len() > 0 {
        let p = merge_list(l.drop_last(), s);
        lemma_merge_list(l.drop_last(), s);
        lemma_merge_expr(l.last(), s);
        assert(p.0.push(l.last()).drop_last() =~= p.0);
        let x = merge_expr(l.last(), s);
        assert(p.0.push(x.0).drop_last() =~= p.0);
        if !(p.1 is FoundTarget) {
            assert(l.drop_last().push(l.last()) =~= l);
        }
    }
}

proof fn lemma_nc_sum_list_take(l: Seq<Expr>, k: int)
    requires
        0 <= k <= l.len(),
    ensures
        nc_sum_list(l.take(k)) <= nc_sum_list(l),
        k < l.len() ==> nc_sum_list(l.take(k)) + nc_sum(l[k]) <= nc_sum_list(l),
    decreases l.len() - k,
{
    if k < l.len() {
        lemma_nc_sum_list_take(l, k + 1);
        assert(l.take(k + 1).drop_last() =~= l.take(k));
    } else {
        assert(l.take(k) =~= l);
    }
}

/// Searches an expression (consumed).
fn merge_expr_exec(e: IrExpression, s: u32) -> (r: (IrExpression, MergeResult))
    requires
        nc_sum(ev(e)) + s <= u32::MAX,
    ensures
        ev(r.0) == merge_expr(ev(e), s).0,
        r.1 == merge_expr(ev(e), s).1,
    decreases e, 1nat,
{
    let ghost e0 = e;
    match e {
        IrExpression::GetCurrentView => (IrExpression::GetCurrentView, MergeResult::FoundBlocker),
        IrExpression::Reference { target, target_slot, offset } => (
            IrExpression::Reference { target, target_slot, offset },
            MergeResult::FoundBlocker,
        ),
        IrExpression::ContextLetReference { target, target_slot } => (
            IrExpression::ContextLetReference { target, target_slot },
            MergeResult::FoundBlocker,
        ),
        IrExpression::NextContext(n) => (IrExpression::NextContext(n + s), MergeResult::FoundTarget),
        IrExpression::ResolvedCall { receiver, args } => {
            proof {
                assert forall|i: int| 0 <= i < args@.len() implies decreases_to!(e0 => #[trigger] args@[i]) by {
                    assert(decreases_to!(args => args@));
                    assert(decreases_to!(args@ => args@[i]));
                }
            }
            let (r, res) = merge_expr_exec(*receiver, s);
            if res != MergeResult::Continue {
                (IrExpression::ResolvedCall { receiver: Box::new(r), args }, res)
            } else {
                let (a, res2) = merge_list_exec(args, s, Ghost(e0));
                (IrExpression::ResolvedCall { receiver: Box::new(r), args: a }, res2)
            }
        },
        IrExpression::ResolvedPropertyRead { receiver, name } => {
            let (r, res) = merge_expr_exec(*receiver, s);
            (IrExpression::ResolvedPropertyRead { receiver: Box::new(r), name }, res)
        },
        IrExpression::Binary { operator, lhs, rhs } => {
            let (l, res) = merge_expr_exec(*lhs, s);
            if res != MergeResult::Continue {
                (IrExpression::Binary { operator, lhs: Box::new(l), rhs }, res)
            } else {
                let (r, res2) = merge_expr_exec(*rhs, s);
                (IrExpression::Binary { operator, lhs: Box::new(l), rhs: Box::new(r) }, res2)
            }
        },
        IrExpression::Ternary { condition, true_expr, false_expr } => {
            let (c, res) = merge_expr_exec(*condition, s);
            if res != MergeResult::Continue {
                (IrExpression::Ternary { condition: Box::new(c), true_expr, false_expr }, res)
            } else {
                let (t, res2) = merge_expr_exec(*true_expr, s);
                if res2 != MergeResult::Continue {
                    (IrExpression::Ternary { condition: Box::new(c), true_expr: Box::new(t), false_expr }, res2)
                } else {
                    let (f, res3) = merge_expr_exec(*false_expr, s);
                    (
                        IrExpression::Ternary {
                            condition: Box::new(c),
                            true_expr: Box::new(t),
                            false_expr: Box::new(f),
                        },
                        res3,
                    )
                }
            }
        },
        IrExpression::Not(x) => {
            let (r, res) = merge_expr_exec(*x, s);
            (IrExpression::Not(Box::new(r)), res)
        },
        IrExpression::Interpolation { strings, expressions, i18n_placeholders } => {
            proof {
                assert forall|i: int| 0 <= i < expressions@.len() implies decreases_to!(e0 => #[trigger] expressions@[i]) by {
                    assert(decreases_to!(expressions => expressions@));
                    assert(decreases_to!(expressions@ => expressions@[i]));
                }
            }
            let (x, res) = merge_list_exec(expressions, s, Ghost(e0));
            (IrExpression::Interpolation { strings, expressions: x, i18n_placeholders }, res)
        },
        IrExpression::PipeBinding { target, target_slot, name, args, var_offset } => {
            proof {
                assert forall|i: int| 0 <= i < args@.len() implies decreases_to!(e0 => #[trigger] args@[i]) by {
                    assert(decreases_to!(args => args@));
                    assert(decreases_to!(args@ => args@[i]));
                }
            }
            let (a, res) = merge_list_exec(args, s, Ghost(e0));
            (IrExpression::PipeBinding { target, target_slot, name, args: a, var_offset }, res)
        },
        IrExpression::PipeBindingVariadic { target, target_slot, name, args, num_args, var_offset } => {
            let (r, res) = merge_expr_exec(*args, s);
            (IrExpression::PipeBindingVariadic { target, target_slot, name, args: Box::new(r), num_args, var_offset }, res)
        },
        IrExpression::DerivedLiteralArray { entries, spreads } => {
            proof {
                assert forall|i: int| 0 <= i < entries@.len() implies decreases_to!(e0 => #[trigger] entries@[i]) by {
                    assert(decreases_to!(entries => entries@));
                    assert(decreases_to!(entries@ => entries@[i]));
                }
            }
            let (x, res) = merge_list_exec(entries, s, Ghost(e0));
            (IrExpression::DerivedLiteralArray { entries: x, spreads }, res)
        },
        IrExpression::LiteralArray(v) => {
            proof {
                assert forall|i: int| 0 <= i < v@.len() implies decreases_to!(e0 => #[trigger] v@[i]) by {
                    assert(decreases_to!(v => v@));
                    assert(decreases_to!(v@ => v@[i]));
                }
            }
            let (x, res) = merge_list_exec(v, s, Ghost(e0));
            (IrExpression::LiteralArray(x), res)
        },
        IrExpression::ConstCollected(x) => {
            let (r, res) = merge_expr_exec(*x, s);
            (IrExpression::ConstCollected(Box::new(r)), res)
        },
        IrExpression::StoreLet { target, value } => {
            let (r, res) = merge_expr_exec(*value, s);
            (IrExpression::StoreLet { target, value: Box::new(r) }, res)
        },
        other => (other, MergeResult::Continue),
    }
}

/// Searches a list of expressions (consumed), left to right.
fn merge_list_exec(v: Vec<IrExpression>, s: u32, Ghost(parent): Ghost<IrExpression>) -> (r: (Vec<IrExpression>, MergeResult))
    requires
        forall|i: int| 0 <= i < v@.len() ==> decreases_to!(parent => #[trigger] v@[i]),
        nc_sum_list(ev_list(v@)) + s <= u32::MAX,
    ensures
        ev_list(r.0@) == merge_list(ev_list(v@), s).0,
        r.1 == merge_list(ev_list(v@), s).1,
    decreases parent, 0nat,
{
    let ghost orig = v@;
    let ghost l = ev_list(orig);
    proof {
        lemma_ev_list(orig);
    }
    let mut rev: Vec<IrExpression> = Vec::new();
    let mut v = v;
    while v.len() > 0
        invariant
            v@.len() + rev@.len() == orig.len(),
            forall|i: int| 0 <= i < v@.len() ==> #[trigger] v@[i] == orig[i],
            forall|j: int| 0 <= j < rev@.len() ==> #[trigger] rev@[j] == orig[orig.len() - 1 - j],
        decreases v.len(),
    {
        let x = v.pop().unwrap();
        rev.push(x);
    }
    let mut out: Vec<IrExpression> = Vec::new();
    let mut res = MergeResult::Continue;
    proof {
        assert(l.take(0) =~= Seq::<Expr>::empty());
        assert(ev_list(out@) =~= merge_list(l.take(0), s).0);
    }
    while rev.len() > 0
        invariant
            out@.len() + rev@.len() == orig.len(),
            forall|j: int| 0 <= j < rev@.len() ==> #[trigger] rev@[j] == orig[orig.len() - 1 - j],
            forall|i: int| 0 <= i < orig.len() ==> decreases_to!(parent => #[trigger] orig[i]),
            l == ev_list(orig),
            l.len() == orig.len(),
            forall|i: int| 0 <= i < orig.len() ==> #[trigger] l[i] == ev(orig[i]),
            nc_sum_list(l) + s <= u32::MAX,
            ev_list(out@) == merge_list(l.take(out@.len() as int), s).0,
            res == merge_list(l.take(out@.len() as int), s).1,
        decreases rev.len(),
    {
        let ghost k = out@.len() as int;
        let x = rev.pop().unwrap();
        assert(x == orig[k]);
        proof {
            assert(l.take(k + 1).drop_last() =~= l.take(k));
            assert(l.take(k + 1).last() == l[k]);
            lemma_nc_sum_list_take(l, k);
        }
        let ghost before = out@;
        if res != MergeResult::Continue {
            out.push(x);
        } else {
            let (y, r2) = merge_expr_exec(x, s);
            out.push(y);
            res = r2;
        }
        proof {
            assert(out@.drop_last() =~= before);
        }
    }
    proof {
        assert(l.take(orig.len() as int) =~= l);
    }
    (out, res)
}

/// The expression the search visits in an update operation: the wrapped
/// expression of an expression or return statement, or the bound expression.
pub open spec fn op_expr(op: UpdateOp) -> Option<Expr> {
    match op {
        UpdateOp::Statement(OutputStatement::Expression(OutputExpression::WrappedIrNode(b))) => Some(ev(*b)),
        UpdateOp::Statement(OutputStatement::Return(OutputExpression::WrappedIrNode(b))) => Some(ev(*b)),
        _ => match update_op_expr(op) {
            Some(e) => Some(ev(e)),
            None => None,
        },
    }
}

/// Whether two update operations are the same but for the expression the search visits.
pub open spec fn same_shape(a: UpdateOp, b: UpdateOp) -> bool {
    match (a, b) {
        (
            UpdateOp::Statement(OutputStatement::Expression(OutputExpression::WrappedIrNode(_))),
            UpdateOp::Statement(OutputStatement::Expression(OutputExpression::WrappedIrNode(_))),
        ) => true,
        (
            UpdateOp::Statement(OutputStatement::Return(OutputExpression::WrappedIrNode(_))),
            UpdateOp::Statement(OutputStatement::Return(OutputExpression::WrappedIrNode(_))),
        ) => true,
        (UpdateOp::Statement(_), _) => a == b,
        _ => same_but_expr(a, b),
    }
}

/// Whether an operation is a `nextContext(n)` statement whose result is unused.
pub open spec fn is_source(op: UpdateOp) -> bool {
    &&& op matches UpdateOp::Statement(OutputStatement::Expression(OutputExpression::WrappedIrNode(_)))
    &&& op_expr(op) matches Some(Expr::NextContext(_))
}

/// The steps the search may add to an operation's expression.
pub open spec fn op_nc(x: Option<Expr>) -> nat {
    match x {
        Some(e) => nc_sum(e),
        None => 0,
    }
}

/// The expressions of a list of operations.
pub open spec fn exprs_of(u: Seq<UpdateOp>) -> Seq<Option<Expr>> {
    Seq::new(u.len(), |i: int| op_expr(u[i]))
}

/// The steps of the operations before `k` that are not removed.
pub open spec fn total(x: Seq<Option<Expr>>, rm: Seq<bool>, k: int) -> nat
    decreases k,
{
    if k <= 0 {
        0
    } else {
        total(x, rm, k - 1) + if rm[k - 1] { 0 } else { op_nc(x[k - 1]) }
    }
}

/// The steps of a list of operations.
pub open spec fn ops_total(u: Seq<UpdateOp>) -> nat {
    total(exprs_of(u), Seq::new(u.len(), |i: int| false), u.len() as int)
}

/// The search for the source merging `s` steps, from position `j` on, over the
/// operations not removed: the expressions afterwards and what was found.
pub open spec fn scan(x: Seq<Option<Expr>>, rm: Seq<bool>, j: int, s: u32) -> (Seq<Option<Expr>>, MergeResult)
    decreases x.len() - j,
{
    if j < 0 || j >= x.len() {
        (x, MergeResult::Continue)
    } else if rm[j] {
        scan(x, rm, j + 1, s)
    } else {
        match x[j] {
            Some(e) => {
                let r = merge_expr(e, s);
                if r.1 is FoundTarget {
                    (x.update(j, Some(r.0)), MergeResult::FoundTarget)
                } else if r.1 is FoundBlocker {
                    (x, MergeResult::FoundBlocker)
                } else {
                    scan(x, rm, j + 1, s)
                }
            },
            None => scan(x, rm, j + 1, s),
        }
    }
}

/// The merge state after the source candidates before `k` are processed, in
/// order: the operations' expressions and which operations are removed.
pub open spec fn merged_upto(u: Seq<UpdateOp>, k: int) -> (Seq<Option<Expr>>, Seq<bool>)
    decreases k,
{
    if k <= 0 {
        (exprs_of(u), Seq::new(u.len(), |i: int| false))
    } else {
        let st = merged_upto(u, k - 1);
        let i = k - 1;
        match st.0[i] {
            Some(Expr::NextContext(n)) => if is_source(u[i]) && !st.1[i] {
                let r = scan(st.0, st.1, i + 1, n);
                if r.1 is FoundTarget {
                    (r.0, st.1.update(i, true))
                } else {
                    st
                }
            } else {
                st
            },
            _ => st,
        }
    }
}

/// The positions of the operations that stay, in order.
pub open spec fn kept_positions(rm: Seq<bool>) -> Seq<int>
    decreases rm.len(),
{
    if rm.len() == 0 {
        seq![]
    } else {
        let p = kept_positions(rm.drop_last());
        if rm.last() {
            p
        } else {
            p.push(rm.len() - 1)
        }
    }
}

/// Whether the list `after` is `before` with its `nextContext` statements merged.
pub open spec fn ops_merged(before: Seq<UpdateOp>, after: Seq<UpdateOp>) -> bool {
    let st = merged_upto(before, before.len() as int);
    let kp = kept_positions(st.1);
    &&& after.len() == kp.len()
    &&& forall|k: int|
        0 <= k < kp.len() ==> same_shape(before[kp[k]], #[trigger] after[k]) && op_expr(after[k]) == st.0[kp[k]]
}

proof fn lemma_merge_keeps_next_context(e: Expr, s: u32)
    ensures
        (merge_expr(e, s).0 is NextContext) == (e is NextContext),
{
}

/// Searches the expression of an update operation (consumed).
fn merge_op_owned(op: UpdateOp, s: u32) -> (r: (UpdateOp, MergeResult))
    requires
        op_nc(op_expr(op)) + s <= u32::MAX,
    ensures
        same_shape(op, r.0),
        is_source(r.0) == is_source(op),
        match op_expr(op) {
            Some(e) => op_expr(r.0) == Some(merge_expr(e, s).0) && r.1 == merge_expr(e, s).1,
            None => r.0 == op && r.1 is Continue,
        },
{
    proof {
        if let Some(e) = op_expr(op) {
            lemma_merge_keeps_next_context(e, s);
        }
    }
    match op {
        UpdateOp::Statement(OutputStatement::Expression(OutputExpression::WrappedIrNode(b))) => {
            let (e, r) = merge_expr_exec(*b, s);
            (UpdateOp::Statement(OutputStatement::Expression(OutputExpression::WrappedIrNode(Box::new(e)))), r)
        },
        UpdateOp::Statement(OutputStatement::Return(OutputExpression::WrappedIrNode(b))) => {
            let (e, r) = merge_expr_exec(*b, s);
            (UpdateOp::Statement(OutputStatement::Return(OutputExpression::WrappedIrNode(Box::new(e)))), r)
        },
        UpdateOp::Property(mut b) => {
            let (e, r) = merge_expr_exec(b.expression, s);
            b.expression = e;
            (UpdateOp::Property(b), r)
        },
        UpdateOp::TwoWayProperty(mut b) => {
            let (e, r) = merge_expr_exec(b.expression, s);
            b.expression = e;
            (UpdateOp::TwoWayProperty(b), r)
        },
        UpdateOp::DomProperty(mut b) => {
            let (e, r) = merge_expr_exec(b.expression, s);
            b.expression = e;
            (UpdateOp::DomProperty(b), r)
        },
        UpdateOp::Attribute(mut b) => {
            let (e, r) = merge_expr_exec(b.expression, s);
            b.expression = e;
            (UpdateOp::Attribute(b), r)
        },
        UpdateOp::StyleProp(mut b) => {
            let (e, r) = merge_expr_exec(b.expression, s);
            b.expression = e;
            (UpdateOp::StyleProp(b), r)
        },
        UpdateOp::ClassProp(mut b) => {
            let (e, r) = merge_expr_exec(b.expression, s);
            b.expression = e;
            (UpdateOp::ClassProp(b), r)
        },
        UpdateOp::StyleMap(mut b) => {
            let (e, r) = merge_expr_exec(b.expression, s);
            b.expression = e;
            (UpdateOp::StyleMap(b), r)
        },
        UpdateOp::ClassMap(mut b) => {
            let (e, r) = merge_expr_exec(b.expression, s);
            b.expression = e;
            (UpdateOp::ClassMap(b), r)
        },
        UpdateOp::Control(mut b) => {
            let (e, r) = merge_expr_exec(b.expression, s);
            b.expression = e;
            (UpdateOp::Control(b), r)
        },
        UpdateOp::Binding(mut b) => {
            let (e, r) = merge_expr_exec(b.expression, s);
            b.expression = e;
            (UpdateOp::Binding(b), r)
        },
        UpdateOp::InterpolateText(mut b) => {
            let (e, r) = merge_expr_exec(b.expression, s);
            b.expression = e;
            (UpdateOp::InterpolateText(b), r)
        },
        UpdateOp::AnimationBinding(mut b) => {
            let (e, r) = merge_expr_exec(b.expression, s);
            b.expression = e;
            (UpdateOp::AnimationBinding(b), r)
        },
        UpdateOp::Repeater(mut b) => {
            let (e, r) = merge_expr_exec(b.expression, s);
            b.expression = e;
            (UpdateOp::Repeater(b), r)
        },
        UpdateOp::Conditional(mut b) => {
            let (e, r) = merge_expr_exec(b.expression, s);
            b.expression = e;
            (UpdateOp::Conditional(b), r)
        },
        UpdateOp::StoreLet(mut b) => {
            let (e, r) = merge_expr_exec(b.expression, s);
            b.expression = e;
            (UpdateOp::StoreLet(b), r)
        },
        UpdateOp::DeferWhen(mut b) => {
            let (e, r) = merge_expr_exec(b.expression, s);
            b.expression = e;
            (UpdateOp::DeferWhen(b), r)
        },
        UpdateOp::I18nExpression(mut b) => {
            let (e, r) = merge_expr_exec(b.expression, s);
            b.expression = e;
            (UpdateOp::I18nExpression(b), r)
        },
        UpdateOp::Variable(mut v) => {
            let (e, r) = merge_expr_exec(v.initializer, s);
            v.initializer = e;
            (UpdateOp::Variable(v), r)
        },
        other => (other, MergeResult::Continue),
    }
}

/// Searches the expression of the operation at `j`.
fn merge_at(ops: &mut Vec<UpdateOp>, j: usize, s: u32) -> (r: MergeResult)
    requires
        j < old(ops)@.len(),
        op_nc(op_expr(old(ops)@[j as int])) + s <= u32::MAX,
    ensures
        final(ops)@.len() == old(ops)@.len(),
        forall|k: int| 0 <= k < old(ops)@.len() && k != j ==> #[trigger] final(ops)@[k] == old(ops)@[k],
        same_shape(old(ops)@[j as int], final(ops)@[j as int]),
        is_source(final(ops)@[j as int]) == is_source(old(ops)@[j as int]),
        match op_expr(old(ops)@[j as int]) {
            Some(e) => op_expr(final(ops)@[j as int]) == Some(merge_expr(e, s).0) && r == merge_expr(e, s).1,
            None => final(ops)@[j as int] == old(ops)@[j as int] && r is Continue,
        },
{
    let mut op = UpdateOp::ListEnd;
    std::mem::swap(&mut op, &mut ops[j]);
    let (op2, r) = merge_op_owned(op, s);
    ops.set(j, op2);
    r
}

/// The steps of a `nextContext(n)` statement.
fn source_steps(op: &UpdateOp) -> (r: Option<u32>)
    ensures
        r is Some == is_source(*op),
        r matches Some(n) ==> op_expr(*op) == Some(Expr::NextContext(n)),
{
    match op {
        UpdateOp::Statement(OutputStatement::Expression(OutputExpression::WrappedIrNode(b))) => match &**b {
            IrExpression::NextContext(n) => Some(*n),
            _ => None,
        },
        _ => None,
    }
}

proof fn lemma_total_mono(x: Seq<Option<Expr>>, rm: Seq<bool>, k1: int, k2: int)
    requires
        k1 <= k2,
    ensures
        total(x, rm, k1) <= total(x, rm, k2),
    decreases k2 - k1,
{
    if k1 < k2 {
        lemma_total_mono(x, rm, k1, k2 - 1);
    }
}

proof fn lemma_total_two(x: Seq<Option<Expr>>, rm: Seq<bool>, i: int, j: int, k: int)
    requires
        0 <= i < k,
        0 <= j < k,
        i != j,
        !rm[i],
        !rm[j],
    ensures
        total(x, rm, k) >= op_nc(x[i]) + op_nc(x[j]),
    decreases k,
{
    if k - 1 == i {
        lemma_total_mono(x, rm, j + 1, k - 1);
    } else if k - 1 == j {
        lemma_total_mono(x, rm, i + 1, k - 1);
    } else {
        lemma_total_two(x, rm, i, j, k - 1);
    }
}

proof fn lemma_total_update(x: Seq<Option<Expr>>, rm: Seq<bool>, j: int, v: Option<Expr>, k: int)
    requires
        0 <= j < k <= x.len(),
        !rm[j],
    ensures
        total(x.update(j, v), rm, k) + op_nc(x[j]) == total(x, rm, k) + op_nc(v),
    decreases k,
{
    if k - 1 > j {
        lemma_total_update(x, rm, j, v, k - 1);
    } else {
        lemma_total_same(x, x.update(j, v), rm, k - 1);
    }
}

proof fn lemma_total_same(x: Seq<Option<Expr>>, y: Seq<Option<Expr>>, rm: Seq<bool>, k: int)
    requires
        k <= x.len(),
        k <= y.len(),
        forall|i: int| 0 <= i < k ==> x[i] == y[i],
    ensures
        total(x, rm, k) == total(y, rm, k),
    decreases k,
{
    if k > 0 {
        lemma_total_same(x, y, rm, k - 1);
    }
}

proof fn lemma_total_remove(x: Seq<Option<Expr>>, rm: Seq<bool>, i: int, k: int)
    requires
        0 <= i < k <= rm.len(),
        !rm[i],
    ensures
        total(x, rm.update(i, true), k) + op_nc(x[i]) == total(x, rm, k),
    decreases k,
{
    if k - 1 > i {
        lemma_total_remove(x, rm, i, k - 1);
    } else {
        lemma_total_rm_same(x, rm, rm.update(i, true), k - 1);
    }
}

proof fn lemma_total_rm_same(x: Seq<Option<Expr>>, rm: Seq<bool>, rm2: Seq<bool>, k: int)
    requires
        k <= rm.len(),
        k <= rm2.len(),
        forall|i: int| 0 <= i < k ==> rm[i] == rm2[i],
    ensures
        total(x, rm, k) == total(x, rm2, k),
    decreases k,
{
    if k > 0 {
        lemma_total_rm_same(x, rm, rm2, k - 1);
    }
}

proof fn lemma_scan_unchanged(x: Seq<Option<Expr>>, rm: Seq<bool>, j: int, s: u32)
    ensures
        !(scan(x, rm, j, s).1 is FoundTarget) ==> scan(x, rm, j, s).0 == x,
    decreases x.len() - j,
{
    if 0 <= j < x.len() {
        lemma_scan_unchanged(x, rm, j + 1, s);
    }
}


/// Searches the operations after the source at `i` (not removed ones) for the
/// target of its `st` steps, stopping at the first target or blocker.
#[verifier::rlimit(100)]
fn find_merge_target(
    ops: &mut Vec<UpdateOp>,
    removed: &Vec<bool>,
    i: usize,
    st: u32,
    Ghost(u0): Ghost<Seq<UpdateOp>>,
) -> (r: (bool, Ghost<int>))
    requires
        old(ops)@.len() == u0.len(),
        removed@.len() == u0.len(),
        i < u0.len(),
        !removed@[i as int],
        exprs_of(old(ops)@)[i as int] == Some(Expr::NextContext(st)),
        total(exprs_of(old(ops)@), removed@, u0.len() as int) <= u32::MAX,
        forall|k: int| 0 <= k < u0.len() ==> same_shape(u0[k], #[trigger] old(ops)@[k]),
        forall|k: int| 0 <= k < u0.len() ==> is_source(#[trigger] old(ops)@[k]) == is_source(u0[k]),
    ensures
        final(ops)@.len() == u0.len(),
        forall|k: int| 0 <= k < u0.len() ==> same_shape(u0[k], #[trigger] final(ops)@[k]),
        forall|k: int| 0 <= k < u0.len() ==> is_source(#[trigger] final(ops)@[k]) == is_source(u0[k]),
        exprs_of(final(ops)@) == scan(exprs_of(old(ops)@), removed@, i + 1, st).0,
        r.0 == (scan(exprs_of(old(ops)@), removed@, i + 1, st).1 is FoundTarget),
        r.0 ==> {
            let x0 = exprs_of(old(ops)@);
            let tj = r.1@;
            &&& i < tj < u0.len()
            &&& !removed@[tj]
            &&& x0[tj] is Some
            &&& exprs_of(final(ops)@) == x0.update(tj, Some(merge_expr(x0[tj]->Some_0, st).0))
            &&& merge_expr(x0[tj]->Some_0, st).1 is FoundTarget
        },
{
    let ghost x0 = exprs_of(ops@);
    let ghost rm0 = removed@;
    let n = ops.len();
    let mut j: usize = i + 1;
    let mut stop = false;
    let mut found = false;
    let ghost mut tj: int = 0;
    assert(x0[i as int] == Some(Expr::NextContext(st)));
    while j < n && !stop
        invariant
            n == u0.len(),
            ops@.len() == n,
            removed@ == rm0,
            rm0.len() == n,
            x0.len() == n,
            i < j <= n,
            !rm0[i as int],
            x0[i as int] == Some(Expr::NextContext(st)),
            total(x0, rm0, n as int) <= u32::MAX,
            forall|k: int| 0 <= k < n ==> same_shape(u0[k], #[trigger] ops@[k]),
            forall|k: int| 0 <= k < n ==> is_source(#[trigger] ops@[k]) == is_source(u0[k]),
            !stop ==> exprs_of(ops@) == x0 && scan(x0, rm0, i + 1, st) == scan(x0, rm0, j as int, st),
            stop ==> (exprs_of(ops@), if found {
                MergeResult::FoundTarget
            } else {
                MergeResult::FoundBlocker
            }) == scan(x0, rm0, i + 1, st),
            found ==> stop,
            found ==> i < tj < n && !rm0[tj] && x0[tj] is Some && exprs_of(ops@) == x0.update(
                tj,
                Some(merge_expr(x0[tj]->Some_0, st).0),
            ) && merge_expr(x0[tj]->Some_0, st).1 is FoundTarget,
        decreases n - j,
    {
        if !removed[j] {
            proof {
                lemma_total_two(x0, rm0, i as int, j as int, n as int);
                assert(x0[j as int] == op_expr(ops@[j as int]));
                if let Some(e) = x0[j as int] {
                    lemma_merge_expr(e, st);
                }
            }
            let ghost before = ops@;
            let r = merge_at(ops, j, st);
            match r {
                MergeResult::FoundTarget => {
                    found = true;
                    stop = true;
                    proof {
                        tj = j as int;
                        assert(exprs_of(ops@) =~= x0.update(j as int, op_expr(ops@[j as int])));
                    }
                },
                MergeResult::FoundBlocker => {
                    stop = true;
                    assert(exprs_of(ops@) =~= x0);
                },
                MergeResult::Continue => {
                    assert(exprs_of(ops@) =~= x0);
                },
            }
        }
        j = j + 1;
    }
    assert(scan(x0, rm0, n as int, st) == (x0, MergeResult::Continue));
    proof {
        lemma_scan_unchanged(x0, rm0, i + 1, st);
    }
    (found, Ghost(tj))
}

/// Merges the `nextContext` statements of a list of operations into the
/// `nextContext` expressions that follow them.
fn merge_in_ops(ops: &mut Vec<UpdateOp>)
    requires
        ops_total(old(ops)@) <= u32::MAX,
    ensures
        ops_merged(old(ops)@, final(ops)@),
{
    let ghost u0 = ops@;
    let n = ops.len();
    let mut removed: Vec<bool> = Vec::new();
    while removed.len() < n
        invariant
            removed@.len() <= n,
            forall|k: int| 0 <= k < removed@.len() ==> !#[trigger] removed@[k],
        decreases n - removed.len(),
    {
        removed.push(false);
    }
    proof {
        assert(removed@ =~= Seq::new(u0.len(), |i: int| false));
        assert(exprs_of(ops@) =~= exprs_of(u0));
    }
    let mut i: usize = 0;
    while i < n
        invariant
            n == u0.len(),
            ops@.len() == n,
            removed@.len() == n,
            i <= n,
            exprs_of(ops@) == merged_upto(u0, i as int).0,
            removed@ == merged_upto(u0, i as int).1,
            forall|k: int| 0 <= k < n ==> same_shape(u0[k], #[trigger] ops@[k]),
            forall|k: int| 0 <= k < n ==> is_source(#[trigger] ops@[k]) == is_source(u0[k]),
            total(exprs_of(ops@), removed@, n as int) == ops_total(u0),
            ops_total(u0) <= u32::MAX,
        decreases n - i,
    {
        let ghost x0 = exprs_of(ops@);
        let ghost rm0 = removed@;
        match source_steps(&ops[i]) {
            Some(st) => {
                if !removed[i] {
                    let (found, Ghost(tj)) = find_merge_target(ops, &removed, i, st, Ghost(u0));
                    proof {
                        lemma_scan_unchanged(x0, rm0, i + 1, st);
                    }
                    assert(merged_upto(u0, i + 1) == (if scan(x0, rm0, i + 1, st).1 is FoundTarget {
                        (scan(x0, rm0, i + 1, st).0, rm0.update(i as int, true))
                    } else {
                        (x0, rm0)
                    }));
                    if found {
                        proof {
                            let e = x0[tj]->Some_0;
                            lemma_total_two(x0, rm0, i as int, tj, n as int);
                            lemma_merge_expr(e, st);
                            lemma_total_update(x0, rm0, tj, Some(merge_expr(e, st).0), n as int);
                            lemma_total_remove(x0.update(tj, Some(merge_expr(e, st).0)), rm0, i as int, n as int);
                        }
                        removed.set(i, true);
                    }
                } else {
                    assert(merged_upto(u0, i + 1) == merged_upto(u0, i as int));
                }
            },
            None => {
                assert(merged_upto(u0, i + 1) == merged_upto(u0, i as int));
            },
        }
        i = i + 1;
    }
    // Drop the removed operations, keeping the order of the others.
    let ghost rm = removed@;
    let ghost fin = ops@;
    let mut taken: Vec<UpdateOp> = Vec::new();
    std::mem::swap(ops, &mut taken);
    let mut rev: Vec<UpdateOp> = Vec::new();
    while taken.len() > 0
        invariant
            taken@.len() + rev@.len() == fin.len(),
            forall|k: int| 0 <= k < taken@.len() ==> #[trigger] taken@[k] == fin[k],
            forall|k: int| 0 <= k < rev@.len() ==> #[trigger] rev@[k] == fin[fin.len() - 1 - k],
        decreases taken.len(),
    {
        let x = taken.pop().unwrap();
        rev.push(x);
    }
    let mut out: Vec<UpdateOp> = Vec::new();
    let mut m: usize = 0;
    proof {
        assert(rm.take(0) =~= Seq::<bool>::empty());
    }
    while rev.len() > 0
        invariant
            m + rev@.len() == fin.len(),
            fin.len() == n,
            rm.len() == n,
            removed@ == rm,
            forall|k: int| 0 <= k < rev@.len() ==> #[trigger] rev@[k] == fin[fin.len() - 1 - k],
            out@.len() == kept_positions(rm.take(m as int)).len(),
            forall|k: int|
                0 <= k < out@.len() ==> #[trigger] out@[k] == fin[kept_positions(rm.take(m as int))[k]],
            forall|k: int| 0 <= k < kept_positions(rm.take(m as int)).len() ==> 0 <= #[trigger] kept_positions(rm.take(m as int))[k] < m,
        decreases rev.len(),
    {
        let x = rev.pop().unwrap();
        let ghost kp = kept_positions(rm.take(m as int));
        proof {
            assert(rm.take(m + 1).drop_last() =~= rm.take(m as int));
            assert(rm.take(m + 1).last() == rm[m as int]);
        }
        if !removed[m] {
            out.push(x);
        }
        m = m + 1;
    }
    proof {
        assert(rm.take(n as int) =~= rm);
    }
    *ops = out;
}

/// Whether every operation list of a view has room for its merged steps.
pub open spec fn view_contexts_fit(v: ViewCompilationUnit) -> bool {
    &&& ops_total(v.update@) <= u32::MAX
    &&& forall|f: int| 0 <= f < v.functions@.len() ==> ops_total((#[trigger] v.functions@[f])@) <= u32::MAX
    &&& forall|i: int| 0 <= i < v.create@.len() ==> handler_fits(#[trigger] v.create@[i])
}

/// The operations of a listener's handler, for the operations that have one.
pub open spec fn handler_of(op: CreateOp) -> Option<ListenerOp> {
    match op {
        CreateOp::Listener(l) => Some(l),
        CreateOp::TwoWayListener(l) => Some(l),
        CreateOp::AnimationListener(l) => Some(l),
        CreateOp::Animation(l) => Some(l),
        _ => None,
    }
}

/// Whether the handler operations of a creation operation have room for their merged steps.
pub open spec fn handler_fits(op: CreateOp) -> bool {
    handler_of(op) matches Some(l) && l.handler_ops matches Some(ops) ==> ops_total(ops@) <= u32::MAX
}

/// Whether the listener `after` is `before` with the `nextContext` statements
/// of its handler operations merged.
pub open spec fn listener_merged(before: ListenerOp, after: ListenerOp) -> bool {
    &&& after == ListenerOp { handler_ops: after.handler_ops, ..before }
    &&& match before.handler_ops {
        Some(ops) => after.handler_ops matches Some(ops2) && ops_merged(ops@, ops2@),
        None => after.handler_ops is None,
    }
}

/// Whether the creation operation `after` is `before` with the `nextContext`
/// statements of its handler operations merged (for listeners and animations).
pub open spec fn handler_merged(before: CreateOp, after: CreateOp) -> bool {
    match before {
        CreateOp::Listener(l) => after matches CreateOp::Listener(l2) && listener_merged(l, l2),
        CreateOp::TwoWayListener(l) => after matches CreateOp::TwoWayListener(l2) && listener_merged(l, l2),
        CreateOp::AnimationListener(l) => after matches CreateOp::AnimationListener(l2) && listener_merged(l, l2),
        CreateOp::Animation(l) => after matches CreateOp::Animation(l2) && listener_merged(l, l2),
        _ => after == before,
    }
}

/// Whether every view of a job has room for its merged steps.
pub open spec fn job_contexts_fit(job: ComponentCompilationJob) -> bool {
    &&& view_contexts_fit(job.root)
    &&& forall|i: int| 0 <= i < job.views@.len() ==> view_contexts_fit(#[trigger] job.views@[i])
}

/// Whether the view `after` is `before` with the `nextContext` statements of its
/// update operations, of its arrow functions and of its listeners' handler
/// operations merged.
pub open spec fn view_contexts_merged(before: ViewCompilationUnit, after: ViewCompilationUnit) -> bool {
    &&& ops_merged(before.update@, after.update@)
    &&& after.functions@.len() == before.functions@.len()
    &&& forall|f: int| 0 <= f < before.functions@.len() ==> ops_merged((#[trigger] before.functions@[f])@, after.functions@[f]@)
    &&& after.create@.len() == before.create@.len()
    &&& forall|i: int| 0 <= i < before.create@.len() ==> handler_merged(#[trigger] before.create@[i], after.create@[i])
    &&& after.xref == before.xref
    &&& after.decl_count == before.decl_count
}

/// Whether the job `after` is `before` with the `nextContext` statements of every view merged.
pub open spec fn job_contexts_merged(before: ComponentCompilationJob, after: ComponentCompilationJob) -> bool {
    &&& view_contexts_merged(before.root, after.root)
    &&& after.views@.len() == before.views@.len()
    &&& forall|i: int| 0 <= i < before.views@.len() ==> view_contexts_merged(before.views@[i], #[trigger] after.views@[i])
    &&& after.consts == before.consts
    &&& after.diagnostics == before.diagnostics
    &&& after.next_xref == before.next_xref
    &&& after.compatibility_mode == before.compatibility_mode
    &&& after.mode == before.mode
    &&& after.enable_debug_locations == before.enable_debug_locations
    &&& after.relative_template_path == before.relative_template_path
    &&& after.template_source == before.template_source
}

fn merge_in_listener(l: &mut ListenerOp)
    requires
        old(l).handler_ops matches Some(ops) ==> ops_total(ops@) <= u32::MAX,
    ensures
        listener_merged(*old(l), *final(l)),
{
    match &mut l.handler_ops {
        Some(ops) => merge_in_ops(ops),
        None => {},
    }
}

/// Merges in the handler operations of a creation list's listeners and animations.
fn merge_in_handlers(create: &mut Vec<CreateOp>)
    requires
        forall|i: int| 0 <= i < old(create)@.len() ==> handler_fits(#[trigger] old(create)@[i]),
    ensures
        final(create)@.len() == old(create)@.len(),
        forall|i: int| 0 <= i < old(create)@.len() ==> handler_merged(#[trigger] old(create)@[i], final(create)@[i]),
{
    let n = create.len();
    let mut i: usize = 0;
    while i < n
        invariant
            n == create@.len(),
            n == old(create)@.len(),
            i <= n,
            forall|j: int| 0 <= j < n ==> handler_fits(#[trigger] old(create)@[j]),
            forall|j: int| 0 <= j < i ==> handler_merged(#[trigger] old(create)@[j], create@[j]),
            forall|j: int| i <= j < n ==> #[trigger] create@[j] == old(create)@[j],
        decreases n - i,
    {
        assert(handler_fits(old(create)@[i as int]));
        match &mut create[i] {
            CreateOp::Listener(l) => merge_in_listener(l),
            CreateOp::TwoWayListener(l) => merge_in_listener(l),
            CreateOp::AnimationListener(l) => merge_in_listener(l),
            CreateOp::Animation(l) => merge_in_listener(l),
            _ => {},
        }
        i = i + 1;
    }
}

/// Merges in one view: its arrow functions, its listeners' handler
/// operations, then its update operations.
fn merge_in_view(view: &mut ViewCompilationUnit)
    requires
        view_contexts_fit(*old(view)),
    ensures
        view_contexts_merged(*old(view), *final(view)),
{
    let ghost fs = view.functions@;
    let n = view.functions.len();
    let mut f: usize = 0;
    while f < n
        invariant
            n == fs.len(),
            view.functions@.len() == n,
            f <= n,
            forall|k: int| 0 <= k < n ==> ops_total((#[trigger] fs[k])@) <= u32::MAX,
            forall|k: int| 0 <= k < f ==> ops_merged((#[trigger] fs[k])@, view.functions@[k]@),
            forall|k: int| f <= k < n ==> #[trigger] view.functions@[k] == fs[k],
            view.update == old(view).update,
            view.create == old(view).create,
            view.xref == old(view).xref,
            view.decl_count == old(view).decl_count,
            fs == old(view).functions@,
        decreases n - f,
    {
        merge_in_ops(&mut view.functions[f]);
        f = f + 1;
    }
    merge_in_handlers(&mut view.create);
    merge_in_ops(&mut view.update);
}

/// Merges the `nextContext` statements into the `nextContext` expressions that
/// follow them, in every view (root first).
pub fn merge_next_context_expressions(job: &mut ComponentCompilationJob)
    requires
        job_contexts_fit(*old(job)),
    ensures
        job_contexts_merged(*old(job), *final(job)),
{
    merge_in_view(&mut job.root);
    let n = job.views.len();
    let mut i: usize = 0;
    while i < n
        invariant
            n == job.views@.len(),
            n == old(job).views@.len(),
            i <= n,
            job_contexts_fit(*old(job)),
            view_contexts_merged(old(job).root, job.root),
            forall|j: int| 0 <= j < i ==> view_contexts_merged(old(job).views@[j], #[trigger] job.views@[j]),
            forall|j: int| i <= j < n ==> #[trigger] job.views@[j] == old(job).views@[j],
            job.consts == old(job).consts,
            job.diagnostics == old(job).diagnostics,
            job.next_xref == old(job).next_xref,
            job.compatibility_mode == old(job).compatibility_mode,
            job.mode == old(job).mode,
            job.enable_debug_locations == old(job).enable_debug_locations,
            job.relative_template_path == old(job).relative_template_path,
            job.template_source == old(job).template_source,
        decreases n - i,
    {
        assert(view_contexts_fit(old(job).views@[i as int]));
        merge_in_view(&mut job.views[i]);
        i = i + 1;
    }
}

proof fn lemma_scan_target(x: Seq<Option<Expr>>, rm: Seq<bool>, j: int, s: u32) -> (tj: int)
    requires
        0 <= j,
        scan(x, rm, j, s).1 is FoundTarget,
    ensures
        j <= tj < x.len(),
        !rm[tj],
        x[tj] is Some,
        merge_expr(x[tj]->Some_0, s).1 is FoundTarget,
        scan(x, rm, j, s).0 == x.update(tj, Some(merge_expr(x[tj]->Some_0, s).0)),
    decreases x.len() - j,
{
    if rm[j] || x[j] is None || !(merge_expr(x[j]->Some_0, s).1 is FoundTarget) {
        lemma_scan_target(x, rm, j + 1, s)
    } else {
        j
    }
}

/// Plain sum of the steps of the first `m` expressions.
spec fn plain_total(x: Seq<Option<Expr>>, m: int) -> nat
    decreases m,
{
    if m <= 0 {
        0
    } else {
        plain_total(x, m - 1) + op_nc(x[m - 1])
    }
}

/// Sum of the steps of the expressions at the first `m` positions of `kp`.
spec fn total_at(x: Seq<Option<Expr>>, kp: Seq<int>, m: int) -> nat
    decreases m,
{
    if m <= 0 {
        0
    } else {
        total_at(x, kp, m - 1) + op_nc(x[kp[m - 1]])
    }
}

proof fn lemma_total_plain(x: Seq<Option<Expr>>, rm: Seq<bool>, m: int)
    requires
        m <= rm.len(),
        forall|i: int| 0 <= i < rm.len() ==> !#[trigger] rm[i],
    ensures
        total(x, rm, m) == plain_total(x, m),
    decreases m,
{
    if m > 0 {
        lemma_total_plain(x, rm, m - 1);
    }
}

proof fn lemma_total_kept(x: Seq<Option<Expr>>, rm: Seq<bool>, m: int)
    requires
        0 <= m <= rm.len(),
    ensures
        total(x, rm, m) == total_at(x, kept_positions(rm.take(m)), kept_positions(rm.take(m)).len() as int),
    decreases m,
{
    if m > 0 {
        lemma_total_kept(x, rm, m - 1);
        assert(rm.take(m).drop_last() =~= rm.take(m - 1));
        let kp = kept_positions(rm.take(m - 1));
        if !rm[m - 1] {
            let kp1 = kp.push(m - 1);
            lemma_total_at_prefix(x, kp, kp1, kp.len() as int);
        }
    } else {
        assert(rm.take(0) =~= Seq::<bool>::empty());
    }
}

proof fn lemma_total_at_prefix(x: Seq<Option<Expr>>, a: Seq<int>, b: Seq<int>, m: int)
    requires
        0 <= m <= a.len(),
        m <= b.len(),
        forall|k: int| 0 <= k < m ==> a[k] == b[k],
    ensures
        total_at(x, a, m) == total_at(x, b, m),
    decreases m,
{
    if m > 0 {
        lemma_total_at_prefix(x, a, b, m - 1);
    }
}

proof fn lemma_plain_kept(y: Seq<Option<Expr>>, x: Seq<Option<Expr>>, kp: Seq<int>, m: int)
    requires
        0 <= m <= kp.len(),
        m <= y.len(),
        forall|k: int| 0 <= k < m ==> #[trigger] y[k] == x[kp[k]],
    ensures
        plain_total(y, m) == total_at(x, kp, m),
    decreases m,
{
    if m > 0 {
        lemma_plain_kept(y, x, kp, m - 1);
    }
}

proof fn lemma_merged_upto(u: Seq<UpdateOp>, k: int)
    requires
        0 <= k <= u.len(),
        ops_total(u) <= u32::MAX,
    ensures
        merged_upto(u, k).0.len() == u.len(),
        merged_upto(u, k).1.len() == u.len(),
        total(merged_upto(u, k).0, merged_upto(u, k).1, u.len() as int) == ops_total(u),
    decreases k,
{
    let n = u.len() as int;
    if k > 0 {
        lemma_merged_upto(u, k - 1);
        let st = merged_upto(u, k - 1);
        let i = k - 1;
        match st.0[i] {
            Some(Expr::NextContext(s)) => if is_source(u[i]) && !st.1[i] {
                let r = scan(st.0, st.1, i + 1, s);
                if r.1 is FoundTarget {
                    let tj = lemma_scan_target(st.0, st.1, i + 1, s);
                    let e = st.0[tj]->Some_0;
                    lemma_total_two(st.0, st.1, i, tj, n);
                    lemma_merge_expr(e, s);
                    let x1 = st.0.update(tj, Some(merge_expr(e, s).0));
                    lemma_total_update(st.0, st.1, tj, Some(merge_expr(e, s).0), n);
                    lemma_total_remove(x1, st.1, i, n);
                }
            },
            _ => {},
        }
    } else {
        assert(exprs_of(u).len() == u.len());
    }
}

/// Merging moves steps and never adds or loses any: the total steps of the
/// `nextContext` expressions of a list of operations stay the same.
pub proof fn law_merging_conserves_steps(before: Seq<UpdateOp>, after: Seq<UpdateOp>)
    requires
        ops_total(before) <= u32::MAX,
        ops_merged(before, after),
    ensures
        ops_total(after) == ops_total(before),
{
    let n = before.len() as int;
    lemma_merged_upto(before, n);
    let st = merged_upto(before, n);
    lemma_total_kept(st.0, st.1, n);
    assert(st.1.take(n) =~= st.1);
    let kp = kept_positions(st.1);
    let y = exprs_of(after);
    lemma_total_plain(y, Seq::new(after.len(), |i: int| false), after.len() as int);
    assert forall|k: int| 0 <= k < after.len() implies #[trigger] y[k] == st.0[kp[k]] by {
        assert(op_expr(after[k]) == st.0[kp[k]]);
    }
    lemma_plain_kept(y, st.0, kp, after.len() as int);
}

/// Merging in a listener's handler operations keeps the total steps of the
/// `nextContext` expressions of its handler.
pub proof fn law_handler_merging_conserves_steps(before: ListenerOp, after: ListenerOp)
    requires
        before.handler_ops matches Some(ops) ==> ops_total(ops@) <= u32::MAX,
        listener_merged(before, after),
    ensures
        before.handler_ops matches Some(ops) ==> after.handler_ops matches Some(ops2)
            && ops_total(ops2@) == ops_total(ops@),
{
    match before.handler_ops {
        Some(ops) => {
            let ops2 = after.handler_ops->Some_0;
            law_merging_conserves_steps(ops@, ops2@);
        },
        None => {},
    }
}

} // verus!
