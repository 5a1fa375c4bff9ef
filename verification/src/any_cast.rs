//! Any cast deletion phase.
//!
//! Calls of the form `$any(x)` on the implicit receiver (not `this.$any`) are a
//! template type cast with no runtime effect: they are replaced by `x`.

use vstd::prelude::*;
use crate::expr_transform::{
    any_cast_node, apply_node, host_job_rewritten, is_any_read, job_rewritten, lemma_post_map_list, node_rule,
    post_map, post_map_list, rewrite, rewrite_create_ops, rewrite_job, rewrite_update_ops, ExprRewrite,
};
use crate::ir::{ev, ComponentCompilationJob, Expr, HostBindingCompilationJob, IrExpression};

verus! {

/// Replaces one `$any(arg)` call (a resolved call whose receiver is the
/// lexical read `$any`, with exactly one argument) by its argument.
pub fn remove_any_cast(expr: IrExpression) -> (r: IrExpression)
    ensures
        ev(r) == any_cast_node(ev(expr)),
{
    apply_node(expr, ExprRewrite::RemoveAnyCasts)
}

/// Removes `$any()` casts from the expressions of every operation of every
/// view (children first, so nested casts go too).
pub fn delete_any_casts(job: &mut ComponentCompilationJob)
    ensures
        job_rewritten(*old(job), *final(job), ExprRewrite::RemoveAnyCasts, true),
{
    rewrite_job(job, ExprRewrite::RemoveAnyCasts, true);
}

/// Removes `$any()` casts in a host-binding job (its root unit only).
pub fn delete_any_casts_for_host(job: &mut HostBindingCompilationJob)
    ensures
        host_job_rewritten(*old(job), *final(job), ExprRewrite::RemoveAnyCasts),
{
    rewrite_create_ops(&mut job.root.create, ExprRewrite::RemoveAnyCasts);
    rewrite_update_ops(&mut job.root.update, ExprRewrite::RemoveAnyCasts);
}

/// Whether an expression is a `$any(x)` cast.
pub open spec fn is_any_cast(e: Expr) -> bool {
    e matches Expr::ResolvedCall { receiver, args } && is_any_read(*receiver) && args.len() == 1
}

/// Whether no `$any(..)` cast is left in an expression, among the nodes that
/// expression rewrites visit.
pub open spec fn cast_free(e: Expr) -> bool
    decreases e, 1nat,
{
    &&& !is_any_cast(e)
    &&& match e {
        Expr::ResolvedCall { receiver, args } => cast_free(*receiver) && cast_free_list(args),
        Expr::ResolvedPropertyRead { receiver, .. } => cast_free(*receiver),
        Expr::Binary { lhs, rhs, .. } => cast_free(*lhs) && cast_free(*rhs),
        Expr::Ternary { condition, true_expr, false_expr } =>
            cast_free(*condition) && cast_free(*true_expr) && cast_free(*false_expr),
        Expr::Not(x) => cast_free(*x),
        Expr::Interpolation { expressions, .. } => cast_free_list(expressions),
        Expr::PipeBinding { args, .. } => cast_free_list(args),
        Expr::PipeBindingVariadic { args, .. } => cast_free(*args),
        Expr::DerivedLiteralArray { entries, .. } => cast_free_list(entries),
        Expr::LiteralArray(v) => cast_free_list(v),
        Expr::ConstCollected(x) => cast_free(*x),
        Expr::StoreLet { value, .. } => cast_free(*value),
        _ => true,
    }
}

/// Whether no expression of a list holds a `$any(..)` cast.
pub open spec fn cast_free_list(s: Seq<Expr>) -> bool
    decreases s, 0nat,
{
    s.len() == 0 || (cast_free_list(s.drop_last()) && cast_free(s.last()))
}

proof fn lemma_cast_free_list(s: Seq<Expr>)
    ensures
        cast_free_list(post_map_list(s, node_rule(ExprRewrite::RemoveAnyCasts))),
    decreases s, 0nat,
{
    let f = node_rule(ExprRewrite::RemoveAnyCasts);
    if s.len() > 0 {
        lemma_cast_free_list(s.drop_last());
        law_no_any_cast_left(s.last());
        let a = post_map_list(s.drop_last(), f);
        assert(a.push(post_map(s.last(), f)).drop_last() =~= a);
    }
}

/// After the rewrite no `$any(..)` cast is left, nested ones included: a cast
/// whose argument was itself a cast goes too.
pub proof fn law_no_any_cast_left(e: Expr)
    ensures
        cast_free(rewrite(ExprRewrite::RemoveAnyCasts, e)),
    decreases e, 1nat,
{
    let f = node_rule(ExprRewrite::RemoveAnyCasts);
    match e {
        Expr::ResolvedCall { receiver, args } => {
            law_no_any_cast_left(*receiver);
            lemma_cast_free_list(args);
            lemma_post_map_list(args, f);
            if args.len() == 1 {
                assert(decreases_to!(e => args[0]));
                law_no_any_cast_left(args[0]);
            }
        },
        Expr::ResolvedPropertyRead { receiver, .. } => law_no_any_cast_left(*receiver),
        Expr::Binary { lhs, rhs, .. } => {
            law_no_any_cast_left(*lhs);
            law_no_any_cast_left(*rhs);
        },
        Expr::Ternary { condition, true_expr, false_expr } => {
            law_no_any_cast_left(*condition);
            law_no_any_cast_left(*true_expr);
            law_no_any_cast_left(*false_expr);
        },
        Expr::Not(x) => law_no_any_cast_left(*x),
        Expr::Interpolation { expressions, .. } => lemma_cast_free_list(expressions),
        Expr::PipeBinding { args, .. } => lemma_cast_free_list(args),
        Expr::PipeBindingVariadic { args, .. } => law_no_any_cast_left(*args),
        Expr::DerivedLiteralArray { entries, .. } => lemma_cast_free_list(entries),
        Expr::LiteralArray(v) => lemma_cast_free_list(v),
        Expr::ConstCollected(x) => law_no_any_cast_left(*x),
        Expr::StoreLet { value, .. } => law_no_any_cast_left(*value),
        _ => {},
    }
}

} // verus!
