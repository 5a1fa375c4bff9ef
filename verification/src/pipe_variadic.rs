//! Variadic pipe phase.
//!
//! A pipe binding with more than four arguments becomes a variadic pipe binding
//! whose arguments are packed into one array literal.

use vstd::prelude::*;
use crate::expr_transform::{apply_node, job_rewritten, rewrite_job, variadic_node, ExprRewrite};
use crate::ir::{ev, ComponentCompilationJob, IrExpression};

verus! {

/// Turns one pipe binding with more than four arguments into a variadic pipe
/// binding; anything else is unchanged.
pub fn transform_pipe_binding(expr: IrExpression) -> (r: IrExpression)
    ensures
        ev(r) == variadic_node(ev(expr)),
{
    apply_node(expr, ExprRewrite::VariadicPipes)
}

/// Creates variadic pipe bindings in the update operations of every view.
pub fn create_variadic_pipes(job: &mut ComponentCompilationJob)
    ensures
        job_rewritten(*old(job), *final(job), ExprRewrite::VariadicPipes, false),
{
    rewrite_job(job, ExprRewrite::VariadicPipes, false);
}

} // verus!
