//! Collapse singleton interpolations phase.
//!
//! An attribute, style-property, style-map or class-map binding to an
//! interpolation `{{ expr }}` with no surrounding text is collapsed into a
//! binding to `expr` itself. (Property interpolations are left alone: they must
//! stringify their value.)

use vstd::prelude::*;
use crate::expr_transform::{same_but_expr, update_op_expr};
use crate::ir::{host_frame_kept, 
    ev, ev_list, lemma_ev_list, AngularExpression, ComponentCompilationJob, Expr, HostBindingCompilationJob,
    IrExpression, UpdateOp, ViewCompilationUnit,
};

verus! {

/// Whether interpolation strings are exactly two empty strings.
pub open spec fn two_empty_strings(strings: Seq<String>) -> bool {
    strings.len() == 2 && forall|i: int| 0 <= i < 2 ==> (#[trigger] strings[i])@.len() == 0
}

/// `{{ e }}` (an IR or a template-syntax interpolation with one expression and
/// two empty strings) becomes `e`; anything else is unchanged.
pub open spec fn collapse_node(e: Expr) -> Expr {
    match e {
        Expr::Interpolation { strings, expressions, .. } =>
            if two_empty_strings(strings) && expressions.len() == 1 { expressions[0] } else { e },
        Expr::Ast(a) => match a {
            AngularExpression::Interpolation { strings, expressions } =>
                if two_empty_strings(strings@) && expressions@.len() == 1 { Expr::Ast(expressions@[0]) } else { e },
            _ => e,
        },
        _ => e,
    }
}

/// Whether the binding kind is one whose singleton interpolation collapses.
pub open spec fn collapsible_op(op: UpdateOp) -> bool {
    op is Attribute || op is StyleProp || op is StyleMap || op is ClassMap
}

/// Whether `after` is `before` with its interpolation collapsed (for the
/// collapsible kinds) or unchanged (for the others).
pub open spec fn op_collapsed(before: UpdateOp, after: UpdateOp) -> bool {
    if collapsible_op(before) {
        &&& same_but_expr(before, after)
        &&& update_op_expr(after) matches Some(e2) && ev(e2) == collapse_node(ev(update_op_expr(before)->0))
    } else {
        after == before
    }
}

fn all_empty(strings: &Vec<String>) -> (r: bool)
    ensures
        r == two_empty_strings(strings@),
{
    strings.len() == 2 && strings[0].as_str().unicode_len() == 0 && strings[1].as_str().unicode_len() == 0
}

/// Collapses a singleton interpolation in place, if the expression is one.
fn try_collapse_interpolation(expr: &mut IrExpression)
    ensures
        ev(*final(expr)) == collapse_node(ev(*old(expr))),
{
    let mut e = IrExpression::Empty;
    std::mem::swap(expr, &mut e);
    let ghost e0 = e;
    let r = match e {
        IrExpression::Interpolation { strings, expressions, i18n_placeholders } => {
            proof { lemma_ev_list(expressions@); }
            if all_empty(&strings) && expressions.len() == 1 {
                let mut expressions = expressions;
                expressions.pop().unwrap()
            } else {
                IrExpression::Interpolation { strings, expressions, i18n_placeholders }
            }
        },
        IrExpression::Ast(a) => {
            match *a {
                AngularExpression::Interpolation { strings, expressions } => {
                    if all_empty(&strings) && expressions.len() == 1 {
                        let mut expressions = expressions;
                        IrExpression::Ast(Box::new(expressions.pop().unwrap()))
                    } else {
                        IrExpression::Ast(Box::new(AngularExpression::Interpolation { strings, expressions }))
                    }
                },
                other => IrExpression::Ast(Box::new(other)),
            }
        },
        other => other,
    };
    assert(ev(r) == collapse_node(ev(e0)));
    *expr = r;
}

/// Collapses singleton interpolations in one update list.
fn collapse_in_view(update_ops: &mut Vec<UpdateOp>)
    ensures
        final(update_ops)@.len() == old(update_ops)@.len(),
        forall|i: int| 0 <= i < old(update_ops)@.len() ==> op_collapsed(#[trigger] old(update_ops)@[i], final(update_ops)@[i]),
{
    let n = update_ops.len();
    let mut i: usize = 0;
    while i < n
        invariant
            n == update_ops@.len(),
            n == old(update_ops)@.len(),
            i <= n,
            forall|j: int| 0 <= j < i ==> op_collapsed(#[trigger] old(update_ops)@[j], update_ops@[j]),
            forall|j: int| i <= j < n ==> #[trigger] update_ops@[j] == old(update_ops)@[j],
        decreases n - i,
    {
        match &mut update_ops[i] {
            UpdateOp::Attribute(a) => try_collapse_interpolation(&mut a.expression),
            UpdateOp::StyleProp(s) => try_collapse_interpolation(&mut s.expression),
            UpdateOp::StyleMap(s) => try_collapse_interpolation(&mut s.expression),
            UpdateOp::ClassMap(c) => try_collapse_interpolation(&mut c.expression),
            _ => {},
        }
        i = i + 1;
    }
}

/// Whether the update list of `after` is that of `before` collapsed, the rest unchanged.
pub open spec fn view_collapsed(before: ViewCompilationUnit, after: ViewCompilationUnit) -> bool {
    &&& after.update@.len() == before.update@.len()
    &&& forall|i: int| 0 <= i < before.update@.len() ==> op_collapsed(#[trigger] before.update@[i], after.update@[i])
    &&& after.create == before.create
    &&& after.xref == before.xref
    &&& after.decl_count == before.decl_count
    &&& after.functions == before.functions
}

/// Whether the job `after` is `before` with singleton interpolations collapsed
/// in every view.
pub open spec fn job_collapsed(before: ComponentCompilationJob, after: ComponentCompilationJob) -> bool {
    &&& view_collapsed(before.root, after.root)
    &&& after.views@.len() == before.views@.len()
    &&& forall|i: int| 0 <= i < before.views@.len() ==> view_collapsed(before.views@[i], #[trigger] after.views@[i])
    &&& after.consts == before.consts
    &&& after.diagnostics == before.diagnostics
    &&& after.next_xref == before.next_xref
    &&& after.compatibility_mode == before.compatibility_mode
    &&& after.mode == before.mode
    &&& after.enable_debug_locations == before.enable_debug_locations
    &&& after.relative_template_path == before.relative_template_path
    &&& after.template_source == before.template_source
}

/// Collapses singleton interpolations in the root view and every embedded view.
pub fn collapse_singleton_interpolations(job: &mut ComponentCompilationJob)
    ensures
        job_collapsed(*old(job), *final(job)),
{
    collapse_in_view(&mut job.root.update);
    let n = job.views.len();
    let mut i: usize = 0;
    while i < n
        invariant
            n == job.views@.len(),
            n == old(job).views@.len(),
            i <= n,
            view_collapsed(old(job).root, job.root),
            forall|j: int| 0 <= j < i ==> view_collapsed(old(job).views@[j], #[trigger] job.views@[j]),
            forall|j: int| i <= j < n ==> #[trigger] job.views@[j] == old(job).views@[j],
            job.consts == old(job).consts,
            job.diagnostics == old(job).diagnostics,
            job.next_xref == old(job).next_xref,
            job.compatibility_mode == old(job).compatibility_mode,
            job.mode == old(job).mode,
            job.enable_debug_locations == old(job).enable_debug_locations,
            job.relative_template_path == old(job).relative_template_path,
            job.template_source == old(job).template_source,
        decreases n - i,
    {
        collapse_in_view(&mut job.views[i].update);
        i = i + 1;
    }
}

/// Whether the host job `after` is `before` with singleton interpolations collapsed.
pub open spec fn host_job_collapsed(before: HostBindingCompilationJob, after: HostBindingCompilationJob) -> bool {
    &&& after.root.update@.len() == before.root.update@.len()
    &&& forall|i: int| 0 <= i < before.root.update@.len()
        ==> op_collapsed(#[trigger] before.root.update@[i], after.root.update@[i])
    &&& after.root.create == before.root.create
    &&& after.diagnostics == before.diagnostics
    &&& host_frame_kept(before, after)
}

/// Collapses singleton interpolations in a host-binding job (root unit only).
pub fn collapse_singleton_interpolations_for_host(job: &mut HostBindingCompilationJob)
    ensures
        host_job_collapsed(*old(job), *final(job)),
{
    collapse_in_view(&mut job.root.update);
}

} // verus!
