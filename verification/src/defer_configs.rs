//! Defer configuration phase.
//!
//! A `@defer` block with timing options gets its timing configurations as
//! constant arrays: `[minimum]` for the placeholder (`@placeholder (minimum
//! 500ms)`) and `[minimum, after]` for the loading content (`@loading (after
//! 100ms; minimum 1s)`, a missing value being `null`). When several defer
//! blocks share an id, the first one takes the configurations and the others
//! get none.

use vstd::prelude::*;
use rustc_hash::FxHashSet;
use crate::fx::{fx_set_contains, fx_set_insert, fx_set_new};
use crate::ir::{
    ev, ev_list, lemma_ev_list, AngularExpression, ComponentCompilationJob, CreateOp, DeferOp, Expr, IrExpression,
    LiteralValue, ViewCompilationUnit,
};

verus! {

/// A number literal of the template syntax.
pub open spec fn number_literal(n: u32) -> Expr {
    Expr::Ast(AngularExpression::LiteralPrimitive(LiteralValue::Number(n as i64)))
}

/// A number literal, or `null` when there is no number.
pub open spec fn number_or_null(t: Option<u32>) -> Expr {
    match t {
        Some(n) => number_literal(n),
        None => Expr::Ast(AngularExpression::LiteralPrimitive(LiteralValue::Null)),
    }
}

/// The loading configuration of a defer block: `[minimum, after]`, when either is set.
pub open spec fn loading_config_of(d: DeferOp) -> Option<Expr> {
    if d.loading_minimum_time is Some || d.loading_after_time is Some {
        Some(
            Expr::ConstCollected(
                Box::new(
                    Expr::LiteralArray(seq![number_or_null(d.loading_minimum_time), number_or_null(d.loading_after_time)]),
                ),
            ),
        )
    } else {
        None
    }
}

/// The placeholder configuration of a defer block: `[minimum]`, when it is set.
pub open spec fn placeholder_config_of(d: DeferOp) -> Option<Expr> {
    match d.placeholder_minimum_time {
        Some(t) => Some(Expr::ConstCollected(Box::new(Expr::LiteralArray(seq![number_literal(t)])))),
        None => None,
    }
}

/// The view of an optional expression.
pub open spec fn opt_ev(o: Option<IrExpression>) -> Option<Expr> {
    match o {
        Some(e) => Some(ev(e)),
        None => None,
    }
}

/// Whether `after` is the operation `before` with its configurations set: its
/// own when `first`, none otherwise.
pub open spec fn defer_configured(before: CreateOp, after: CreateOp, first: bool) -> bool {
    match before {
        CreateOp::Defer(d) => {
            &&& after matches CreateOp::Defer(d2)
            &&& after->Defer_0 == DeferOp {
                placeholder_config: after->Defer_0.placeholder_config,
                loading_config: after->Defer_0.loading_config,
                ..d
            }
            &&& opt_ev(after->Defer_0.placeholder_config) == (if first { placeholder_config_of(d) } else { None })
            &&& opt_ev(after->Defer_0.loading_config) == (if first { loading_config_of(d) } else { None })
        },
        _ => after == before,
    }
}

/// The ids of the defer blocks among the first `k` operations.
pub open spec fn defers_before(c: Seq<CreateOp>, k: int) -> Set<u32>
    decreases k,
{
    if k <= 0 {
        Set::empty()
    } else {
        match c[k - 1] {
            CreateOp::Defer(d) => defers_before(c, k - 1).insert(d.xref.0),
            _ => defers_before(c, k - 1),
        }
    }
}

/// Whether the operation at `k` is a defer block whose id was not seen before
/// (in `seen` or earlier in `c`).
pub open spec fn first_defer(c: Seq<CreateOp>, k: int, seen: Set<u32>) -> bool {
    c[k] matches CreateOp::Defer(d) && !seen.contains(d.xref.0) && !defers_before(c, k).contains(d.xref.0)
}

/// Whether the view `after` is `before` with its defer blocks configured, the
/// ids in `seen` taken already.
pub open spec fn view_defers_configured(before: ViewCompilationUnit, after: ViewCompilationUnit, seen: Set<u32>) -> bool {
    let c = before.create@;
    &&& after.create@.len() == c.len()
    &&& forall|k: int| 0 <= k < c.len() ==> defer_configured(c[k], #[trigger] after.create@[k], first_defer(c, k, seen))
    &&& after.update == before.update
    &&& after.functions == before.functions
    &&& after.xref == before.xref
    &&& after.decl_count == before.decl_count
}

/// The ids of the defer blocks of the views before `i`, over `s`.
pub open spec fn views_defers(vs: Seq<ViewCompilationUnit>, i: int, s: Set<u32>) -> Set<u32>
    decreases i,
{
    if i <= 0 {
        s
    } else {
        views_defers(vs, i - 1, s).union(defers_before(vs[i - 1].create@, vs[i - 1].create@.len() as int))
    }
}

/// Whether the job `after` is `before` with the defer blocks of every view
/// configured (root first, then the views in order).
pub open spec fn job_defers_configured(before: ComponentCompilationJob, after: ComponentCompilationJob) -> bool {
    let root_set = defers_before(before.root.create@, before.root.create@.len() as int);
    &&& view_defers_configured(before.root, after.root, Set::empty())
    &&& after.views@.len() == before.views@.len()
    &&& forall|i: int|
        0 <= i < before.views@.len() ==> view_defers_configured(
            before.views@[i],
            #[trigger] after.views@[i],
            views_defers(before.views@, i, root_set),
        )
    &&& after.consts == before.consts
    &&& after.diagnostics == before.diagnostics
    &&& after.next_xref == before.next_xref
    &&& after.compatibility_mode == before.compatibility_mode
    &&& after.mode == before.mode
    &&& after.enable_debug_locations == before.enable_debug_locations
    &&& after.relative_template_path == before.relative_template_path
    &&& after.template_source == before.template_source
}

fn number_expr(n: u32) -> (r: IrExpression)
    ensures
        ev(r) == number_literal(n),
{
    IrExpression::Ast(Box::new(AngularExpression::LiteralPrimitive(LiteralValue::Number(n as i64))))
}

fn number_or_null_expr(t: Option<u32>) -> (r: IrExpression)
    ensures
        ev(r) == number_or_null(t),
{
    match t {
        Some(n) => number_expr(n),
        None => IrExpression::Ast(Box::new(AngularExpression::LiteralPrimitive(LiteralValue::Null))),
    }
}

/// The loading configuration of a defer block.
fn loading_config(d: &DeferOp) -> (r: Option<IrExpression>)
    ensures
        opt_ev(r) == loading_config_of(*d),
{
    if d.loading_minimum_time.is_some() || d.loading_after_time.is_some() {
        let a = number_or_null_expr(d.loading_minimum_time);
        let b = number_or_null_expr(d.loading_after_time);
        let v = vec![a, b];
        proof {
            lemma_ev_list(v@);
            assert(ev_list(v@) =~= seq![number_or_null(d.loading_minimum_time), number_or_null(d.loading_after_time)]);
        }
        let arr = IrExpression::LiteralArray(v);
        assert(ev(arr) == Expr::LiteralArray(
            seq![number_or_null(d.loading_minimum_time), number_or_null(d.loading_after_time)],
        ));
        let r = IrExpression::ConstCollected(Box::new(arr));
        assert(ev(r) == Expr::ConstCollected(Box::new(ev(arr))));
        Some(r)
    } else {
        None
    }
}

/// The placeholder configuration of a defer block.
fn placeholder_config(d: &DeferOp) -> (r: Option<IrExpression>)
    ensures
        opt_ev(r) == placeholder_config_of(*d),
{
    match d.placeholder_minimum_time {
        Some(t) => {
            let v = vec![number_expr(t)];
            proof {
                lemma_ev_list(v@);
                assert(ev_list(v@) =~= seq![number_literal(t)]);
            }
            let arr = IrExpression::LiteralArray(v);
            assert(ev(arr) == Expr::LiteralArray(seq![number_literal(t)]));
            let r = IrExpression::ConstCollected(Box::new(arr));
            assert(ev(r) == Expr::ConstCollected(Box::new(ev(arr))));
            Some(r)
        },
        None => None,
    }
}

/// Configures the defer blocks of one view; `seen` holds the ids taken so far.
fn configure_in_view(view: &mut ViewCompilationUnit, seen: &mut FxHashSet<u32>)
    ensures
        view_defers_configured(*old(view), *final(view), old(seen)@),
        final(seen)@ == old(seen)@.union(defers_before(old(view).create@, old(view).create@.len() as int)),
{
    let ghost c = view.create@;
    let ghost s0 = seen@;
    let n = view.create.len();
    let mut i: usize = 0;
    proof {
        assert(seen@ =~= s0.union(defers_before(c, 0)));
    }
    while i < n
        invariant
            n == c.len(),
            view.create@.len() == n,
            i <= n,
            seen@ == s0.union(defers_before(c, i as int)),
            forall|k: int| 0 <= k < i ==> defer_configured(c[k], #[trigger] view.create@[k], first_defer(c, k, s0)),
            forall|k: int| i <= k < n ==> #[trigger] view.create@[k] == c[k],
            view.update == old(view).update,
            view.functions == old(view).functions,
            view.xref == old(view).xref,
            view.decl_count == old(view).decl_count,
        decreases n - i,
    {
        match &mut view.create[i] {
            CreateOp::Defer(d) => {
                let x = d.xref.0;
                if !fx_set_contains(seen, x) {
                    let p = placeholder_config(d);
                    let l = loading_config(d);
                    d.placeholder_config = p;
                    d.loading_config = l;
                } else {
                    d.placeholder_config = None;
                    d.loading_config = None;
                }
                fx_set_insert(seen, x);
            },
            _ => {},
        }
        proof {
            assert(seen@ =~= s0.union(defers_before(c, i + 1)));
        }
        i = i + 1;
    }
}

/// Sets the timing configurations of the defer blocks of every view (root first).
pub fn configure_defer_instructions(job: &mut ComponentCompilationJob)
    ensures
        job_defers_configured(*old(job), *final(job)),
{
    let ghost vs = job.views@;
    let mut seen: FxHashSet<u32> = fx_set_new();
    configure_in_view(&mut job.root, &mut seen);
    proof {
        assert(seen@ =~= defers_before(old(job).root.create@, old(job).root.create@.len() as int));
    }
    let ghost root_set = seen@;
    let n = job.views.len();
    let mut i: usize = 0;
    while i < n
        invariant
            n == job.views@.len(),
            n == vs.len(),
            vs == old(job).views@,
            i <= n,
            root_set == defers_before(old(job).root.create@, old(job).root.create@.len() as int),
            seen@ == views_defers(vs, i as int, root_set),
            view_defers_configured(old(job).root, job.root, Set::empty()),
            forall|j: int| 0 <= j < i ==> view_defers_configured(vs[j], #[trigger] job.views@[j], views_defers(vs, j, root_set)),
            forall|j: int| i <= j < n ==> #[trigger] job.views@[j] == vs[j],
            job.consts == old(job).consts,
            job.diagnostics == old(job).diagnostics,
            job.next_xref == old(job).next_xref,
            job.compatibility_mode == old(job).compatibility_mode,
            job.mode == old(job).mode,
            job.enable_debug_locations == old(job).enable_debug_locations,
            job.relative_template_path == old(job).relative_template_path,
            job.template_source == old(job).template_source,
        decreases n - i,
    {
        configure_in_view(&mut job.views[i], &mut seen);
        i = i + 1;
    }
}

} // verus!
