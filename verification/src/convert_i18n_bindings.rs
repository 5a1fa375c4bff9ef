//! I18n binding conversion phase.
//!
//! A translated property or attribute binding whose value is an interpolation,
//! on an element with i18n attributes, becomes one i18n expression per
//! interpolated expression, in place, feeding the element's i18n attributes
//! block.

use vstd::prelude::*;
use rustc_hash::FxHashMap;
use crate::fx::{fx_map_get, fx_map_insert, fx_map_new};
use crate::ir::{
    ComponentCompilationJob, CreateOp, I18nExpressionFor, I18nExpressionOp, I18nParamResolutionTime, IrExpression,
    SlotId, UpdateBindingOp, UpdateOp, ViewCompilationUnit, XrefId,
};

verus! {

/// The i18n attributes blocks of the first `k` operations, by target (the last one wins).
pub open spec fn attrs_in(c: Seq<CreateOp>, k: int, m: Map<u32, (XrefId, SlotId)>) -> Map<u32, (XrefId, SlotId)>
    decreases k,
{
    if k <= 0 {
        m
    } else {
        match c[k - 1] {
            CreateOp::I18nAttributes(a) => attrs_in(c, k - 1, m).insert(a.target.0, (a.xref, a.handle)),
            _ => attrs_in(c, k - 1, m),
        }
    }
}

/// The i18n attributes blocks of the views before `i`, over `m`.
pub open spec fn views_attrs(vs: Seq<ViewCompilationUnit>, i: int, m: Map<u32, (XrefId, SlotId)>) -> Map<u32, (XrefId, SlotId)>
    decreases i,
{
    if i <= 0 {
        m
    } else {
        let v = vs[i - 1];
        attrs_in(v.create@, v.create@.len() as int, views_attrs(vs, i - 1, m))
    }
}

/// The i18n attributes blocks of a job, by target: the root's first, then
/// those of the views in order (the last one wins).
pub open spec fn job_attrs(job: ComponentCompilationJob) -> Map<u32, (XrefId, SlotId)> {
    views_attrs(job.views@, job.views@.len() as int, attrs_in(job.root.create@, job.root.create@.len() as int, Map::empty()))
}

/// The binding of a property or attribute operation.
pub open spec fn prop_or_attr(op: UpdateOp) -> Option<UpdateBindingOp> {
    match op {
        UpdateOp::Property(b) | UpdateOp::Attribute(b) => Some(b),
        _ => None,
    }
}

/// Whether an operation is converted: a translated property or attribute
/// binding of an interpolation, on an element with i18n attributes.
pub open spec fn converts(op: UpdateOp, m: Map<u32, (XrefId, SlotId)>) -> bool {
    match prop_or_attr(op) {
        Some(b) => b.i18n_context is Some && b.expression is Interpolation && m.contains_key(b.target.0),
        None => false,
    }
}

/// The number of operations an operation becomes.
pub open spec fn width(op: UpdateOp, m: Map<u32, (XrefId, SlotId)>) -> nat {
    if converts(op, m) {
        prop_or_attr(op)->Some_0.expression->Interpolation_expressions@.len()
    } else {
        1
    }
}

/// The number of operations the operations before `p` become.
pub open spec fn width_before(u: Seq<UpdateOp>, p: int, m: Map<u32, (XrefId, SlotId)>) -> nat
    decreases p,
{
    if p <= 0 {
        0
    } else {
        width_before(u, p - 1, m) + width(u[p - 1], m)
    }
}

/// Whether `e` is the `i`-th i18n expression the binding `b` becomes.
pub open spec fn attr_expression_for(e: I18nExpressionOp, b: UpdateBindingOp, i: int, m: Map<u32, (XrefId, SlotId)>) -> bool {
    let (owner, handle) = m[b.target.0];
    let exprs = b.expression->Interpolation_expressions@;
    let phs = b.expression->Interpolation_i18n_placeholders@;
    &&& e.i18n_owner == owner
    &&& e.target == b.target
    &&& e.context == b.i18n_context->Some_0
    &&& e.handle == handle
    &&& e.expression == exprs[i]
    &&& e.resolution_time == I18nParamResolutionTime::Creation
    &&& e.usage == I18nExpressionFor::I18nAttribute
    &&& e.name == b.name
    &&& e.i18n_placeholder == (if i < phs.len() { Some(phs[i]) } else { None })
    &&& e.icu_placeholder is None
}

/// Whether the operations of `after` from `start` on are what `op` becomes.
pub open spec fn op_converted(op: UpdateOp, after: Seq<UpdateOp>, start: int, m: Map<u32, (XrefId, SlotId)>) -> bool {
    if converts(op, m) {
        forall|i: int|
            0 <= i < width(op, m) ==> ((#[trigger] after[start + i]) matches UpdateOp::I18nExpression(e)
                && attr_expression_for(e, prop_or_attr(op)->Some_0, i, m))
    } else {
        after[start] == op
    }
}

/// Whether the update list `after` is `u` with its translated interpolation
/// bindings converted.
pub open spec fn bindings_converted(u: Seq<UpdateOp>, after: Seq<UpdateOp>, m: Map<u32, (XrefId, SlotId)>) -> bool {
    &&& after.len() == width_before(u, u.len() as int, m)
    &&& forall|p: int| 0 <= p < u.len() ==> op_converted(#[trigger] u[p], after, width_before(u, p, m) as int, m)
}

/// Whether the view `after` is `before` with its bindings converted.
pub open spec fn view_bindings_converted(before: ViewCompilationUnit, after: ViewCompilationUnit, m: Map<u32, (XrefId, SlotId)>) -> bool {
    &&& bindings_converted(before.update@, after.update@, m)
    &&& after.create == before.create
    &&& after.functions == before.functions
    &&& after.xref == before.xref
    &&& after.decl_count == before.decl_count
}

/// Whether the job `after` is `before` with the i18n bindings of every view converted.
pub open spec fn job_i18n_bindings_converted(before: ComponentCompilationJob, after: ComponentCompilationJob) -> bool {
    let m = job_attrs(before);
    &&& view_bindings_converted(before.root, after.root, m)
    &&& after.views@.len() == before.views@.len()
    &&& forall|i: int| 0 <= i < before.views@.len() ==> view_bindings_converted(before.views@[i], #[trigger] after.views@[i], m)
    &&& after.consts == before.consts
    &&& after.diagnostics == before.diagnostics
    &&& after.next_xref == before.next_xref
    &&& after.compatibility_mode == before.compatibility_mode
    &&& after.mode == before.mode
    &&& after.enable_debug_locations == before.enable_debug_locations
    &&& after.relative_template_path == before.relative_template_path
    &&& after.template_source == before.template_source
}

/// Records the i18n attributes blocks of a creation list.
fn collect_attrs(create: &Vec<CreateOp>, m: &mut FxHashMap<u32, (XrefId, SlotId)>)
    ensures
        final(m)@ == attrs_in(create@, create@.len() as int, old(m)@),
{
    let n = create.len();
    let mut i: usize = 0;
    while i < n
        invariant
            n == create@.len(),
            i <= n,
            m@ == attrs_in(create@, i as int, old(m)@),
        decreases n - i,
    {
        match &create[i] {
            CreateOp::I18nAttributes(a) => {
                fx_map_insert(m, a.target.0, (a.xref, a.handle));
            },
            _ => {},
        }
        i = i + 1;
    }
}

fn reversed<T>(v: Vec<T>) -> (r: Vec<T>)
    ensures
        r@.len() == v@.len(),
        forall|j: int| 0 <= j < v@.len() ==> #[trigger] r@[j] == v@[v@.len() - 1 - j],
{
    let ghost orig = v@;
    let mut rev: Vec<T> = Vec::new();
    let mut v = v;
    while v.len() > 0
        invariant
            v@.len() + rev@.len() == orig.len(),
            forall|i: int| 0 <= i < v@.len() ==> #[trigger] v@[i] == orig[i],
            forall|j: int| 0 <= j < rev@.len() ==> #[trigger] rev@[j] == orig[orig.len() - 1 - j],
        decreases v.len(),
    {
        let x = v.pop().unwrap();
        rev.push(x);
    }
    rev
}

/// Appends the i18n expressions a converted binding becomes.
fn push_attr_expressions(out: &mut Vec<UpdateOp>, b: UpdateBindingOp, owner: XrefId, handle: SlotId)
    requires
        b.i18n_context is Some,
        b.expression is Interpolation,
    ensures
        final(out)@.len() == old(out)@.len() + b.expression->Interpolation_expressions@.len(),
        forall|i: int| 0 <= i < old(out)@.len() ==> #[trigger] final(out)@[i] == old(out)@[i],
        forall|i: int|
            0 <= i < b.expression->Interpolation_expressions@.len() ==> ((#[trigger] final(out)@[old(out)@.len() + i]) matches UpdateOp::I18nExpression(
                e,
            ) && attr_expression_for(e, b, i, Map::empty().insert(b.target.0, (owner, handle)))),
{
    let ghost o0 = out@;
    let ghost b0 = b;
    let ghost m = Map::<u32, (XrefId, SlotId)>::empty().insert(b.target.0, (owner, handle));
    let context = match b.i18n_context {
        Some(c) => c,
        None => XrefId(0),
    };
    let target = b.target;
    let name = b.name;
    match b.expression {
        IrExpression::Interpolation { strings, expressions, i18n_placeholders } => {
            let ghost es = expressions@;
            let ghost ps = i18n_placeholders@;
            let total = expressions.len();
            let mut er = reversed(expressions);
            let mut pr = reversed(i18n_placeholders);
            let mut i: usize = 0;
            while er.len() > 0
                invariant
                    i + er@.len() == es.len(),
                    total == es.len(),
                    es == b0.expression->Interpolation_expressions@,
                    ps == b0.expression->Interpolation_i18n_placeholders@,
                    forall|j: int| 0 <= j < er@.len() ==> #[trigger] er@[j] == es[es.len() - 1 - j],
                    i <= ps.len() ==> pr@.len() == ps.len() - i,
                    i > ps.len() ==> pr@.len() == 0,
                    forall|j: int| 0 <= j < pr@.len() ==> #[trigger] pr@[j] == ps[ps.len() - 1 - j],
                    out@.len() == o0.len() + i,
                    forall|k: int| 0 <= k < o0.len() ==> #[trigger] out@[k] == o0[k],
                    forall|k: int|
                        0 <= k < i ==> ((#[trigger] out@[o0.len() + k]) matches UpdateOp::I18nExpression(e)
                            && attr_expression_for(e, b0, k, m)),
                    context == b0.i18n_context->Some_0,
                    target == b0.target,
                    name == b0.name,
                    m == Map::<u32, (XrefId, SlotId)>::empty().insert(b0.target.0, (owner, handle)),
                decreases er.len(),
            {
                let e = er.pop().unwrap();
                let ph = pr.pop();
                out.push(
                    UpdateOp::I18nExpression(
                        I18nExpressionOp {
                            i18n_owner: owner,
                            target,
                            context,
                            handle,
                            expression: e,
                            resolution_time: I18nParamResolutionTime::Creation,
                            usage: I18nExpressionFor::I18nAttribute,
                            name: name.clone(),
                            i18n_placeholder: ph,
                            icu_placeholder: None,
                        },
                    ),
                );
                i = i + 1;
            }
        },
        _ => {},
    }
}

/// Whether a property or attribute binding is converted, and the block it feeds.
fn conversion_of(op: &UpdateOp, m: &FxHashMap<u32, (XrefId, SlotId)>) -> (r: Option<(XrefId, SlotId)>)
    ensures
        r is Some == converts(*op, m@),
        r matches Some(a) ==> a == m@[prop_or_attr(*op)->Some_0.target.0],
{
    match op {
        UpdateOp::Property(b) | UpdateOp::Attribute(b) => {
            let interp = match &b.expression {
                IrExpression::Interpolation { .. } => true,
                _ => false,
            };
            if b.i18n_context.is_some() && interp {
                fx_map_get(m, b.target.0)
            } else {
                None
            }
        },
        _ => None,
    }
}

proof fn lemma_width_mono(u: Seq<UpdateOp>, p: int, q: int, m: Map<u32, (XrefId, SlotId)>)
    requires
        0 <= p <= q,
    ensures
        width_before(u, p, m) <= width_before(u, q, m),
        p < q ==> width_before(u, p, m) + width(u[p], m) <= width_before(u, q, m),
    decreases q - p,
{
    if p < q {
        lemma_width_mono(u, p, q - 1, m);
    }
}

/// Extending the list after what an operation became keeps what it became.
proof fn lemma_converted_extend(op: UpdateOp, a: Seq<UpdateOp>, b: Seq<UpdateOp>, start: int, m: Map<u32, (XrefId, SlotId)>)
    requires
        op_converted(op, a, start, m),
        0 <= start,
        start + width(op, m) <= a.len() <= b.len(),
        forall|i: int| 0 <= i < a.len() ==> #[trigger] b[i] == a[i],
    ensures
        op_converted(op, b, start, m),
{
    if converts(op, m) {
        assert forall|i: int| 0 <= i < width(op, m) implies ((#[trigger] b[start + i]) matches UpdateOp::I18nExpression(e)
            && attr_expression_for(e, prop_or_attr(op)->Some_0, i, m)) by {
            assert(b[start + i] == a[start + i]);
        }
    } else {
        assert(b[start] == a[start]);
    }
}

/// Converts the translated interpolation bindings of one update list.
#[verifier::rlimit(30)]
fn convert_in_list(update: &mut Vec<UpdateOp>, m: &FxHashMap<u32, (XrefId, SlotId)>)
    ensures
        bindings_converted(old(update)@, final(update)@, m@),
{
    let ghost u = update@;
    let mut taken: Vec<UpdateOp> = Vec::new();
    std::mem::swap(update, &mut taken);
    let mut rev = reversed(taken);
    let mut out: Vec<UpdateOp> = Vec::new();
    let n = rev.len();
    let mut k: usize = 0;
    while rev.len() > 0
        invariant
            k + rev@.len() == u.len(),
            n == u.len(),
            forall|j: int| 0 <= j < rev@.len() ==> #[trigger] rev@[j] == u[u.len() - 1 - j],
            out@.len() == width_before(u, k as int, m@),
            forall|p: int| 0 <= p < k ==> op_converted(#[trigger] u[p], out@, width_before(u, p, m@) as int, m@),
        decreases rev.len(),
    {
        let op = rev.pop().unwrap();
        assert(op == u[k as int]);
        let ghost o0 = out@;
        match conversion_of(&op, m) {
            Some((owner, handle)) => {
                let ghost a = m@[prop_or_attr(op)->Some_0.target.0];
                match op {
                    UpdateOp::Property(b) | UpdateOp::Attribute(b) => {
                        let ghost b0 = b;
                        push_attr_expressions(&mut out, b, owner, handle);
                        proof {
                            assert forall|i: int| 0 <= i < width(u[k as int], m@) implies ((#[trigger] out@[o0.len() + i]) matches UpdateOp::I18nExpression(
                                e,
                            ) && attr_expression_for(e, b0, i, m@)) by {
                                assert(out@[o0.len() + i] matches UpdateOp::I18nExpression(e) && attr_expression_for(
                                    e,
                                    b0,
                                    i,
                                    Map::empty().insert(b0.target.0, (owner, handle)),
                                ));
                            }
                        }
                    },
                    other => {
                        out.push(other);
                    },
                }
            },
            None => {
                out.push(op);
            },
        }
        proof {
            assert forall|p: int| 0 <= p < k implies op_converted(#[trigger] u[p], out@, width_before(u, p, m@) as int, m@) by {
                lemma_width_mono(u, p, k as int, m@);
                lemma_converted_extend(u[p], o0, out@, width_before(u, p, m@) as int, m@);
            }
        }
        k = k + 1;
    }
    *update = out;
}

/// Converts the translated interpolation bindings on elements with i18n
/// attributes into i18n expressions, in every view (root first).
pub fn convert_i18n_bindings(job: &mut ComponentCompilationJob)
    ensures
        job_i18n_bindings_converted(*old(job), *final(job)),
{
    let ghost vs = job.views@;
    let mut m: FxHashMap<u32, (XrefId, SlotId)> = fx_map_new();
    proof {
        assert(m@ =~= Map::<u32, (XrefId, SlotId)>::empty());
    }
    collect_attrs(&job.root.create, &mut m);
    let ghost m0 = m@;
    let n = job.views.len();
    let mut i: usize = 0;
    while i < n
        invariant
            n == job.views@.len(),
            job.views@ == vs,
            vs == old(job).views@,
            job.root == old(job).root,
            i <= n,
            m0 == attrs_in(old(job).root.create@, old(job).root.create@.len() as int, Map::empty()),
            m@ == views_attrs(vs, i as int, m0),
        decreases n - i,
    {
        collect_attrs(&job.views[i].create, &mut m);
        i = i + 1;
    }
    assert(m@ == job_attrs(*old(job)));
    convert_in_list(&mut job.root.update, &m);
    let mut i: usize = 0;
    while i < n
        invariant
            n == job.views@.len(),
            n == vs.len(),
            vs == old(job).views@,
            i <= n,
            m@ == job_attrs(*old(job)),
            view_bindings_converted(old(job).root, job.root, m@),
            forall|j: int| 0 <= j < i ==> view_bindings_converted(vs[j], #[trigger] job.views@[j], m@),
            forall|j: int| i <= j < n ==> #[trigger] job.views@[j] == vs[j],
            job.consts == old(job).consts,
            job.diagnostics == old(job).diagnostics,
            job.next_xref == old(job).next_xref,
            job.compatibility_mode == old(job).compatibility_mode,
            job.mode == old(job).mode,
            job.enable_debug_locations == old(job).enable_debug_locations,
            job.relative_template_path == old(job).relative_template_path,
            job.template_source == old(job).template_source,
        decreases n - i,
    {
        convert_in_list(&mut job.views[i].update, &m);
        i = i + 1;
    }
}

} // verus!
