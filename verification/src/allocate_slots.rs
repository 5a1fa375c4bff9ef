//! Slot allocation phase.
//!
//! Every creation operation that occupies data slots gets the next free slot
//! index of its view (the view's slot count grows by the number of slots the
//! operation uses), and the slot is recorded in a map from ids to slots shared
//! by all views. Listeners then learn the slot of their target, templates the
//! slot count of the views they declare, `@defer` blocks the slots of their
//! templates, and the expressions that refer to a slotted entity (pipe
//! bindings, slot literals, i18n expressions) the slot of that entity.

use vstd::prelude::*;
use rustc_hash::FxHashMap;
use crate::expr_transform::{lemma_post_map_list, post_map, post_map_list, same_but_expr, update_op_expr};
use crate::fx::{fx_map_get, fx_map_insert, fx_map_new};
use crate::ir::{
    ev, ev_list, lemma_ev_list, AnimationStringOp, ComponentCompilationJob, CreateOp, DeferOp, Expr, I18nApplyOp,
    I18nAttributesOp, I18nExpressionOp, I18nStartOp, IrExpression, ListenerOp, LocalRef, PipeOp, ProjectionOp, SlotId,
    SlotOp, TemplateOp, TextOp, UpdateOp, ViewCompilationUnit, XrefId,
};

verus! {

/// The slot recorded for the id `x`, or `default` when none is.
pub open spec fn lookup_slot(m: Map<u32, u32>, x: u32, default: Option<SlotId>) -> Option<SlotId> {
    if m.contains_key(x) {
        Some(SlotId(m[x]))
    } else {
        default
    }
}

/// A pipe binding learns the slot of its pipe, a slot literal, a local
/// reference and a `@let` reference the slot of their target; other nodes are
/// unchanged.
pub open spec fn slot_node(e: Expr, m: Map<u32, u32>) -> Expr {
    match e {
        Expr::PipeBinding { target, target_slot, name, args, var_offset } => Expr::PipeBinding {
            target,
            target_slot: lookup_slot(m, target.0, target_slot),
            name,
            args,
            var_offset,
        },
        Expr::PipeBindingVariadic { target, target_slot, name, args, num_args, var_offset } =>
            Expr::PipeBindingVariadic {
                target,
                target_slot: lookup_slot(m, target.0, target_slot),
                name,
                args,
                num_args,
                var_offset,
            },
        Expr::SlotLiteral { target_xref, slot } => Expr::SlotLiteral {
            target_xref,
            slot: match target_xref {
                Some(x) => lookup_slot(m, x.0, slot),
                None => slot,
            },
        },
        Expr::Reference { target, target_slot, offset } => Expr::Reference {
            target,
            target_slot: lookup_slot(m, target.0, target_slot),
            offset,
        },
        Expr::ContextLetReference { target, target_slot } => Expr::ContextLetReference {
            target,
            target_slot: lookup_slot(m, target.0, target_slot),
        },
        _ => e,
    }
}

/// The node rule of slot propagation.
pub open spec fn slot_rule(m: Map<u32, u32>) -> spec_fn(Expr) -> Expr {
    |e: Expr| slot_node(e, m)
}

/// An expression with the slots of `m` propagated into every node.
pub open spec fn slot_expr(e: Expr, m: Map<u32, u32>) -> Expr {
    post_map(e, slot_rule(m))
}

fn lookup(m: &FxHashMap<u32, u32>, x: u32, default: Option<SlotId>) -> (r: Option<SlotId>)
    ensures
        r == lookup_slot(m@, x, default),
{
    match fx_map_get(m, x) {
        Some(s) => Some(SlotId(s)),
        None => default,
    }
}

fn slot_node_exec(e: IrExpression, m: &FxHashMap<u32, u32>) -> (r: IrExpression)
    ensures
        ev(r) == slot_rule(m@)(ev(e)),
{
    let r = match e {
        IrExpression::PipeBinding { target, target_slot, name, args, var_offset } => {
            proof { lemma_ev_list(args@); }
            let s = lookup(m, target.0, target_slot);
            IrExpression::PipeBinding { target, target_slot: s, name, args, var_offset }
        },
        IrExpression::PipeBindingVariadic { target, target_slot, name, args, num_args, var_offset } => {
            let s = lookup(m, target.0, target_slot);
            IrExpression::PipeBindingVariadic { target, target_slot: s, name, args, num_args, var_offset }
        },
        IrExpression::SlotLiteral { target_xref, slot } => {
            let s = match target_xref {
                Some(x) => lookup(m, x.0, slot),
                None => slot,
            };
            IrExpression::SlotLiteral { target_xref, slot: s }
        },
        IrExpression::Reference { target, target_slot, offset } => {
            let s = lookup(m, target.0, target_slot);
            IrExpression::Reference { target, target_slot: s, offset }
        },
        IrExpression::ContextLetReference { target, target_slot } => {
            let s = lookup(m, target.0, target_slot);
            IrExpression::ContextLetReference { target, target_slot: s }
        },
        other => other,
    };
    r
}

/// Propagates slots into every expression of a list (consumed).
fn slot_list(v: Vec<IrExpression>, m: &FxHashMap<u32, u32>, Ghost(parent): Ghost<IrExpression>) -> (r: Vec<IrExpression>)
    requires
        forall|i: int| 0 <= i < v@.len() ==> decreases_to!(parent => #[trigger] v@[i]),
    ensures
        ev_list(r@) == post_map_list(ev_list(v@), slot_rule(m@)),
    decreases parent, 0nat,
{
    let ghost orig = v@;
    let mut rev: Vec<IrExpression> = Vec::new();
    let mut v = v;
    while v.len() > 0
        invariant
            v@.len() + rev@.len() == orig.len(),
            forall|i: int| 0 <= i < v@.len() ==> #[trigger] v@[i] == orig[i],
            forall|j: int| 0 <= j < rev@.len() ==> #[trigger] rev@[j] == orig[orig.len() - 1 - j],
        decreases v.len(),
    {
        let x = v.pop().unwrap();
        rev.push(x);
    }
    let mut out: Vec<IrExpression> = Vec::new();
    let ghost f = slot_rule(m@);
    proof {
        lemma_ev_list(orig);
        lemma_post_map_list(ev_list(orig), f);
    }
    while rev.len() > 0
        invariant
            out@.len() + rev@.len() == orig.len(),
            forall|j: int| 0 <= j < rev@.len() ==> #[trigger] rev@[j] == orig[orig.len() - 1 - j],
            forall|i: int| 0 <= i < orig.len() ==> decreases_to!(parent => #[trigger] orig[i]),
            f == slot_rule(m@),
            ev_list(orig).len() == orig.len(),
            forall|i: int| 0 <= i < orig.len() ==> #[trigger] ev_list(orig)[i] == ev(orig[i]),
            post_map_list(ev_list(orig), f).len() == orig.len(),
            forall|i: int| 0 <= i < orig.len() ==> #[trigger] post_map_list(ev_list(orig), f)[i] == post_map(ev_list(orig)[i], f),
            forall|i: int| 0 <= i < out@.len() ==> ev(#[trigger] out@[i]) == post_map(ev(orig[i]), f),
        decreases rev.len(),
    {
        let ghost k = out@.len();
        let x = rev.pop().unwrap();
        assert(x == orig[k as int]);
        let y = slot_expr_exec(x, m);
        out.push(y);
    }
    proof {
        lemma_ev_list(out@);
        assert(ev_list(out@) =~= post_map_list(ev_list(orig), f));
    }
    out
}

/// Propagates slots into every node of an expression (consumed), children first.
fn slot_expr_exec(e: IrExpression, m: &FxHashMap<u32, u32>) -> (r: IrExpression)
    ensures
        ev(r) == slot_expr(ev(e), m@),
    decreases e, 1nat,
{
    let ghost e0 = e;
    let ghost f = slot_rule(m@);
    let mapped = match e {
        IrExpression::ResolvedCall { receiver, args } => {
            let r = slot_expr_exec(*receiver, m);
            proof {
                assert forall|i: int| 0 <= i < args@.len() implies decreases_to!(e0 => #[trigger] args@[i]) by {
                    assert(decreases_to!(args => args@));
                    assert(decreases_to!(args@ => args@[i]));
                }
                lemma_ev_list(args@);
            }
            let a = slot_list(args, m, Ghost(e0));
            IrExpression::ResolvedCall { receiver: Box::new(r), args: a }
        },
        IrExpression::ResolvedPropertyRead { receiver, name } =>
            IrExpression::ResolvedPropertyRead { receiver: Box::new(slot_expr_exec(*receiver, m)), name },
        IrExpression::Binary { operator, lhs, rhs } =>
            IrExpression::Binary { operator, lhs: Box::new(slot_expr_exec(*lhs, m)), rhs: Box::new(slot_expr_exec(*rhs, m)) },
        IrExpression::Ternary { condition, true_expr, false_expr } => IrExpression::Ternary {
            condition: Box::new(slot_expr_exec(*condition, m)),
            true_expr: Box::new(slot_expr_exec(*true_expr, m)),
            false_expr: Box::new(slot_expr_exec(*false_expr, m)),
        },
        IrExpression::Not(x) => IrExpression::Not(Box::new(slot_expr_exec(*x, m))),
        IrExpression::Interpolation { strings, expressions, i18n_placeholders } => {
            proof {
                assert forall|i: int| 0 <= i < expressions@.len() implies decreases_to!(e0 => #[trigger] expressions@[i]) by {
                    assert(decreases_to!(expressions => expressions@));
                    assert(decreases_to!(expressions@ => expressions@[i]));
                }
            }
            let x = slot_list(expressions, m, Ghost(e0));
            IrExpression::Interpolation { strings, expressions: x, i18n_placeholders }
        },
        IrExpression::PipeBinding { target, target_slot, name, args, var_offset } => {
            proof {
                assert forall|i: int| 0 <= i < args@.len() implies decreases_to!(e0 => #[trigger] args@[i]) by {
                    assert(decreases_to!(args => args@));
                    assert(decreases_to!(args@ => args@[i]));
                }
            }
            let a = slot_list(args, m, Ghost(e0));
            IrExpression::PipeBinding { target, target_slot, name, args: a, var_offset }
        },
        IrExpression::PipeBindingVariadic { target, target_slot, name, args, num_args, var_offset } =>
            IrExpression::PipeBindingVariadic {
                target,
                target_slot,
                name,
                args: Box::new(slot_expr_exec(*args, m)),
                num_args,
                var_offset,
            },
        IrExpression::DerivedLiteralArray { entries, spreads } => {
            proof {
                assert forall|i: int| 0 <= i < entries@.len() implies decreases_to!(e0 => #[trigger] entries@[i]) by {
                    assert(decreases_to!(entries => entries@));
                    assert(decreases_to!(entries@ => entries@[i]));
                }
            }
            let x = slot_list(entries, m, Ghost(e0));
            IrExpression::DerivedLiteralArray { entries: x, spreads }
        },
        IrExpression::LiteralArray(v) => {
            proof {
                assert forall|i: int| 0 <= i < v@.len() implies decreases_to!(e0 => #[trigger] v@[i]) by {
                    assert(decreases_to!(v => v@));
                    assert(decreases_to!(v@ => v@[i]));
                }
            }
            let x = slot_list(v, m, Ghost(e0));
            IrExpression::LiteralArray(x)
        },
        IrExpression::ConstCollected(x) => IrExpression::ConstCollected(Box::new(slot_expr_exec(*x, m))),
        IrExpression::StoreLet { target, value } =>
            IrExpression::StoreLet { target, value: Box::new(slot_expr_exec(*value, m)) },
        other => other,
    };
    proof {
        assert(ev(mapped) =~~= match ev(e0) {
            Expr::ResolvedCall { receiver, args } => Expr::ResolvedCall {
                receiver: Box::new(post_map(*receiver, f)),
                args: post_map_list(args, f),
            },
            Expr::ResolvedPropertyRead { receiver, name } => Expr::ResolvedPropertyRead {
                receiver: Box::new(post_map(*receiver, f)),
                name,
            },
            Expr::Binary { operator, lhs, rhs } => Expr::Binary { operator, lhs: Box::new(post_map(*lhs, f)), rhs: Box::new(post_map(*rhs, f)) },
            Expr::Ternary { condition, true_expr, false_expr } => Expr::Ternary {
                condition: Box::new(post_map(*condition, f)),
                true_expr: Box::new(post_map(*true_expr, f)),
                false_expr: Box::new(post_map(*false_expr, f)),
            },
            Expr::Not(x) => Expr::Not(Box::new(post_map(*x, f))),
            Expr::Interpolation { strings, expressions, i18n_placeholders } => Expr::Interpolation {
                strings,
                expressions: post_map_list(expressions, f),
                i18n_placeholders,
            },
            Expr::PipeBinding { target, target_slot, name, args, var_offset } => Expr::PipeBinding {
                target,
                target_slot,
                name,
                args: post_map_list(args, f),
                var_offset,
            },
            Expr::PipeBindingVariadic { target, target_slot, name, args, num_args, var_offset } =>
                Expr::PipeBindingVariadic { target, target_slot, name, args: Box::new(post_map(*args, f)), num_args, var_offset },
            Expr::DerivedLiteralArray { entries, spreads } => Expr::DerivedLiteralArray {
                entries: post_map_list(entries, f),
                spreads,
            },
            Expr::LiteralArray(v) => Expr::LiteralArray(post_map_list(v, f)),
            Expr::ConstCollected(x) => Expr::ConstCollected(Box::new(post_map(*x, f))),
            Expr::StoreLet { target, value } => Expr::StoreLet { target, value: Box::new(post_map(*value, f)) },
            _ => ev(e0),
        });
    }
    slot_node_exec(mapped, m)
}

/// The number of data slots a creation operation uses.
pub open spec fn slots_used(op: CreateOp) -> nat {
    match op {
        CreateOp::ElementStart(e) | CreateOp::Element(e) | CreateOp::ContainerStart(e) | CreateOp::Container(e) =>
            (1 + (e.local_refs@.len() as u32)) as nat,
        CreateOp::Template(t) | CreateOp::Conditional(t) | CreateOp::ConditionalBranch(t) =>
            (1 + (t.local_refs@.len() as u32)) as nat,
        CreateOp::RepeaterCreate(t) => if t.empty_view is Some { 3 } else { 2 },
        CreateOp::Projection(p) => if p.fallback is Some { 2 } else { 1 },
        CreateOp::Defer(_) => 2,
        CreateOp::Text(_) | CreateOp::Pipe(_) | CreateOp::DeclareLet(_) | CreateOp::I18nStart(_) | CreateOp::I18n(_)
        | CreateOp::I18nAttributes(_) => 1,
        _ => 0,
    }
}

/// The id under which a slot-using creation operation records its slot.
pub open spec fn slot_key(op: CreateOp) -> Option<u32> {
    match op {
        CreateOp::ElementStart(e) | CreateOp::Element(e) | CreateOp::ContainerStart(e) | CreateOp::Container(e)
        | CreateOp::DeclareLet(e) => Some(e.xref.0),
        CreateOp::Template(t) | CreateOp::Conditional(t) | CreateOp::ConditionalBranch(t) | CreateOp::RepeaterCreate(t) =>
            Some(t.xref.0),
        CreateOp::Projection(p) => Some(p.xref.0),
        CreateOp::Defer(d) => Some(d.xref.0),
        CreateOp::Text(t) => Some(t.xref.0),
        CreateOp::Pipe(p) => Some(p.xref.0),
        CreateOp::I18nStart(i) | CreateOp::I18n(i) => Some(i.xref.0),
        CreateOp::I18nAttributes(a) => Some(a.xref.0),
        _ => None,
    }
}

/// The number of slots the operations before `k` use: the slot of the operation at `k`.
pub open spec fn slot_offset(c: Seq<CreateOp>, k: int) -> nat
    decreases k,
{
    if k <= 0 {
        0
    } else {
        slot_offset(c, k - 1) + slots_used(c[k - 1])
    }
}

/// The slot map after the slots of the operations before `k` are recorded in `m`.
pub open spec fn slot_map_after(c: Seq<CreateOp>, k: int, m: Map<u32, u32>) -> Map<u32, u32>
    decreases k,
{
    if k <= 0 {
        m
    } else {
        match slot_key(c[k - 1]) {
            Some(x) => slot_map_after(c, k - 1, m).insert(x, slot_offset(c, k - 1) as u32),
            None => slot_map_after(c, k - 1, m),
        }
    }
}

/// A slot-using operation with its slot assigned.
pub open spec fn alloc_op(op: CreateOp, s: SlotId) -> CreateOp {
    match op {
        CreateOp::ElementStart(e) => CreateOp::ElementStart(SlotOp { slot: Some(s), ..e }),
        CreateOp::Element(e) => CreateOp::Element(SlotOp { slot: Some(s), ..e }),
        CreateOp::ContainerStart(e) => CreateOp::ContainerStart(SlotOp { slot: Some(s), ..e }),
        CreateOp::Container(e) => CreateOp::Container(SlotOp { slot: Some(s), ..e }),
        CreateOp::DeclareLet(e) => CreateOp::DeclareLet(SlotOp { slot: Some(s), ..e }),
        CreateOp::Template(t) => CreateOp::Template(TemplateOp { slot: Some(s), ..t }),
        CreateOp::Conditional(t) => CreateOp::Conditional(TemplateOp { slot: Some(s), ..t }),
        CreateOp::ConditionalBranch(t) => CreateOp::ConditionalBranch(TemplateOp { slot: Some(s), ..t }),
        CreateOp::RepeaterCreate(t) => CreateOp::RepeaterCreate(TemplateOp { slot: Some(s), ..t }),
        CreateOp::Projection(p) => CreateOp::Projection(ProjectionOp { slot: Some(s), ..p }),
        CreateOp::Defer(d) => CreateOp::Defer(DeferOp { slot: Some(s), ..d }),
        CreateOp::Text(t) => CreateOp::Text(TextOp { slot: Some(s), ..t }),
        CreateOp::Pipe(p) => CreateOp::Pipe(PipeOp { slot: Some(s), ..p }),
        CreateOp::I18nStart(i) => CreateOp::I18nStart(I18nStartOp { slot: Some(s), ..i }),
        CreateOp::I18n(i) => CreateOp::I18n(I18nStartOp { slot: Some(s), ..i }),
        CreateOp::I18nAttributes(a) => CreateOp::I18nAttributes(I18nAttributesOp { handle: s, ..a }),
        _ => op,
    }
}

/// A listener with the slot of its target, when the map has one.
pub open spec fn listen_op(op: CreateOp, m: Map<u32, u32>) -> CreateOp {
    match op {
        CreateOp::Listener(l) => CreateOp::Listener(ListenerOp { target_slot: lookup_slot(m, l.target.0, l.target_slot), ..l }),
        CreateOp::TwoWayListener(l) =>
            CreateOp::TwoWayListener(ListenerOp { target_slot: lookup_slot(m, l.target.0, l.target_slot), ..l }),
        CreateOp::AnimationListener(l) =>
            CreateOp::AnimationListener(ListenerOp { target_slot: lookup_slot(m, l.target.0, l.target_slot), ..l }),
        _ => op,
    }
}

/// The count recorded for the id `x`, or `default` when none is.
pub open spec fn lookup_count(m: Map<u32, u32>, x: u32, default: Option<u32>) -> Option<u32> {
    if m.contains_key(x) {
        Some(m[x])
    } else {
        default
    }
}

/// A template-like operation with the slot counts of the views it declares.
pub open spec fn decls_op(op: CreateOp, vd: Map<u32, u32>) -> CreateOp {
    match op {
        CreateOp::Template(t) => CreateOp::Template(TemplateOp { decls: lookup_count(vd, t.embedded_view.0, t.decls), ..t }),
        CreateOp::Conditional(t) => CreateOp::Conditional(TemplateOp { decls: lookup_count(vd, t.xref.0, t.decls), ..t }),
        CreateOp::ConditionalBranch(t) =>
            CreateOp::ConditionalBranch(TemplateOp { decls: lookup_count(vd, t.xref.0, t.decls), ..t }),
        CreateOp::RepeaterCreate(t) => CreateOp::RepeaterCreate(
            TemplateOp {
                decls: lookup_count(vd, t.embedded_view.0, t.decls),
                empty_decls: match t.empty_view {
                    Some(e) => lookup_count(vd, e.0, t.empty_decls),
                    None => t.empty_decls,
                },
                ..t
            },
        ),
        _ => op,
    }
}

/// The slot of an optional template, or `default`.
pub open spec fn lookup_view_slot(m: Map<u32, u32>, v: Option<XrefId>, default: Option<SlotId>) -> Option<SlotId> {
    match v {
        Some(x) => lookup_slot(m, x.0, default),
        None => default,
    }
}

/// A `@defer` block with the slots of its templates.
pub open spec fn defer_op(op: CreateOp, m: Map<u32, u32>) -> CreateOp {
    match op {
        CreateOp::Defer(d) => CreateOp::Defer(
            DeferOp {
                main_slot: lookup_view_slot(m, d.main_view, d.main_slot),
                loading_slot: lookup_view_slot(m, d.loading_view, d.loading_slot),
                placeholder_slot: lookup_view_slot(m, d.placeholder_view, d.placeholder_slot),
                error_slot: lookup_view_slot(m, d.error_view, d.error_slot),
                ..d
            },
        ),
        _ => op,
    }
}

/// Slot offsets grow with the position.
proof fn lemma_offset_mono(c: Seq<CreateOp>, i: int, j: int)
    requires
        i <= j,
    ensures
        slot_offset(c, i) <= slot_offset(c, j),
    decreases j - i,
{
    if i < j {
        lemma_offset_mono(c, i, j - 1);
    }
}

fn slot_count_of(refs: &Vec<LocalRef>) -> (r: u32)
    ensures
        r == refs@.len() as u32,
{
    #[verifier::truncate]
    (refs.len() as u32)
}

fn element_slots(e: &SlotOp) -> (r: u32)
    requires
        1 + (e.local_refs@.len() as u32) <= u32::MAX,
    ensures
        r == 1 + (e.local_refs@.len() as u32),
{
    1 + slot_count_of(&e.local_refs)
}

fn template_slots(t: &TemplateOp) -> (r: u32)
    requires
        1 + (t.local_refs@.len() as u32) <= u32::MAX,
    ensures
        r == 1 + (t.local_refs@.len() as u32),
{
    1 + slot_count_of(&t.local_refs)
}

/// Assigns the slot `count` to a slot-using operation and records it.
fn allocate_op(op: &mut CreateOp, count: u32, map: &mut FxHashMap<u32, u32>) -> (used: u32)
    requires
        count + slots_used(*old(op)) <= u32::MAX,
    ensures
        used == slots_used(*old(op)),
        *final(op) == alloc_op(*old(op), SlotId(count)),
        final(map)@ == match slot_key(*old(op)) {
            Some(x) => old(map)@.insert(x, count),
            None => old(map)@,
        },
{
    let s = Some(SlotId(count));
    match op {
        CreateOp::ElementStart(e) => {
            let used = element_slots(e);
            e.slot = s;
            fx_map_insert(map, e.xref.0, count);
            used
        },
        CreateOp::Element(e) => {
            let used = element_slots(e);
            e.slot = s;
            fx_map_insert(map, e.xref.0, count);
            used
        },
        CreateOp::ContainerStart(e) => {
            let used = element_slots(e);
            e.slot = s;
            fx_map_insert(map, e.xref.0, count);
            used
        },
        CreateOp::Container(e) => {
            let used = element_slots(e);
            e.slot = s;
            fx_map_insert(map, e.xref.0, count);
            used
        },
        CreateOp::DeclareLet(e) => {
            e.slot = s;
            fx_map_insert(map, e.xref.0, count);
            1
        },
        CreateOp::Template(t) => {
            let used = template_slots(t);
            t.slot = s;
            fx_map_insert(map, t.xref.0, count);
            used
        },
        CreateOp::Conditional(t) => {
            let used = template_slots(t);
            t.slot = s;
            fx_map_insert(map, t.xref.0, count);
            used
        },
        CreateOp::ConditionalBranch(t) => {
            let used = template_slots(t);
            t.slot = s;
            fx_map_insert(map, t.xref.0, count);
            used
        },
        CreateOp::RepeaterCreate(t) => {
            t.slot = s;
            fx_map_insert(map, t.xref.0, count);
            if t.empty_view.is_some() { 3 } else { 2 }
        },
        CreateOp::Projection(p) => {
            p.slot = s;
            fx_map_insert(map, p.xref.0, count);
            if p.fallback.is_some() { 2 } else { 1 }
        },
        CreateOp::Defer(d) => {
            d.slot = s;
            fx_map_insert(map, d.xref.0, count);
            2
        },
        CreateOp::Text(t) => {
            t.slot = s;
            fx_map_insert(map, t.xref.0, count);
            1
        },
        CreateOp::Pipe(p) => {
            p.slot = s;
            fx_map_insert(map, p.xref.0, count);
            1
        },
        CreateOp::I18nStart(i) => {
            i.slot = s;
            fx_map_insert(map, i.xref.0, count);
            1
        },
        CreateOp::I18n(i) => {
            i.slot = s;
            fx_map_insert(map, i.xref.0, count);
            1
        },
        CreateOp::I18nAttributes(a) => {
            a.handle = SlotId(count);
            fx_map_insert(map, a.xref.0, count);
            1
        },
        _ => 0,
    }
}

/// Gives a listener the slot of its target, when the map has one.
fn listen(op: &mut CreateOp, map: &FxHashMap<u32, u32>)
    ensures
        *final(op) == listen_op(*old(op), map@),
{
    match op {
        CreateOp::Listener(l) => {
            l.target_slot = lookup(map, l.target.0, l.target_slot);
        },
        CreateOp::TwoWayListener(l) => {
            l.target_slot = lookup(map, l.target.0, l.target_slot);
        },
        CreateOp::AnimationListener(l) => {
            l.target_slot = lookup(map, l.target.0, l.target_slot);
        },
        _ => {},
    }
}

/// Allocates the slots of one view's creation operations, recording them in
/// `map`, then gives its listeners the slots of their targets; returns the
/// number of slots the view uses.
fn allocate_slots_in_view(create: &mut Vec<CreateOp>, map: &mut FxHashMap<u32, u32>) -> (count: u32)
    requires
        slot_offset(old(create)@, old(create)@.len() as int) <= u32::MAX,
    ensures
        count == slot_offset(old(create)@, old(create)@.len() as int),
        final(map)@ == slot_map_after(old(create)@, old(create)@.len() as int, old(map)@),
        final(create)@.len() == old(create)@.len(),
        forall|k: int|
            0 <= k < old(create)@.len() ==> #[trigger] final(create)@[k] == listen_op(
                alloc_op(old(create)@[k], SlotId(slot_offset(old(create)@, k) as u32)),
                final(map)@,
            ),
{
    let ghost c = create@;
    let ghost m0 = map@;
    let n = create.len();
    let mut count: u32 = 0;
    let mut i: usize = 0;
    while i < n
        invariant
            n == create@.len(),
            n == c.len(),
            i <= n,
            slot_offset(c, n as int) <= u32::MAX,
            count == slot_offset(c, i as int),
            map@ == slot_map_after(c, i as int, m0),
            forall|k: int| 0 <= k < i ==> #[trigger] create@[k] == alloc_op(c[k], SlotId(slot_offset(c, k) as u32)),
            forall|k: int| i <= k < n ==> #[trigger] create@[k] == c[k],
        decreases n - i,
    {
        proof {
            lemma_offset_mono(c, i + 1, n as int);
        }
        let used = allocate_op(&mut create[i], count, map);
        count = count + used;
        i = i + 1;
    }
    let ghost allocated = create@;
    let mut i: usize = 0;
    while i < n
        invariant
            n == create@.len(),
            n == c.len(),
            i <= n,
            forall|k: int| 0 <= k < n ==> #[trigger] allocated[k] == alloc_op(c[k], SlotId(slot_offset(c, k) as u32)),
            forall|k: int| 0 <= k < i ==> #[trigger] create@[k] == listen_op(allocated[k], map@),
            forall|k: int| i <= k < n ==> #[trigger] create@[k] == allocated[k],
        decreases n - i,
    {
        listen(&mut create[i], map);
        i = i + 1;
    }
    count
}

/// Whether an optional expression had the slots of `m` propagated into it.
pub open spec fn opt_slotted(before: Option<IrExpression>, after: Option<IrExpression>, m: Map<u32, u32>) -> bool {
    match before {
        Some(e) => after matches Some(e2) && ev(e2) == slot_expr(ev(e), m),
        None => after is None,
    }
}

/// Whether the listener `after` is `before` with slots propagated into its
/// handler expression and handler operations.
pub open spec fn listener_slotted(before: ListenerOp, after: ListenerOp, m: Map<u32, u32>) -> bool {
    &&& after == ListenerOp { handler_expression: after.handler_expression, handler_ops: after.handler_ops, ..before }
    &&& opt_slotted(before.handler_expression, after.handler_expression, m)
    &&& match before.handler_ops {
        Some(ops) => after.handler_ops matches Some(ops2) && update_list_slotted(ops@, ops2@, m),
        None => after.handler_ops is None,
    }
}

/// Whether the creation operation `after` is `before` with slots propagated
/// into its handler (for listeners and animations) or its value
/// (for animation strings).
pub open spec fn handler_slotted(before: CreateOp, after: CreateOp, m: Map<u32, u32>) -> bool {
    match before {
        CreateOp::Listener(l) => after matches CreateOp::Listener(l2) && listener_slotted(l, l2, m),
        CreateOp::TwoWayListener(l) => after matches CreateOp::TwoWayListener(l2) && listener_slotted(l, l2, m),
        CreateOp::AnimationListener(l) => after matches CreateOp::AnimationListener(l2) && listener_slotted(l, l2, m),
        CreateOp::Animation(l) => after matches CreateOp::Animation(l2) && listener_slotted(l, l2, m),
        CreateOp::AnimationString(a) => after matches CreateOp::AnimationString(a2) && a2 == AnimationStringOp {
            expression: a2.expression,
            ..a
        } && ev(a2.expression) == slot_expr(ev(a.expression), m),
        _ => after == before,
    }
}

/// Whether the update operation `after` is `before` with slots propagated into
/// its expression (and, for i18n operations, with the slot of the owning block).
pub open spec fn update_op_slotted(before: UpdateOp, after: UpdateOp, m: Map<u32, u32>) -> bool {
    match before {
        UpdateOp::I18nExpression(x) => {
            &&& after matches UpdateOp::I18nExpression(y)
            &&& after->I18nExpression_0 == I18nExpressionOp {
                expression: after->I18nExpression_0.expression,
                handle: after->I18nExpression_0.handle,
                ..x
            }
            &&& after->I18nExpression_0.handle == match lookup_slot(m, x.i18n_owner.0, Some(x.handle)) {
                Some(h) => h,
                None => x.handle,
            }
            &&& ev(after->I18nExpression_0.expression) == slot_expr(ev(x.expression), m)
        },
        UpdateOp::I18nApply(a) => after == UpdateOp::I18nApply(
            I18nApplyOp {
                handle: match lookup_slot(m, a.i18n_owner.0, Some(a.handle)) {
                    Some(h) => h,
                    None => a.handle,
                },
                ..a
            },
        ),
        _ => match update_op_expr(before) {
            Some(e) => {
                &&& same_but_expr(before, after)
                &&& update_op_expr(after) matches Some(e2) && ev(e2) == slot_expr(ev(e), m)
            },
            None => after == before,
        },
    }
}

/// Whether each update operation of `after` is that of `before` with slots propagated.
pub open spec fn update_list_slotted(before: Seq<UpdateOp>, after: Seq<UpdateOp>, m: Map<u32, u32>) -> bool {
    &&& after.len() == before.len()
    &&& forall|i: int| 0 <= i < before.len() ==> update_op_slotted(#[trigger] before[i], after[i], m)
}

fn slot_in_place(e: &mut IrExpression, m: &FxHashMap<u32, u32>)
    ensures
        ev(*final(e)) == slot_expr(ev(*old(e)), m@),
{
    let mut taken = IrExpression::Empty;
    std::mem::swap(e, &mut taken);
    *e = slot_expr_exec(taken, m);
}

fn slot_in_opt(e: &mut Option<IrExpression>, m: &FxHashMap<u32, u32>)
    ensures
        opt_slotted(*old(e), *final(e), m@),
{
    match e {
        Some(x) => slot_in_place(x, m),
        None => {},
    }
}

/// Propagates slots into an update operation.
fn slot_update_op(op: &mut UpdateOp, m: &FxHashMap<u32, u32>)
    ensures
        update_op_slotted(*old(op), *final(op), m@),
{
    match op {
        UpdateOp::Property(b) => slot_in_place(&mut b.expression, m),
        UpdateOp::TwoWayProperty(b) => slot_in_place(&mut b.expression, m),
        UpdateOp::DomProperty(b) => slot_in_place(&mut b.expression, m),
        UpdateOp::Attribute(b) => slot_in_place(&mut b.expression, m),
        UpdateOp::StyleProp(b) => slot_in_place(&mut b.expression, m),
        UpdateOp::ClassProp(b) => slot_in_place(&mut b.expression, m),
        UpdateOp::StyleMap(b) => slot_in_place(&mut b.expression, m),
        UpdateOp::ClassMap(b) => slot_in_place(&mut b.expression, m),
        UpdateOp::Control(b) => slot_in_place(&mut b.expression, m),
        UpdateOp::Binding(b) => slot_in_place(&mut b.expression, m),
        UpdateOp::InterpolateText(b) => slot_in_place(&mut b.expression, m),
        UpdateOp::AnimationBinding(b) => slot_in_place(&mut b.expression, m),
        UpdateOp::Repeater(b) => slot_in_place(&mut b.expression, m),
        UpdateOp::Conditional(b) => slot_in_place(&mut b.expression, m),
        UpdateOp::StoreLet(b) => slot_in_place(&mut b.expression, m),
        UpdateOp::DeferWhen(b) => slot_in_place(&mut b.expression, m),
        UpdateOp::Variable(v) => slot_in_place(&mut v.initializer, m),
        UpdateOp::I18nExpression(x) => {
            slot_in_place(&mut x.expression, m);
            match fx_map_get(m, x.i18n_owner.0) {
                Some(s) => x.handle = SlotId(s),
                None => {},
            }
        },
        UpdateOp::I18nApply(a) => {
            match fx_map_get(m, a.i18n_owner.0) {
                Some(s) => a.handle = SlotId(s),
                None => {},
            }
        },
        _ => {},
    }
}

/// Propagates slots into every update operation of a list.
fn slot_update_ops(list: &mut Vec<UpdateOp>, m: &FxHashMap<u32, u32>)
    ensures
        update_list_slotted(old(list)@, final(list)@, m@),
{
    let n = list.len();
    let mut i: usize = 0;
    while i < n
        invariant
            n == list@.len(),
            n == old(list)@.len(),
            i <= n,
            forall|j: int| 0 <= j < i ==> update_op_slotted(#[trigger] old(list)@[j], list@[j], m@),
            forall|j: int| i <= j < n ==> #[trigger] list@[j] == old(list)@[j],
        decreases n - i,
    {
        slot_update_op(&mut list[i], m);
        i = i + 1;
    }
}

/// Propagates slots into the operations of every arrow function of a view.
fn slot_functions(fns: &mut Vec<Vec<UpdateOp>>, m: &FxHashMap<u32, u32>)
    ensures
        final(fns)@.len() == old(fns)@.len(),
        forall|k: int| 0 <= k < old(fns)@.len() ==> update_list_slotted((#[trigger] old(fns)@[k])@, final(fns)@[k]@, m@),
{
    let n = fns.len();
    let mut i: usize = 0;
    while i < n
        invariant
            n == fns@.len(),
            n == old(fns)@.len(),
            i <= n,
            forall|j: int| 0 <= j < i ==> update_list_slotted((#[trigger] old(fns)@[j])@, fns@[j]@, m@),
            forall|j: int| i <= j < n ==> #[trigger] fns@[j] == old(fns)@[j],
        decreases n - i,
    {
        slot_update_ops(&mut fns[i], m);
        i = i + 1;
    }
}

fn slot_listener(l: &mut ListenerOp, m: &FxHashMap<u32, u32>)
    ensures
        listener_slotted(*old(l), *final(l), m@),
{
    slot_in_opt(&mut l.handler_expression, m);
    match &mut l.handler_ops {
        Some(ops) => slot_update_ops(ops, m),
        None => {},
    }
}

/// Propagates slots into the handlers of a creation list's listeners and animations.
fn slot_handlers(create: &mut Vec<CreateOp>, m: &FxHashMap<u32, u32>)
    ensures
        final(create)@.len() == old(create)@.len(),
        forall|k: int| 0 <= k < old(create)@.len() ==> handler_slotted(#[trigger] old(create)@[k], final(create)@[k], m@),
{
    let n = create.len();
    let mut i: usize = 0;
    while i < n
        invariant
            n == create@.len(),
            n == old(create)@.len(),
            i <= n,
            forall|j: int| 0 <= j < i ==> handler_slotted(#[trigger] old(create)@[j], create@[j], m@),
            forall|j: int| i <= j < n ==> #[trigger] create@[j] == old(create)@[j],
        decreases n - i,
    {
        match &mut create[i] {
            CreateOp::Listener(l) => slot_listener(l, m),
            CreateOp::TwoWayListener(l) => slot_listener(l, m),
            CreateOp::AnimationListener(l) => slot_listener(l, m),
            CreateOp::Animation(l) => slot_listener(l, m),
            CreateOp::AnimationString(a) => slot_in_place(&mut a.expression, m),
            _ => {},
        }
        i = i + 1;
    }
}

fn decls_in(op: &mut CreateOp, vd: &FxHashMap<u32, u32>)
    ensures
        *final(op) == decls_op(*old(op), vd@),
{
    match op {
        CreateOp::Template(t) => {
            match fx_map_get(vd, t.embedded_view.0) {
                Some(d) => t.decls = Some(d),
                None => {},
            }
        },
        CreateOp::Conditional(t) => {
            match fx_map_get(vd, t.xref.0) {
                Some(d) => t.decls = Some(d),
                None => {},
            }
        },
        CreateOp::ConditionalBranch(t) => {
            match fx_map_get(vd, t.xref.0) {
                Some(d) => t.decls = Some(d),
                None => {},
            }
        },
        CreateOp::RepeaterCreate(t) => {
            match fx_map_get(vd, t.embedded_view.0) {
                Some(d) => t.decls = Some(d),
                None => {},
            }
            match t.empty_view {
                Some(e) => {
                    match fx_map_get(vd, e.0) {
                        Some(d) => t.empty_decls = Some(d),
                        None => {},
                    }
                },
                None => {},
            }
        },
        _ => {},
    }
}

fn defer_in(op: &mut CreateOp, m: &FxHashMap<u32, u32>)
    ensures
        *final(op) == defer_op(*old(op), m@),
{
    match op {
        CreateOp::Defer(d) => {
            d.main_slot = view_slot(m, d.main_view, d.main_slot);
            d.loading_slot = view_slot(m, d.loading_view, d.loading_slot);
            d.placeholder_slot = view_slot(m, d.placeholder_view, d.placeholder_slot);
            d.error_slot = view_slot(m, d.error_view, d.error_slot);
        },
        _ => {},
    }
}

fn view_slot(m: &FxHashMap<u32, u32>, v: Option<XrefId>, default: Option<SlotId>) -> (r: Option<SlotId>)
    ensures
        r == lookup_view_slot(m@, v, default),
{
    match v {
        Some(x) => lookup(m, x.0, default),
        None => default,
    }
}

/// Gives every template-like operation the slot counts of its views, and every
/// `@defer` block the slots of its templates.
fn decls_and_defers(create: &mut Vec<CreateOp>, vd: &FxHashMap<u32, u32>, m: &FxHashMap<u32, u32>)
    ensures
        final(create)@.len() == old(create)@.len(),
        forall|k: int|
            0 <= k < old(create)@.len() ==> #[trigger] final(create)@[k] == defer_op(decls_op(old(create)@[k], vd@), m@),
{
    let n = create.len();
    let mut i: usize = 0;
    while i < n
        invariant
            n == create@.len(),
            n == old(create)@.len(),
            i <= n,
            forall|j: int| 0 <= j < i ==> #[trigger] create@[j] == defer_op(decls_op(old(create)@[j], vd@), m@),
            forall|j: int| i <= j < n ==> #[trigger] create@[j] == old(create)@[j],
        decreases n - i,
    {
        decls_in(&mut create[i], vd);
        defer_in(&mut create[i], m);
        i = i + 1;
    }
}

/// Whether the creation operation `after` is `before` with its slot (at
/// `offset`), its target's slot (from the view's map `vm`), its views' slot
/// counts (from `vd`) and its templates' slots and its handler's slots (from the
/// final map `fm`).
pub open spec fn create_op_slotted(
    before: CreateOp,
    after: CreateOp,
    offset: nat,
    vm: Map<u32, u32>,
    vd: Map<u32, u32>,
    fm: Map<u32, u32>,
) -> bool {
    handler_slotted(defer_op(decls_op(listen_op(alloc_op(before, SlotId(offset as u32)), vm), vd), fm), after, fm)
}

/// The number of slots a view uses.
pub open spec fn view_slot_count(v: ViewCompilationUnit) -> nat {
    slot_offset(v.create@, v.create@.len() as int)
}

/// Whether the view `after` is `before` with its slots allocated (the shared
/// map holding `m0` before this view) and propagated from the final map `fm`
/// and the slot counts `vd`.
pub open spec fn view_slotted(
    before: ViewCompilationUnit,
    after: ViewCompilationUnit,
    m0: Map<u32, u32>,
    fm: Map<u32, u32>,
    vd: Map<u32, u32>,
) -> bool {
    let c = before.create@;
    let vm = slot_map_after(c, c.len() as int, m0);
    &&& after.create@.len() == c.len()
    &&& forall|k: int|
        0 <= k < c.len() ==> create_op_slotted(#[trigger] c[k], after.create@[k], slot_offset(c, k), vm, vd, fm)
    &&& update_list_slotted(before.update@, after.update@, fm)
    &&& after.functions@.len() == before.functions@.len()
    &&& forall|f: int|
        0 <= f < before.functions@.len() ==> update_list_slotted(
            (#[trigger] before.functions@[f])@,
            after.functions@[f]@,
            fm,
        )
    &&& after.decl_count == Some(view_slot_count(before) as u32)
    &&& after.xref == before.xref
}

/// The shared slot map after the views before `i` are allocated, from `m`.
pub open spec fn views_slot_map(views: Seq<ViewCompilationUnit>, i: int, m: Map<u32, u32>) -> Map<u32, u32>
    decreases i,
{
    if i <= 0 {
        m
    } else {
        let v = views[i - 1];
        slot_map_after(v.create@, v.create@.len() as int, views_slot_map(views, i - 1, m))
    }
}

/// The slot counts of the views before `i`, recorded over `vd`.
pub open spec fn views_decls(views: Seq<ViewCompilationUnit>, i: int, vd: Map<u32, u32>) -> Map<u32, u32>
    decreases i,
{
    if i <= 0 {
        vd
    } else {
        views_decls(views, i - 1, vd).insert(views[i - 1].xref.0, view_slot_count(views[i - 1]) as u32)
    }
}

/// Whether every view's slot count fits in the slot index type.
pub open spec fn slots_fit(job: ComponentCompilationJob) -> bool {
    &&& view_slot_count(job.root) <= u32::MAX
    &&& forall|i: int| 0 <= i < job.views@.len() ==> view_slot_count(#[trigger] job.views@[i]) <= u32::MAX
}

/// The shared slot map once the root view is allocated.
pub open spec fn root_slot_map(job: ComponentCompilationJob) -> Map<u32, u32> {
    slot_map_after(job.root.create@, job.root.create@.len() as int, Map::empty())
}

/// The shared slot map once every view is allocated.
pub open spec fn final_slot_map(job: ComponentCompilationJob) -> Map<u32, u32> {
    views_slot_map(job.views@, job.views@.len() as int, root_slot_map(job))
}

/// The slot count of every view, by view id (the root first, then the views in order).
pub open spec fn view_decl_map(job: ComponentCompilationJob) -> Map<u32, u32> {
    views_decls(
        job.views@,
        job.views@.len() as int,
        Map::<u32, u32>::empty().insert(job.root.xref.0, view_slot_count(job.root) as u32),
    )
}

/// Whether the job `after` is `before` with slots allocated in every view (root
/// first, then the views in order) and propagated.
pub open spec fn job_slotted(before: ComponentCompilationJob, after: ComponentCompilationJob) -> bool {
    let fm = final_slot_map(before);
    let vd = view_decl_map(before);
    &&& view_slotted(before.root, after.root, Map::empty(), fm, vd)
    &&& after.views@.len() == before.views@.len()
    &&& forall|i: int|
        0 <= i < before.views@.len() ==> view_slotted(
            #[trigger] before.views@[i],
            after.views@[i],
            views_slot_map(before.views@, i, root_slot_map(before)),
            fm,
            vd,
        )
    &&& after.consts == before.consts
    &&& after.diagnostics == before.diagnostics
    &&& after.next_xref == before.next_xref
    &&& after.compatibility_mode == before.compatibility_mode
    &&& after.mode == before.mode
    &&& after.enable_debug_locations == before.enable_debug_locations
    &&& after.relative_template_path == before.relative_template_path
    &&& after.template_source == before.template_source
}

/// Whether the view `after` is `before` with its slots allocated (the shared map
/// holding `m0` before) and its listeners given their targets' slots.
spec fn view_allocated(before: ViewCompilationUnit, after: ViewCompilationUnit, m0: Map<u32, u32>) -> bool {
    let c = before.create@;
    let vm = slot_map_after(c, c.len() as int, m0);
    &&& after.create@.len() == c.len()
    &&& forall|k: int|
        0 <= k < c.len() ==> #[trigger] after.create@[k] == listen_op(alloc_op(c[k], SlotId(slot_offset(c, k) as u32)), vm)
    &&& after.update == before.update
    &&& after.functions == before.functions
    &&& after.decl_count == Some(view_slot_count(before) as u32)
    &&& after.xref == before.xref
}

/// Allocates the slots of one view.
fn allocate_view(view: &mut ViewCompilationUnit, map: &mut FxHashMap<u32, u32>) -> (count: u32)
    requires
        view_slot_count(*old(view)) <= u32::MAX,
    ensures
        count == view_slot_count(*old(view)),
        final(map)@ == slot_map_after(old(view).create@, old(view).create@.len() as int, old(map)@),
        view_allocated(*old(view), *final(view), old(map)@),
{
    let count = allocate_slots_in_view(&mut view.create, map);
    view.decl_count = Some(count);
    count
}

/// Propagates the final slots and slot counts into an allocated view.
fn finish_view(
    view: &mut ViewCompilationUnit,
    vd: &FxHashMap<u32, u32>,
    fm: &FxHashMap<u32, u32>,
    Ghost(orig): Ghost<ViewCompilationUnit>,
    Ghost(m0): Ghost<Map<u32, u32>>,
)
    requires
        view_allocated(orig, *old(view), m0),
    ensures
        view_slotted(orig, *final(view), m0, fm@, vd@),
{
    let ghost mid = view.create@;
    decls_and_defers(&mut view.create, vd, fm);
    let ghost mid2 = view.create@;
    slot_handlers(&mut view.create, fm);
    slot_update_ops(&mut view.update, fm);
    slot_functions(&mut view.functions, fm);
    assert forall|k: int| 0 <= k < orig.create@.len() implies create_op_slotted(
        #[trigger] orig.create@[k],
        view.create@[k],
        slot_offset(orig.create@, k),
        slot_map_after(orig.create@, orig.create@.len() as int, m0),
        vd@,
        fm@,
    ) by {
        assert(mid[k] == listen_op(alloc_op(orig.create@[k], SlotId(slot_offset(orig.create@, k) as u32)),
            slot_map_after(orig.create@, orig.create@.len() as int, m0)));
        assert(mid2[k] == defer_op(decls_op(mid[k], vd@), fm@));
        assert(handler_slotted(mid2[k], view.create@[k], fm@));
    }
}

/// Allocates the slots of every view (root first, then the others in order)
/// in one map shared by all views, records each view's slot count, and
/// propagates slots and slot counts to the operations and expressions that
/// refer to them.
pub fn allocate_slots(job: &mut ComponentCompilationJob)
    requires
        slots_fit(*old(job)),
    ensures
        job_slotted(*old(job), *final(job)),
{
    let ghost j0 = *job;
    let ghost vs = j0.views@;
    let ghost rm = root_slot_map(j0);
    let mut slot_map: FxHashMap<u32, u32> = fx_map_new();
    let mut view_decls: FxHashMap<u32, u32> = fx_map_new();
    proof {
        assert(slot_map@ =~= Map::<u32, u32>::empty());
    }
    let root_count = allocate_view(&mut job.root, &mut slot_map);
    fx_map_insert(&mut view_decls, job.root.xref.0, root_count);
    let ghost vd0 = view_decls@;
    proof {
        assert(vd0 =~= Map::<u32, u32>::empty().insert(j0.root.xref.0, view_slot_count(j0.root) as u32));
    }
    let n = job.views.len();
    let mut i: usize = 0;
    while i < n
        invariant
            n == job.views@.len(),
            n == vs.len(),
            vs == j0.views@,
            i <= n,
            slots_fit(j0),
            rm == root_slot_map(j0),
            slot_map@ == views_slot_map(vs, i as int, rm),
            view_decls@ == views_decls(vs, i as int, vd0),
            vd0 == Map::<u32, u32>::empty().insert(j0.root.xref.0, view_slot_count(j0.root) as u32),
            view_allocated(j0.root, job.root, Map::empty()),
            forall|j: int| 0 <= j < i ==> view_allocated(vs[j], #[trigger] job.views@[j], views_slot_map(vs, j, rm)),
            forall|j: int| i <= j < n ==> #[trigger] job.views@[j] == vs[j],
            job.consts == j0.consts,
            job.diagnostics == j0.diagnostics,
            job.next_xref == j0.next_xref,
            job.compatibility_mode == j0.compatibility_mode,
            job.mode == j0.mode,
            job.enable_debug_locations == j0.enable_debug_locations,
            job.relative_template_path == j0.relative_template_path,
            job.template_source == j0.template_source,
        decreases n - i,
    {
        assert(view_slot_count(vs[i as int]) <= u32::MAX);
        let count = allocate_view(&mut job.views[i], &mut slot_map);
        let x = job.views[i].xref.0;
        fx_map_insert(&mut view_decls, x, count);
        i = i + 1;
    }
    let ghost fm = slot_map@;
    let ghost vd = view_decls@;
    assert(fm == final_slot_map(j0));
    assert(vd == view_decl_map(j0));
    finish_view(&mut job.root, &view_decls, &slot_map, Ghost(j0.root), Ghost(Map::empty()));
    let mut i: usize = 0;
    while i < n
        invariant
            n == job.views@.len(),
            n == vs.len(),
            vs == j0.views@,
            i <= n,
            rm == root_slot_map(j0),
            fm == slot_map@,
            vd == view_decls@,
            fm == final_slot_map(j0),
            vd == view_decl_map(j0),
            view_slotted(j0.root, job.root, Map::empty(), fm, vd),
            forall|j: int| 0 <= j < i ==> view_slotted(vs[j], #[trigger] job.views@[j], views_slot_map(vs, j, rm), fm, vd),
            forall|j: int| i <= j < n ==> view_allocated(vs[j], #[trigger] job.views@[j], views_slot_map(vs, j, rm)),
            job.consts == j0.consts,
            job.diagnostics == j0.diagnostics,
            job.next_xref == j0.next_xref,
            job.compatibility_mode == j0.compatibility_mode,
            job.mode == j0.mode,
            job.enable_debug_locations == j0.enable_debug_locations,
            job.relative_template_path == j0.relative_template_path,
            job.template_source == j0.template_source,
        decreases n - i,
    {
        finish_view(&mut job.views[i], &view_decls, &slot_map, Ghost(vs[i as int]), Ghost(views_slot_map(vs, i as int, rm)));
        i = i + 1;
    }
}

/// Within a view, the slot ranges of two creation operations never overlap:
/// the slots of an earlier operation end at or before the first slot of a
/// later one, and every operation's slots lie below the view's slot count.
pub proof fn law_slot_ranges_disjoint(v: ViewCompilationUnit, j: int, k: int)
    requires
        0 <= j < k < v.create@.len(),
    ensures
        slot_offset(v.create@, j) + slots_used(v.create@[j]) <= slot_offset(v.create@, k),
        slot_offset(v.create@, k) + slots_used(v.create@[k]) <= view_slot_count(v),
{
    lemma_offset_mono(v.create@, j + 1, k);
    lemma_offset_mono(v.create@, k + 1, v.create@.len() as int);
}

/// The slot after a creation operation is its own slot plus the slots it
/// uses: a `@for` repeater two (its template and its tracking), three with an
/// `@empty` view; a content projection one, two with fallback content; a
/// `@defer` block two; an element, container or template one plus one per
/// local reference; a text node, pipe, `@let` or i18n operation one; and an
/// operation that declares nothing none.
pub proof fn law_slot_after_operation(c: Seq<CreateOp>, k: int)
    requires
        0 <= k < c.len(),
    ensures
        c[k] matches CreateOp::RepeaterCreate(t) ==> slot_offset(c, k + 1) == slot_offset(c, k) + if t.empty_view is Some { 3nat } else { 2nat },
        c[k] matches CreateOp::Projection(p) ==> slot_offset(c, k + 1) == slot_offset(c, k) + if p.fallback is Some { 2nat } else { 1nat },
        c[k] is Defer ==> slot_offset(c, k + 1) == slot_offset(c, k) + 2,
        c[k] matches CreateOp::ElementStart(e) ==> e.local_refs@.len() < u32::MAX ==> slot_offset(c, k + 1) == slot_offset(c, k) + 1 + e.local_refs@.len(),
        c[k] matches CreateOp::Template(t) ==> t.local_refs@.len() < u32::MAX ==> slot_offset(c, k + 1) == slot_offset(c, k) + 1 + t.local_refs@.len(),
        (c[k] is Text || c[k] is Pipe || c[k] is DeclareLet || c[k] is I18nStart) ==> slot_offset(c, k + 1) == slot_offset(c, k) + 1,
        (c[k] is Listener || c[k] is ElementEnd || c[k] is ExtractedAttribute) ==> slot_offset(c, k + 1) == slot_offset(c, k),
{
}

} // verus!
