//! Operation ordering phase.
//!
//! Orders operations for the correct execution sequence. Within each run of
//! consecutive handled operations on one target, update bindings are ordered
//! `StyleMap < ClassMap < StyleProp < ClassProp < ...` (and only the last
//! `StyleMap` and the last `ClassMap` of the run are kept), and legacy animation
//! host listeners come before the other listeners.

use vstd::prelude::*;
use crate::ir::{host_frame_kept, ComponentCompilationJob, CreateOp, HostBindingCompilationJob, IrExpression, OpKind, UpdateOp, ViewCompilationUnit, XrefId};
use crate::sorting::{bucket, lemma_sort_by_levels_permutes, sort_by_levels, stable_sort_by_levels};
use vstd::multiset::Multiset;

verus! {

/// The update operation kinds that the ordering phase reorders.
pub open spec fn is_handled_update_kind(kind: OpKind) -> bool {
    kind == OpKind::StyleMap || kind == OpKind::ClassMap || kind == OpKind::StyleProp
        || kind == OpKind::ClassProp || kind == OpKind::Property || kind == OpKind::TwoWayProperty
        || kind == OpKind::DomProperty || kind == OpKind::Attribute || kind == OpKind::Control
}

/// The creation operation kinds that the ordering phase reorders.
pub open spec fn is_handled_create_kind(kind: OpKind) -> bool {
    kind == OpKind::Listener || kind == OpKind::TwoWayListener || kind == OpKind::AnimationListener
        || kind == OpKind::Animation
}

fn is_handled_update_op_kind(kind: OpKind) -> (r: bool)
    ensures
        r == is_handled_update_kind(kind),
{
    match kind {
        OpKind::StyleMap | OpKind::ClassMap | OpKind::StyleProp | OpKind::ClassProp | OpKind::Property
        | OpKind::TwoWayProperty | OpKind::DomProperty | OpKind::Attribute | OpKind::Control => true,
        _ => false,
    }
}

fn is_handled_create_op_kind(kind: OpKind) -> (r: bool)
    ensures
        r == is_handled_create_kind(kind),
{
    match kind {
        OpKind::Listener | OpKind::TwoWayListener | OpKind::AnimationListener | OpKind::Animation => true,
        _ => false,
    }
}

/// Whether the bound expression of an update operation is an interpolation.
pub open spec fn binds_interpolation(op: UpdateOp) -> bool {
    match op {
        UpdateOp::Property(p) => p.expression is Interpolation,
        UpdateOp::TwoWayProperty(p) => p.expression is Interpolation,
        UpdateOp::Attribute(p) => p.expression is Interpolation,
        UpdateOp::DomProperty(p) => p.expression is Interpolation,
        _ => false,
    }
}

/// Template update ordering: StyleMap < ClassMap < StyleProp < ClassProp <
/// Attribute(interpolated) < Property(interpolated) < Property, TwoWayProperty <
/// Attribute < Control < DomProperty < anything else.
pub open spec fn spec_update_op_priority(op: UpdateOp) -> u32 {
    let interp = binds_interpolation(op);
    match op.spec_kind() {
        OpKind::StyleMap => 0,
        OpKind::ClassMap => 1,
        OpKind::StyleProp => 2,
        OpKind::ClassProp => 3,
        OpKind::Attribute => if interp { 4 } else { 7 },
        OpKind::Property => if interp { 5 } else { 6 },
        OpKind::TwoWayProperty => 6,
        OpKind::Control => 8,
        OpKind::DomProperty => 9,
        _ => 100,
    }
}

/// Host update ordering: DomProperty(interpolated) < DomProperty < Attribute <
/// StyleMap < ClassMap < StyleProp < ClassProp < anything else.
pub open spec fn spec_update_op_priority_host(op: UpdateOp) -> u32 {
    let interp = binds_interpolation(op);
    match op.spec_kind() {
        OpKind::DomProperty => if interp { 0 } else { 1 },
        OpKind::Attribute => 2,
        OpKind::StyleMap => 3,
        OpKind::ClassMap => 4,
        OpKind::StyleProp => 5,
        OpKind::ClassProp => 6,
        _ => 100,
    }
}

/// Creation ordering: legacy animation host listeners (0) before the other
/// listeners and animations (1); any other operation keeps its place (100).
pub open spec fn spec_create_op_priority(op: CreateOp) -> u32 {
    match op {
        CreateOp::Listener(l) => if l.host_listener && l.is_animation_listener { 0 } else { 1 },
        CreateOp::TwoWayListener(_) => 1,
        CreateOp::Animation(_) => 1,
        CreateOp::AnimationListener(_) => 1,
        _ => 100,
    }
}

fn is_interpolation(e: &IrExpression) -> (r: bool)
    ensures
        r == (*e is Interpolation),
{
    match e {
        IrExpression::Interpolation { .. } => true,
        _ => false,
    }
}

/// Ordering priority of an update operation in a template (lower first).
pub fn update_op_priority(op: &UpdateOp) -> (r: u32)
    ensures
        r == spec_update_op_priority(*op),
{
    let interp = match op {
        UpdateOp::Property(p) => is_interpolation(&p.expression),
        UpdateOp::TwoWayProperty(p) => is_interpolation(&p.expression),
        UpdateOp::Attribute(p) => is_interpolation(&p.expression),
        UpdateOp::DomProperty(p) => is_interpolation(&p.expression),
        _ => false,
    };
    match op.kind() {
        OpKind::StyleMap => 0,
        OpKind::ClassMap => 1,
        OpKind::StyleProp => 2,
        OpKind::ClassProp => 3,
        OpKind::Attribute => if interp { 4 } else { 7 },
        OpKind::Property => if interp { 5 } else { 6 },
        OpKind::TwoWayProperty => 6,
        OpKind::Control => 8,
        OpKind::DomProperty => 9,
        _ => 100,
    }
}

/// Ordering priority of an update operation in host bindings (lower first).
pub fn update_op_priority_host(op: &UpdateOp) -> (r: u32)
    ensures
        r == spec_update_op_priority_host(*op),
{
    let interp = match op {
        UpdateOp::DomProperty(p) => is_interpolation(&p.expression),
        _ => false,
    };
    match op.kind() {
        OpKind::DomProperty => if interp { 0 } else { 1 },
        OpKind::Attribute => 2,
        OpKind::StyleMap => 3,
        OpKind::ClassMap => 4,
        OpKind::StyleProp => 5,
        OpKind::ClassProp => 6,
        _ => 100,
    }
}

/// Ordering priority of a creation operation (lower first).
pub fn create_op_priority(op: &CreateOp) -> (r: u32)
    ensures
        r == spec_create_op_priority(*op),
{
    match op {
        CreateOp::Listener(l) => if l.host_listener && l.is_animation_listener { 0 } else { 1 },
        CreateOp::TwoWayListener(_) => 1,
        CreateOp::Animation(_) => 1,
        CreateOp::AnimationListener(_) => 1,
        _ => 100,
    }
}

/// The target of an update operation, for grouping.
pub open spec fn spec_update_op_target(op: UpdateOp) -> Option<XrefId> {
    match op {
        UpdateOp::Property(p) => Some(p.target),
        UpdateOp::TwoWayProperty(p) => Some(p.target),
        UpdateOp::StyleProp(p) => Some(p.target),
        UpdateOp::ClassProp(p) => Some(p.target),
        UpdateOp::StyleMap(p) => Some(p.target),
        UpdateOp::ClassMap(p) => Some(p.target),
        UpdateOp::Attribute(p) => Some(p.target),
        UpdateOp::DomProperty(p) => Some(p.target),
        UpdateOp::Control(p) => Some(p.target),
        _ => None,
    }
}

/// The target of a creation operation, for grouping.
pub open spec fn spec_create_op_target(op: CreateOp) -> Option<XrefId> {
    match op {
        CreateOp::Listener(l) => Some(l.target),
        CreateOp::TwoWayListener(l) => Some(l.target),
        CreateOp::Animation(l) => Some(l.target),
        CreateOp::AnimationListener(l) => Some(l.target),
        _ => None,
    }
}

fn get_update_op_target(op: &UpdateOp) -> (r: Option<XrefId>)
    ensures
        r == spec_update_op_target(*op),
{
    match op {
        UpdateOp::Property(p) => Some(p.target),
        UpdateOp::TwoWayProperty(p) => Some(p.target),
        UpdateOp::StyleProp(p) => Some(p.target),
        UpdateOp::ClassProp(p) => Some(p.target),
        UpdateOp::StyleMap(p) => Some(p.target),
        UpdateOp::ClassMap(p) => Some(p.target),
        UpdateOp::Attribute(p) => Some(p.target),
        UpdateOp::DomProperty(p) => Some(p.target),
        UpdateOp::Control(p) => Some(p.target),
        _ => None,
    }
}

fn get_create_op_target(op: &CreateOp) -> (r: Option<XrefId>)
    ensures
        r == spec_create_op_target(*op),
{
    match op {
        CreateOp::Listener(l) => Some(l.target),
        CreateOp::TwoWayListener(l) => Some(l.target),
        CreateOp::Animation(l) => Some(l.target),
        CreateOp::AnimationListener(l) => Some(l.target),
        _ => None,
    }
}

/// The priority levels of template update ordering, ascending.
pub open spec fn update_levels() -> Seq<u32> {
    seq![0u32, 1, 2, 3, 4, 5, 6, 7, 8, 9, 100]
}

/// The priority levels of host update ordering, ascending.
pub open spec fn update_levels_host() -> Seq<u32> {
    seq![0u32, 1, 2, 3, 4, 5, 6, 100]
}

/// The priority levels of creation ordering, ascending.
pub open spec fn create_levels() -> Seq<u32> {
    seq![0u32, 1, 100]
}

/// The priority of each operation of a sequence.
pub open spec fn update_keys(s: Seq<UpdateOp>, host: bool) -> Seq<u32> {
    Seq::new(s.len(), |i: int| if host { spec_update_op_priority_host(s[i]) } else { spec_update_op_priority(s[i]) })
}

/// The priority of each creation operation of a sequence.
pub open spec fn create_keys(s: Seq<CreateOp>) -> Seq<u32> {
    Seq::new(s.len(), |i: int| spec_create_op_priority(s[i]))
}

/// Keeps only the last `StyleMap` and the last `ClassMap` of `t`, scanning from
/// the end; `seen_style` / `seen_class` say whether one was already kept.
pub open spec fn keep_last_from(t: Seq<UpdateOp>, seen_style: bool, seen_class: bool) -> Seq<UpdateOp>
    decreases t.len(),
{
    if t.len() == 0 {
        seq![]
    } else {
        let x = t.last();
        let is_sm = x is StyleMap;
        let is_cm = x is ClassMap;
        let rest = keep_last_from(t.drop_last(), seen_style || is_sm, seen_class || is_cm);
        if (is_sm && seen_style) || (is_cm && seen_class) {
            rest
        } else {
            rest.push(x)
        }
    }
}

/// Keeps only the last `StyleMap` and the last `ClassMap` of `t`.
pub open spec fn keep_last(t: Seq<UpdateOp>) -> Seq<UpdateOp> {
    keep_last_from(t, false, false)
}

/// The reordering of one run of update operations.
pub open spec fn spec_reorder_update(g: Seq<UpdateOp>, host: bool) -> Seq<UpdateOp> {
    keep_last(sort_by_levels(g, update_keys(g, host), if host { update_levels_host() } else { update_levels() }))
}

/// The reordering of one run of creation operations.
pub open spec fn spec_reorder_create(g: Seq<CreateOp>) -> Seq<CreateOp> {
    sort_by_levels(g, create_keys(g), create_levels())
}

/// The state of the ordering scan: the operations already emitted, the
/// current run of handled operations, and the target of the run's first operation.
pub struct OrderScan<T> {
    pub out: Seq<T>,
    pub group: Seq<T>,
    pub first: Option<XrefId>,
}

/// One step of the ordering scan over the operation `op`. A run ends at an
/// unhandled operation or at a handled one whose target differs from that of
/// the run's first operation; the reordered run then takes the run's place.
pub open spec fn scan_step<T>(
    st: OrderScan<T>,
    op: T,
    handled: bool,
    target: Option<XrefId>,
    reorder: spec_fn(Seq<T>) -> Seq<T>,
) -> OrderScan<T> {
    let tgt = if handled { target } else { None };
    let flush = !handled || (tgt is Some && st.first is Some && tgt != st.first);
    let (out, group, first) = if flush && st.group.len() > 0 {
        (st.out + reorder(st.group), Seq::<T>::empty(), None::<XrefId>)
    } else {
        (st.out, st.group, st.first)
    };
    if handled {
        OrderScan { out, group: group.push(op), first: if first is None { tgt } else { first } }
    } else {
        OrderScan { out: out.push(op), group, first }
    }
}

/// The ordering scan over a whole sequence.
pub open spec fn scan<T>(
    s: Seq<T>,
    handled: spec_fn(T) -> bool,
    target: spec_fn(T) -> Option<XrefId>,
    reorder: spec_fn(Seq<T>) -> Seq<T>,
) -> OrderScan<T>
    decreases s.len(),
{
    if s.len() == 0 {
        OrderScan { out: seq![], group: seq![], first: None }
    } else {
        let x = s.last();
        scan_step(scan(s.drop_last(), handled, target, reorder), x, handled(x), target(x), reorder)
    }
}

/// The result of the ordering scan: the emitted operations followed by the
/// reordered final run.
pub open spec fn scan_result<T>(st: OrderScan<T>, reorder: spec_fn(Seq<T>) -> Seq<T>) -> Seq<T> {
    if st.group.len() > 0 {
        st.out + reorder(st.group)
    } else {
        st.out
    }
}

/// Which update operations the ordering scan groups.
pub open spec fn update_handled() -> spec_fn(UpdateOp) -> bool {
    |op: UpdateOp| is_handled_update_kind(op.spec_kind())
}

/// The grouping target of update operations.
pub open spec fn update_target() -> spec_fn(UpdateOp) -> Option<XrefId> {
    |op: UpdateOp| spec_update_op_target(op)
}

/// The reordering of a run of update operations.
pub open spec fn update_reorder(host: bool) -> spec_fn(Seq<UpdateOp>) -> Seq<UpdateOp> {
    |g: Seq<UpdateOp>| spec_reorder_update(g, host)
}

/// Which creation operations the ordering scan groups.
pub open spec fn create_handled() -> spec_fn(CreateOp) -> bool {
    |op: CreateOp| is_handled_create_kind(op.spec_kind())
}

/// The grouping target of creation operations.
pub open spec fn create_target() -> spec_fn(CreateOp) -> Option<XrefId> {
    |op: CreateOp| spec_create_op_target(op)
}

/// The reordering of a run of creation operations.
pub open spec fn create_reorder() -> spec_fn(Seq<CreateOp>) -> Seq<CreateOp> {
    |g: Seq<CreateOp>| spec_reorder_create(g)
}

/// The ordered form of a list of update operations.
pub open spec fn ordered_update_ops(s: Seq<UpdateOp>, host: bool) -> Seq<UpdateOp> {
    scan_result(scan(s, update_handled(), update_target(), update_reorder(host)), update_reorder(host))
}

/// The ordered form of a list of creation operations.
pub open spec fn ordered_create_ops(s: Seq<CreateOp>) -> Seq<CreateOp> {
    scan_result(scan(s, create_handled(), create_target(), create_reorder()), create_reorder())
}

/// Consumes `v` and returns its elements in reverse order.
fn reversed<T>(v: Vec<T>) -> (r: Vec<T>)
    ensures
        r@ == v@.reverse(),
{
    let ghost orig = v@;
    let mut v = v;
    let mut r: Vec<T> = Vec::new();
    while v.len() > 0
        invariant
            v@.len() + r@.len() == orig.len(),
            forall|i: int| 0 <= i < v@.len() ==> #[trigger] v@[i] == orig[i],
            forall|j: int| 0 <= j < r@.len() ==> #[trigger] r@[j] == orig[orig.len() - 1 - j],
        decreases v.len(),
    {
        let x = v.pop().unwrap();
        r.push(x);
    }
    assert(r@ =~= orig.reverse());
    r
}

/// Drops every `StyleMap` but the last and every `ClassMap` but the last.
fn keep_last_maps(sorted: Vec<UpdateOp>) -> (r: Vec<UpdateOp>)
    ensures
        r@ == keep_last(sorted@),
{
    let ghost orig = sorted@;
    let mut t = sorted;
    let mut kept_rev: Vec<UpdateOp> = Vec::new();
    let mut seen_style = false;
    let mut seen_class = false;
    while t.len() > 0
        invariant
            t@ == orig.subrange(0, t@.len() as int),
            t@.len() <= orig.len(),
            keep_last(orig) == keep_last_from(t@, seen_style, seen_class) + kept_rev@.reverse(),
        decreases t.len(),
    {
        let ghost t0 = t@;
        let x = t.pop().unwrap();
        let is_sm = match x { UpdateOp::StyleMap(_) => true, _ => false };
        let is_cm = match x { UpdateOp::ClassMap(_) => true, _ => false };
        let drop = (is_sm && seen_style) || (is_cm && seen_class);
        seen_style = seen_style || is_sm;
        seen_class = seen_class || is_cm;
        proof {
            assert(t0.drop_last() =~= t@);
            assert(t@ =~= orig.subrange(0, t@.len() as int));
        }
        if !drop {
            let ghost kr = kept_rev@;
            kept_rev.push(x);
            proof {
                assert(kept_rev@.reverse() =~= seq![x] + kr.reverse());
            }
        }
    }
    reversed(kept_rev)
}

/// Reorders one run of template update operations by priority and keeps only
/// the last `StyleMap` and `ClassMap`.
fn reorder_update_ops(ops: Vec<UpdateOp>) -> (r: Vec<UpdateOp>)
    ensures
        r@ == spec_reorder_update(ops@, false),
{
    reorder_update_ops_with(ops, false)
}

/// Reorders one run of host update operations by priority and keeps only the
/// last `StyleMap` and `ClassMap`.
fn reorder_update_ops_host(ops: Vec<UpdateOp>) -> (r: Vec<UpdateOp>)
    ensures
        r@ == spec_reorder_update(ops@, true),
{
    reorder_update_ops_with(ops, true)
}

fn reorder_update_ops_with(ops: Vec<UpdateOp>, host: bool) -> (r: Vec<UpdateOp>)
    ensures
        r@ == spec_reorder_update(ops@, host),
{
    let mut keys: Vec<u32> = Vec::new();
    let mut i: usize = 0;
    while i < ops.len()
        invariant
            i <= ops@.len(),
            keys@ == update_keys(ops@, host).subrange(0, i as int),
        decreases ops.len() - i,
    {
        let p = if host { update_op_priority_host(&ops[i]) } else { update_op_priority(&ops[i]) };
        keys.push(p);
        i = i + 1;
        proof {
            assert(keys@ =~= update_keys(ops@, host).subrange(0, i as int));
        }
    }
    assert(keys@ =~= update_keys(ops@, host));
    let levels: Vec<u32> = if host { vec![0, 1, 2, 3, 4, 5, 6, 100] } else { vec![0, 1, 2, 3, 4, 5, 6, 7, 8, 9, 100] };
    assert(levels@ =~= if host { update_levels_host() } else { update_levels() });
    let sorted = stable_sort_by_levels(ops, &keys, &levels);
    keep_last_maps(sorted)
}

/// Reorders one run of creation operations by priority (stable).
fn reorder_create_ops(ops: Vec<CreateOp>) -> (r: Vec<CreateOp>)
    ensures
        r@ == spec_reorder_create(ops@),
{
    let mut keys: Vec<u32> = Vec::new();
    let mut i: usize = 0;
    while i < ops.len()
        invariant
            i <= ops@.len(),
            keys@ == create_keys(ops@).subrange(0, i as int),
        decreases ops.len() - i,
    {
        let p = create_op_priority(&ops[i]);
        keys.push(p);
        i = i + 1;
        proof {
            assert(keys@ =~= create_keys(ops@).subrange(0, i as int));
        }
    }
    assert(keys@ =~= create_keys(ops@));
    let levels: Vec<u32> = vec![0, 1, 100];
    assert(levels@ =~= create_levels());
    stable_sort_by_levels(ops, &keys, &levels)
}

fn append_all<T>(out: &mut Vec<T>, items: Vec<T>)
    ensures
        final(out)@ == old(out)@ + items@,
{
    let mut items = items;
    out.append(&mut items);
}

/// Orders a list of update operations in place (`host` selects the host-binding
/// priorities).
fn order_update_ops_with(list: &mut Vec<UpdateOp>, host: bool)
    ensures
        final(list)@ == ordered_update_ops(old(list)@, host),
{
    let ghost orig = list@;
    let mut taken: Vec<_> = Vec::new();
    std::mem::swap(list, &mut taken);
    let mut pending = reversed(taken);
    let mut out: Vec<UpdateOp> = Vec::new();
    let mut group: Vec<UpdateOp> = Vec::new();
    let mut first: Option<XrefId> = None;
    let ghost h = update_handled();
    let ghost t = update_target();
    let ghost r = update_reorder(host);
    while pending.len() > 0
        invariant
            pending@.len() <= orig.len(),
            forall|j: int| 0 <= j < pending@.len() ==> #[trigger] pending@[j] == orig[orig.len() - 1 - j],
            h == update_handled(),
            t == update_target(),
            r == update_reorder(host),
            ({
                let st = scan(orig.subrange(0, orig.len() - pending@.len()), h, t, r);
                &&& out@ == st.out
                &&& group@ == st.group
                &&& first == st.first
            }),
        decreases pending.len(),
    {
        let ghost k = orig.len() - pending@.len();
        let op = pending.pop().unwrap();
        proof {
            assert(orig.subrange(0, k + 1).drop_last() =~= orig.subrange(0, k));
            assert(orig.subrange(0, k + 1).last() == op);
        }
        let handled = is_handled_update_op_kind(op.kind());
        let tgt = if handled { get_update_op_target(&op) } else { None };
        let flush = !handled || (tgt.is_some() && first.is_some() && tgt != first);
        if flush && group.len() > 0 {
            let mut g: Vec<_> = Vec::new();
            std::mem::swap(&mut group, &mut g);
            let reordered = if host { reorder_update_ops_host(g) } else { reorder_update_ops(g) };
            append_all(&mut out, reordered);
            first = None;
        }
        if handled {
            group.push(op);
            if first.is_none() {
                first = tgt;
            }
        } else {
            out.push(op);
        }
    }
    proof {
        assert(orig.subrange(0, orig.len() as int) =~= orig);
    }
    if group.len() > 0 {
        let reordered = if host { reorder_update_ops_host(group) } else { reorder_update_ops(group) };
        append_all(&mut out, reordered);
    }
    *list = out;
}

/// Orders a list of template update operations in place.
fn order_update_ops(list: &mut Vec<UpdateOp>)
    ensures
        final(list)@ == ordered_update_ops(old(list)@, false),
{
    order_update_ops_with(list, false);
}

/// Orders a list of host update operations in place.
fn order_update_ops_host(list: &mut Vec<UpdateOp>)
    ensures
        final(list)@ == ordered_update_ops(old(list)@, true),
{
    order_update_ops_with(list, true);
}

/// Orders a list of creation operations in place.
fn order_create_ops(list: &mut Vec<CreateOp>)
    ensures
        final(list)@ == ordered_create_ops(old(list)@),
{
    let ghost orig = list@;
    let mut taken: Vec<_> = Vec::new();
    std::mem::swap(list, &mut taken);
    let mut pending = reversed(taken);
    let mut out: Vec<CreateOp> = Vec::new();
    let mut group: Vec<CreateOp> = Vec::new();
    let mut first: Option<XrefId> = None;
    let ghost h = create_handled();
    let ghost t = create_target();
    let ghost r = create_reorder();
    while pending.len() > 0
        invariant
            pending@.len() <= orig.len(),
            forall|j: int| 0 <= j < pending@.len() ==> #[trigger] pending@[j] == orig[orig.len() - 1 - j],
            h == create_handled(),
            t == create_target(),
            r == create_reorder(),
            ({
                let st = scan(orig.subrange(0, orig.len() - pending@.len()), h, t, r);
                &&& out@ == st.out
                &&& group@ == st.group
                &&& first == st.first
            }),
        decreases pending.len(),
    {
        let ghost k = orig.len() - pending@.len();
        let op = pending.pop().unwrap();
        proof {
            assert(orig.subrange(0, k + 1).drop_last() =~= orig.subrange(0, k));
            assert(orig.subrange(0, k + 1).last() == op);
        }
        let handled = is_handled_create_op_kind(op.kind());
        let tgt = if handled { get_create_op_target(&op) } else { None };
        let flush = !handled || (tgt.is_some() && first.is_some() && tgt != first);
        if flush && group.len() > 0 {
            let mut g: Vec<_> = Vec::new();
            std::mem::swap(&mut group, &mut g);
            let reordered = reorder_create_ops(g);
            append_all(&mut out, reordered);
            first = None;
        }
        if handled {
            group.push(op);
            if first.is_none() {
                first = tgt;
            }
        } else {
            out.push(op);
        }
    }
    proof {
        assert(orig.subrange(0, orig.len() as int) =~= orig);
    }
    if group.len() > 0 {
        let reordered = reorder_create_ops(group);
        append_all(&mut out, reordered);
    }
    *list = out;
}

/// Whether the view `after` is `before` with its operations ordered.
pub open spec fn view_ordered(before: ViewCompilationUnit, after: ViewCompilationUnit) -> bool {
    &&& after.create@ == ordered_create_ops(before.create@)
    &&& after.update@ == ordered_update_ops(before.update@, false)
    &&& after.xref == before.xref
    &&& after.decl_count == before.decl_count
    &&& after.functions == before.functions
}

/// Whether the job `after` is `before` with the operations of every view ordered.
pub open spec fn job_ordered(before: ComponentCompilationJob, after: ComponentCompilationJob) -> bool {
    &&& view_ordered(before.root, after.root)
    &&& after.views@.len() == before.views@.len()
    &&& forall|i: int| 0 <= i < before.views@.len() ==> view_ordered(before.views@[i], #[trigger] after.views@[i])
    &&& after.consts == before.consts
    &&& after.diagnostics == before.diagnostics
    &&& after.next_xref == before.next_xref
    &&& after.compatibility_mode == before.compatibility_mode
    &&& after.mode == before.mode
    &&& after.enable_debug_locations == before.enable_debug_locations
    &&& after.relative_template_path == before.relative_template_path
    &&& after.template_source == before.template_source
}

/// Orders the operations of one view.
fn order_view(view: &mut ViewCompilationUnit)
    ensures
        view_ordered(*old(view), *final(view)),
{
    order_create_ops(&mut view.create);
    order_update_ops(&mut view.update);
}

/// Orders operations for proper execution sequence in the root view and every
/// embedded view of a template compilation.
pub fn order_ops(job: &mut ComponentCompilationJob)
    ensures
        job_ordered(*old(job), *final(job)),
{
    order_view(&mut job.root);
    let n = job.views.len();
    let mut i: usize = 0;
    while i < n
        invariant
            n == job.views@.len(),
            n == old(job).views@.len(),
            i <= n,
            view_ordered(old(job).root, job.root),
            forall|j: int| 0 <= j < i ==> view_ordered(old(job).views@[j], #[trigger] job.views@[j]),
            forall|j: int| i <= j < n ==> #[trigger] job.views@[j] == old(job).views@[j],
            job.consts == old(job).consts,
            job.diagnostics == old(job).diagnostics,
            job.next_xref == old(job).next_xref,
            job.compatibility_mode == old(job).compatibility_mode,
            job.mode == old(job).mode,
            job.enable_debug_locations == old(job).enable_debug_locations,
            job.relative_template_path == old(job).relative_template_path,
            job.template_source == old(job).template_source,
        decreases n - i,
    {
        order_view(&mut job.views[i]);
        i = i + 1;
    }
}

/// Whether the host job `after` is `before` with its operations ordered (update
/// operations by the host priorities).
pub open spec fn host_job_ordered(before: HostBindingCompilationJob, after: HostBindingCompilationJob) -> bool {
    &&& after.root.create@ == ordered_create_ops(before.root.create@)
    &&& after.root.update@ == ordered_update_ops(before.root.update@, true)
    &&& after.diagnostics == before.diagnostics
    &&& host_frame_kept(before, after)
}

/// Orders operations for host binding compilation (only the root unit, with
/// host-specific update ordering).
pub fn order_ops_for_host(job: &mut HostBindingCompilationJob)
    ensures
        host_job_ordered(*old(job), *final(job)),
{
    order_create_ops(&mut job.root.create);
    order_update_ops_host(&mut job.root.update);
}

/// Whether `a` holds each value at most as often as `b`, and each value that
/// satisfies `keep` exactly as often.
pub open spec fn kept_from<T>(a: Multiset<T>, b: Multiset<T>, keep: spec_fn(T) -> bool) -> bool {
    forall|x: T| #[trigger] a.count(x) <= b.count(x) && (keep(x) ==> a.count(x) == b.count(x))
}

proof fn lemma_kept_trans<T>(a: Multiset<T>, b: Multiset<T>, c: Multiset<T>, keep: spec_fn(T) -> bool)
    requires
        kept_from(a, b, keep),
        kept_from(b, c, keep),
    ensures
        kept_from(a, c, keep),
{
    assert forall|x: T| #[trigger] a.count(x) <= c.count(x) && (keep(x) ==> a.count(x) == c.count(x)) by {
        assert(b.count(x) <= c.count(x));
    }
}

proof fn lemma_kept_add<T>(a1: Multiset<T>, b1: Multiset<T>, a2: Multiset<T>, b2: Multiset<T>, keep: spec_fn(T) -> bool)
    requires
        kept_from(a1, b1, keep),
        kept_from(a2, b2, keep),
    ensures
        kept_from(a1.add(a2), b1.add(b2), keep),
{
    broadcast use vstd::multiset::group_multiset_axioms;

    assert forall|x: T| #[trigger] a1.add(a2).count(x) <= b1.add(b2).count(x) && (keep(x) ==> a1.add(a2).count(x)
        == b1.add(b2).count(x)) by {
        assert(a1.count(x) <= b1.count(x));
        assert(a2.count(x) <= b2.count(x));
    }
}

proof fn lemma_kept_insert<T>(a: Multiset<T>, b: Multiset<T>, y: T, keep: spec_fn(T) -> bool)
    requires
        kept_from(a, b, keep),
    ensures
        kept_from(a.insert(y), b.insert(y), keep),
{
    broadcast use vstd::multiset::group_multiset_axioms;

    assert forall|x: T| #[trigger] a.insert(y).count(x) <= b.insert(y).count(x) && (keep(x) ==> a.insert(y).count(x)
        == b.insert(y).count(x)) by {
        assert(a.count(x) <= b.count(x));
    }
}

proof fn lemma_kept_refl<T>(a: Multiset<T>, keep: spec_fn(T) -> bool)
    ensures
        kept_from(a, a, keep),
{
}

/// The ordering scan keeps what each reordering of a run keeps.
proof fn lemma_scan_kept<T>(
    s: Seq<T>,
    handled: spec_fn(T) -> bool,
    target: spec_fn(T) -> Option<XrefId>,
    reorder: spec_fn(Seq<T>) -> Seq<T>,
    keep: spec_fn(T) -> bool,
)
    requires
        forall|g: Seq<T>| kept_from(#[trigger] reorder(g).to_multiset(), g.to_multiset(), keep),
    ensures
        kept_from(scan_result(scan(s, handled, target, reorder), reorder).to_multiset(), s.to_multiset(), keep),
        kept_from(
            (scan(s, handled, target, reorder).out + scan(s, handled, target, reorder).group).to_multiset(),
            s.to_multiset(),
            keep,
        ),
    decreases s.len(),
{
    broadcast use vstd::seq_lib::lemma_multiset_commutative, vstd::seq_lib::group_to_multiset_ensures;

    let st = scan(s, handled, target, reorder);
    if s.len() == 0 {
        assert(st.out + st.group =~= Seq::<T>::empty());
    } else {
        let t = s.drop_last();
        let op = s.last();
        lemma_scan_kept(t, handled, target, reorder, keep);
        let p = scan(t, handled, target, reorder);
        let tgt = if handled(op) { target(op) } else { None };
        let flush = !handled(op) || (tgt is Some && p.first is Some && tgt != p.first);
        assert(s == t.push(op));
        let (out, group) = if flush && p.group.len() > 0 {
            (p.out + reorder(p.group), Seq::<T>::empty())
        } else {
            (p.out, p.group)
        };
        if flush && p.group.len() > 0 {
            lemma_kept_refl(p.out.to_multiset(), keep);
            lemma_kept_add(p.out.to_multiset(), p.out.to_multiset(), reorder(p.group).to_multiset(), p.group.to_multiset(), keep);
            assert(out + group =~= p.out + reorder(p.group));
            lemma_kept_trans((out + group).to_multiset(), (p.out + p.group).to_multiset(), t.to_multiset(), keep);
        }
        assert(kept_from((out + group).to_multiset(), t.to_multiset(), keep));
        lemma_kept_insert((out + group).to_multiset(), t.to_multiset(), op, keep);
        if handled(op) {
            assert(st.out + st.group =~= (out + group).push(op));
        } else {
            assert(st.out + st.group == out.push(op) + group);
            assert((out.push(op) + group).to_multiset() =~= (out + group).push(op).to_multiset());
        }
        assert(kept_from((st.out + st.group).to_multiset(), s.to_multiset(), keep));
    }
    if st.group.len() > 0 {
        lemma_kept_refl(st.out.to_multiset(), keep);
        lemma_kept_add(st.out.to_multiset(), st.out.to_multiset(), reorder(st.group).to_multiset(), st.group.to_multiset(), keep);
        lemma_kept_trans(
            scan_result(st, reorder).to_multiset(),
            (st.out + st.group).to_multiset(),
            s.to_multiset(),
            keep,
        );
    }
}

/// Whether an update operation is a style map or a class map binding.
pub open spec fn is_map_binding(op: UpdateOp) -> bool {
    op is StyleMap || op is ClassMap
}

proof fn lemma_keep_last_kept(t: Seq<UpdateOp>, seen_style: bool, seen_class: bool)
    ensures
        kept_from(keep_last_from(t, seen_style, seen_class).to_multiset(), t.to_multiset(), |x: UpdateOp| !is_map_binding(x)),
    decreases t.len(),
{
    broadcast use vstd::seq_lib::group_to_multiset_ensures, vstd::multiset::group_multiset_axioms;

    let keep = |x: UpdateOp| !is_map_binding(x);
    if t.len() == 0 {
        assert(keep_last_from(t, seen_style, seen_class).to_multiset() =~= t.to_multiset());
    } else {
        let x = t.last();
        let is_sm = x is StyleMap;
        let is_cm = x is ClassMap;
        let r = keep_last_from(t.drop_last(), seen_style || is_sm, seen_class || is_cm);
        lemma_keep_last_kept(t.drop_last(), seen_style || is_sm, seen_class || is_cm);
        assert(t == t.drop_last().push(x));
        if (is_sm && seen_style) || (is_cm && seen_class) {
            assert forall|y: UpdateOp| #[trigger] r.to_multiset().count(y) <= t.to_multiset().count(y) && (keep(y)
                ==> r.to_multiset().count(y) == t.to_multiset().count(y)) by {
                assert(r.to_multiset().count(y) <= t.drop_last().to_multiset().count(y));
            }
        } else {
            lemma_kept_insert(r.to_multiset(), t.drop_last().to_multiset(), x, keep);
        }
    }
}

/// Ordering the creation operations of a view only moves them: the result
/// holds the same operations, each as often, as the input.
pub proof fn law_create_ordering_permutes(s: Seq<CreateOp>)
    ensures
        ordered_create_ops(s).to_multiset() == s.to_multiset(),
{
    let keep = |x: CreateOp| true;
    assert forall|g: Seq<CreateOp>| kept_from(#[trigger] create_reorder()(g).to_multiset(), g.to_multiset(), keep) by {
        let lv = create_levels();
        let ks = create_keys(g);
        assert forall|i: int| 0 <= i < g.len() implies lv.contains(#[trigger] ks[i]) by {
            let k = spec_create_op_priority(g[i]);
            if k == 0 {
                assert(lv[0] == k);
            } else if k == 1 {
                assert(lv[1] == k);
            } else {
                assert(lv[2] == k);
            }
        }
        lemma_sort_by_levels_permutes(g, ks, lv);
    }
    lemma_scan_kept(s, create_handled(), create_target(), create_reorder(), keep);
    assert(ordered_create_ops(s).to_multiset() =~= s.to_multiset());
}

/// Ordering the update operations of a view (or a host) drops nothing but
/// repeated style and class map bindings: the result holds no operation more
/// often than the input, and every other operation exactly as often.
pub proof fn law_update_ordering_keeps(s: Seq<UpdateOp>, host: bool)
    ensures
        kept_from(ordered_update_ops(s, host).to_multiset(), s.to_multiset(), |x: UpdateOp| !is_map_binding(x)),
{
    let keep = |x: UpdateOp| !is_map_binding(x);
    assert forall|g: Seq<UpdateOp>| kept_from(#[trigger] update_reorder(host)(g).to_multiset(), g.to_multiset(), keep) by {
        let lv = if host { update_levels_host() } else { update_levels() };
        let ks = update_keys(g, host);
        assert forall|i: int| 0 <= i < g.len() implies lv.contains(#[trigger] ks[i]) by {
            let k = ks[i];
            if host {
                if k == 100 {
                    assert(lv[7] == k);
                } else {
                    assert(lv[k as int] == k);
                }
            } else {
                if k == 100 {
                    assert(lv[10] == k);
                } else {
                    assert(lv[k as int] == k);
                }
            }
        }
        let sorted = sort_by_levels(g, ks, lv);
        lemma_sort_by_levels_permutes(g, ks, lv);
        lemma_keep_last_kept(sorted, false, false);
    }
    lemma_scan_kept(s, update_handled(), update_target(), update_reorder(host), keep);
}

/// In a template's update ordering the style and class bindings go first, in
/// this order: a style map, a class map, style properties, class properties;
/// every other handled binding comes after all of them.
pub proof fn law_template_style_class_priorities(sm: UpdateOp, cm: UpdateOp, sp: UpdateOp, cp: UpdateOp, other: UpdateOp)
    requires
        sm is StyleMap,
        cm is ClassMap,
        sp is StyleProp,
        cp is ClassProp,
        is_handled_update_kind(other.spec_kind()),
        !(other is StyleMap || other is ClassMap || other is StyleProp || other is ClassProp),
    ensures
        spec_update_op_priority(sm) == 0,
        spec_update_op_priority(sm) < spec_update_op_priority(cm),
        spec_update_op_priority(cm) < spec_update_op_priority(sp),
        spec_update_op_priority(sp) < spec_update_op_priority(cp),
        spec_update_op_priority(cp) < spec_update_op_priority(other),
{
}

/// A class property binding followed by a class map binding on the same
/// element comes out of the template ordering with the class map first.
pub proof fn law_class_map_before_class_property(cp: UpdateOp, cm: UpdateOp)
    requires
        cp is ClassProp,
        cm is ClassMap,
        spec_update_op_target(cp) == spec_update_op_target(cm),
    ensures
        ordered_update_ops(seq![cp, cm], false) == seq![cm, cp],
{
    let s = seq![cp, cm];
    assert(s.drop_last() =~= seq![cp]);
    assert(seq![cp].drop_last() =~= Seq::<UpdateOp>::empty());
    let st0 = scan(Seq::<UpdateOp>::empty(), update_handled(), update_target(), update_reorder(false));
    let st1 = scan(seq![cp], update_handled(), update_target(), update_reorder(false));
    let st2 = scan(s, update_handled(), update_target(), update_reorder(false));
    assert(st1.group =~= seq![cp]);
    assert(st2.group =~= seq![cp, cm]);
    assert(st2.out =~= Seq::<UpdateOp>::empty());
    let ks = update_keys(s, false);
    assert(ks =~= seq![3u32, 1u32]);
    let lv = update_levels();
    reveal_with_fuel(sort_by_levels, 12);
    reveal_with_fuel(bucket, 3);
    let sorted = sort_by_levels(s, ks, lv);
    assert(sorted =~= seq![cm, cp]);
    reveal_with_fuel(keep_last_from, 3);
    assert(seq![cm, cp].drop_last() =~= seq![cm]);
    assert(seq![cm].drop_last() =~= Seq::<UpdateOp>::empty());
    assert(keep_last(sorted) =~= seq![cm, cp]);
}

/// After the class properties, a template orders interpolated attributes,
/// then interpolated properties, then plain and two-way properties (together),
/// then plain attributes, controls and DOM properties; any operation that is
/// not a binding comes last.
pub proof fn law_template_binding_priorities(
    cp: UpdateOp, ai: UpdateOp, pi: UpdateOp, pp: UpdateOp, tw: UpdateOp, at: UpdateOp, co: UpdateOp, dp: UpdateOp, x: UpdateOp,
)
    requires
        cp is ClassProp,
        ai matches UpdateOp::Attribute(b) && b.expression is Interpolation,
        pi matches UpdateOp::Property(b) && b.expression is Interpolation,
        pp matches UpdateOp::Property(b) && !(b.expression is Interpolation),
        tw is TwoWayProperty,
        at matches UpdateOp::Attribute(b) && !(b.expression is Interpolation),
        co is Control,
        dp is DomProperty,
        !is_handled_update_kind(x.spec_kind()),
    ensures
        spec_update_op_priority(cp) < spec_update_op_priority(ai),
        spec_update_op_priority(ai) < spec_update_op_priority(pi),
        spec_update_op_priority(pi) < spec_update_op_priority(pp),
        spec_update_op_priority(pp) == spec_update_op_priority(tw),
        spec_update_op_priority(tw) < spec_update_op_priority(at),
        spec_update_op_priority(at) < spec_update_op_priority(co),
        spec_update_op_priority(co) < spec_update_op_priority(dp),
        spec_update_op_priority(dp) < spec_update_op_priority(x),
{
}

/// Host bindings are ordered: interpolated DOM properties, plain DOM
/// properties, attributes, style maps, class maps, style properties, class
/// properties, then everything else.
pub proof fn law_host_binding_priorities(
    di: UpdateOp, dp: UpdateOp, at: UpdateOp, sm: UpdateOp, cm: UpdateOp, sp: UpdateOp, cp: UpdateOp, x: UpdateOp,
)
    requires
        di matches UpdateOp::DomProperty(b) && b.expression is Interpolation,
        dp matches UpdateOp::DomProperty(b) && !(b.expression is Interpolation),
        at is Attribute,
        sm is StyleMap,
        cm is ClassMap,
        sp is StyleProp,
        cp is ClassProp,
        !(x is DomProperty || x is Attribute || x is StyleMap || x is ClassMap || x is StyleProp || x is ClassProp),
    ensures
        spec_update_op_priority_host(di) == 0,
        spec_update_op_priority_host(di) < spec_update_op_priority_host(dp),
        spec_update_op_priority_host(dp) < spec_update_op_priority_host(at),
        spec_update_op_priority_host(at) < spec_update_op_priority_host(sm),
        spec_update_op_priority_host(sm) < spec_update_op_priority_host(cm),
        spec_update_op_priority_host(cm) < spec_update_op_priority_host(sp),
        spec_update_op_priority_host(sp) < spec_update_op_priority_host(cp),
        spec_update_op_priority_host(cp) < spec_update_op_priority_host(x),
{
}

/// Creation ordering puts a legacy animation host listener before every other
/// listener, two-way listener or animation, and those before any operation that
/// is not reordered.
pub proof fn law_create_priorities(legacy: CreateOp, other: CreateOp, x: CreateOp)
    requires
        legacy matches CreateOp::Listener(l) && l.host_listener && l.is_animation_listener,
        (other matches CreateOp::Listener(l) && !(l.host_listener && l.is_animation_listener))
            || other is TwoWayListener || other is AnimationListener || other is Animation,
        !is_handled_create_kind(x.spec_kind()),
    ensures
        spec_create_op_priority(legacy) < spec_create_op_priority(other),
        spec_create_op_priority(other) < spec_create_op_priority(x),
{
    assert(!(x is Listener || x is TwoWayListener || x is AnimationListener || x is Animation));
}

} // verus!
