//! Pipe creation phase.
//!
//! Every pipe binding found in a view's update operations gets a `Pipe`
//! creation operation, in the order the bindings are first seen (the arguments
//! of a binding before the binding itself), one per pipe. Normally the new
//! operations go to the end of the creation block; in compatibility mode a pipe
//! goes right after the element its update operation targets (and after the
//! pipes that already follow that element).

use vstd::prelude::*;
use std::collections::HashSet;
use crate::expr_transform::update_op_expr;
use crate::ir::{
    ev, ev_list, lemma_ev_list, CompatibilityMode, ComponentCompilationJob, CreateOp, Expr, IrExpression, PipeOp,
    SlotId, UpdateOp, ViewCompilationUnit, XrefId,
};

verus! {

broadcast use vstd::std_specs::hash::group_hash_axioms;

/// A pipe binding found in an update operation.
pub struct PipeInfo {
    /// The pipe's cross-reference id.
    pub xref: XrefId,
    /// The slot the binding holds for the pipe.
    pub target_slot: Option<SlotId>,
    /// The pipe's name.
    pub name: String,
    /// The number of arguments of the binding.
    pub num_args: u32,
    /// The element the update operation that holds the binding targets.
    pub target_element: Option<XrefId>,
}

/// The pipe bindings of an expression, in visiting order: the children of a
/// node before the node; only the listed kinds of nodes are entered.
pub open spec fn pipes_in(e: Expr, tgt: Option<XrefId>) -> Seq<PipeInfo>
    decreases e, 1nat,
{
    match e {
        Expr::PipeBinding { target, target_slot, name, args, .. } => pipes_in_list(args, tgt).push(
            PipeInfo { xref: target, target_slot, name, num_args: args.len() as u32, target_element: tgt },
        ),
        Expr::ResolvedCall { receiver, args } => pipes_in(*receiver, tgt) + pipes_in_list(args, tgt),
        Expr::ResolvedPropertyRead { receiver, .. } => pipes_in(*receiver, tgt),
        Expr::Binary { lhs, rhs, .. } => pipes_in(*lhs, tgt) + pipes_in(*rhs, tgt),
        Expr::Ternary { condition, true_expr, false_expr } =>
            pipes_in(*condition, tgt) + pipes_in(*true_expr, tgt) + pipes_in(*false_expr, tgt),
        Expr::Not(x) => pipes_in(*x, tgt),
        Expr::Interpolation { expressions, .. } => pipes_in_list(expressions, tgt),
        Expr::DerivedLiteralArray { entries, .. } => pipes_in_list(entries, tgt),
        Expr::LiteralArray(v) => pipes_in_list(v, tgt),
        _ => seq![],
    }
}

/// The pipe bindings of a list of expressions, left to right.
pub open spec fn pipes_in_list(s: Seq<Expr>, tgt: Option<XrefId>) -> Seq<PipeInfo>
    decreases s, 0nat,
{
    if s.len() == 0 {
        seq![]
    } else {
        pipes_in_list(s.drop_last(), tgt) + pipes_in(s.last(), tgt)
    }
}

/// The element an update operation targets (none for a variable).
pub open spec fn update_target(op: UpdateOp) -> Option<XrefId> {
    match op {
        UpdateOp::Property(b) | UpdateOp::TwoWayProperty(b) | UpdateOp::DomProperty(b) | UpdateOp::Attribute(b)
        | UpdateOp::StyleProp(b) | UpdateOp::ClassProp(b) | UpdateOp::StyleMap(b) | UpdateOp::ClassMap(b)
        | UpdateOp::Control(b) | UpdateOp::Binding(b) | UpdateOp::InterpolateText(b) | UpdateOp::AnimationBinding(b)
        | UpdateOp::Repeater(b) | UpdateOp::Conditional(b) | UpdateOp::StoreLet(b) | UpdateOp::DeferWhen(b) =>
            Some(b.target),
        UpdateOp::I18nExpression(b) => Some(b.target),
        _ => None,
    }
}

/// The pipe bindings of one update operation.
pub open spec fn pipes_of_op(op: UpdateOp) -> Seq<PipeInfo> {
    match update_op_expr(op) {
        Some(e) => pipes_in(ev(e), update_target(op)),
        None => seq![],
    }
}

/// The pipe bindings of a list of update operations, in order.
pub open spec fn pipes_of_ops(s: Seq<UpdateOp>) -> Seq<PipeInfo>
    decreases s.len(),
{
    if s.len() == 0 {
        seq![]
    } else {
        pipes_of_ops(s.drop_last()) + pipes_of_op(s.last())
    }
}

/// The first binding of each pipe, in order.
pub open spec fn first_per_pipe(s: Seq<PipeInfo>) -> Seq<PipeInfo>
    decreases s.len(),
{
    if s.len() == 0 {
        seq![]
    } else {
        let d = first_per_pipe(s.drop_last());
        if pipe_xrefs(s.drop_last()).contains(s.last().xref.0) {
            d
        } else {
            d.push(s.last())
        }
    }
}

/// The (numbers of the) pipes bound in a sequence of bindings.
pub open spec fn pipe_xrefs(s: Seq<PipeInfo>) -> Set<u32> {
    Set::new(|x: u32| exists|i: int| 0 <= i < s.len() && (#[trigger] s[i]).xref.0 == x)
}

/// The cross-reference id of a creation operation that has one.
pub open spec fn create_op_xref(op: CreateOp) -> Option<XrefId> {
    match op {
        CreateOp::ElementStart(e) | CreateOp::Element(e) | CreateOp::ContainerStart(e) | CreateOp::Container(e)
        | CreateOp::DeclareLet(e) => Some(e.xref),
        CreateOp::Projection(e) => Some(e.xref),
        CreateOp::Defer(e) => Some(e.xref),
        CreateOp::Template(t) | CreateOp::RepeaterCreate(t) | CreateOp::Conditional(t)
        | CreateOp::ConditionalBranch(t) => Some(t.xref),
        CreateOp::Text(t) => Some(t.xref),
        CreateOp::Pipe(p) => Some(p.xref),
        CreateOp::I18nStart(i) | CreateOp::I18n(i) | CreateOp::IcuStart(i) => Some(i.xref),
        CreateOp::IcuPlaceholder(i) => Some(i.xref),
        _ => None,
    }
}

/// The first position at or after `k` of an operation with the id `x`.
pub open spec fn find_xref(s: Seq<CreateOp>, x: XrefId, k: int) -> Option<int>
    decreases s.len() - k,
{
    if k < 0 || k >= s.len() {
        None
    } else if create_op_xref(s[k]) == Some(x) {
        Some(k)
    } else {
        find_xref(s, x, k + 1)
    }
}

/// The first position at or after `k` of an operation that is not a pipe.
pub open spec fn find_non_pipe(s: Seq<CreateOp>, k: int) -> Option<int>
    decreases s.len() - k,
{
    if k < 0 || k >= s.len() {
        None
    } else if !(s[k] is Pipe) {
        Some(k)
    } else {
        find_non_pipe(s, k + 1)
    }
}

/// The creation operation of a pipe.
pub open spec fn pipe_op(p: PipeInfo) -> CreateOp {
    CreateOp::Pipe(PipeOp { xref: p.xref, slot: p.target_slot, name: p.name, num_args: p.num_args })
}

/// Adds one pipe's creation operation: in compatibility mode after its target
/// element and the pipes that follow it, otherwise (or when that position is
/// not found) at the end.
pub open spec fn insert_pipe(s: Seq<CreateOp>, p: PipeInfo, mode: CompatibilityMode) -> Seq<CreateOp> {
    if mode is TemplateDefinitionBuilder && p.target_element is Some {
        match find_xref(s, p.target_element->0, 0) {
            Some(k) => match find_non_pipe(s, k + 1) {
                Some(j) => s.insert(j, pipe_op(p)),
                None => s.push(pipe_op(p)),
            },
            None => s.push(pipe_op(p)),
        }
    } else {
        s.push(pipe_op(p))
    }
}

/// Adds the creation operations of the pipes `ps`, in order.
pub open spec fn add_pipes(s: Seq<CreateOp>, ps: Seq<PipeInfo>, mode: CompatibilityMode) -> Seq<CreateOp>
    decreases ps.len(),
{
    if ps.len() == 0 {
        s
    } else {
        insert_pipe(add_pipes(s, ps.drop_last(), mode), ps.last(), mode)
    }
}

/// Whether the view `after` is `before` with a creation operation for each pipe
/// bound in its update operations.
pub open spec fn view_pipes_created(before: ViewCompilationUnit, after: ViewCompilationUnit, mode: CompatibilityMode) -> bool {
    &&& after.create@ == add_pipes(before.create@, first_per_pipe(pipes_of_ops(before.update@)), mode)
    &&& after.update == before.update
    &&& after.xref == before.xref
    &&& after.decl_count == before.decl_count
    &&& after.functions == before.functions
}

/// Whether the job `after` is `before` with pipe creation operations in every view.
pub open spec fn job_pipes_created(before: ComponentCompilationJob, after: ComponentCompilationJob) -> bool {
    &&& view_pipes_created(before.root, after.root, before.compatibility_mode)
    &&& after.views@.len() == before.views@.len()
    &&& forall|i: int|
        0 <= i < before.views@.len() ==> view_pipes_created(
            before.views@[i],
            #[trigger] after.views@[i],
            before.compatibility_mode,
        )
    &&& after.consts == before.consts
    &&& after.diagnostics == before.diagnostics
    &&& after.next_xref == before.next_xref
    &&& after.compatibility_mode == before.compatibility_mode
    &&& after.mode == before.mode
    &&& after.enable_debug_locations == before.enable_debug_locations
    &&& after.relative_template_path == before.relative_template_path
    &&& after.template_source == before.template_source
}

/// Appends the pipe bindings of an expression to `out`.
fn collect_pipe_bindings(e: &IrExpression, tgt: Option<XrefId>, out: &mut Vec<PipeInfo>)
    ensures
        final(out)@ == old(out)@ + pipes_in(ev(*e), tgt),
    decreases *e, 1nat,
{
    let ghost o0 = out@;
    match e {
        IrExpression::PipeBinding { target, target_slot, name, args, .. } => {
            proof {
                assert forall|i: int| 0 <= i < args@.len() implies decreases_to!(*e => #[trigger] args@[i]) by {
                    assert(decreases_to!(*args => args@));
                    assert(decreases_to!(args@ => args@[i]));
                }
                lemma_ev_list(args@);
            }
            collect_pipe_bindings_list(args, tgt, out, Ghost(*e));
            let num_args = #[verifier::truncate] (args.len() as u32);
            out.push(PipeInfo { xref: *target, target_slot: *target_slot, name: name.clone(), num_args, target_element: tgt });
            assert(out@ =~= o0 + pipes_in(ev(*e), tgt));
        },
        IrExpression::ResolvedCall { receiver, args } => {
            proof {
                assert forall|i: int| 0 <= i < args@.len() implies decreases_to!(*e => #[trigger] args@[i]) by {
                    assert(decreases_to!(*args => args@));
                    assert(decreases_to!(args@ => args@[i]));
                }
            }
            collect_pipe_bindings(receiver, tgt, out);
            collect_pipe_bindings_list(args, tgt, out, Ghost(*e));
            assert(out@ =~= o0 + pipes_in(ev(*e), tgt));
        },
        IrExpression::ResolvedPropertyRead { receiver, .. } => {
            collect_pipe_bindings(receiver, tgt, out);
        },
        IrExpression::Binary { lhs, rhs, .. } => {
            collect_pipe_bindings(lhs, tgt, out);
            collect_pipe_bindings(rhs, tgt, out);
            assert(out@ =~= o0 + pipes_in(ev(*e), tgt));
        },
        IrExpression::Ternary { condition, true_expr, false_expr } => {
            collect_pipe_bindings(condition, tgt, out);
            collect_pipe_bindings(true_expr, tgt, out);
            collect_pipe_bindings(false_expr, tgt, out);
            assert(out@ =~= o0 + pipes_in(ev(*e), tgt));
        },
        IrExpression::Not(x) => {
            collect_pipe_bindings(x, tgt, out);
        },
        IrExpression::Interpolation { expressions, .. } => {
            proof {
                assert forall|i: int| 0 <= i < expressions@.len() implies decreases_to!(*e => #[trigger] expressions@[i]) by {
                    assert(decreases_to!(*expressions => expressions@));
                    assert(decreases_to!(expressions@ => expressions@[i]));
                }
            }
            collect_pipe_bindings_list(expressions, tgt, out, Ghost(*e));
        },
        IrExpression::DerivedLiteralArray { entries, .. } => {
            proof {
                assert forall|i: int| 0 <= i < entries@.len() implies decreases_to!(*e => #[trigger] entries@[i]) by {
                    assert(decreases_to!(*entries => entries@));
                    assert(decreases_to!(entries@ => entries@[i]));
                }
            }
            collect_pipe_bindings_list(entries, tgt, out, Ghost(*e));
        },
        IrExpression::LiteralArray(v) => {
            proof {
                assert forall|i: int| 0 <= i < v@.len() implies decreases_to!(*e => #[trigger] v@[i]) by {
                    assert(decreases_to!(*v => v@));
                    assert(decreases_to!(v@ => v@[i]));
                }
            }
            collect_pipe_bindings_list(v, tgt, out, Ghost(*e));
        },
        _ => {
            assert(out@ =~= o0 + pipes_in(ev(*e), tgt));
        },
    }
}

/// Appends the pipe bindings of a list of expressions to `out`.
fn collect_pipe_bindings_list(
    v: &Vec<IrExpression>,
    tgt: Option<XrefId>,
    out: &mut Vec<PipeInfo>,
    Ghost(parent): Ghost<IrExpression>,
)
    requires
        forall|i: int| 0 <= i < v@.len() ==> decreases_to!(parent => #[trigger] v@[i]),
    ensures
        final(out)@ == old(out)@ + pipes_in_list(ev_list(v@), tgt),
    decreases parent, 0nat,
{
    let ghost o0 = out@;
    let ghost es = ev_list(v@);
    proof {
        lemma_ev_list(v@);
        assert(es.take(0) =~= Seq::<Expr>::empty());
        assert(out@ =~= o0 + pipes_in_list(es.take(0), tgt));
    }
    let mut i: usize = 0;
    while i < v.len()
        invariant
            i <= v@.len(),
            es == ev_list(v@),
            es.len() == v@.len(),
            forall|k: int| 0 <= k < v@.len() ==> #[trigger] es[k] == ev(v@[k]),
            forall|k: int| 0 <= k < v@.len() ==> decreases_to!(parent => #[trigger] v@[k]),
            out@ == o0 + pipes_in_list(es.take(i as int), tgt),
        decreases v.len() - i,
    {
        proof {
            assert(es.take(i + 1).drop_last() =~= es.take(i as int));
        }
        collect_pipe_bindings(&v[i], tgt, out);
        assert(out@ =~= o0 + pipes_in_list(es.take(i + 1), tgt));
        i = i + 1;
    }
    assert(es.take(v@.len() as int) =~= es);
}

fn update_op_target(op: &UpdateOp) -> (r: Option<XrefId>)
    ensures
        r == update_target(*op),
{
    match op {
        UpdateOp::Property(b) | UpdateOp::TwoWayProperty(b) | UpdateOp::DomProperty(b) | UpdateOp::Attribute(b)
        | UpdateOp::StyleProp(b) | UpdateOp::ClassProp(b) | UpdateOp::StyleMap(b) | UpdateOp::ClassMap(b)
        | UpdateOp::Control(b) | UpdateOp::Binding(b) | UpdateOp::InterpolateText(b) | UpdateOp::AnimationBinding(b)
        | UpdateOp::Repeater(b) | UpdateOp::Conditional(b) | UpdateOp::StoreLet(b) | UpdateOp::DeferWhen(b) =>
            Some(b.target),
        UpdateOp::I18nExpression(b) => Some(b.target),
        _ => None,
    }
}

/// Appends the pipe bindings of an update operation to `out`.
fn collect_op_pipe_bindings(op: &UpdateOp, out: &mut Vec<PipeInfo>)
    ensures
        final(out)@ == old(out)@ + pipes_of_op(*op),
{
    let tgt = update_op_target(op);
    match op {
        UpdateOp::Property(b) | UpdateOp::TwoWayProperty(b) | UpdateOp::DomProperty(b) | UpdateOp::Attribute(b)
        | UpdateOp::StyleProp(b) | UpdateOp::ClassProp(b) | UpdateOp::StyleMap(b) | UpdateOp::ClassMap(b)
        | UpdateOp::Control(b) | UpdateOp::Binding(b) | UpdateOp::InterpolateText(b) | UpdateOp::AnimationBinding(b)
        | UpdateOp::Repeater(b) | UpdateOp::Conditional(b) | UpdateOp::StoreLet(b) | UpdateOp::DeferWhen(b) =>
            collect_pipe_bindings(&b.expression, tgt, out),
        UpdateOp::I18nExpression(b) => collect_pipe_bindings(&b.expression, tgt, out),
        UpdateOp::Variable(v) => collect_pipe_bindings(&v.initializer, tgt, out),
        _ => {
            assert(out@ =~= old(out)@ + pipes_of_op(*op));
        },
    }
}

/// Appends the pipe bindings of every update operation of a list, in order.
fn collect_view_pipe_bindings(update: &Vec<UpdateOp>) -> (r: Vec<PipeInfo>)
    ensures
        r@ == pipes_of_ops(update@),
{
    let mut out: Vec<PipeInfo> = Vec::new();
    proof {
        assert(update@.take(0) =~= Seq::<UpdateOp>::empty());
    }
    let mut i: usize = 0;
    while i < update.len()
        invariant
            i <= update@.len(),
            out@ == pipes_of_ops(update@.take(i as int)),
        decreases update.len() - i,
    {
        proof {
            assert(update@.take(i + 1).drop_last() =~= update@.take(i as int));
        }
        collect_op_pipe_bindings(&update[i], &mut out);
        i = i + 1;
    }
    assert(update@.take(update@.len() as int) =~= update@);
    out
}

/// Adding a binding adds its pipe to the pipes bound.
proof fn lemma_pipe_xrefs_push(s: Seq<PipeInfo>, p: PipeInfo)
    ensures
        pipe_xrefs(s.push(p)) == pipe_xrefs(s).insert(p.xref.0),
{
    assert forall|x: u32| #[trigger] pipe_xrefs(s.push(p)).contains(x) <==> pipe_xrefs(s).insert(p.xref.0).contains(x) by {
        if pipe_xrefs(s.push(p)).contains(x) {
            let i = choose|i: int| 0 <= i < s.push(p).len() && (#[trigger] s.push(p)[i]).xref.0 == x;
            if i < s.len() {
                assert(s[i] == s.push(p)[i]);
            }
        }
        if pipe_xrefs(s).contains(x) {
            let i = choose|i: int| 0 <= i < s.len() && (#[trigger] s[i]).xref.0 == x;
            assert(s.push(p)[i] == s[i]);
        }
        if x == p.xref.0 {
            assert(s.push(p)[s.len() as int] == p);
        }
    }
    assert(pipe_xrefs(s.push(p)) =~= pipe_xrefs(s).insert(p.xref.0));
}

/// Keeps the first binding of each pipe, in order.
fn keep_first_per_pipe(infos: Vec<PipeInfo>) -> (r: Vec<PipeInfo>)
    ensures
        r@ == first_per_pipe(infos@),
{
    let ghost orig = infos@;
    let mut rev: Vec<PipeInfo> = Vec::new();
    let mut infos = infos;
    while infos.len() > 0
        invariant
            infos@.len() + rev@.len() == orig.len(),
            forall|i: int| 0 <= i < infos@.len() ==> #[trigger] infos@[i] == orig[i],
            forall|j: int| 0 <= j < rev@.len() ==> #[trigger] rev@[j] == orig[orig.len() - 1 - j],
        decreases infos.len(),
    {
        let x = infos.pop().unwrap();
        rev.push(x);
    }
    let mut seen: HashSet<u32> = HashSet::new();
    let mut out: Vec<PipeInfo> = Vec::new();
    proof {
        assert(orig.take(0) =~= Seq::<PipeInfo>::empty());
        assert(pipe_xrefs(orig.take(0)) =~= Set::<u32>::empty());
    }
    while rev.len() > 0
        invariant
            rev@.len() <= orig.len(),
            forall|j: int| 0 <= j < rev@.len() ==> #[trigger] rev@[j] == orig[orig.len() - 1 - j],
            out@ == first_per_pipe(orig.take(orig.len() - rev@.len())),
            seen@ == pipe_xrefs(orig.take(orig.len() - rev@.len())),
        decreases rev.len(),
    {
        let ghost k = orig.len() - rev@.len();
        let p = rev.pop().unwrap();
        proof {
            assert(orig.take(k + 1).drop_last() =~= orig.take(k));
            assert(orig.take(k + 1) =~= orig.take(k).push(p));
            lemma_pipe_xrefs_push(orig.take(k), p);
        }
        let fresh = seen.insert(p.xref.0);
        if fresh {
            out.push(p);
        }
    }
    assert(orig.take(orig.len() as int) =~= orig);
    out
}

fn op_xref(op: &CreateOp) -> (r: Option<XrefId>)
    ensures
        r == create_op_xref(*op),
{
    match op {
        CreateOp::ElementStart(e) | CreateOp::Element(e) | CreateOp::ContainerStart(e) | CreateOp::Container(e)
        | CreateOp::DeclareLet(e) => Some(e.xref),
        CreateOp::Projection(e) => Some(e.xref),
        CreateOp::Defer(e) => Some(e.xref),
        CreateOp::Template(t) | CreateOp::RepeaterCreate(t) | CreateOp::Conditional(t)
        | CreateOp::ConditionalBranch(t) => Some(t.xref),
        CreateOp::Text(t) => Some(t.xref),
        CreateOp::Pipe(p) => Some(p.xref),
        CreateOp::I18nStart(i) | CreateOp::I18n(i) | CreateOp::IcuStart(i) => Some(i.xref),
        CreateOp::IcuPlaceholder(i) => Some(i.xref),
        _ => None,
    }
}

/// The position of the first operation with the id `x`.
fn find_target(s: &Vec<CreateOp>, x: XrefId) -> (r: Option<usize>)
    ensures
        match r {
            Some(k) => find_xref(s@, x, 0) == Some(k as int) && k < s@.len(),
            None => find_xref(s@, x, 0) is None,
        },
{
    let mut i: usize = 0;
    while i < s.len()
        invariant
            i <= s@.len(),
            find_xref(s@, x, 0) == find_xref(s@, x, i as int),
        decreases s.len() - i,
    {
        if op_xref(&s[i]) == Some(x) {
            return Some(i);
        }
        i = i + 1;
    }
    None
}

/// The position of the first operation at or after `k` that is not a pipe.
fn find_after_pipes(s: &Vec<CreateOp>, k: usize) -> (r: Option<usize>)
    requires
        k <= s@.len(),
    ensures
        match r {
            Some(j) => find_non_pipe(s@, k as int) == Some(j as int) && j < s@.len(),
            None => find_non_pipe(s@, k as int) is None,
        },
{
    let mut i: usize = k;
    while i < s.len()
        invariant
            k <= i <= s@.len(),
            find_non_pipe(s@, k as int) == find_non_pipe(s@, i as int),
        decreases s.len() - i,
    {
        let is_pipe = match &s[i] {
            CreateOp::Pipe(_) => true,
            _ => false,
        };
        if !is_pipe {
            return Some(i);
        }
        i = i + 1;
    }
    None
}

/// Adds one pipe's creation operation to a creation block.
fn add_pipe(create: &mut Vec<CreateOp>, p: PipeInfo, mode: CompatibilityMode)
    ensures
        final(create)@ == insert_pipe(old(create)@, p, mode),
{
    let ghost pg = p;
    let target = p.target_element;
    let op = CreateOp::Pipe(PipeOp { xref: p.xref, slot: p.target_slot, name: p.name, num_args: p.num_args });
    assert(op == pipe_op(pg));
    let compat = match mode {
        CompatibilityMode::TemplateDefinitionBuilder => true,
        CompatibilityMode::Normal => false,
    };
    if compat && target.is_some() {
        let t = target.unwrap();
        let sl = create.len();
        match find_target(create, t) {
            Some(k) => {
                assert(k < sl);
                match find_after_pipes(create, k + 1) {
                    Some(j) => create.insert(j, op),
                    None => create.push(op),
                }
            },
            None => create.push(op),
        }
    } else {
        create.push(op);
    }
}

/// Creates the pipe operations of one view.
fn process_pipe_bindings_in_view(view: &mut ViewCompilationUnit, mode: CompatibilityMode)
    ensures
        view_pipes_created(*old(view), *final(view), mode),
{
    let bindings = collect_view_pipe_bindings(&view.update);
    let unique = keep_first_per_pipe(bindings);
    let ghost ps = unique@;
    let ghost c0 = view.create@;
    let mut rev: Vec<PipeInfo> = Vec::new();
    let mut unique = unique;
    while unique.len() > 0
        invariant
            unique@.len() + rev@.len() == ps.len(),
            forall|i: int| 0 <= i < unique@.len() ==> #[trigger] unique@[i] == ps[i],
            forall|j: int| 0 <= j < rev@.len() ==> #[trigger] rev@[j] == ps[ps.len() - 1 - j],
        decreases unique.len(),
    {
        let x = unique.pop().unwrap();
        rev.push(x);
    }
    proof {
        assert(ps.take(0) =~= Seq::<PipeInfo>::empty());
    }
    while rev.len() > 0
        invariant
            rev@.len() <= ps.len(),
            forall|j: int| 0 <= j < rev@.len() ==> #[trigger] rev@[j] == ps[ps.len() - 1 - j],
            view.create@ == add_pipes(c0, ps.take(ps.len() - rev@.len()), mode),
            view.update == old(view).update,
            view.xref == old(view).xref,
            view.decl_count == old(view).decl_count,
            view.functions == old(view).functions,
        decreases rev.len(),
    {
        let ghost k = ps.len() - rev@.len();
        let p = rev.pop().unwrap();
        proof {
            assert(ps.take(k + 1).drop_last() =~= ps.take(k));
            assert(ps.take(k + 1).last() == p);
        }
        add_pipe(&mut view.create, p, mode);
    }
    assert(ps.take(ps.len() as int) =~= ps);
}

/// Creates pipe operations for the pipe bindings of every view, root first.
pub fn create_pipes(job: &mut ComponentCompilationJob)
    ensures
        job_pipes_created(*old(job), *final(job)),
{
    let mode = job.compatibility_mode;
    process_pipe_bindings_in_view(&mut job.root, mode);
    let n = job.views.len();
    let mut i: usize = 0;
    while i < n
        invariant
            n == job.views@.len(),
            n == old(job).views@.len(),
            i <= n,
            mode == old(job).compatibility_mode,
            view_pipes_created(old(job).root, job.root, mode),
            forall|j: int| 0 <= j < i ==> view_pipes_created(old(job).views@[j], #[trigger] job.views@[j], mode),
            forall|j: int| i <= j < n ==> #[trigger] job.views@[j] == old(job).views@[j],
            job.consts == old(job).consts,
            job.diagnostics == old(job).diagnostics,
            job.next_xref == old(job).next_xref,
            job.compatibility_mode == old(job).compatibility_mode,
            job.mode == old(job).mode,
            job.enable_debug_locations == old(job).enable_debug_locations,
            job.relative_template_path == old(job).relative_template_path,
            job.template_source == old(job).template_source,
        decreases n - i,
    {
        process_pipe_bindings_in_view(&mut job.views[i], mode);
        i = i + 1;
    }
}

/// Each pipe gets one creation operation: the bindings kept are one per pipe,
/// no two of them for the same pipe, and together they cover every pipe bound.
pub proof fn law_one_binding_kept_per_pipe(s: Seq<PipeInfo>)
    ensures
        forall|i: int, j: int|
            0 <= i < j < first_per_pipe(s).len() ==> (#[trigger] first_per_pipe(s)[i]).xref != (
            #[trigger] first_per_pipe(s)[j]).xref,
        pipe_xrefs(first_per_pipe(s)) == pipe_xrefs(s),
    decreases s.len(),
{
    if s.len() > 0 {
        let t = s.drop_last();
        let p = s.last();
        let d = first_per_pipe(t);
        law_one_binding_kept_per_pipe(t);
        assert(s == t.push(p));
        lemma_pipe_xrefs_push(t, p);
        if !pipe_xrefs(t).contains(p.xref.0) {
            lemma_pipe_xrefs_push(d, p);
            assert forall|i: int| 0 <= i < d.len() implies (#[trigger] d[i]).xref != p.xref by {
                assert(pipe_xrefs(d).contains(d[i].xref.0));
            }
            assert(first_per_pipe(s) == d.push(p));
        } else {
            assert(pipe_xrefs(s) =~= pipe_xrefs(t));
        }
    }
}

/// Adding the creation operations of `ps` adds exactly one operation per binding.
pub proof fn law_add_pipes_len(s: Seq<CreateOp>, ps: Seq<PipeInfo>, mode: CompatibilityMode)
    ensures
        add_pipes(s, ps, mode).len() == s.len() + ps.len(),
    decreases ps.len(),
{
    if ps.len() > 0 {
        law_add_pipes_len(s, ps.drop_last(), mode);
        let a = add_pipes(s, ps.drop_last(), mode);
        let p = ps.last();
        if mode is TemplateDefinitionBuilder && p.target_element is Some {
            match find_xref(a, p.target_element->0, 0) {
                Some(k) => match find_non_pipe(a, k + 1) {
                    Some(j) => {
                        lemma_find_non_pipe_range(a, k + 1);
                    },
                    None => {},
                },
                None => {},
            }
        }
    }
}

/// A position found by `find_non_pipe` lies in the sequence.
proof fn lemma_find_non_pipe_range(s: Seq<CreateOp>, k: int)
    ensures
        find_non_pipe(s, k) matches Some(j) ==> k <= j < s.len(),
    decreases s.len() - k,
{
    if 0 <= k < s.len() && s[k] is Pipe {
        lemma_find_non_pipe_range(s, k + 1);
    }
}

} // verus!
