//! Generate advance phase.
//!
//! Inserts `Advance` operations between update operations so that the runtime's
//! implicit "current slot" pointer is at the slot of each operation's target
//! before the operation runs.

use vstd::prelude::*;
use rustc_hash::FxHashMap;
use crate::fx::{fx_map_get, fx_map_insert, fx_map_new};
use crate::ir::{
    AdvanceOp, ComponentCompilationJob, CreateOp, Diagnostic, IrExpression, OutputExpression,
    OutputStatement, SlotId, UpdateOp, UpdateVariableOp, ViewCompilationUnit, XrefId,
};

verus! {

/// The `(xref, slot)` pair of an entity with an assigned slot.
pub open spec fn slot_pair(xref: XrefId, slot: Option<SlotId>) -> Option<(u32, u32)> {
    match slot {
        Some(s) => Some((xref.0, s.0)),
        None => None,
    }
}

/// The `(xref, slot)` pair of a creation operation that occupies an assigned slot.
pub open spec fn create_op_slot(op: CreateOp) -> Option<(u32, u32)> {
    match op {
        CreateOp::ElementStart(e) => slot_pair(e.xref, e.slot),
        CreateOp::Element(e) => slot_pair(e.xref, e.slot),
        CreateOp::Template(t) => slot_pair(t.xref, t.slot),
        CreateOp::ContainerStart(e) => slot_pair(e.xref, e.slot),
        CreateOp::Container(e) => slot_pair(e.xref, e.slot),
        CreateOp::Text(t) => slot_pair(t.xref, t.slot),
        CreateOp::Pipe(e) => slot_pair(e.xref, e.slot),
        CreateOp::Projection(e) => slot_pair(e.xref, e.slot),
        CreateOp::Conditional(t) => slot_pair(t.xref, t.slot),
        CreateOp::RepeaterCreate(t) => slot_pair(t.xref, t.slot),
        CreateOp::Defer(e) => slot_pair(e.xref, e.slot),
        CreateOp::DeclareLet(e) => slot_pair(e.xref, e.slot),
        CreateOp::I18nStart(i) => slot_pair(i.xref, i.slot),
        CreateOp::I18n(i) => slot_pair(i.xref, i.slot),
        _ => None,
    }
}

/// The map from xref to slot of a creation list; a later operation overrides an
/// earlier one with the same xref.
pub open spec fn slot_map(s: Seq<CreateOp>) -> Map<u32, u32>
    decreases s.len(),
{
    if s.len() == 0 {
        Map::empty()
    } else {
        let m = slot_map(s.drop_last());
        match create_op_slot(s.last()) {
            Some(p) => m.insert(p.0, p.1),
            None => m,
        }
    }
}

fn get_create_op_slot(op: &CreateOp) -> (r: Option<(u32, u32)>)
    ensures
        r == create_op_slot(*op),
{
    let (xref, slot) = match op {
        CreateOp::ElementStart(e) => (e.xref, e.slot),
        CreateOp::Element(e) => (e.xref, e.slot),
        CreateOp::Template(t) => (t.xref, t.slot),
        CreateOp::ContainerStart(e) => (e.xref, e.slot),
        CreateOp::Container(e) => (e.xref, e.slot),
        CreateOp::Text(t) => (t.xref, t.slot),
        CreateOp::Pipe(e) => (e.xref, e.slot),
        CreateOp::Projection(e) => (e.xref, e.slot),
        CreateOp::Conditional(t) => (t.xref, t.slot),
        CreateOp::RepeaterCreate(t) => (t.xref, t.slot),
        CreateOp::Defer(e) => (e.xref, e.slot),
        CreateOp::DeclareLet(e) => (e.xref, e.slot),
        CreateOp::I18nStart(i) => (i.xref, i.slot),
        CreateOp::I18n(i) => (i.xref, i.slot),
        _ => { return None; },
    };
    match slot {
        Some(s) => Some((xref.0, s.0)),
        None => None,
    }
}

/// Builds the map from xref to assigned slot of the creation operations.
fn build_slot_map(create_ops: &Vec<CreateOp>) -> (m: FxHashMap<u32, u32>)
    ensures
        m@ == slot_map(create_ops@),
{
    let mut m = fx_map_new();
    let mut i: usize = 0;
    assert(m@ =~= slot_map(create_ops@.subrange(0, 0)));
    while i < create_ops.len()
        invariant
            i <= create_ops@.len(),
            m@ == slot_map(create_ops@.subrange(0, i as int)),
        decreases create_ops.len() - i,
    {
        proof {
            assert(create_ops@.subrange(0, i as int + 1).drop_last() =~= create_ops@.subrange(0, i as int));
        }
        match get_create_op_slot(&create_ops[i]) {
            Some((x, s)) => fx_map_insert(&mut m, x, s),
            None => {},
        }
        i = i + 1;
    }
    assert(create_ops@.subrange(0, create_ops@.len() as int) =~= create_ops@);
    m
}

/// The first slot-context dependency (a `@let` store or a slot literal) found
/// in an IR expression, children visited left to right.
pub open spec fn ir_dep(e: IrExpression) -> Option<XrefId>
    decreases e, 1nat,
{
    match e {
        IrExpression::StoreLet { target, value } => Some(target),
        IrExpression::SlotLiteral { target_xref, .. } => target_xref,
        IrExpression::PipeBinding { args, .. } => ir_dep_list(args@),
        IrExpression::PipeBindingVariadic { args, .. } => ir_dep(*args),
        IrExpression::Binary { lhs, rhs, .. } => if ir_dep(*lhs) is Some { ir_dep(*lhs) } else { ir_dep(*rhs) },
        IrExpression::Ternary { condition, true_expr, false_expr } =>
            if ir_dep(*condition) is Some { ir_dep(*condition) }
            else if ir_dep(*true_expr) is Some { ir_dep(*true_expr) }
            else { ir_dep(*false_expr) },
        IrExpression::Not(x) => ir_dep(*x),
        IrExpression::ConstCollected(x) => ir_dep(*x),
        IrExpression::Interpolation { expressions, .. } => ir_dep_list(expressions@),
        IrExpression::ResolvedPropertyRead { receiver, .. } => ir_dep(*receiver),
        IrExpression::ResolvedCall { receiver, args } =>
            if ir_dep(*receiver) is Some { ir_dep(*receiver) } else { ir_dep_list(args@) },
        IrExpression::DerivedLiteralArray { entries, .. } => ir_dep_list(entries@),
        IrExpression::LiteralArray(entries) => ir_dep_list(entries@),
        _ => None,
    }
}

/// The first dependency found in a list of IR expressions.
pub open spec fn ir_dep_list(s: Seq<IrExpression>) -> Option<XrefId>
    decreases s, 0nat,
{
    if s.len() == 0 {
        None
    } else {
        let d = ir_dep_list(s.drop_last());
        if d is Some { d } else { ir_dep(s.last()) }
    }
}

/// The first dependency found in an output expression (inside wrapped IR nodes).
pub open spec fn out_dep(e: OutputExpression) -> Option<XrefId>
    decreases e, 1nat,
{
    match e {
        OutputExpression::WrappedIrNode(n) => ir_dep(*n),
        OutputExpression::BinaryOperator { lhs, rhs } => if out_dep(*lhs) is Some { out_dep(*lhs) } else { out_dep(*rhs) },
        OutputExpression::Conditional { condition, true_case, false_case } =>
            if out_dep(*condition) is Some { out_dep(*condition) }
            else if out_dep(*true_case) is Some { out_dep(*true_case) }
            else if false_case is Some { out_dep(*false_case->0) }
            else { None },
        OutputExpression::InvokeFunction { fn_expr, args } =>
            if out_dep(*fn_expr) is Some { out_dep(*fn_expr) } else { out_dep_list(args@) },
        OutputExpression::LiteralArray(entries) => out_dep_list(entries@),
        _ => None,
    }
}

/// The first dependency found in a list of output expressions.
pub open spec fn out_dep_list(s: Seq<OutputExpression>) -> Option<XrefId>
    decreases s, 0nat,
{
    if s.len() == 0 {
        None
    } else {
        let d = out_dep_list(s.drop_last());
        if d is Some { d } else { out_dep(s.last()) }
    }
}

/// The first dependency found in an output statement.
pub open spec fn stmt_dep(st: OutputStatement) -> Option<XrefId>
    decreases st, 1nat,
{
    match st {
        OutputStatement::DeclareVar { value, .. } => if value is Some { out_dep(value->0) } else { None },
        OutputStatement::Expression(e) => out_dep(e),
        OutputStatement::Return(e) => out_dep(e),
        OutputStatement::If { condition, true_case, false_case } =>
            if out_dep(condition) is Some { out_dep(condition) }
            else if stmt_dep_list(true_case@) is Some { stmt_dep_list(true_case@) }
            else { stmt_dep_list(false_case@) },
    }
}

/// The first dependency found in a list of output statements.
pub open spec fn stmt_dep_list(s: Seq<OutputStatement>) -> Option<XrefId>
    decreases s, 0nat,
{
    if s.len() == 0 {
        None
    } else {
        let d = stmt_dep_list(s.drop_last());
        if d is Some { d } else { stmt_dep(s.last()) }
    }
}

/// The target whose slot an update operation depends on, if any.
pub open spec fn slot_dependency_target(op: UpdateOp) -> Option<XrefId> {
    match op {
        UpdateOp::Property(b) => Some(b.target),
        UpdateOp::Attribute(b) => Some(b.target),
        UpdateOp::StyleProp(b) => Some(b.target),
        UpdateOp::ClassProp(b) => Some(b.target),
        UpdateOp::StyleMap(b) => Some(b.target),
        UpdateOp::ClassMap(b) => Some(b.target),
        UpdateOp::DomProperty(b) => Some(b.target),
        UpdateOp::InterpolateText(b) => Some(b.target),
        UpdateOp::TwoWayProperty(b) => Some(b.target),
        UpdateOp::Binding(b) => Some(b.target),
        UpdateOp::I18nExpression(b) => Some(b.target),
        UpdateOp::AnimationBinding(b) => Some(b.target),
        UpdateOp::Control(b) => Some(b.target),
        UpdateOp::Repeater(b) => Some(b.target),
        UpdateOp::Conditional(b) => Some(b.target),
        UpdateOp::StoreLet(b) => Some(b.target),
        UpdateOp::DeferWhen(b) => Some(b.target),
        UpdateOp::Variable(v) => match v.initializer {
            IrExpression::StoreLet { target, .. } => Some(target),
            _ => None,
        },
        UpdateOp::Statement(st) => stmt_dep(st),
        UpdateOp::ListEnd | UpdateOp::Advance(_) | UpdateOp::I18nApply(_) => None,
    }
}

proof fn lemma_ir_dep_list_step(s: Seq<IrExpression>, i: int)
    requires
        0 <= i < s.len(),
    ensures
        ir_dep_list(s.subrange(0, i + 1)) == (if ir_dep_list(s.subrange(0, i)) is Some {
            ir_dep_list(s.subrange(0, i))
        } else {
            ir_dep(s[i])
        }),
{
    assert(s.subrange(0, i + 1).drop_last() =~= s.subrange(0, i));
}

proof fn lemma_out_dep_list_step(s: Seq<OutputExpression>, i: int)
    requires
        0 <= i < s.len(),
    ensures
        out_dep_list(s.subrange(0, i + 1)) == (if out_dep_list(s.subrange(0, i)) is Some {
            out_dep_list(s.subrange(0, i))
        } else {
            out_dep(s[i])
        }),
{
    assert(s.subrange(0, i + 1).drop_last() =~= s.subrange(0, i));
}

proof fn lemma_stmt_dep_list_step(s: Seq<OutputStatement>, i: int)
    requires
        0 <= i < s.len(),
    ensures
        stmt_dep_list(s.subrange(0, i + 1)) == (if stmt_dep_list(s.subrange(0, i)) is Some {
            stmt_dep_list(s.subrange(0, i))
        } else {
            stmt_dep(s[i])
        }),
{
    assert(s.subrange(0, i + 1).drop_last() =~= s.subrange(0, i));
}

/// The first dependency in a list of IR expressions.
#[verifier::loop_isolation(false)]
fn ir_dep_in_list(args: &Vec<IrExpression>) -> (r: Option<XrefId>)
    ensures
        r == ir_dep_list(args@),
    decreases args@, 0nat,
{
    let n = args.len();
    let mut i: usize = 0;
    while i < n
        invariant
            n == args@.len(),
            i <= n,
            ir_dep_list(args@.subrange(0, i as int)) is None,
        decreases n - i,
    {
        proof {
            lemma_ir_dep_list_step(args@, i as int);
            assert(decreases_to!(args@ => args@[i as int]));
        }
        let d = get_slot_dependency_from_ir_expr(&args[i]);
        if d.is_some() {
            assert(args@.subrange(0, n as int).subrange(0, i as int + 1) =~= args@.subrange(0, i as int + 1));
            proof { lemma_first_some_stays_ir(args@, i as int + 1); }
            return d;
        }
        i = i + 1;
    }
    assert(args@.subrange(0, n as int) =~= args@);
    None
}

proof fn lemma_first_some_stays_ir(s: Seq<IrExpression>, i: int)
    requires
        0 <= i <= s.len(),
        ir_dep_list(s.subrange(0, i)) is Some,
    ensures
        ir_dep_list(s) == ir_dep_list(s.subrange(0, i)),
    decreases s.len() - i,
{
    if i < s.len() {
        lemma_ir_dep_list_step(s, i);
        lemma_first_some_stays_ir(s, i + 1);
    } else {
        assert(s.subrange(0, i) =~= s);
    }
}

proof fn lemma_first_some_stays_out(s: Seq<OutputExpression>, i: int)
    requires
        0 <= i <= s.len(),
        out_dep_list(s.subrange(0, i)) is Some,
    ensures
        out_dep_list(s) == out_dep_list(s.subrange(0, i)),
    decreases s.len() - i,
{
    if i < s.len() {
        lemma_out_dep_list_step(s, i);
        lemma_first_some_stays_out(s, i + 1);
    } else {
        assert(s.subrange(0, i) =~= s);
    }
}

proof fn lemma_first_some_stays_stmt(s: Seq<OutputStatement>, i: int)
    requires
        0 <= i <= s.len(),
        stmt_dep_list(s.subrange(0, i)) is Some,
    ensures
        stmt_dep_list(s) == stmt_dep_list(s.subrange(0, i)),
    decreases s.len() - i,
{
    if i < s.len() {
        lemma_stmt_dep_list_step(s, i);
        lemma_first_some_stays_stmt(s, i + 1);
    } else {
        assert(s.subrange(0, i) =~= s);
    }
}

/// Extracts the slot dependency target from an IR expression.
fn get_slot_dependency_from_ir_expr(expr: &IrExpression) -> (r: Option<XrefId>)
    ensures
        r == ir_dep(*expr),
    decreases *expr, 1nat,
{
    match expr {
        IrExpression::StoreLet { target, .. } => Some(*target),
        IrExpression::SlotLiteral { target_xref, .. } => *target_xref,
        IrExpression::PipeBinding { args, .. } => {
            proof { assert(decreases_to!(*args => args@)); }
            ir_dep_in_list(args)
        },
        IrExpression::PipeBindingVariadic { args, .. } => get_slot_dependency_from_ir_expr(args),
        IrExpression::Binary { lhs, rhs, .. } => {
            let d = get_slot_dependency_from_ir_expr(lhs);
            if d.is_some() { d } else { get_slot_dependency_from_ir_expr(rhs) }
        },
        IrExpression::Ternary { condition, true_expr, false_expr } => {
            let d = get_slot_dependency_from_ir_expr(condition);
            if d.is_some() {
                return d;
            }
            let d = get_slot_dependency_from_ir_expr(true_expr);
            if d.is_some() {
                return d;
            }
            get_slot_dependency_from_ir_expr(false_expr)
        },
        IrExpression::Not(x) => get_slot_dependency_from_ir_expr(x),
        IrExpression::ConstCollected(x) => get_slot_dependency_from_ir_expr(x),
        IrExpression::Interpolation { expressions, .. } => {
            proof { assert(decreases_to!(*expressions => expressions@)); }
            ir_dep_in_list(expressions)
        },
        IrExpression::ResolvedPropertyRead { receiver, .. } => get_slot_dependency_from_ir_expr(receiver),
        IrExpression::ResolvedCall { receiver, args } => {
            let d = get_slot_dependency_from_ir_expr(receiver);
            if d.is_some() {
                return d;
            }
            proof { assert(decreases_to!(*args => args@)); }
            ir_dep_in_list(args)
        },
        IrExpression::DerivedLiteralArray { entries, .. } => {
            proof { assert(decreases_to!(*entries => entries@)); }
            ir_dep_in_list(entries)
        },
        IrExpression::LiteralArray(entries) => {
            proof { assert(decreases_to!(*entries => entries@)); }
            ir_dep_in_list(entries)
        },
        _ => None,
    }
}

/// The first dependency in a list of output expressions.
#[verifier::loop_isolation(false)]
fn out_dep_in_list(args: &Vec<OutputExpression>) -> (r: Option<XrefId>)
    ensures
        r == out_dep_list(args@),
    decreases args@, 0nat,
{
    let n = args.len();
    let mut i: usize = 0;
    while i < n
        invariant
            n == args@.len(),
            i <= n,
            out_dep_list(args@.subrange(0, i as int)) is None,
        decreases n - i,
    {
        proof {
            lemma_out_dep_list_step(args@, i as int);
            assert(decreases_to!(args@ => args@[i as int]));
        }
        let d = get_slot_dependency_from_output_expr(&args[i]);
        if d.is_some() {
            proof { lemma_first_some_stays_out(args@, i as int + 1); }
            return d;
        }
        i = i + 1;
    }
    assert(args@.subrange(0, n as int) =~= args@);
    None
}

/// Extracts the slot dependency target from an output expression.
fn get_slot_dependency_from_output_expr(expr: &OutputExpression) -> (r: Option<XrefId>)
    ensures
        r == out_dep(*expr),
    decreases *expr, 1nat,
{
    match expr {
        OutputExpression::WrappedIrNode(n) => get_slot_dependency_from_ir_expr(n),
        OutputExpression::BinaryOperator { lhs, rhs } => {
            let d = get_slot_dependency_from_output_expr(lhs);
            if d.is_some() { d } else { get_slot_dependency_from_output_expr(rhs) }
        },
        OutputExpression::Conditional { condition, true_case, false_case } => {
            let d = get_slot_dependency_from_output_expr(condition);
            if d.is_some() {
                return d;
            }
            let d = get_slot_dependency_from_output_expr(true_case);
            if d.is_some() {
                return d;
            }
            match false_case {
                Some(fc) => get_slot_dependency_from_output_expr(fc),
                None => None,
            }
        },
        OutputExpression::InvokeFunction { fn_expr, args } => {
            let d = get_slot_dependency_from_output_expr(fn_expr);
            if d.is_some() {
                return d;
            }
            proof { assert(decreases_to!(*args => args@)); }
            out_dep_in_list(args)
        },
        OutputExpression::LiteralArray(entries) => {
            proof { assert(decreases_to!(*entries => entries@)); }
            out_dep_in_list(entries)
        },
        _ => None,
    }
}

/// The first dependency in a list of output statements.
#[verifier::loop_isolation(false)]
fn stmt_dep_in_list(stmts: &Vec<OutputStatement>) -> (r: Option<XrefId>)
    ensures
        r == stmt_dep_list(stmts@),
    decreases stmts@, 0nat,
{
    let n = stmts.len();
    let mut i: usize = 0;
    while i < n
        invariant
            n == stmts@.len(),
            i <= n,
            stmt_dep_list(stmts@.subrange(0, i as int)) is None,
        decreases n - i,
    {
        proof {
            lemma_stmt_dep_list_step(stmts@, i as int);
            assert(decreases_to!(stmts@ => stmts@[i as int]));
        }
        let d = get_slot_dependency_from_statement(&stmts[i]);
        if d.is_some() {
            proof { lemma_first_some_stays_stmt(stmts@, i as int + 1); }
            return d;
        }
        i = i + 1;
    }
    assert(stmts@.subrange(0, n as int) =~= stmts@);
    None
}

/// Extracts the slot dependency target from an output statement.
fn get_slot_dependency_from_statement(stmt: &OutputStatement) -> (r: Option<XrefId>)
    ensures
        r == stmt_dep(*stmt),
    decreases *stmt, 1nat,
{
    match stmt {
        OutputStatement::DeclareVar { value, .. } => match value {
            Some(v) => get_slot_dependency_from_output_expr(v),
            None => None,
        },
        OutputStatement::Expression(e) => get_slot_dependency_from_output_expr(e),
        OutputStatement::Return(e) => get_slot_dependency_from_output_expr(e),
        OutputStatement::If { condition, true_case, false_case } => {
            let d = get_slot_dependency_from_output_expr(condition);
            if d.is_some() {
                return d;
            }
            proof { assert(decreases_to!(*true_case => true_case@)); }
            let d = stmt_dep_in_list(true_case);
            if d.is_some() {
                return d;
            }
            proof { assert(decreases_to!(*false_case => false_case@)); }
            stmt_dep_in_list(false_case)
        },
    }
}

/// Extracts the slot dependency of a variable op: its initializer's `@let` store.
fn get_slot_dependency_from_variable(var: &UpdateVariableOp) -> (r: Option<XrefId>)
    ensures
        r == (match var.initializer {
            IrExpression::StoreLet { target, .. } => Some(target),
            _ => None,
        }),
{
    match &var.initializer {
        IrExpression::StoreLet { target, .. } => Some(*target),
        _ => None,
    }
}

/// Gets the target whose slot an update operation depends on.
fn get_slot_dependency_target(op: &UpdateOp) -> (r: Option<XrefId>)
    ensures
        r == slot_dependency_target(*op),
{
    match op {
        UpdateOp::Property(b) => Some(b.target),
        UpdateOp::Attribute(b) => Some(b.target),
        UpdateOp::StyleProp(b) => Some(b.target),
        UpdateOp::ClassProp(b) => Some(b.target),
        UpdateOp::StyleMap(b) => Some(b.target),
        UpdateOp::ClassMap(b) => Some(b.target),
        UpdateOp::DomProperty(b) => Some(b.target),
        UpdateOp::InterpolateText(b) => Some(b.target),
        UpdateOp::TwoWayProperty(b) => Some(b.target),
        UpdateOp::Binding(b) => Some(b.target),
        UpdateOp::I18nExpression(b) => Some(b.target),
        UpdateOp::AnimationBinding(b) => Some(b.target),
        UpdateOp::Control(b) => Some(b.target),
        UpdateOp::Repeater(b) => Some(b.target),
        UpdateOp::Conditional(b) => Some(b.target),
        UpdateOp::StoreLet(b) => Some(b.target),
        UpdateOp::DeferWhen(b) => Some(b.target),
        UpdateOp::Variable(v) => get_slot_dependency_from_variable(v),
        UpdateOp::Statement(st) => get_slot_dependency_from_statement(st),
        UpdateOp::ListEnd | UpdateOp::Advance(_) | UpdateOp::I18nApply(_) => None,
    }
}

/// The state of the advance scan: the operations emitted so far, the slot the
/// runtime's pointer is at, and the warnings raised.
pub struct AdvanceScan {
    pub out: Seq<UpdateOp>,
    pub ctx: u32,
    pub diags: Seq<Diagnostic>,
}

/// One step of the advance scan over `op`. When `op` depends on the slot of a
/// target that has one and the pointer is elsewhere, a warning is raised if the
/// slot lies behind the pointer, an `Advance` by the distance is emitted before
/// `op` if it lies ahead, and the pointer moves to the slot.
pub open spec fn advance_step(st: AdvanceScan, op: UpdateOp, m: Map<u32, u32>) -> AdvanceScan {
    match slot_dependency_target(op) {
        Some(x) => if m.contains_key(x.0) && m[x.0] != st.ctx {
            let ts = m[x.0];
            let diags = if ts < st.ctx {
                st.diags.push(Diagnostic::SlotCounterMovedBackwards { from: st.ctx, to: ts })
            } else {
                st.diags
            };
            let out = if ts > st.ctx {
                st.out.push(UpdateOp::Advance(AdvanceOp { delta: (ts - st.ctx) as u32, slot: SlotId(ts) }))
            } else {
                st.out
            };
            AdvanceScan { out: out.push(op), ctx: ts, diags }
        } else {
            AdvanceScan { out: st.out.push(op), ctx: st.ctx, diags: st.diags }
        },
        None => AdvanceScan { out: st.out.push(op), ctx: st.ctx, diags: st.diags },
    }
}

/// The advance scan over a whole update list, starting at slot 0.
pub open spec fn advance_scan(s: Seq<UpdateOp>, m: Map<u32, u32>) -> AdvanceScan
    decreases s.len(),
{
    if s.len() == 0 {
        AdvanceScan { out: seq![], ctx: 0, diags: seq![] }
    } else {
        advance_step(advance_scan(s.drop_last(), m), s.last(), m)
    }
}

/// Inserts advance operations into a view's update list, given the slot map of
/// its creation list; returns the warnings raised.
fn generate_advance_in_view(update_ops: &mut Vec<UpdateOp>, slot_map: &FxHashMap<u32, u32>) -> (diags: Vec<Diagnostic>)
    ensures
        final(update_ops)@ == advance_scan(old(update_ops)@, slot_map@).out,
        diags@ == advance_scan(old(update_ops)@, slot_map@).diags,
{
    let ghost orig = update_ops@;
    let ghost m = slot_map@;
    let mut taken: Vec<UpdateOp> = Vec::new();
    std::mem::swap(update_ops, &mut taken);
    let mut pending = reverse_ops(taken);
    let mut out: Vec<UpdateOp> = Vec::new();
    let mut diags: Vec<Diagnostic> = Vec::new();
    let mut slot_context: u32 = 0;
    while pending.len() > 0
        invariant
            pending@.len() <= orig.len(),
            m == slot_map@,
            forall|j: int| 0 <= j < pending@.len() ==> #[trigger] pending@[j] == orig[orig.len() - 1 - j],
            ({
                let st = advance_scan(orig.subrange(0, orig.len() - pending@.len()), m);
                &&& out@ == st.out
                &&& slot_context == st.ctx
                &&& diags@ == st.diags
            }),
        decreases pending.len(),
    {
        let ghost k = orig.len() - pending@.len();
        let op = pending.pop().unwrap();
        proof {
            assert(orig.subrange(0, k + 1).drop_last() =~= orig.subrange(0, k));
            assert(orig.subrange(0, k + 1).last() == op);
        }
        let target = get_slot_dependency_target(&op);
        if let Some(target_xref) = target {
            if let Some(target_slot) = fx_map_get(slot_map, target_xref.0) {
                if slot_context != target_slot {
                    if target_slot < slot_context {
                        diags.push(Diagnostic::SlotCounterMovedBackwards { from: slot_context, to: target_slot });
                    }
                    if target_slot > slot_context {
                        let delta = target_slot - slot_context;
                        out.push(UpdateOp::Advance(AdvanceOp { delta, slot: SlotId(target_slot) }));
                    }
                    slot_context = target_slot;
                }
            }
        }
        out.push(op);
    }
    proof {
        assert(orig.subrange(0, orig.len() as int) =~= orig);
    }
    *update_ops = out;
    diags
}

/// Consumes `v` and returns its operations in reverse order.
fn reverse_ops(v: Vec<UpdateOp>) -> (r: Vec<UpdateOp>)
    ensures
        r@.len() == v@.len(),
        forall|j: int| 0 <= j < v@.len() ==> #[trigger] r@[j] == v@[v@.len() - 1 - j],
{
    let ghost orig = v@;
    let mut v = v;
    let mut r: Vec<UpdateOp> = Vec::new();
    while v.len() > 0
        invariant
            v@.len() + r@.len() == orig.len(),
            forall|i: int| 0 <= i < v@.len() ==> #[trigger] v@[i] == orig[i],
            forall|j: int| 0 <= j < r@.len() ==> #[trigger] r@[j] == orig[orig.len() - 1 - j],
        decreases v.len(),
    {
        let x = v.pop().unwrap();
        r.push(x);
    }
    r
}

/// The update list and warnings of one view after advance generation.
pub open spec fn view_advance(view: ViewCompilationUnit) -> AdvanceScan {
    advance_scan(view.update@, slot_map(view.create@))
}

fn generate_advance_for_view(view: &mut ViewCompilationUnit) -> (diags: Vec<Diagnostic>)
    ensures
        final(view).update@ == view_advance(*old(view)).out,
        diags@ == view_advance(*old(view)).diags,
        final(view).create == old(view).create,
        final(view).xref == old(view).xref,
        final(view).decl_count == old(view).decl_count,
        final(view).functions == old(view).functions,
{
    let slot_map = build_slot_map(&view.create);
    generate_advance_in_view(&mut view.update, &slot_map)
}

/// The warnings raised for the embedded views `views[0..n]`, in order.
pub open spec fn views_advance_diags(views: Seq<ViewCompilationUnit>, n: int) -> Seq<Diagnostic>
    decreases n,
{
    if n <= 0 {
        seq![]
    } else {
        views_advance_diags(views, n - 1) + view_advance(views[n - 1]).diags
    }
}

/// Whether the view `after` is `before` with `Advance` operations generated.
pub open spec fn view_advanced(before: ViewCompilationUnit, after: ViewCompilationUnit) -> bool {
    &&& after.update@ == view_advance(before).out
    &&& after.create == before.create
    &&& after.xref == before.xref
    &&& after.decl_count == before.decl_count
    &&& after.functions == before.functions
}

/// Whether the job `after` is `before` with `Advance` operations generated in
/// every view and the warnings raised (root first, then each view in order)
/// appended to the diagnostics.
pub open spec fn job_advanced(before: ComponentCompilationJob, after: ComponentCompilationJob) -> bool {
    &&& view_advanced(before.root, after.root)
    &&& after.views@.len() == before.views@.len()
    &&& forall|i: int| 0 <= i < before.views@.len() ==> view_advanced(before.views@[i], #[trigger] after.views@[i])
    &&& after.diagnostics@ == before.diagnostics@ + view_advance(before.root).diags
        + views_advance_diags(before.views@, before.views@.len() as int)
    &&& after.consts == before.consts
    &&& after.next_xref == before.next_xref
    &&& after.compatibility_mode == before.compatibility_mode
    &&& after.mode == before.mode
    &&& after.enable_debug_locations == before.enable_debug_locations
    &&& after.relative_template_path == before.relative_template_path
    &&& after.template_source == before.template_source
}

/// Generates `Advance` operations in the root view and in every embedded view,
/// and appends the warnings raised (root first, then each view in order) to the
/// job's diagnostics.
pub fn generate_advance(job: &mut ComponentCompilationJob)
    ensures
        job_advanced(*old(job), *final(job)),
{
    let mut diagnostics = generate_advance_for_view(&mut job.root);
    let n = job.views.len();
    let mut i: usize = 0;
    while i < n
        invariant
            n == job.views@.len(),
            n == old(job).views@.len(),
            i <= n,
            forall|j: int| 0 <= j < i ==> view_advanced(old(job).views@[j], #[trigger] job.views@[j]),
            forall|j: int| i <= j < n ==> #[trigger] job.views@[j] == old(job).views@[j],
            diagnostics@ == view_advance(old(job).root).diags + views_advance_diags(old(job).views@, i as int),
            view_advanced(old(job).root, job.root),
            job.diagnostics == old(job).diagnostics,
            job.consts == old(job).consts,
            job.next_xref == old(job).next_xref,
            job.compatibility_mode == old(job).compatibility_mode,
            job.mode == old(job).mode,
            job.enable_debug_locations == old(job).enable_debug_locations,
            job.relative_template_path == old(job).relative_template_path,
            job.template_source == old(job).template_source,
        decreases n - i,
    {
        let mut d = generate_advance_for_view(&mut job.views[i]);
        diagnostics.append(&mut d);
        proof {
            assert(diagnostics@ =~= view_advance(old(job).root).diags + views_advance_diags(old(job).views@, i as int + 1));
        }
        i = i + 1;
    }
    job.diagnostics.append(&mut diagnostics);
    proof {
        assert(job.diagnostics@ =~= old(job).diagnostics@ + view_advance(old(job).root).diags
            + views_advance_diags(old(job).views@, n as int));
    }
}

/// The operations of `s` other than `Advance`, in order.
pub open spec fn non_advance_ops(s: Seq<UpdateOp>) -> Seq<UpdateOp>
    decreases s.len(),
{
    if s.len() == 0 {
        seq![]
    } else if s.last() is Advance {
        non_advance_ops(s.drop_last())
    } else {
        non_advance_ops(s.drop_last()).push(s.last())
    }
}

/// The sum of the deltas of the `Advance` operations of `s`.
pub open spec fn advance_total(s: Seq<UpdateOp>) -> int
    decreases s.len(),
{
    if s.len() == 0 {
        0
    } else {
        advance_total(s.drop_last()) + match s.last() {
            UpdateOp::Advance(a) => a.delta as int,
            _ => 0,
        }
    }
}

/// The shape of one advance step: either `op` alone is emitted, or an
/// `Advance` to a slot ahead of the pointer and then `op`.
proof fn lemma_advance_step_shape(st: AdvanceScan, op: UpdateOp, m: Map<u32, u32>)
    ensures
        ({
            let nx = advance_step(st, op, m);
            ||| nx.out == st.out.push(op) && nx.ctx == st.ctx && nx.diags == st.diags
            ||| nx.out == st.out.push(op) && nx.ctx < st.ctx && nx.diags.len() == st.diags.len() + 1
            ||| nx.ctx > st.ctx && nx.diags == st.diags && nx.out == st.out.push(
                UpdateOp::Advance(AdvanceOp { delta: (nx.ctx - st.ctx) as u32, slot: SlotId(nx.ctx) })).push(op)
        }),
{
}

/// Law: advance generation only inserts `Advance` operations; the other
/// operations come out unchanged and in their order.
pub proof fn law_advance_only_inserts_advances(s: Seq<UpdateOp>, m: Map<u32, u32>)
    ensures
        non_advance_ops(advance_scan(s, m).out) == non_advance_ops(s),
    decreases s.len(),
{
    if s.len() > 0 {
        law_advance_only_inserts_advances(s.drop_last(), m);
        let st = advance_scan(s.drop_last(), m);
        let op = s.last();
        lemma_advance_step_shape(st, op, m);
        let nx = advance_step(st, op, m);
        assert(advance_scan(s, m) == nx);
        assert(nx.out.last() == op);
        let mid = nx.out.drop_last();
        if nx.out == st.out.push(op) {
            assert(mid =~= st.out);
        } else {
            let a = UpdateOp::Advance(AdvanceOp { delta: (nx.ctx - st.ctx) as u32, slot: SlotId(nx.ctx) });
            assert(mid =~= st.out.push(a));
            assert(mid.drop_last() =~= st.out);
            assert(mid.last() is Advance);
            assert(non_advance_ops(mid) == non_advance_ops(st.out));
        }
        assert(non_advance_ops(mid) == non_advance_ops(st.out));
        if op is Advance {
            assert(non_advance_ops(nx.out) == non_advance_ops(mid));
        } else {
            assert(non_advance_ops(nx.out) == non_advance_ops(mid).push(op));
        }
    }
}

/// Law: when no warning is raised (the targeted slots never lie behind the
/// pointer) and the list had no `Advance` before, the deltas of the inserted
/// `Advance` operations add up to the slot the pointer ends at.
pub proof fn law_advance_deltas_reach_pointer(s: Seq<UpdateOp>, m: Map<u32, u32>)
    requires
        advance_scan(s, m).diags.len() == 0,
        forall|i: int| 0 <= i < s.len() ==> !(#[trigger] s[i] is Advance),
    ensures
        advance_total(advance_scan(s, m).out) == advance_scan(s, m).ctx,
    decreases s.len(),
{
    if s.len() > 0 {
        let st = advance_scan(s.drop_last(), m);
        let op = s.last();
        lemma_advance_step_shape(st, op, m);
        let nx = advance_step(st, op, m);
        assert forall|i: int| 0 <= i < s.drop_last().len() implies !(#[trigger] s.drop_last()[i] is Advance) by {
            assert(s.drop_last()[i] == s[i]);
        }
        assert(advance_scan(s, m) == nx);
        assert(nx.out.last() == op);
        assert(st.diags.len() == 0);
        law_advance_deltas_reach_pointer(s.drop_last(), m);
        assert(!(op is Advance));
        let mid = nx.out.drop_last();
        assert(advance_total(nx.out) == advance_total(mid));
        if nx.out == st.out.push(op) {
            assert(mid =~= st.out);
            assert(nx.ctx == st.ctx);
        } else {
            let a = UpdateOp::Advance(AdvanceOp { delta: (nx.ctx - st.ctx) as u32, slot: SlotId(nx.ctx) });
            assert(mid =~= st.out.push(a));
            assert(mid.drop_last() =~= st.out);
            assert(advance_total(mid) == advance_total(st.out) + (nx.ctx - st.ctx));
        }
    }
}

/// Whether `op` binds to (or otherwise acts on) the target `x`.
pub open spec fn acts_on(op: UpdateOp, x: XrefId) -> bool {
        ||| op matches UpdateOp::Property(b) && b.target == x
        ||| op matches UpdateOp::Attribute(b) && b.target == x
        ||| op matches UpdateOp::StyleProp(b) && b.target == x
        ||| op matches UpdateOp::ClassProp(b) && b.target == x
        ||| op matches UpdateOp::StyleMap(b) && b.target == x
        ||| op matches UpdateOp::ClassMap(b) && b.target == x
        ||| op matches UpdateOp::DomProperty(b) && b.target == x
        ||| op matches UpdateOp::InterpolateText(b) && b.target == x
        ||| op matches UpdateOp::TwoWayProperty(b) && b.target == x
        ||| op matches UpdateOp::Binding(b) && b.target == x
        ||| op matches UpdateOp::Control(b) && b.target == x
        ||| op matches UpdateOp::I18nExpression(b) && b.target == x
        ||| op matches UpdateOp::AnimationBinding(b) && b.target == x
        ||| op matches UpdateOp::Repeater(b) && b.target == x
        ||| op matches UpdateOp::Conditional(b) && b.target == x
        ||| op matches UpdateOp::StoreLet(b) && b.target == x
        ||| op matches UpdateOp::DeferWhen(b) && b.target == x
}

/// Law: an operation that acts on a target runs with the pointer at that
/// target's slot. Appended after `s`, when the target's slot lies ahead of
/// where `s` leaves the pointer, an `Advance` by the distance to the slot is
/// emitted right before it; when the pointer is already there, it is emitted
/// alone. Either way the pointer then rests at the target's slot.
pub proof fn law_advance_to_target_slot(s: Seq<UpdateOp>, op: UpdateOp, x: XrefId, m: Map<u32, u32>)
    requires
        acts_on(op, x),
        m.contains_key(x.0),
        advance_scan(s, m).ctx <= m[x.0],
    ensures
        ({
            let before = advance_scan(s, m);
            let after = advance_scan(s.push(op), m);
            let ts = m[x.0];
            &&& after.ctx == ts
            &&& after.diags == before.diags
            &&& ts > before.ctx ==> after.out == before.out.push(
                UpdateOp::Advance(AdvanceOp { delta: (ts - before.ctx) as u32, slot: SlotId(ts) })).push(op)
            &&& ts == before.ctx ==> after.out == before.out.push(op)
        }),
{
    assert(s.push(op).drop_last() =~= s);
}

} // verus!
