//! Attribute extraction phase.
//!
//! Listeners, properties and constant attributes of an element become
//! extracted attribute operations in the creation block, which later feed the
//! element's constant attribute array (used for directive matching). An
//! attribute (or generic binding) whose value is constant needs no runtime
//! update: its update operation is removed. In a template job, each extracted
//! attribute is placed right before the element it belongs to (in the order the
//! attributes were found: creation operations first, then update operations);
//! one whose element is not in the view goes to the end.

use vstd::prelude::*;
use rustc_hash::FxHashMap;
use crate::fx::{fx_map_get, fx_map_insert, fx_map_new};
use crate::ir::{host_frame_kept, 
    AngularExpression, BindingKind, ComponentCompilationJob, CreateOp, ExtractedAttributeOp, HostBindingCompilationJob,
    IrExpression, LiteralValue, OutputExpression, SecurityContext, UpdateOp, ViewCompilationUnit, XrefId,
};

verus! {

/// Whether an expression is constant for extraction: empty or a literal.
pub open spec fn is_constant_expr(e: IrExpression) -> bool {
    match e {
        IrExpression::Empty => true,
        IrExpression::Ast(a) => *a is LiteralPrimitive,
        _ => false,
    }
}

/// Whether a binding can be extracted: a static attribute, or a constant
/// expression that is not an interpolation.
pub open spec fn extractable(text_attribute: bool, e: IrExpression) -> bool {
    text_attribute || (!(e is Interpolation) && is_constant_expr(e))
}

/// A literal of the template syntax as an output literal.
pub open spec fn output_literal(l: LiteralValue) -> LiteralValue {
    match l {
        LiteralValue::String(s) => LiteralValue::String(s),
        LiteralValue::Number(n) => LiteralValue::Number(n),
        LiteralValue::Boolean(b) => LiteralValue::Boolean(b),
        LiteralValue::Null | LiteralValue::Undefined => LiteralValue::Null,
    }
}

/// The value an extracted attribute gets from a binding's expression: a
/// literal becomes an output literal, an output expression is kept, anything
/// else gives no value.
pub open spec fn attr_value(e: IrExpression) -> Option<IrExpression> {
    match e {
        IrExpression::Ast(a) => match *a {
            AngularExpression::LiteralPrimitive(l) => Some(
                IrExpression::OutputExpr(Box::new(OutputExpression::Literal(output_literal(l)))),
            ),
            _ => None,
        },
        IrExpression::OutputExpr(o) => Some(IrExpression::OutputExpr(o)),
        _ => None,
    }
}

/// An extracted attribute without a value or i18n data.
pub open spec fn plain_attr(target: XrefId, kind: BindingKind, name: String, security: SecurityContext) -> ExtractedAttributeOp {
    ExtractedAttributeOp {
        target,
        binding_kind: kind,
        namespace: None,
        name,
        value: None,
        security_context: security,
        truthy_expression: false,
        i18n_context: None,
        i18n_message: None,
    }
}

/// Whether a binding kind is an animation.
pub open spec fn is_animation(k: BindingKind) -> bool {
    k is Animation || k is LegacyAnimation
}

/// The attribute a creation operation yields in a template job: listeners
/// that are not animation listeners, and two-way listeners.
pub open spec fn create_attr(op: CreateOp) -> Option<ExtractedAttributeOp> {
    match op {
        CreateOp::Listener(l) => if !l.is_animation_listener {
            Some(plain_attr(l.target, BindingKind::Property, l.name, SecurityContext::NoContext))
        } else {
            None
        },
        CreateOp::TwoWayListener(l) => Some(plain_attr(l.target, BindingKind::Property, l.name, SecurityContext::NoContext)),
        _ => None,
    }
}

/// The kind a property binding is extracted with: an interpolated, translated
/// binding (not of a template) is an i18n attribute.
pub open spec fn property_attr_kind(kind: BindingKind, i18n_message: Option<u32>, e: IrExpression) -> BindingKind {
    if i18n_message is Some && kind != BindingKind::Template && e is Interpolation {
        BindingKind::I18n
    } else {
        kind
    }
}

/// The kind a generic binding is extracted with.
pub open spec fn binding_attr_kind(kind: BindingKind) -> BindingKind {
    match kind {
        BindingKind::Property => BindingKind::Property,
        BindingKind::TwoWayProperty => BindingKind::TwoWayProperty,
        BindingKind::Template => BindingKind::Template,
        _ => BindingKind::Attribute,
    }
}

/// The attribute an update operation yields in a template job.
pub open spec fn update_attr(op: UpdateOp) -> Option<ExtractedAttributeOp> {
    match op {
        UpdateOp::Attribute(b) => if extractable(b.is_text_attribute, b.expression) {
            Some(
                ExtractedAttributeOp {
                    target: b.target,
                    binding_kind: if b.is_structural_template_attribute {
                        BindingKind::Template
                    } else {
                        BindingKind::Attribute
                    },
                    namespace: b.namespace,
                    name: b.name,
                    value: attr_value(b.expression),
                    security_context: b.security_context,
                    truthy_expression: false,
                    i18n_context: b.i18n_context,
                    i18n_message: b.i18n_message,
                },
            )
        } else {
            None
        },
        UpdateOp::Property(b) => if is_animation(b.kind) {
            None
        } else {
            Some(
                plain_attr(b.target, property_attr_kind(b.kind, b.i18n_message, b.expression), b.name, b.security_context),
            )
        },
        UpdateOp::TwoWayProperty(b) => Some(plain_attr(b.target, BindingKind::TwoWayProperty, b.name, b.security_context)),
        UpdateOp::Binding(b) => if !is_animation(b.kind) && extractable(b.is_text_attribute, b.expression) {
            Some(
                ExtractedAttributeOp {
                    target: b.target,
                    binding_kind: binding_attr_kind(b.kind),
                    namespace: None,
                    name: b.name,
                    value: attr_value(b.expression),
                    security_context: b.security_context,
                    truthy_expression: false,
                    i18n_context: None,
                    i18n_message: b.i18n_message,
                },
            )
        } else {
            None
        },
        _ => None,
    }
}

/// Whether an update operation is removed because its value was extracted.
pub open spec fn update_removed(op: UpdateOp) -> bool {
    match op {
        UpdateOp::Attribute(b) => extractable(b.is_text_attribute, b.expression),
        UpdateOp::Binding(b) => !is_animation(b.kind) && extractable(b.is_text_attribute, b.expression),
        _ => false,
    }
}

/// The attributes a host job's creation operation yields: listeners that are
/// not animation listeners.
pub open spec fn host_create_attr(op: CreateOp) -> Option<ExtractedAttributeOp> {
    match op {
        CreateOp::Listener(l) => if !l.is_animation_listener {
            Some(plain_attr(l.target, BindingKind::Property, l.name, SecurityContext::NoContext))
        } else {
            None
        },
        _ => None,
    }
}

/// The attribute a host job's update operation yields.
pub open spec fn host_update_attr(op: UpdateOp) -> Option<ExtractedAttributeOp> {
    match op {
        UpdateOp::Attribute(b) => if extractable(b.is_text_attribute, b.expression) {
            Some(
                ExtractedAttributeOp {
                    target: b.target,
                    binding_kind: BindingKind::Attribute,
                    namespace: b.namespace,
                    name: b.name,
                    value: attr_value(b.expression),
                    security_context: b.security_context,
                    truthy_expression: false,
                    i18n_context: b.i18n_context,
                    i18n_message: b.i18n_message,
                },
            )
        } else {
            None
        },
        UpdateOp::DomProperty(b) => if is_animation(b.kind) {
            None
        } else {
            Some(plain_attr(b.target, b.kind, b.name, b.security_context))
        },
        UpdateOp::Binding(b) => if !is_animation(b.kind) && extractable(b.is_text_attribute, b.expression) {
            Some(
                ExtractedAttributeOp {
                    target: b.target,
                    binding_kind: b.kind,
                    namespace: None,
                    name: b.name,
                    value: attr_value(b.expression),
                    security_context: b.security_context,
                    truthy_expression: false,
                    i18n_context: None,
                    i18n_message: b.i18n_message,
                },
            )
        } else {
            None
        },
        _ => None,
    }
}

/// Whether a host job's update operation is removed because its value was extracted.
pub open spec fn host_update_removed(op: UpdateOp) -> bool {
    match op {
        UpdateOp::Attribute(b) => extractable(b.is_text_attribute, b.expression),
        UpdateOp::Binding(b) => !is_animation(b.kind) && extractable(b.is_text_attribute, b.expression),
        _ => false,
    }
}

/// The attributes a sequence of items yields under `f`, in order.
pub open spec fn attrs_of<A>(s: Seq<A>, f: spec_fn(A) -> Option<ExtractedAttributeOp>) -> Seq<ExtractedAttributeOp>
    decreases s.len(),
{
    if s.len() == 0 {
        seq![]
    } else {
        match f(s.last()) {
            Some(a) => attrs_of(s.drop_last(), f).push(a),
            None => attrs_of(s.drop_last(), f),
        }
    }
}

/// The update operations that stay, in order.
pub open spec fn kept_updates(u: Seq<UpdateOp>, removed: spec_fn(UpdateOp) -> bool) -> Seq<UpdateOp>
    decreases u.len(),
{
    if u.len() == 0 {
        seq![]
    } else if removed(u.last()) {
        kept_updates(u.drop_last(), removed)
    } else {
        kept_updates(u.drop_last(), removed).push(u.last())
    }
}

/// The ids under which a creation operation can receive extracted attributes.
pub open spec fn element_keys(op: CreateOp) -> Seq<u32> {
    match op {
        CreateOp::ElementStart(e) | CreateOp::Element(e) => seq![e.xref.0],
        CreateOp::Template(t) | CreateOp::Conditional(t) | CreateOp::ConditionalBranch(t) => seq![t.xref.0],
        CreateOp::RepeaterCreate(t) => match t.empty_view {
            Some(e) => seq![t.embedded_view.0, e.0],
            None => seq![t.embedded_view.0],
        },
        CreateOp::Projection(p) => seq![p.xref.0],
        _ => seq![],
    }
}

/// The position of the operation each id was last recorded for, over the
/// operations before `k`.
pub open spec fn element_map(c: Seq<CreateOp>, k: int) -> Map<u32, usize>
    decreases k,
{
    if k <= 0 {
        Map::empty()
    } else {
        let m = element_map(c, k - 1);
        let keys = element_keys(c[k - 1]);
        if keys.len() == 0 {
            m
        } else if keys.len() == 1 {
            m.insert(keys[0], (k - 1) as usize)
        } else {
            m.insert(keys[0], (k - 1) as usize).insert(keys[1], (k - 1) as usize)
        }
    }
}

/// The position before which an attribute with this target goes, if any.
pub open spec fn target_pos(c: Seq<CreateOp>, target: XrefId) -> Option<int> {
    let m = element_map(c, c.len() as int);
    if m.contains_key(target.0) {
        Some(m[target.0] as int)
    } else {
        None
    }
}

/// The creation operations of the attributes (among `e`) placed at `pos`.
pub open spec fn attrs_at(c: Seq<CreateOp>, e: Seq<ExtractedAttributeOp>, pos: Option<int>) -> Seq<CreateOp>
    decreases e.len(),
{
    if e.len() == 0 {
        seq![]
    } else if target_pos(c, e.last().target) == pos {
        attrs_at(c, e.drop_last(), pos).push(CreateOp::ExtractedAttribute(e.last()))
    } else {
        attrs_at(c, e.drop_last(), pos)
    }
}

/// The first `k` creation operations, each preceded by its attributes.
pub open spec fn with_attrs(c: Seq<CreateOp>, e: Seq<ExtractedAttributeOp>, k: int) -> Seq<CreateOp>
    decreases k,
{
    if k <= 0 {
        seq![]
    } else {
        with_attrs(c, e, k - 1) + attrs_at(c, e, Some(k - 1)).push(c[k - 1])
    }
}

/// The step functions of the template passes.
pub open spec fn create_attr_fn() -> spec_fn(CreateOp) -> Option<ExtractedAttributeOp> {
    |op: CreateOp| create_attr(op)
}

pub open spec fn update_attr_fn() -> spec_fn(UpdateOp) -> Option<ExtractedAttributeOp> {
    |op: UpdateOp| update_attr(op)
}

pub open spec fn update_removed_fn() -> spec_fn(UpdateOp) -> bool {
    |op: UpdateOp| update_removed(op)
}

/// The step functions of the host passes.
pub open spec fn host_create_attr_fn() -> spec_fn(CreateOp) -> Option<ExtractedAttributeOp> {
    |op: CreateOp| host_create_attr(op)
}

pub open spec fn host_update_attr_fn() -> spec_fn(UpdateOp) -> Option<ExtractedAttributeOp> {
    |op: UpdateOp| host_update_attr(op)
}

pub open spec fn host_update_removed_fn() -> spec_fn(UpdateOp) -> bool {
    |op: UpdateOp| host_update_removed(op)
}

/// The attributes a template view yields: its creation operations' first.
pub open spec fn view_attrs(v: ViewCompilationUnit) -> Seq<ExtractedAttributeOp> {
    attrs_of(v.create@, create_attr_fn()) + attrs_of(v.update@, update_attr_fn())
}

/// Whether the view `after` is `before` with its attributes extracted.
pub open spec fn view_attributes_extracted(before: ViewCompilationUnit, after: ViewCompilationUnit) -> bool {
    let c = before.create@;
    let e = view_attrs(before);
    &&& after.create@ == with_attrs(c, e, c.len() as int) + attrs_at(c, e, None)
    &&& after.update@ == kept_updates(before.update@, update_removed_fn())
    &&& after.xref == before.xref
    &&& after.decl_count == before.decl_count
    &&& after.functions == before.functions
}

/// Whether the job `after` is `before` with the attributes of every view extracted.
pub open spec fn job_attributes_extracted(before: ComponentCompilationJob, after: ComponentCompilationJob) -> bool {
    &&& view_attributes_extracted(before.root, after.root)
    &&& after.views@.len() == before.views@.len()
    &&& forall|i: int| 0 <= i < before.views@.len() ==> view_attributes_extracted(before.views@[i], #[trigger] after.views@[i])
    &&& after.consts == before.consts
    &&& after.diagnostics == before.diagnostics
    &&& after.next_xref == before.next_xref
    &&& after.compatibility_mode == before.compatibility_mode
    &&& after.mode == before.mode
    &&& after.enable_debug_locations == before.enable_debug_locations
    &&& after.relative_template_path == before.relative_template_path
    &&& after.template_source == before.template_source
}

/// Whether the host job `after` is `before` with its attributes extracted (all
/// appended to the creation block).
pub open spec fn host_job_attributes_extracted(before: HostBindingCompilationJob, after: HostBindingCompilationJob) -> bool {
    let e = attrs_of(before.root.create@, host_create_attr_fn()) + attrs_of(before.root.update@, host_update_attr_fn());
    &&& after.root.create@ == before.root.create@ + e.map_values(|a: ExtractedAttributeOp| CreateOp::ExtractedAttribute(a))
    &&& after.root.update@ == kept_updates(before.root.update@, host_update_removed_fn())
    &&& after.diagnostics == before.diagnostics
    &&& host_frame_kept(before, after)
}

/// The attribute step for creation operations of a template (`host` false) or host job.
pub open spec fn create_step(host: bool) -> spec_fn(CreateOp) -> Option<ExtractedAttributeOp> {
    if host { host_create_attr_fn() } else { create_attr_fn() }
}

/// The attribute step for update operations of a template (`host` false) or host job.
pub open spec fn update_step(host: bool) -> spec_fn(UpdateOp) -> Option<ExtractedAttributeOp> {
    if host { host_update_attr_fn() } else { update_attr_fn() }
}

/// The removal test for update operations of a template (`host` false) or host job.
pub open spec fn removed_step(host: bool) -> spec_fn(UpdateOp) -> bool {
    if host { host_update_removed_fn() } else { update_removed_fn() }
}

fn is_constant_expression(e: &IrExpression) -> (r: bool)
    ensures
        r == is_constant_expr(*e),
{
    match e {
        IrExpression::Empty => true,
        IrExpression::Ast(a) => match &**a {
            AngularExpression::LiteralPrimitive(_) => true,
            _ => false,
        },
        _ => false,
    }
}

fn is_extractable(text_attribute: bool, e: &IrExpression) -> (r: bool)
    ensures
        r == extractable(text_attribute, *e),
{
    let interp = match e {
        IrExpression::Interpolation { .. } => true,
        _ => false,
    };
    text_attribute || (!interp && is_constant_expression(e))
}

fn is_animation_kind(k: BindingKind) -> (r: bool)
    ensures
        r == is_animation(k),
{
    match k {
        BindingKind::Animation | BindingKind::LegacyAnimation => true,
        _ => false,
    }
}

/// The value an extracted attribute gets from a binding's expression (consumed).
fn extract_value_from_binding_expr(e: IrExpression) -> (r: Option<IrExpression>)
    ensures
        r == attr_value(e),
{
    match e {
        IrExpression::Ast(a) => match *a {
            AngularExpression::LiteralPrimitive(l) => {
                let v = match l {
                    LiteralValue::String(s) => LiteralValue::String(s),
                    LiteralValue::Number(n) => LiteralValue::Number(n),
                    LiteralValue::Boolean(b) => LiteralValue::Boolean(b),
                    LiteralValue::Null | LiteralValue::Undefined => LiteralValue::Null,
                };
                Some(IrExpression::OutputExpr(Box::new(OutputExpression::Literal(v))))
            },
            _ => None,
        },
        IrExpression::OutputExpr(o) => Some(IrExpression::OutputExpr(o)),
        _ => None,
    }
}

fn plain(target: XrefId, kind: BindingKind, name: &String, security: SecurityContext) -> (r: ExtractedAttributeOp)
    ensures
        r == plain_attr(target, kind, *name, security),
{
    ExtractedAttributeOp {
        target,
        binding_kind: kind,
        namespace: None,
        name: name.clone(),
        value: None,
        security_context: security,
        truthy_expression: false,
        i18n_context: None,
        i18n_message: None,
    }
}

/// The attribute a creation operation yields.
fn create_op_attr(op: &CreateOp, host: bool) -> (r: Option<ExtractedAttributeOp>)
    ensures
        r == create_step(host)(*op),
{
    match op {
        CreateOp::Listener(l) => if !l.is_animation_listener {
            Some(plain(l.target, BindingKind::Property, &l.name, SecurityContext::NoContext))
        } else {
            None
        },
        CreateOp::TwoWayListener(l) => if host {
            None
        } else {
            Some(plain(l.target, BindingKind::Property, &l.name, SecurityContext::NoContext))
        },
        _ => None,
    }
}

/// Appends the attributes the creation operations yield, in order.
fn collect_create_attrs(c: &Vec<CreateOp>, out: &mut Vec<ExtractedAttributeOp>, host: bool)
    ensures
        final(out)@ == old(out)@ + attrs_of(c@, create_step(host)),
{
    let ghost o0 = out@;
    let ghost f = create_step(host);
    proof {
        assert(c@.take(0) =~= Seq::<CreateOp>::empty());
        assert(out@ =~= o0 + attrs_of(c@.take(0), f));
    }
    let mut i: usize = 0;
    while i < c.len()
        invariant
            i <= c@.len(),
            f == create_step(host),
            out@ == o0 + attrs_of(c@.take(i as int), f),
        decreases c.len() - i,
    {
        proof {
            assert(c@.take(i + 1).drop_last() =~= c@.take(i as int));
        }
        match create_op_attr(&c[i], host) {
            Some(a) => out.push(a),
            None => {},
        }
        assert(out@ =~= o0 + attrs_of(c@.take(i + 1), f));
        i = i + 1;
    }
    assert(c@.take(c@.len() as int) =~= c@);
}

/// The attribute an update operation (consumed) yields, and the operation if it stays.
fn extract_update(op: UpdateOp, host: bool) -> (r: (Option<ExtractedAttributeOp>, Option<UpdateOp>))
    ensures
        r.0 == update_step(host)(op),
        r.1 == if removed_step(host)(op) { None } else { Some(op) },
{
    let ghost op0 = op;
    match op {
        UpdateOp::Attribute(b) => {
            if is_extractable(b.is_text_attribute, &b.expression) {
                let kind = if !host && b.is_structural_template_attribute {
                    BindingKind::Template
                } else {
                    BindingKind::Attribute
                };
                let value = extract_value_from_binding_expr(b.expression);
                let a = ExtractedAttributeOp {
                    target: b.target,
                    binding_kind: kind,
                    namespace: b.namespace,
                    name: b.name,
                    value,
                    security_context: b.security_context,
                    truthy_expression: false,
                    i18n_context: b.i18n_context,
                    i18n_message: b.i18n_message,
                };
                (Some(a), None)
            } else {
                (None, Some(UpdateOp::Attribute(b)))
            }
        },
        UpdateOp::Binding(b) => {
            if !is_animation_kind(b.kind) && is_extractable(b.is_text_attribute, &b.expression) {
                let kind = if host {
                    b.kind
                } else {
                    match b.kind {
                        BindingKind::Property => BindingKind::Property,
                        BindingKind::TwoWayProperty => BindingKind::TwoWayProperty,
                        BindingKind::Template => BindingKind::Template,
                        _ => BindingKind::Attribute,
                    }
                };
                let value = extract_value_from_binding_expr(b.expression);
                let a = ExtractedAttributeOp {
                    target: b.target,
                    binding_kind: kind,
                    namespace: None,
                    name: b.name,
                    value,
                    security_context: b.security_context,
                    truthy_expression: false,
                    i18n_context: None,
                    i18n_message: b.i18n_message,
                };
                (Some(a), None)
            } else {
                (None, Some(UpdateOp::Binding(b)))
            }
        },
        UpdateOp::Property(b) => {
            let a = if host || is_animation_kind(b.kind) {
                None
            } else {
                let interp = match &b.expression {
                    IrExpression::Interpolation { .. } => true,
                    _ => false,
                };
                let kind = if b.i18n_message.is_some() && b.kind != BindingKind::Template && interp {
                    BindingKind::I18n
                } else {
                    b.kind
                };
                Some(plain(b.target, kind, &b.name, b.security_context))
            };
            (a, Some(UpdateOp::Property(b)))
        },
        UpdateOp::TwoWayProperty(b) => {
            let a = if host {
                None
            } else {
                Some(plain(b.target, BindingKind::TwoWayProperty, &b.name, b.security_context))
            };
            (a, Some(UpdateOp::TwoWayProperty(b)))
        },
        UpdateOp::DomProperty(b) => {
            let a = if host && !is_animation_kind(b.kind) {
                Some(plain(b.target, b.kind, &b.name, b.security_context))
            } else {
                None
            };
            (a, Some(UpdateOp::DomProperty(b)))
        },
        other => (None, Some(other)),
    }
}

/// Extracts the attributes of a list of update operations (consumed), returning
/// the operations that stay.
fn process_updates(u: Vec<UpdateOp>, out: &mut Vec<ExtractedAttributeOp>, host: bool) -> (kept: Vec<UpdateOp>)
    ensures
        kept@ == kept_updates(u@, removed_step(host)),
        final(out)@ == old(out)@ + attrs_of(u@, update_step(host)),
{
    let ghost us = u@;
    let ghost o0 = out@;
    let ghost f = update_step(host);
    let ghost r = removed_step(host);
    let mut rev: Vec<UpdateOp> = Vec::new();
    let mut u = u;
    while u.len() > 0
        invariant
            u@.len() + rev@.len() == us.len(),
            forall|i: int| 0 <= i < u@.len() ==> #[trigger] u@[i] == us[i],
            forall|j: int| 0 <= j < rev@.len() ==> #[trigger] rev@[j] == us[us.len() - 1 - j],
        decreases u.len(),
    {
        let x = u.pop().unwrap();
        rev.push(x);
    }
    let mut kept: Vec<UpdateOp> = Vec::new();
    proof {
        assert(us.take(0) =~= Seq::<UpdateOp>::empty());
        assert(out@ =~= o0 + attrs_of(us.take(0), f));
    }
    while rev.len() > 0
        invariant
            rev@.len() <= us.len(),
            forall|j: int| 0 <= j < rev@.len() ==> #[trigger] rev@[j] == us[us.len() - 1 - j],
            f == update_step(host),
            r == removed_step(host),
            kept@ == kept_updates(us.take(us.len() - rev@.len()), r),
            out@ == o0 + attrs_of(us.take(us.len() - rev@.len()), f),
        decreases rev.len(),
    {
        let ghost k = us.len() - rev@.len();
        let op = rev.pop().unwrap();
        proof {
            assert(us.take(k + 1).drop_last() =~= us.take(k));
            assert(us.take(k + 1).last() == op);
        }
        let (a, o) = extract_update(op, host);
        match a {
            Some(a) => out.push(a),
            None => {},
        }
        match o {
            Some(o) => kept.push(o),
            None => {},
        }
        assert(out@ =~= o0 + attrs_of(us.take(k + 1), f));
    }
    assert(us.take(us.len() as int) =~= us);
    kept
}

/// The ids under which a creation operation can receive extracted attributes.
fn op_element_keys(op: &CreateOp) -> (r: (Option<u32>, Option<u32>))
    ensures
        element_keys(*op).len() == 0 ==> r == (None::<u32>, None::<u32>),
        element_keys(*op).len() == 1 ==> r == (Some(element_keys(*op)[0]), None::<u32>),
        element_keys(*op).len() == 2 ==> r == (Some(element_keys(*op)[0]), Some(element_keys(*op)[1])),
        element_keys(*op).len() <= 2,
{
    match op {
        CreateOp::ElementStart(e) | CreateOp::Element(e) => (Some(e.xref.0), None),
        CreateOp::Template(t) | CreateOp::Conditional(t) | CreateOp::ConditionalBranch(t) => (Some(t.xref.0), None),
        CreateOp::RepeaterCreate(t) => match t.empty_view {
            Some(e) => (Some(t.embedded_view.0), Some(e.0)),
            None => (Some(t.embedded_view.0), None),
        },
        CreateOp::Projection(p) => (Some(p.xref.0), None),
        _ => (None, None),
    }
}

/// Maps each id that can receive attributes to the position of the last
/// operation recorded under it.
fn build_element_map(c: &Vec<CreateOp>) -> (m: FxHashMap<u32, usize>)
    ensures
        m@ == element_map(c@, c@.len() as int),
{
    let mut m: FxHashMap<u32, usize> = fx_map_new();
    proof {
        assert(m@ =~= element_map(c@, 0));
    }
    let mut i: usize = 0;
    while i < c.len()
        invariant
            i <= c@.len(),
            m@ == element_map(c@, i as int),
        decreases c.len() - i,
    {
        let (k0, k1) = op_element_keys(&c[i]);
        match k0 {
            Some(x) => fx_map_insert(&mut m, x, i),
            None => {},
        }
        match k1 {
            Some(x) => fx_map_insert(&mut m, x, i),
            None => {},
        }
        i = i + 1;
    }
    m
}

/// Recorded positions come before `k`.
proof fn lemma_element_map_bound(c: Seq<CreateOp>, k: int)
    requires
        k <= usize::MAX,
    ensures
        forall|x: u32| #[trigger] element_map(c, k).contains_key(x) ==> element_map(c, k)[x] < k,
    decreases k,
{
    if k > 0 {
        lemma_element_map_bound(c, k - 1);
        let m = element_map(c, k - 1);
        assert forall|x: u32| #[trigger] element_map(c, k).contains_key(x) implies element_map(c, k)[x] < k by {
            if m.contains_key(x) {
                assert(m[x] < k - 1);
            }
            assert(((k - 1) as usize) as int == k - 1);
        }
    }
}

/// Places every attribute right before the operation its target maps to (the
/// others at the end), consuming both lists.
fn place_attrs(c: Vec<CreateOp>, e: Vec<ExtractedAttributeOp>, m: &FxHashMap<u32, usize>) -> (r: Vec<CreateOp>)
    requires
        m@ == element_map(c@, c@.len() as int),
    ensures
        r@ == with_attrs(c@, e@, c@.len() as int) + attrs_at(c@, e@, None),
{
    let ghost cs = c@;
    let ghost es = e@;
    assert(cs.len() == c.len());
    proof {
        lemma_element_map_bound(cs, cs.len() as int);
    }
    let n = e.len();
    let mut pos: Vec<Option<usize>> = Vec::new();
    let mut i: usize = 0;
    while i < n
        invariant
            n == e@.len(),
            e@ == es,
            i <= n,
            m@ == element_map(cs, cs.len() as int),
            pos@.len() == i,
            forall|j: int| 0 <= j < i ==> (#[trigger] pos@[j] matches Some(p) ==> target_pos(cs, es[j].target) == Some(p as int)
                && p < cs.len()) && (pos@[j] is None ==> target_pos(cs, es[j].target) is None),
            forall|x: u32| #[trigger] element_map(cs, cs.len() as int).contains_key(x) ==> element_map(cs, cs.len() as int)[x] < cs.len(),
        decreases n - i,
    {
        pos.push(fx_map_get(m, e[i].target.0));
        i = i + 1;
    }
    let mut slots: Vec<Option<ExtractedAttributeOp>> = Vec::new();
    let mut er = reversed(e);
    while er.len() > 0
        invariant
            er@.len() + slots@.len() == es.len(),
            forall|j: int| 0 <= j < er@.len() ==> #[trigger] er@[j] == es[es.len() - 1 - j],
            forall|j: int| 0 <= j < slots@.len() ==> #[trigger] slots@[j] == Some(es[j]),
        decreases er.len(),
    {
        let a = er.pop().unwrap();
        slots.push(Some(a));
    }
    let total = c.len();
    let mut cr = reversed(c);
    let mut out: Vec<CreateOp> = Vec::new();
    while cr.len() > 0
        invariant
            total == cs.len(),
            cr@.len() <= cs.len(),
            forall|j: int| 0 <= j < cr@.len() ==> #[trigger] cr@[j] == cs[cs.len() - 1 - j],
            n == es.len(),
            pos@.len() == n,
            slots@.len() == n,
            forall|j: int| 0 <= j < n ==> (#[trigger] pos@[j] matches Some(p) ==> target_pos(cs, es[j].target) == Some(p as int)
                && p < cs.len()) && (pos@[j] is None ==> target_pos(cs, es[j].target) is None),
            forall|j: int|
                0 <= j < n ==> #[trigger] slots@[j] == if pos@[j] matches Some(p) && p < cs.len() - cr@.len() {
                    None
                } else {
                    Some(es[j])
                },
            out@ == with_attrs(cs, es, cs.len() - cr@.len()),
        decreases cr.len(),
    {
        let ghost k = cs.len() - cr@.len();
        let kk = total - cr.len();
        let op = cr.pop().unwrap();
        let ghost base = out@;
        proof {
            assert(es.take(0) =~= Seq::<ExtractedAttributeOp>::empty());
            assert(out@ =~= base + attrs_at(cs, es.take(0), Some(k)));
        }
        let mut j: usize = 0;
        while j < n
            invariant
                n == es.len(),
                pos@.len() == n,
                slots@.len() == n,
                j <= n,
                kk == k,
                forall|q: int| 0 <= q < n ==> (#[trigger] pos@[q] matches Some(p) ==> target_pos(cs, es[q].target) == Some(p as int))
                    && (pos@[q] is None ==> target_pos(cs, es[q].target) is None),
                forall|q: int|
                    0 <= q < n ==> #[trigger] slots@[q] == if pos@[q] matches Some(p) && (p < k || (p == k && q < j)) {
                        None
                    } else {
                        Some(es[q])
                    },
                out@ == base + attrs_at(cs, es.take(j as int), Some(k)),
            decreases n - j,
        {
            proof {
                assert(es.take(j + 1).drop_last() =~= es.take(j as int));
                assert(es.take(j + 1).last() == es[j as int]);
            }
            let here = match pos[j] {
                Some(p) => p == kk,
                None => false,
            };
            if here {
                let mut taken: Option<ExtractedAttributeOp> = None;
                std::mem::swap(&mut taken, &mut slots[j]);
                let a = taken.unwrap();
                out.push(CreateOp::ExtractedAttribute(a));
            }
            assert(out@ =~= base + attrs_at(cs, es.take(j + 1), Some(k)));
            j = j + 1;
        }
        assert(es.take(n as int) =~= es);
        out.push(op);
        proof {
            assert(with_attrs(cs, es, k + 1) == with_attrs(cs, es, k) + attrs_at(cs, es, Some(k)).push(cs[k]));
            assert(out@ =~= with_attrs(cs, es, k + 1));
        }
    }
    let ghost base = out@;
    proof {
        assert(es.take(0) =~= Seq::<ExtractedAttributeOp>::empty());
        assert(out@ =~= base + attrs_at(cs, es.take(0), None));
    }
    let mut j: usize = 0;
    while j < n
        invariant
            n == es.len(),
            pos@.len() == n,
            slots@.len() == n,
            j <= n,
            forall|q: int| 0 <= q < n ==> (#[trigger] pos@[q] matches Some(p) ==> target_pos(cs, es[q].target) == Some(p as int))
                && (pos@[q] is None ==> target_pos(cs, es[q].target) is None),
            forall|q: int|
                0 <= q < n ==> #[trigger] slots@[q] == if pos@[q] is Some || q < j {
                    None
                } else {
                    Some(es[q])
                },
            out@ == base + attrs_at(cs, es.take(j as int), None),
        decreases n - j,
    {
        proof {
            assert(es.take(j + 1).drop_last() =~= es.take(j as int));
            assert(es.take(j + 1).last() == es[j as int]);
        }
        if pos[j].is_none() {
            let mut taken: Option<ExtractedAttributeOp> = None;
            std::mem::swap(&mut taken, &mut slots[j]);
            let a = taken.unwrap();
            out.push(CreateOp::ExtractedAttribute(a));
        }
        assert(out@ =~= base + attrs_at(cs, es.take(j + 1), None));
        j = j + 1;
    }
    assert(es.take(n as int) =~= es);
    out
}

fn reversed<T>(v: Vec<T>) -> (r: Vec<T>)
    ensures
        r@.len() == v@.len(),
        forall|j: int| 0 <= j < v@.len() ==> #[trigger] r@[j] == v@[v@.len() - 1 - j],
{
    let ghost orig = v@;
    let mut rev: Vec<T> = Vec::new();
    let mut v = v;
    while v.len() > 0
        invariant
            v@.len() + rev@.len() == orig.len(),
            forall|i: int| 0 <= i < v@.len() ==> #[trigger] v@[i] == orig[i],
            forall|j: int| 0 <= j < rev@.len() ==> #[trigger] rev@[j] == orig[orig.len() - 1 - j],
        decreases v.len(),
    {
        let x = v.pop().unwrap();
        rev.push(x);
    }
    rev
}

/// Extracts the attributes of one view of a template job.
fn process_view_attributes(view: &mut ViewCompilationUnit)
    ensures
        view_attributes_extracted(*old(view), *final(view)),
{
    let ghost v0 = *view;
    let mut attrs: Vec<ExtractedAttributeOp> = Vec::new();
    collect_create_attrs(&view.create, &mut attrs, false);
    let mut update: Vec<UpdateOp> = Vec::new();
    std::mem::swap(&mut update, &mut view.update);
    let kept = process_updates(update, &mut attrs, false);
    view.update = kept;
    assert(attrs@ =~= view_attrs(v0));
    let map = build_element_map(&view.create);
    let mut create: Vec<CreateOp> = Vec::new();
    std::mem::swap(&mut create, &mut view.create);
    view.create = place_attrs(create, attrs, &map);
}

/// Extracts attributes in the root view and every embedded view.
pub fn extract_attributes(job: &mut ComponentCompilationJob)
    ensures
        job_attributes_extracted(*old(job), *final(job)),
{
    process_view_attributes(&mut job.root);
    let n = job.views.len();
    let mut i: usize = 0;
    while i < n
        invariant
            n == job.views@.len(),
            n == old(job).views@.len(),
            i <= n,
            view_attributes_extracted(old(job).root, job.root),
            forall|j: int| 0 <= j < i ==> view_attributes_extracted(old(job).views@[j], #[trigger] job.views@[j]),
            forall|j: int| i <= j < n ==> #[trigger] job.views@[j] == old(job).views@[j],
            job.consts == old(job).consts,
            job.diagnostics == old(job).diagnostics,
            job.next_xref == old(job).next_xref,
            job.compatibility_mode == old(job).compatibility_mode,
            job.mode == old(job).mode,
            job.enable_debug_locations == old(job).enable_debug_locations,
            job.relative_template_path == old(job).relative_template_path,
            job.template_source == old(job).template_source,
        decreases n - i,
    {
        process_view_attributes(&mut job.views[i]);
        i = i + 1;
    }
}

/// Extracts the attributes of a host job, appending them to its creation block.
pub fn extract_attributes_for_host(job: &mut HostBindingCompilationJob)
    ensures
        host_job_attributes_extracted(*old(job), *final(job)),
{
    let ghost c0 = job.root.create@;
    let ghost u0 = job.root.update@;
    let mut attrs: Vec<ExtractedAttributeOp> = Vec::new();
    collect_create_attrs(&job.root.create, &mut attrs, true);
    let mut update: Vec<UpdateOp> = Vec::new();
    std::mem::swap(&mut update, &mut job.root.update);
    let kept = process_updates(update, &mut attrs, true);
    job.root.update = kept;
    let ghost e = attrs@;
    assert(e =~= attrs_of(c0, host_create_attr_fn()) + attrs_of(u0, host_update_attr_fn()));
    let mut ar = reversed(attrs);
    while ar.len() > 0
        invariant
            ar@.len() <= e.len(),
            forall|j: int| 0 <= j < ar@.len() ==> #[trigger] ar@[j] == e[e.len() - 1 - j],
            job.root.create@ == c0 + e.take(e.len() - ar@.len()).map_values(
                |a: ExtractedAttributeOp| CreateOp::ExtractedAttribute(a),
            ),
            job.root.update@ == kept_updates(u0, host_update_removed_fn()),
            job.diagnostics == old(job).diagnostics,
            host_frame_kept(*old(job), *job),
        decreases ar.len(),
    {
        let ghost k = e.len() - ar@.len();
        let a = ar.pop().unwrap();
        job.root.create.push(CreateOp::ExtractedAttribute(a));
        assert(job.root.create@ =~= c0 + e.take(k + 1).map_values(|a: ExtractedAttributeOp| CreateOp::ExtractedAttribute(a)));
    }
    assert(e.take(e.len() as int) =~= e);
}

} // verus!
