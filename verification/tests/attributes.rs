#![allow(dead_code, unused_imports)]

use angular_phases::ir::{
    TemplateCompilationMode,
    AngularExpression, BindingKind, CompatibilityMode, ComponentCompilationJob, ConstValue, CreateOp, Diagnostic,
    HostBindingCompilationJob, HostBindingCompilationUnit, IrExpression, ListenerOp, LiteralValue, OutputExpression,
    SecurityContext, SlotId, SlotOp, UpdateBindingOp, UpdateOp, ViewCompilationUnit, XrefId,
};
use angular_phases::attribute_extraction::{extract_attributes, extract_attributes_for_host};
use angular_phases::ir::ExtractedAttributeOp;

fn s(x: &str) -> String {
    x.to_string()
}

fn read(name: &str) -> IrExpression {
    IrExpression::LexicalRead(s(name))
}

fn lit(v: &str) -> IrExpression {
    IrExpression::Ast(Box::new(AngularExpression::LiteralPrimitive(LiteralValue::String(s(v)))))
}

fn interp(strings: &[&str], expressions: Vec<IrExpression>) -> IrExpression {
    IrExpression::Interpolation {
        strings: strings.iter().map(|x| s(x)).collect(),
        expressions,
        i18n_placeholders: vec![],
    }
}

fn binding(target: u32, kind: BindingKind, name: &str, expression: IrExpression) -> UpdateBindingOp {
    UpdateBindingOp {
        target: XrefId(target),
        kind,
        name: s(name),
        unit: None,
        expression,
        security_context: SecurityContext::NoContext,
        is_text_attribute: false,
        is_structural_template_attribute: false,
        namespace: None,
        i18n_message: None,
        i18n_context: None,
    }
}

fn element(xref: u32, name: &str) -> CreateOp {
    CreateOp::ElementStart(SlotOp { xref: XrefId(xref), slot: None, name: s(name), local_refs: vec![], local_refs_index: None, non_bindable: false, source_start: None, attributes: None })
}

fn listener(target: u32, name: &str, host_listener: bool, is_animation_listener: bool) -> ListenerOp {
    ListenerOp {
        target: XrefId(target),
        target_slot: None,
        name: s(name),
        host_listener,
        is_animation_listener,
        legacy_animation_phase: None,
        handler_expression: None,
        handler_ops: None,
        animation_kind: None,
    }
}

fn view(xref: u32, create: Vec<CreateOp>, update: Vec<UpdateOp>) -> ViewCompilationUnit {
    ViewCompilationUnit { xref: XrefId(xref), decl_count: None, create, update, functions: vec![] }
}

fn job(root: ViewCompilationUnit, views: Vec<ViewCompilationUnit>) -> ComponentCompilationJob {
    ComponentCompilationJob {
        compatibility_mode: CompatibilityMode::Normal,
        mode: TemplateCompilationMode::Full,
        root,
        views,
        consts: vec![],
        diagnostics: vec![],
        next_xref: 100,
        enable_debug_locations: false,
        relative_template_path: None,
        template_source: None,
    }
}

fn host_job(create: Vec<CreateOp>, update: Vec<UpdateOp>) -> HostBindingCompilationJob {
    HostBindingCompilationJob {
        compatibility_mode: CompatibilityMode::Normal,
        root: HostBindingCompilationUnit { xref: XrefId(0), create, update, attributes: None },
        diagnostics: vec![],
    }
}

fn attr(target: u32, kind: BindingKind, name: &str, value: Option<IrExpression>, security: SecurityContext) -> CreateOp {
    CreateOp::ExtractedAttribute(ExtractedAttributeOp {
        target: XrefId(target),
        binding_kind: kind,
        namespace: None,
        name: s(name),
        value,
        security_context: security,
        truthy_expression: false,
        i18n_context: None,
        i18n_message: None,
    })
}

fn output_string(v: &str) -> IrExpression {
    IrExpression::OutputExpr(Box::new(OutputExpression::Literal(LiteralValue::String(s(v)))))
}

#[test]
fn attributes_are_placed_before_their_element() {
    let mut title = binding(1, BindingKind::Attribute, "title", lit("hello"));
    title.is_text_attribute = true;
    let mut value = binding(1, BindingKind::Property, "value", read("v"));
    value.security_context = SecurityContext::Url;
    let create = vec![element(1, "input"), CreateOp::Listener(listener(1, "click", false, false))];
    let update = vec![UpdateOp::Attribute(title), UpdateOp::Property(value)];
    let mut j = job(view(0, create, update), vec![]);
    extract_attributes(&mut j);
    assert_eq!(j.root.create.len(), 5);
    assert_eq!(j.root.create[0], attr(1, BindingKind::Property, "click", None, SecurityContext::NoContext));
    assert_eq!(j.root.create[1], attr(1, BindingKind::Attribute, "title", Some(output_string("hello")), SecurityContext::NoContext));
    assert_eq!(j.root.create[2], attr(1, BindingKind::Property, "value", None, SecurityContext::Url));
    assert!(matches!(j.root.create[3], CreateOp::ElementStart(_)));
    assert!(matches!(j.root.create[4], CreateOp::Listener(_)));
    assert_eq!(j.root.update.len(), 1);
    assert!(matches!(j.root.update[0], UpdateOp::Property(_)));
}

#[test]
fn non_constant_attribute_stays_an_update() {
    let update = vec![UpdateOp::Attribute(binding(1, BindingKind::Attribute, "title", read("t")))];
    let mut j = job(view(0, vec![element(1, "div")], update), vec![]);
    extract_attributes(&mut j);
    assert_eq!(j.root.create.len(), 1);
    assert_eq!(j.root.update.len(), 1);
}

#[test]
fn animation_properties_and_listeners_are_not_extracted() {
    let create = vec![element(1, "div"), CreateOp::Listener(listener(1, "@a.done", false, true))];
    let update = vec![UpdateOp::Property(binding(1, BindingKind::Animation, "@a", read("x")))];
    let mut j = job(view(0, create, update), vec![]);
    extract_attributes(&mut j);
    assert_eq!(j.root.create.len(), 2);
    assert_eq!(j.root.update.len(), 1);
}

#[test]
fn translated_interpolated_property_is_an_i18n_attribute() {
    let mut b = binding(1, BindingKind::Property, "heading", interp(&["Join ", ""], vec![read("name")]));
    b.i18n_message = Some(3);
    let mut j = job(view(0, vec![element(1, "h1")], vec![UpdateOp::Property(b)]), vec![]);
    extract_attributes(&mut j);
    assert_eq!(j.root.create[0], attr(1, BindingKind::I18n, "heading", None, SecurityContext::NoContext));
}

#[test]
fn attribute_of_a_missing_element_goes_to_the_end() {
    let mut b = binding(42, BindingKind::Attribute, "role", lit("button"));
    b.is_text_attribute = true;
    let mut j = job(view(0, vec![element(1, "div")], vec![UpdateOp::Attribute(b)]), vec![]);
    extract_attributes(&mut j);
    assert_eq!(j.root.create.len(), 2);
    assert_eq!(j.root.create[1], attr(42, BindingKind::Attribute, "role", Some(output_string("button")), SecurityContext::NoContext));
    assert!(j.root.update.is_empty());
}

#[test]
fn host_attributes_are_appended() {
    let mut role = binding(0, BindingKind::Attribute, "role", lit("tab"));
    role.is_text_attribute = true;
    let update = vec![UpdateOp::Attribute(role), UpdateOp::DomProperty(binding(0, BindingKind::Property, "id", read("i")))];
    let mut h = host_job(vec![CreateOp::Listener(listener(0, "click", true, false))], update);
    extract_attributes_for_host(&mut h);
    assert_eq!(h.root.create.len(), 4);
    assert_eq!(h.root.create[1], attr(0, BindingKind::Property, "click", None, SecurityContext::NoContext));
    assert_eq!(h.root.create[2], attr(0, BindingKind::Attribute, "role", Some(output_string("tab")), SecurityContext::NoContext));
    assert_eq!(h.root.create[3], attr(0, BindingKind::Property, "id", None, SecurityContext::NoContext));
    assert_eq!(h.root.update.len(), 1);
}
