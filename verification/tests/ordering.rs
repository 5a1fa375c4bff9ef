#![allow(dead_code, unused_imports)]

use angular_phases::ir::{
    TemplateCompilationMode,
    AngularExpression, BindingKind, CompatibilityMode, ComponentCompilationJob, ConstValue, CreateOp, Diagnostic,
    HostBindingCompilationJob, HostBindingCompilationUnit, IrExpression, ListenerOp, LiteralValue, OutputExpression,
    SecurityContext, SlotId, SlotOp, UpdateBindingOp, UpdateOp, ViewCompilationUnit, XrefId,
};
use angular_phases::ordering::{create_op_priority, order_ops, order_ops_for_host, update_op_priority, update_op_priority_host};

fn s(x: &str) -> String {
    x.to_string()
}

fn read(name: &str) -> IrExpression {
    IrExpression::LexicalRead(s(name))
}

fn lit(v: &str) -> IrExpression {
    IrExpression::Ast(Box::new(AngularExpression::LiteralPrimitive(LiteralValue::String(s(v)))))
}

fn interp(strings: &[&str], expressions: Vec<IrExpression>) -> IrExpression {
    IrExpression::Interpolation {
        strings: strings.iter().map(|x| s(x)).collect(),
        expressions,
        i18n_placeholders: vec![],
    }
}

fn binding(target: u32, kind: BindingKind, name: &str, expression: IrExpression) -> UpdateBindingOp {
    UpdateBindingOp {
        target: XrefId(target),
        kind,
        name: s(name),
        unit: None,
        expression,
        security_context: SecurityContext::NoContext,
        is_text_attribute: false,
        is_structural_template_attribute: false,
        namespace: None,
        i18n_message: None,
        i18n_context: None,
    }
}

fn element(xref: u32, name: &str) -> CreateOp {
    CreateOp::ElementStart(SlotOp { xref: XrefId(xref), slot: None, name: s(name), local_refs: vec![], local_refs_index: None, non_bindable: false, source_start: None, attributes: None })
}

fn listener(target: u32, name: &str, host_listener: bool, is_animation_listener: bool) -> ListenerOp {
    ListenerOp {
        target: XrefId(target),
        target_slot: None,
        name: s(name),
        host_listener,
        is_animation_listener,
        legacy_animation_phase: None,
        handler_expression: None,
        handler_ops: None,
        animation_kind: None,
    }
}

fn view(xref: u32, create: Vec<CreateOp>, update: Vec<UpdateOp>) -> ViewCompilationUnit {
    ViewCompilationUnit { xref: XrefId(xref), decl_count: None, create, update, functions: vec![] }
}

fn job(root: ViewCompilationUnit, views: Vec<ViewCompilationUnit>) -> ComponentCompilationJob {
    ComponentCompilationJob {
        compatibility_mode: CompatibilityMode::Normal,
        mode: TemplateCompilationMode::Full,
        root,
        views,
        consts: vec![],
        diagnostics: vec![],
        next_xref: 100,
        enable_debug_locations: false,
        relative_template_path: None,
        template_source: None,
    }
}

fn host_job(create: Vec<CreateOp>, update: Vec<UpdateOp>) -> HostBindingCompilationJob {
    HostBindingCompilationJob {
        compatibility_mode: CompatibilityMode::Normal,
        root: HostBindingCompilationUnit { xref: XrefId(0), create, update, attributes: None },
        diagnostics: vec![],
    }
}

fn make_listener_op(host_listener: bool, is_animation_listener: bool, legacy_animation_phase: Option<String>) -> CreateOp {
    CreateOp::Listener(ListenerOp {
        target: XrefId(0),
        target_slot: Some(SlotId(0)),
        name: String::from(""),
        host_listener,
        is_animation_listener,
        legacy_animation_phase,
        handler_expression: None,
        handler_ops: None,
        animation_kind: None,
    })
}

#[test]
fn legacy_animation_host_listener_has_priority_zero() {
    // A legacy animation host listener must come before the regular listeners.
    let op = make_listener_op(true, true, Some(String::from("done")));
    assert_eq!(create_op_priority(&op), 0);
}

#[test]
fn regular_host_listener_has_priority_one() {
    let op = make_listener_op(true, false, None);
    assert_eq!(create_op_priority(&op), 1);
}

#[test]
fn template_animation_listener_has_priority_one() {
    // A template-level animation listener is not a synthetic host listener.
    let op = make_listener_op(false, true, Some(String::from("start")));
    assert_eq!(create_op_priority(&op), 1);
}

#[test]
fn update_priorities_follow_the_template_order() {
    assert_eq!(update_op_priority(&UpdateOp::StyleMap(binding(1, BindingKind::Property, "", read("a")))), 0);
    assert_eq!(update_op_priority(&UpdateOp::ClassProp(binding(1, BindingKind::Property, "c", read("a")))), 3);
    let interpolated = interp(&["a", "b"], vec![read("x")]);
    assert_eq!(update_op_priority(&UpdateOp::Attribute(binding(1, BindingKind::Attribute, "t", interpolated))), 4);
    assert_eq!(update_op_priority(&UpdateOp::Attribute(binding(1, BindingKind::Attribute, "t", read("x")))), 7);
    assert_eq!(update_op_priority(&UpdateOp::Property(binding(1, BindingKind::Property, "p", read("x")))), 6);
    assert_eq!(update_op_priority(&UpdateOp::DomProperty(binding(1, BindingKind::Property, "p", read("x")))), 9);
    assert_eq!(update_op_priority(&UpdateOp::ListEnd), 100);
}

#[test]
fn host_update_priorities_put_dom_properties_first() {
    assert_eq!(update_op_priority_host(&UpdateOp::DomProperty(binding(1, BindingKind::Property, "p", read("x")))), 1);
    assert_eq!(update_op_priority_host(&UpdateOp::Attribute(binding(1, BindingKind::Attribute, "a", read("x")))), 2);
    assert_eq!(update_op_priority_host(&UpdateOp::ClassProp(binding(1, BindingKind::Property, "c", read("x")))), 6);
}

#[test]
fn order_ops_sorts_a_run_on_one_element() {
    let update = vec![
        UpdateOp::Property(binding(1, BindingKind::Property, "value", read("v"))),
        UpdateOp::Attribute(binding(1, BindingKind::Attribute, "title", read("t"))),
        UpdateOp::StyleMap(binding(1, BindingKind::Property, "style", read("s"))),
        UpdateOp::ClassProp(binding(1, BindingKind::Property, "active", read("c"))),
    ];
    let mut j = job(view(0, vec![element(1, "div")], update), vec![]);
    order_ops(&mut j);
    let kinds: Vec<&str> = j
        .root
        .update
        .iter()
        .map(|op| match op {
            UpdateOp::StyleMap(_) => "styleMap",
            UpdateOp::ClassProp(_) => "classProp",
            UpdateOp::Property(_) => "property",
            UpdateOp::Attribute(_) => "attribute",
            _ => "other",
        })
        .collect();
    assert_eq!(kinds, vec!["styleMap", "classProp", "property", "attribute"]);
}

#[test]
fn order_ops_keeps_runs_on_different_elements_apart() {
    let update = vec![
        UpdateOp::Property(binding(1, BindingKind::Property, "a", read("a"))),
        UpdateOp::StyleMap(binding(2, BindingKind::Property, "style", read("s"))),
    ];
    let mut j = job(view(0, vec![], update), vec![]);
    order_ops(&mut j);
    assert!(matches!(j.root.update[0], UpdateOp::Property(_)));
    assert!(matches!(j.root.update[1], UpdateOp::StyleMap(_)));
}

#[test]
fn order_ops_keeps_only_the_last_style_map_of_a_run() {
    let update = vec![
        UpdateOp::StyleMap(binding(1, BindingKind::Property, "first", read("a"))),
        UpdateOp::StyleMap(binding(1, BindingKind::Property, "second", read("b"))),
    ];
    let mut j = job(view(0, vec![], update), vec![]);
    order_ops(&mut j);
    assert_eq!(j.root.update.len(), 1);
    match &j.root.update[0] {
        UpdateOp::StyleMap(b) => assert_eq!(b.name, "second"),
        _ => panic!("expected a style map"),
    }
}

#[test]
fn order_ops_leaves_unhandled_operations_in_place() {
    let update = vec![
        UpdateOp::Property(binding(1, BindingKind::Property, "a", read("a"))),
        UpdateOp::ListEnd,
        UpdateOp::StyleMap(binding(1, BindingKind::Property, "style", read("s"))),
    ];
    let mut j = job(view(0, vec![], update), vec![]);
    order_ops(&mut j);
    assert!(matches!(j.root.update[0], UpdateOp::Property(_)));
    assert!(matches!(j.root.update[1], UpdateOp::ListEnd));
    assert!(matches!(j.root.update[2], UpdateOp::StyleMap(_)));
}

#[test]
fn order_ops_puts_legacy_animation_host_listener_first() {
    let create = vec![
        CreateOp::Listener(listener(1, "click", false, false)),
        CreateOp::Listener(listener(1, "@anim.done", true, true)),
    ];
    let mut j = job(view(0, create, vec![]), vec![]);
    order_ops(&mut j);
    match (&j.root.create[0], &j.root.create[1]) {
        (CreateOp::Listener(a), CreateOp::Listener(b)) => {
            assert_eq!(a.name, "@anim.done");
            assert_eq!(b.name, "click");
        },
        _ => panic!("expected two listeners"),
    }
}

#[test]
fn order_ops_for_host_sorts_dom_properties_before_attributes() {
    let update = vec![
        UpdateOp::Attribute(binding(1, BindingKind::Attribute, "role", read("r"))),
        UpdateOp::DomProperty(binding(1, BindingKind::Property, "id", read("i"))),
    ];
    let mut h = host_job(vec![], update);
    order_ops_for_host(&mut h);
    assert!(matches!(h.root.update[0], UpdateOp::DomProperty(_)));
    assert!(matches!(h.root.update[1], UpdateOp::Attribute(_)));
}
