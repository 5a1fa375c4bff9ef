#![allow(dead_code, unused_imports)]

use angular_phases::ir::{
    TemplateCompilationMode,
    AngularExpression, BindingKind, CompatibilityMode, ComponentCompilationJob, ConstValue, CreateOp, Diagnostic,
    HostBindingCompilationJob, HostBindingCompilationUnit, IrExpression, ListenerOp, LiteralValue, OutputExpression,
    SecurityContext, SlotId, SlotOp, UpdateBindingOp, UpdateOp, ViewCompilationUnit, XrefId,
};
use angular_phases::allocate_slots::allocate_slots;
use angular_phases::generate_advance::generate_advance;
use angular_phases::ir::{AdvanceOp, DeferOp, I18nApplyOp, LocalRef, PipeOp, ProjectionOp, TemplateKind, TemplateOp, TextOp};

fn s(x: &str) -> String {
    x.to_string()
}

fn read(name: &str) -> IrExpression {
    IrExpression::LexicalRead(s(name))
}

fn lit(v: &str) -> IrExpression {
    IrExpression::Ast(Box::new(AngularExpression::LiteralPrimitive(LiteralValue::String(s(v)))))
}

fn interp(strings: &[&str], expressions: Vec<IrExpression>) -> IrExpression {
    IrExpression::Interpolation {
        strings: strings.iter().map(|x| s(x)).collect(),
        expressions,
        i18n_placeholders: vec![],
    }
}

fn binding(target: u32, kind: BindingKind, name: &str, expression: IrExpression) -> UpdateBindingOp {
    UpdateBindingOp {
        target: XrefId(target),
        kind,
        name: s(name),
        unit: None,
        expression,
        security_context: SecurityContext::NoContext,
        is_text_attribute: false,
        is_structural_template_attribute: false,
        namespace: None,
        i18n_message: None,
        i18n_context: None,
    }
}

fn element(xref: u32, name: &str) -> CreateOp {
    CreateOp::ElementStart(SlotOp { xref: XrefId(xref), slot: None, name: s(name), local_refs: vec![], local_refs_index: None, non_bindable: false, source_start: None, attributes: None })
}

fn listener(target: u32, name: &str, host_listener: bool, is_animation_listener: bool) -> ListenerOp {
    ListenerOp {
        target: XrefId(target),
        target_slot: None,
        name: s(name),
        host_listener,
        is_animation_listener,
        legacy_animation_phase: None,
        handler_expression: None,
        handler_ops: None,
        animation_kind: None,
    }
}

fn view(xref: u32, create: Vec<CreateOp>, update: Vec<UpdateOp>) -> ViewCompilationUnit {
    ViewCompilationUnit { xref: XrefId(xref), decl_count: None, create, update, functions: vec![] }
}

fn job(root: ViewCompilationUnit, views: Vec<ViewCompilationUnit>) -> ComponentCompilationJob {
    ComponentCompilationJob {
        compatibility_mode: CompatibilityMode::Normal,
        mode: TemplateCompilationMode::Full,
        root,
        views,
        consts: vec![],
        diagnostics: vec![],
        next_xref: 100,
        enable_debug_locations: false,
        relative_template_path: None,
        template_source: None,
    }
}

fn host_job(create: Vec<CreateOp>, update: Vec<UpdateOp>) -> HostBindingCompilationJob {
    HostBindingCompilationJob {
        compatibility_mode: CompatibilityMode::Normal,
        root: HostBindingCompilationUnit { xref: XrefId(0), create, update, attributes: None },
        diagnostics: vec![],
    }
}

fn element_with_slot(xref: u32, slot: u32) -> CreateOp {
    CreateOp::ElementStart(SlotOp { xref: XrefId(xref), slot: Some(SlotId(slot)), name: s("div"), local_refs: vec![], local_refs_index: None, non_bindable: false, source_start: None, attributes: None })
}

fn template(xref: u32, embedded: u32, refs: usize, empty: Option<u32>) -> TemplateOp {
    TemplateOp {
        xref: XrefId(xref),
        slot: None,
        embedded_view: XrefId(embedded),
        template_kind: TemplateKind::NgTemplate,
        has_i18n_placeholder: false,
        local_refs: (0..refs).map(|i| LocalRef { name: format!("r{}", i), target: s("") }).collect(),
        local_refs_index: None,
        empty_view: empty.map(XrefId),
        decls: None,
        empty_decls: None,
        attributes: None,
        empty_attributes: None,
        empty_has_i18n_placeholder: false,
    }
}

fn lref(name: &str) -> LocalRef {
    LocalRef { name: s(name), target: s("") }
}

fn text(xref: u32) -> CreateOp {
    CreateOp::Text(TextOp { xref: XrefId(xref), slot: None, initial_value: s(""), icu_placeholder: None })
}

fn slot_of(op: &CreateOp) -> Option<SlotId> {
    match op {
        CreateOp::ElementStart(e) => e.slot,
        CreateOp::Template(t) | CreateOp::RepeaterCreate(t) => t.slot,
        CreateOp::Text(t) => t.slot,
        CreateOp::Pipe(p) => p.slot,
        CreateOp::Projection(p) => p.slot,
        CreateOp::Defer(d) => d.slot,
        _ => None,
    }
}

#[test]
fn slots_are_allocated_in_order_with_their_sizes() {
    let mut el = SlotOp { xref: XrefId(1), slot: None, name: s("div"), local_refs: vec![lref("a"), lref("b")], local_refs_index: None, non_bindable: false, source_start: None, attributes: None };
    el.local_refs.push(lref("c"));
    let create = vec![
        CreateOp::ElementStart(el),
        CreateOp::Template(template(2, 10, 1, None)),
        text(3),
        CreateOp::RepeaterCreate(template(4, 11, 0, Some(12))),
        CreateOp::Projection(ProjectionOp { xref: XrefId(5), slot: None, fallback: Some(XrefId(13)), fallback_has_i18n_placeholder: false, attributes: None }),
        CreateOp::Pipe(PipeOp { xref: XrefId(6), slot: None, name: s("async"), num_args: 1 }),
        CreateOp::ElementEnd(XrefId(1)),
    ];
    let mut j = job(view(0, create, vec![]), vec![view(10, vec![text(20), text(21)], vec![])]);
    allocate_slots(&mut j);
    let slots: Vec<Option<SlotId>> = j.root.create.iter().map(slot_of).collect();
    assert_eq!(
        slots,
        vec![Some(SlotId(0)), Some(SlotId(4)), Some(SlotId(6)), Some(SlotId(7)), Some(SlotId(10)), Some(SlotId(12)), None]
    );
    assert_eq!(j.root.decl_count, Some(13));
    assert_eq!(j.views[0].decl_count, Some(2));
    match &j.root.create[1] {
        CreateOp::Template(t) => assert_eq!(t.decls, Some(2)),
        _ => panic!("expected a template"),
    }
    match &j.views[0].create[1] {
        CreateOp::Text(t) => assert_eq!(t.slot, Some(SlotId(1))),
        _ => panic!("expected a text node"),
    }
}

#[test]
fn listeners_pipes_and_i18n_operations_learn_slots() {
    let create = vec![
        CreateOp::I18nStart(angular_phases::ir::I18nStartOp {
            xref: XrefId(9),
            slot: None,
            context: None,
            root: None,
            message: None,
            sub_template_index: None,
        }),
        element(1, "button"),
        CreateOp::Listener(listener(1, "click", false, false)),
        CreateOp::Pipe(PipeOp { xref: XrefId(7), slot: None, name: s("async"), num_args: 1 }),
    ];
    let pipe_binding = IrExpression::PipeBinding {
        target: XrefId(7),
        target_slot: None,
        name: s("async"),
        args: vec![read("x")],
        var_offset: None,
    };
    let update = vec![
        UpdateOp::Property(binding(1, BindingKind::Property, "value", pipe_binding)),
        UpdateOp::I18nApply(I18nApplyOp { i18n_owner: XrefId(9), handle: SlotId(5) }),
    ];
    let mut j = job(view(0, create, update), vec![]);
    allocate_slots(&mut j);
    match &j.root.create[2] {
        CreateOp::Listener(l) => assert_eq!(l.target_slot, Some(SlotId(1))),
        _ => panic!("expected a listener"),
    }
    match &j.root.update[0] {
        UpdateOp::Property(b) => match &b.expression {
            IrExpression::PipeBinding { target_slot, .. } => assert_eq!(*target_slot, Some(SlotId(2))),
            _ => panic!("expected a pipe binding"),
        },
        _ => panic!("expected a property"),
    }
    assert_eq!(j.root.update[1], UpdateOp::I18nApply(I18nApplyOp { i18n_owner: XrefId(9), handle: SlotId(0) }));
    assert_eq!(j.root.decl_count, Some(3));
}

#[test]
fn defer_blocks_learn_the_slots_of_their_templates() {
    let create = vec![
        CreateOp::Template(template(2, 10, 0, None)),
        CreateOp::Template(template(3, 11, 0, None)),
        CreateOp::Defer(DeferOp {
            xref: XrefId(4),
            slot: None,
            main_view: Some(XrefId(2)),
            loading_view: Some(XrefId(3)),
            placeholder_view: None,
            error_view: Some(XrefId(99)),
            main_slot: None,
            loading_slot: None,
            placeholder_slot: None,
            error_slot: None,
            placeholder_minimum_time: None,
            loading_minimum_time: None,
            loading_after_time: None,
            placeholder_config: None,
            loading_config: None,
        }),
    ];
    let mut j = job(view(0, create, vec![]), vec![]);
    allocate_slots(&mut j);
    match &j.root.create[2] {
        CreateOp::Defer(d) => {
            assert_eq!(d.slot, Some(SlotId(2)));
            assert_eq!(d.main_slot, Some(SlotId(0)));
            assert_eq!(d.loading_slot, Some(SlotId(1)));
            assert_eq!(d.placeholder_slot, None);
            assert_eq!(d.error_slot, None);
        },
        _ => panic!("expected a defer block"),
    }
    assert_eq!(j.root.decl_count, Some(4));
}

#[test]
fn advance_is_inserted_before_an_operation_on_a_later_slot() {
    let create = vec![element_with_slot(1, 0), element_with_slot(2, 5)];
    let update = vec![
        UpdateOp::Property(binding(1, BindingKind::Property, "a", read("a"))),
        UpdateOp::Property(binding(2, BindingKind::Property, "b", read("b"))),
    ];
    let mut j = job(view(0, create, update), vec![]);
    generate_advance(&mut j);
    assert_eq!(j.root.update.len(), 3);
    assert!(matches!(j.root.update[0], UpdateOp::Property(_)));
    assert_eq!(j.root.update[1], UpdateOp::Advance(AdvanceOp { delta: 5, slot: SlotId(5) }));
    assert!(matches!(j.root.update[2], UpdateOp::Property(_)));
    assert!(j.diagnostics.is_empty());
}

#[test]
fn moving_back_to_an_earlier_slot_is_reported() {
    let create = vec![element_with_slot(1, 0), element_with_slot(2, 5)];
    let update = vec![
        UpdateOp::Property(binding(2, BindingKind::Property, "b", read("b"))),
        UpdateOp::Property(binding(1, BindingKind::Property, "a", read("a"))),
    ];
    let mut j = job(view(0, create, update), vec![]);
    generate_advance(&mut j);
    assert_eq!(j.root.update.len(), 3);
    assert_eq!(j.root.update[0], UpdateOp::Advance(AdvanceOp { delta: 5, slot: SlotId(5) }));
    assert_eq!(j.diagnostics, vec![Diagnostic::SlotCounterMovedBackwards { from: 5, to: 0 }]);
}

#[test]
fn operation_without_slot_dependency_needs_no_advance() {
    let create = vec![element_with_slot(1, 3)];
    let update = vec![UpdateOp::ListEnd, UpdateOp::Property(binding(8, BindingKind::Property, "x", read("x")))];
    let mut j = job(view(0, create, update), vec![]);
    generate_advance(&mut j);
    assert_eq!(j.root.update.len(), 2);
    assert!(j.diagnostics.is_empty());
}

#[test]
fn references_learn_the_slots_of_their_targets() {
    let update = vec![
        UpdateOp::Property(binding(
            2,
            BindingKind::Property,
            "a",
            IrExpression::Reference { target: XrefId(2), target_slot: None, offset: 1 },
        )),
        UpdateOp::Property(binding(
            2,
            BindingKind::Property,
            "b",
            IrExpression::ContextLetReference { target: XrefId(1), target_slot: None },
        )),
        UpdateOp::Property(binding(
            2,
            BindingKind::Property,
            "c",
            IrExpression::Reference { target: XrefId(77), target_slot: None, offset: 0 },
        )),
    ];
    let mut j = job(view(0, vec![text(1), element(2, "div")], update), vec![]);
    allocate_slots(&mut j);
    let exprs: Vec<&IrExpression> = j
        .root
        .update
        .iter()
        .map(|op| match op {
            UpdateOp::Property(b) => &b.expression,
            _ => panic!("expected a property"),
        })
        .collect();
    assert_eq!(*exprs[0], IrExpression::Reference { target: XrefId(2), target_slot: Some(SlotId(1)), offset: 1 });
    assert_eq!(*exprs[1], IrExpression::ContextLetReference { target: XrefId(1), target_slot: Some(SlotId(0)) });
    assert_eq!(*exprs[2], IrExpression::Reference { target: XrefId(77), target_slot: None, offset: 0 });
}

#[test]
fn pipes_inside_literal_arrays_learn_slots() {
    let create = vec![
        element(1, "div"),
        CreateOp::Pipe(PipeOp { xref: XrefId(7), slot: None, name: s("upper"), num_args: 1 }),
    ];
    let pipe_binding = IrExpression::PipeBinding {
        target: XrefId(7),
        target_slot: None,
        name: s("upper"),
        args: vec![read("x")],
        var_offset: None,
    };
    let arr = IrExpression::LiteralArray(vec![read("a"), pipe_binding]);
    let update = vec![UpdateOp::Property(binding(1, BindingKind::Property, "items", arr))];
    let mut j = job(view(0, create, update), vec![]);
    allocate_slots(&mut j);
    match &j.root.update[0] {
        UpdateOp::Property(b) => match &b.expression {
            IrExpression::LiteralArray(entries) => match &entries[1] {
                IrExpression::PipeBinding { target_slot, .. } => assert_eq!(*target_slot, Some(SlotId(1))),
                _ => panic!("expected a pipe binding"),
            },
            _ => panic!("expected a literal array"),
        },
        _ => panic!("expected a property"),
    }
}

#[test]
fn listener_handler_operations_learn_slots() {
    let pipe_binding = IrExpression::PipeBinding {
        target: XrefId(7),
        target_slot: None,
        name: s("upper"),
        args: vec![read("x")],
        var_offset: None,
    };
    let mut l = listener(1, "click", false, false);
    l.handler_ops = Some(vec![UpdateOp::Property(binding(1, BindingKind::Property, "v", pipe_binding))]);
    let create = vec![
        element(1, "button"),
        CreateOp::Listener(l),
        CreateOp::Pipe(PipeOp { xref: XrefId(7), slot: None, name: s("upper"), num_args: 1 }),
    ];
    let mut j = job(view(0, create, vec![]), vec![]);
    allocate_slots(&mut j);
    match &j.root.create[1] {
        CreateOp::Listener(l) => {
            assert_eq!(l.target_slot, Some(SlotId(0)));
            match &l.handler_ops {
                Some(ops) => match &ops[0] {
                    UpdateOp::Property(b) => match &b.expression {
                        IrExpression::PipeBinding { target_slot, .. } => assert_eq!(*target_slot, Some(SlotId(1))),
                        _ => panic!("expected a pipe binding"),
                    },
                    _ => panic!("expected a property"),
                },
                None => panic!("expected handler operations"),
            }
        },
        _ => panic!("expected a listener"),
    }
}
