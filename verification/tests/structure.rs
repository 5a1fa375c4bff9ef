#![allow(dead_code, unused_imports)]

use angular_phases::binding_specialization::{specialize_bindings, specialize_bindings_for_host};
use angular_phases::convert_animations::{convert_animations, convert_animations_for_host, get_animation_kind};
use angular_phases::ir::AnimationKind;
use angular_phases::empty_elements::collapse_empty_instructions;
use angular_phases::generate_local_let_references::generate_local_let_references;
use angular_phases::ir::BinaryOperator;
use angular_phases::ir::{
    AngularExpression, AnimationStringOp, BindingKind, CompatibilityMode, ComponentCompilationJob, ConstValue, CreateOp,
    Diagnostic, HostBindingCompilationJob, HostBindingCompilationUnit, I18nStartOp, IrExpression, ListenerOp,
    LiteralValue, LocalRef, PipeOp, SecurityContext, SemanticVariableKind, SlotOp, TemplateCompilationMode, TemplateKind,
    TemplateOp, TextOp, UpdateBindingOp, UpdateOp, UpdateVariableOp, ViewCompilationUnit, XrefId,
};
use angular_phases::local_refs::lift_local_refs;
use angular_phases::ng_container::generate_ng_container_ops;
use angular_phases::defer_configs::configure_defer_instructions;

fn s(x: &str) -> String {
    x.to_string()
}

fn read(name: &str) -> IrExpression {
    IrExpression::LexicalRead(s(name))
}

fn binding(target: u32, kind: BindingKind, name: &str, expression: IrExpression) -> UpdateBindingOp {
    UpdateBindingOp {
        target: XrefId(target),
        kind,
        name: s(name),
        unit: None,
        expression,
        security_context: SecurityContext::NoContext,
        is_text_attribute: false,
        is_structural_template_attribute: false,
        namespace: None,
        i18n_message: None,
        i18n_context: None,
    }
}

fn slot_op(xref: u32, name: &str) -> SlotOp {
    SlotOp { xref: XrefId(xref), slot: None, name: s(name), local_refs: vec![], local_refs_index: None, non_bindable: false, source_start: None, attributes: None }
}

fn element(xref: u32, name: &str) -> CreateOp {
    CreateOp::ElementStart(slot_op(xref, name))
}

fn i18n_start(xref: u32) -> I18nStartOp {
    I18nStartOp { xref: XrefId(xref), slot: None, context: None, root: None, message: None, sub_template_index: None }
}

fn lref(name: &str, target: &str) -> LocalRef {
    LocalRef { name: s(name), target: s(target) }
}

fn view(xref: u32, create: Vec<CreateOp>, update: Vec<UpdateOp>) -> ViewCompilationUnit {
    ViewCompilationUnit { xref: XrefId(xref), decl_count: None, create, update, functions: vec![] }
}

fn job(root: ViewCompilationUnit, views: Vec<ViewCompilationUnit>) -> ComponentCompilationJob {
    ComponentCompilationJob {
        compatibility_mode: CompatibilityMode::Normal,
        mode: TemplateCompilationMode::Full,
        root,
        views,
        consts: vec![],
        diagnostics: vec![],
        next_xref: 100,
        enable_debug_locations: false,
        relative_template_path: None,
        template_source: None,
    }
}

fn host_job(create: Vec<CreateOp>, update: Vec<UpdateOp>) -> HostBindingCompilationJob {
    HostBindingCompilationJob {
        compatibility_mode: CompatibilityMode::Normal,
        root: HostBindingCompilationUnit { xref: XrefId(0), create, update, attributes: None },
        diagnostics: vec![],
    }
}

fn kinds(create: &[CreateOp]) -> Vec<String> {
    create.iter().map(|op| format!("{:?}", op).split('(').next().unwrap().to_string()).collect()
}

#[test]
fn ng_container_elements_become_containers() {
    let create = vec![
        element(1, "ng-container"),
        element(2, "div"),
        CreateOp::ElementEnd(XrefId(2)),
        CreateOp::ElementEnd(XrefId(1)),
    ];
    let mut j = job(view(0, create, vec![]), vec![view(5, vec![element(7, "span"), CreateOp::ElementEnd(XrefId(7))], vec![])]);
    generate_ng_container_ops(&mut j);
    assert_eq!(
        j.root.create,
        vec![
            CreateOp::ContainerStart(slot_op(1, "ng-container")),
            element(2, "div"),
            CreateOp::ElementEnd(XrefId(2)),
            CreateOp::ContainerEnd(XrefId(1)),
        ]
    );
    assert_eq!(j.views[0].create, vec![element(7, "span"), CreateOp::ElementEnd(XrefId(7))]);
}

#[test]
fn adjacent_start_and_end_collapse() {
    let text = CreateOp::Text(TextOp { xref: XrefId(3), slot: None, initial_value: s("hi"), icu_placeholder: None });
    let create = vec![
        element(1, "div"),
        CreateOp::ElementEnd(XrefId(1)),
        element(2, "span"),
        text,
        CreateOp::ElementEnd(XrefId(2)),
    ];
    let mut j = job(view(0, create, vec![]), vec![]);
    collapse_empty_instructions(&mut j);
    assert_eq!(j.root.create.len(), 4);
    assert_eq!(j.root.create[0], CreateOp::Element(slot_op(1, "div")));
    assert_eq!(j.root.create[1], element(2, "span"));
    assert_eq!(j.root.create[3], CreateOp::ElementEnd(XrefId(2)));
}

#[test]
fn pipes_between_start_and_end_do_not_prevent_collapse() {
    let pipe = CreateOp::Pipe(PipeOp { xref: XrefId(5), slot: None, name: s("async"), num_args: 1 });
    let create = vec![element(1, "div"), pipe, CreateOp::ElementEnd(XrefId(1))];
    let mut j = job(view(0, create, vec![]), vec![]);
    collapse_empty_instructions(&mut j);
    assert_eq!(
        j.root.create,
        vec![
            CreateOp::Element(slot_op(1, "div")),
            CreateOp::Pipe(PipeOp { xref: XrefId(5), slot: None, name: s("async"), num_args: 1 }),
        ]
    );
}

#[test]
fn containers_and_i18n_blocks_collapse_too() {
    let create = vec![
        CreateOp::ContainerStart(slot_op(1, "ng-container")),
        CreateOp::ContainerEnd(XrefId(1)),
        CreateOp::I18nStart(i18n_start(2)),
        CreateOp::I18nEnd(XrefId(2)),
        CreateOp::ElementEnd(XrefId(9)),
    ];
    let mut j = job(view(0, create, vec![]), vec![]);
    collapse_empty_instructions(&mut j);
    assert_eq!(
        j.root.create,
        vec![
            CreateOp::Container(slot_op(1, "ng-container")),
            CreateOp::I18n(i18n_start(2)),
            CreateOp::ElementEnd(XrefId(9)),
        ]
    );
}

#[test]
fn an_end_first_in_its_view_stays() {
    let mut j = job(view(0, vec![CreateOp::ElementEnd(XrefId(1)), element(1, "div")], vec![]), vec![]);
    collapse_empty_instructions(&mut j);
    assert_eq!(j.root.create, vec![CreateOp::ElementEnd(XrefId(1)), element(1, "div")]);
}

#[test]
fn local_refs_are_lifted_as_flat_arrays() {
    let mut el = slot_op(1, "input");
    el.local_refs = vec![lref("a", ""), lref("b", "ngModel")];
    let tmpl = TemplateOp {
        xref: XrefId(2),
        slot: None,
        embedded_view: XrefId(10),
        template_kind: TemplateKind::NgTemplate,
        has_i18n_placeholder: false,
        local_refs: vec![lref("t", "")],
        local_refs_index: None,
        empty_view: None,
        decls: None,
        empty_decls: None,
        attributes: None,
        empty_attributes: None,
        empty_has_i18n_placeholder: false,
    };
    let create = vec![CreateOp::ElementStart(el), CreateOp::Template(tmpl), element(3, "p")];
    let mut j = job(view(0, create, vec![]), vec![]);
    j.consts.push(ConstValue::String(s("existing")));
    lift_local_refs(&mut j);
    assert_eq!(j.consts.len(), 3);
    assert_eq!(
        j.consts[1],
        ConstValue::Array(vec![
            ConstValue::String(s("a")),
            ConstValue::String(s("")),
            ConstValue::String(s("b")),
            ConstValue::String(s("ngModel")),
        ])
    );
    assert_eq!(j.consts[2], ConstValue::Array(vec![ConstValue::String(s("t")), ConstValue::String(s(""))]));
    match &j.root.create[0] {
        CreateOp::ElementStart(e) => assert_eq!(e.local_refs_index, Some(1)),
        _ => panic!(),
    }
    match &j.root.create[1] {
        CreateOp::Template(t) => assert_eq!(t.local_refs_index, Some(2)),
        _ => panic!(),
    }
    match &j.root.create[2] {
        CreateOp::ElementStart(e) => assert_eq!(e.local_refs_index, None),
        _ => panic!(),
    }
}

#[test]
fn store_let_becomes_a_local_variable() {
    let create = vec![CreateOp::DeclareLet(slot_op(5, "total"))];
    let update = vec![
        UpdateOp::StoreLet(binding(5, BindingKind::Property, "", read("x"))),
        UpdateOp::Property(binding(1, BindingKind::Property, "value", read("y"))),
        UpdateOp::StoreLet(binding(6, BindingKind::Property, "", read("z"))),
    ];
    let mut j = job(view(0, create, update), vec![view(1, vec![], vec![UpdateOp::StoreLet(binding(5, BindingKind::Property, "", read("w")))])]);
    generate_local_let_references(&mut j);
    assert_eq!(
        j.root.update[0],
        UpdateOp::Variable(UpdateVariableOp {
            xref: XrefId(100),
            kind: SemanticVariableKind::Identifier,
            name: s("total"),
            initializer: IrExpression::StoreLet { target: XrefId(5), value: Box::new(read("x")) },
            local: true,
        })
    );
    assert_eq!(j.root.update[1], UpdateOp::Property(binding(1, BindingKind::Property, "value", read("y"))));
    assert_eq!(
        j.root.update[2],
        UpdateOp::Variable(UpdateVariableOp {
            xref: XrefId(101),
            kind: SemanticVariableKind::Identifier,
            name: s(""),
            initializer: IrExpression::StoreLet { target: XrefId(6), value: Box::new(read("z")) },
            local: true,
        })
    );
    // The declaration lives in another view: the name is not found there.
    match &j.views[0].update[0] {
        UpdateOp::Variable(v) => {
            assert_eq!(v.xref, XrefId(102));
            assert_eq!(v.name, s(""));
        },
        _ => panic!(),
    }
    assert_eq!(j.next_xref, 103);
}

fn attr_of(op: &UpdateOp) -> (String, Option<String>) {
    match op {
        UpdateOp::Attribute(b) => (b.name.clone(), b.namespace.clone()),
        _ => panic!("not an attribute: {:?}", op),
    }
}

#[test]
fn attribute_bindings_split_their_namespace() {
    let update = vec![
        UpdateOp::Binding(binding(1, BindingKind::Attribute, "xlink:href", read("a"))),
        UpdateOp::Binding(binding(1, BindingKind::Attribute, ":svg:width", read("b"))),
        UpdateOp::Binding(binding(1, BindingKind::Attribute, "foo:bar", read("c"))),
        UpdateOp::Binding(binding(1, BindingKind::Attribute, ":nocolon", read("d"))),
    ];
    let mut j = job(view(0, vec![element(1, "svg")], update), vec![]);
    specialize_bindings(&mut j);
    assert_eq!(attr_of(&j.root.update[0]), (s("href"), Some(s("xlink"))));
    assert_eq!(attr_of(&j.root.update[1]), (s("width"), Some(s("svg"))));
    assert_eq!(attr_of(&j.root.update[2]), (s("foo:bar"), None));
    assert_eq!(attr_of(&j.root.update[3]), (s(":nocolon"), None));
}

#[test]
fn ng_non_bindable_is_removed_and_marks_its_element() {
    let update = vec![
        UpdateOp::Binding(binding(1, BindingKind::Attribute, "ngNonBindable", read("a"))),
        UpdateOp::Binding(binding(2, BindingKind::Property, "value", read("v"))),
    ];
    let mut j = job(view(0, vec![element(1, "div"), element(2, "input")], update), vec![view(3, vec![element(1, "div")], vec![])]);
    specialize_bindings(&mut j);
    assert_eq!(j.root.update.len(), 1);
    assert!(matches!(&j.root.update[0], UpdateOp::Property(b) if b.name == "value"));
    assert!(matches!(&j.root.create[0], CreateOp::ElementStart(e) if e.non_bindable));
    assert!(matches!(&j.root.create[1], CreateOp::ElementStart(e) if !e.non_bindable));
    assert!(matches!(&j.views[0].create[0], CreateOp::ElementStart(e) if e.non_bindable));
}

#[test]
fn bindings_become_their_specific_operations() {
    let mut text_tmpl = binding(4, BindingKind::Template, "ngIf", read("t"));
    text_tmpl.is_text_attribute = true;
    let update = vec![
        UpdateOp::Binding(binding(1, BindingKind::Attribute, "animate.enter", read("a"))),
        UpdateOp::Binding(binding(1, BindingKind::Animation, "animate.leave", read("b"))),
        UpdateOp::Binding(binding(1, BindingKind::Property, "aria-label", read("c"))),
        UpdateOp::Binding(binding(1, BindingKind::Property, "field", read("d"))),
        UpdateOp::Binding(binding(1, BindingKind::TwoWayProperty, "ngModel", read("e"))),
        UpdateOp::Binding(text_tmpl),
        UpdateOp::Binding(binding(4, BindingKind::Template, "ngFor", read("f"))),
        UpdateOp::Binding(binding(1, BindingKind::ClassName, "active", read("g"))),
    ];
    let mut j = job(view(0, vec![], update), vec![]);
    specialize_bindings(&mut j);
    let u = &j.root.update;
    assert!(matches!(&u[0], UpdateOp::AnimationBinding(b) if b.kind == BindingKind::Attribute));
    assert!(matches!(&u[1], UpdateOp::AnimationBinding(b) if b.kind == BindingKind::Animation));
    assert!(matches!(&u[2], UpdateOp::Property(b) if b.name == "aria-label"));
    assert!(matches!(&u[3], UpdateOp::Control(b) if b.name == "field"));
    assert!(matches!(&u[4], UpdateOp::TwoWayProperty(_)));
    assert!(matches!(&u[5], UpdateOp::Attribute(b) if b.is_structural_template_attribute && b.is_text_attribute));
    assert!(matches!(&u[6], UpdateOp::Property(b) if b.is_structural_template_attribute));
    assert!(matches!(&u[7], UpdateOp::Binding(_)));
}

#[test]
fn aria_properties_are_attributes_in_dom_only_mode() {
    let update = vec![
        UpdateOp::Binding(binding(1, BindingKind::Property, "aria-label", read("c"))),
        UpdateOp::Binding(binding(1, BindingKind::Property, "aria-", read("d"))),
    ];
    let mut j = job(view(0, vec![], update), vec![]);
    j.mode = TemplateCompilationMode::DomOnly;
    specialize_bindings(&mut j);
    assert!(matches!(&j.root.update[0], UpdateOp::Attribute(b) if b.name == "aria-label" && b.namespace.is_none()));
    assert!(matches!(&j.root.update[1], UpdateOp::Property(_)));
}

#[test]
fn host_properties_become_dom_properties() {
    let update = vec![
        UpdateOp::Binding(binding(0, BindingKind::Property, "title", read("t"))),
        UpdateOp::Binding(binding(0, BindingKind::Attribute, "ngNonBindable", read("n"))),
        UpdateOp::Binding(binding(0, BindingKind::StyleProperty, "width", read("w"))),
    ];
    let mut h = host_job(vec![], update);
    specialize_bindings_for_host(&mut h);
    assert!(matches!(&h.root.update[0], UpdateOp::DomProperty(b) if b.name == "title"));
    assert!(matches!(&h.root.update[1], UpdateOp::Attribute(b) if b.name == "ngNonBindable"));
    assert!(matches!(&h.root.update[2], UpdateOp::Binding(_)));
}

#[test]
fn animations_go_right_after_their_target() {
    let update = vec![
        UpdateOp::AnimationBinding(binding(1, BindingKind::Animation, "animate.enter", read("v"))),
        UpdateOp::AnimationBinding(binding(1, BindingKind::Attribute, "animate.leave", read("cls"))),
        UpdateOp::Property(binding(1, BindingKind::Property, "title", read("t"))),
    ];
    let create = vec![element(1, "div"), CreateOp::ElementEnd(XrefId(1))];
    let mut j = job(view(0, create, update), vec![]);
    convert_animations(&mut j);
    assert_eq!(j.root.update.len(), 1);
    assert!(matches!(&j.root.update[0], UpdateOp::Property(_)));
    assert_eq!(kinds(&j.root.create), vec!["ElementStart", "AnimationString", "Animation", "ElementEnd"]);
    match &j.root.create[2] {
        CreateOp::Animation(l) => {
            assert_eq!(l.target, XrefId(1));
            assert_eq!(l.name, s("animate.enter"));
            assert_eq!(l.handler_expression, Some(read("v")));
            assert_eq!(l.animation_kind, Some(AnimationKind::Enter));
        },
        _ => panic!(),
    }
    assert_eq!(
        j.root.create[1],
        CreateOp::AnimationString(AnimationStringOp { target: XrefId(1), name: s("animate.leave"), expression: read("cls"), animation_kind: AnimationKind::Leave })
    );
    assert!(j.diagnostics.is_empty());
}

#[test]
fn animations_without_target_go_last_with_a_warning() {
    let update = vec![UpdateOp::AnimationBinding(binding(9, BindingKind::Animation, "animate.enter", read("v")))];
    let mut j = job(view(0, vec![element(1, "div")], update), vec![]);
    convert_animations(&mut j);
    assert_eq!(kinds(&j.root.create), vec!["ElementStart", "Animation"]);
    assert_eq!(j.diagnostics, vec![Diagnostic::AnimationTargetNotFound { name: s("animate.enter") }]);
}

#[test]
fn host_string_animations_move_to_the_creation_block() {
    let update = vec![
        UpdateOp::AnimationBinding(binding(0, BindingKind::Animation, "animate.enter", read("v"))),
        UpdateOp::AnimationBinding(binding(0, BindingKind::Attribute, "animate.leave", read("cls"))),
    ];
    let mut h = host_job(vec![], update);
    convert_animations_for_host(&mut h);
    assert_eq!(h.root.update.len(), 1);
    assert!(matches!(&h.root.update[0], UpdateOp::AnimationBinding(b) if b.kind == BindingKind::Animation));
    assert_eq!(
        h.root.create,
        vec![CreateOp::AnimationString(AnimationStringOp { target: XrefId(0), name: s("animate.leave"), expression: read("cls"), animation_kind: AnimationKind::Leave })]
    );
}

#[test]
fn animation_kind_follows_the_name() {
    assert_eq!(get_animation_kind(&s("animate.enter")), AnimationKind::Enter);
    assert_eq!(get_animation_kind(&s("animate.leave")), AnimationKind::Leave);
    assert_eq!(get_animation_kind(&s("animate.other")), AnimationKind::Leave);
}

fn next_ctx_stmt(n: u32) -> UpdateOp {
    UpdateOp::Statement(angular_phases::ir::OutputStatement::Expression(
        angular_phases::ir::OutputExpression::WrappedIrNode(Box::new(IrExpression::NextContext(n))),
    ))
}

fn prop_reading(expr: IrExpression) -> UpdateOp {
    UpdateOp::Property(binding(1, BindingKind::Property, "value", expr))
}

fn read_of(receiver: IrExpression, name: &str) -> IrExpression {
    IrExpression::ResolvedPropertyRead { receiver: Box::new(receiver), name: s(name) }
}

#[test]
fn next_context_statement_merges_into_the_next_step() {
    let update = vec![next_ctx_stmt(1), prop_reading(read_of(IrExpression::NextContext(2), "x"))];
    let mut j = job(view(0, vec![], update), vec![]);
    angular_phases::next_context_merging::merge_next_context_expressions(&mut j);
    assert_eq!(j.root.update, vec![prop_reading(read_of(IrExpression::NextContext(3), "x"))]);
}

#[test]
fn a_context_read_blocks_the_merge() {
    let reference = IrExpression::Reference { target: XrefId(4), target_slot: None, offset: 0 };
    let update = vec![
        next_ctx_stmt(1),
        prop_reading(IrExpression::Binary { operator: BinaryOperator::Plus, lhs: Box::new(reference), rhs: Box::new(IrExpression::NextContext(1)) }),
    ];
    let expected = vec![
        next_ctx_stmt(1),
        prop_reading(IrExpression::Binary {
            operator: BinaryOperator::Plus,
            lhs: Box::new(IrExpression::Reference { target: XrefId(4), target_slot: None, offset: 0 }),
            rhs: Box::new(IrExpression::NextContext(1)),
        }),
    ];
    let mut j = job(view(0, vec![], update), vec![]);
    angular_phases::next_context_merging::merge_next_context_expressions(&mut j);
    assert_eq!(j.root.update, expected);
}

#[test]
fn merges_chain_and_skip_operations_without_expressions() {
    let update = vec![
        next_ctx_stmt(1),
        UpdateOp::Advance(angular_phases::ir::AdvanceOp { delta: 1, slot: angular_phases::ir::SlotId(1) }),
        next_ctx_stmt(2),
        prop_reading(IrExpression::NextContext(1)),
    ];
    let fn_ops = vec![next_ctx_stmt(1), prop_reading(IrExpression::NextContext(5))];
    let mut v = view(0, vec![], update);
    v.functions.push(fn_ops);
    let mut j = job(v, vec![]);
    angular_phases::next_context_merging::merge_next_context_expressions(&mut j);
    assert_eq!(
        j.root.update,
        vec![
            UpdateOp::Advance(angular_phases::ir::AdvanceOp { delta: 1, slot: angular_phases::ir::SlotId(1) }),
            prop_reading(IrExpression::NextContext(4)),
        ]
    );
    assert_eq!(j.root.functions[0], vec![prop_reading(IrExpression::NextContext(6))]);
}

#[test]
fn a_statement_with_no_later_step_stays() {
    let update = vec![prop_reading(IrExpression::NextContext(1)), next_ctx_stmt(2)];
    let mut j = job(view(0, vec![], update), vec![]);
    angular_phases::next_context_merging::merge_next_context_expressions(&mut j);
    assert_eq!(j.root.update, vec![prop_reading(IrExpression::NextContext(1)), next_ctx_stmt(2)]);
}

fn defer(xref: u32, placeholder_min: Option<u32>, loading_min: Option<u32>, loading_after: Option<u32>) -> CreateOp {
    CreateOp::Defer(angular_phases::ir::DeferOp {
        xref: XrefId(xref),
        slot: None,
        main_view: None,
        loading_view: None,
        placeholder_view: None,
        error_view: None,
        main_slot: None,
        loading_slot: None,
        placeholder_slot: None,
        error_slot: None,
        placeholder_minimum_time: placeholder_min,
        loading_minimum_time: loading_min,
        loading_after_time: loading_after,
        placeholder_config: None,
        loading_config: None,
    })
}

fn num(n: i64) -> IrExpression {
    IrExpression::Ast(Box::new(AngularExpression::LiteralPrimitive(LiteralValue::Number(n))))
}

fn null_lit() -> IrExpression {
    IrExpression::Ast(Box::new(AngularExpression::LiteralPrimitive(LiteralValue::Null)))
}

fn configs(op: &CreateOp) -> (Option<IrExpression>, Option<IrExpression>) {
    match op {
        CreateOp::Defer(d) => (
            d.placeholder_config.as_ref().map(|e| clone_expr(e)),
            d.loading_config.as_ref().map(|e| clone_expr(e)),
        ),
        _ => panic!(),
    }
}

fn clone_expr(e: &IrExpression) -> IrExpression {
    match e {
        IrExpression::ConstCollected(x) => IrExpression::ConstCollected(Box::new(clone_expr(x))),
        IrExpression::LiteralArray(v) => IrExpression::LiteralArray(v.iter().map(clone_expr).collect()),
        IrExpression::Ast(a) => match &**a {
            AngularExpression::LiteralPrimitive(l) => IrExpression::Ast(Box::new(AngularExpression::LiteralPrimitive(l.clone()))),
            _ => panic!(),
        },
        _ => panic!(),
    }
}

fn const_array(v: Vec<IrExpression>) -> IrExpression {
    IrExpression::ConstCollected(Box::new(IrExpression::LiteralArray(v)))
}

#[test]
fn defer_timings_become_constant_arrays() {
    let create = vec![defer(1, Some(500), None, Some(100)), defer(2, None, None, None)];
    let mut j = job(view(0, create, vec![]), vec![view(3, vec![defer(4, None, Some(1000), None)], vec![])]);
    configure_defer_instructions(&mut j);
    assert_eq!(
        configs(&j.root.create[0]),
        (Some(const_array(vec![num(500)])), Some(const_array(vec![null_lit(), num(100)])))
    );
    assert_eq!(configs(&j.root.create[1]), (None, None));
    assert_eq!(configs(&j.views[0].create[0]), (None, Some(const_array(vec![num(1000), null_lit()]))));
}

#[test]
fn a_repeated_defer_id_gets_no_configuration() {
    let mut j = job(view(0, vec![defer(1, Some(5), None, None)], vec![]), vec![view(3, vec![defer(1, Some(7), None, None)], vec![])]);
    configure_defer_instructions(&mut j);
    assert_eq!(configs(&j.root.create[0]), (Some(const_array(vec![num(5)])), None));
    assert_eq!(configs(&j.views[0].create[0]), (None, None));
}

fn interp_of(strings: &[&str], expressions: Vec<IrExpression>, placeholders: &[&str]) -> IrExpression {
    IrExpression::Interpolation {
        strings: strings.iter().map(|x| s(x)).collect(),
        expressions,
        i18n_placeholders: placeholders.iter().map(|x| s(x)).collect(),
    }
}

#[test]
fn translated_interpolation_bindings_become_i18n_expressions() {
    let mut title = binding(1, BindingKind::Attribute, "title", interp_of(&["a", "b", "c"], vec![read("x"), read("y")], &["PH_X"]));
    title.i18n_context = Some(XrefId(50));
    let mut plain = binding(2, BindingKind::Property, "value", interp_of(&["", ""], vec![read("z")], &[]));
    plain.i18n_context = Some(XrefId(51));
    let update = vec![UpdateOp::Attribute(title), UpdateOp::Property(plain)];
    let attrs = CreateOp::I18nAttributes(angular_phases::ir::I18nAttributesOp {
        xref: XrefId(9),
        target: XrefId(1),
        handle: angular_phases::ir::SlotId(4),
    });
    let mut j = job(view(0, vec![], update), vec![view(3, vec![attrs], vec![])]);
    angular_phases::convert_i18n_bindings::convert_i18n_bindings(&mut j);
    assert_eq!(j.root.update.len(), 3);
    let expect = |i: usize, e: IrExpression, ph: Option<&str>| {
        UpdateOp::I18nExpression(angular_phases::ir::I18nExpressionOp {
            i18n_owner: XrefId(9),
            target: XrefId(1),
            context: XrefId(50),
            handle: angular_phases::ir::SlotId(4),
            expression: e,
            resolution_time: angular_phases::ir::I18nParamResolutionTime::Creation,
            usage: angular_phases::ir::I18nExpressionFor::I18nAttribute,
            name: s("title"),
            i18n_placeholder: ph.map(s),
            icu_placeholder: None,
        })
    };
    assert_eq!(j.root.update[0], expect(0, read("x"), Some("PH_X")));
    assert_eq!(j.root.update[1], expect(1, read("y"), None));
    // The element of the second binding has no i18n attributes: it stays.
    assert!(matches!(&j.root.update[2], UpdateOp::Property(b) if b.name == "value"));
}

#[test]
fn elements_get_their_line_and_column() {
    let mut div = slot_op(1, "div");
    div.source_start = Some(0);
    let mut span = slot_op(2, "span");
    span.source_start = Some(8);
    let mut far = slot_op(3, "p");
    far.source_start = Some(500);
    let create = vec![CreateOp::ElementStart(div), CreateOp::Element(span), element(4, "b"), CreateOp::Element(far)];
    let mut j = job(view(0, create, vec![]), vec![]);
    j.enable_debug_locations = true;
    j.relative_template_path = Some(s("app.html"));
    j.template_source = Some(s("<div>\n  <span></span>\n</div>"));
    angular_phases::attach_source_locations::attach_source_locations(&mut j);
    assert_eq!(j.root.create.len(), 7);
    let loc = |x: u32, line: u32, column: u32| {
        CreateOp::SourceLocation(angular_phases::ir::SourceLocationOp { target: XrefId(x), template_url: s("app.html"), line, column })
    };
    assert_eq!(j.root.create[4], loc(1, 1, 0));
    assert_eq!(j.root.create[5], loc(2, 2, 2));
    // An offset past the end counts up to the end of the source.
    assert_eq!(j.root.create[6], loc(3, 3, 6));
}

#[test]
fn no_locations_without_debug_mode() {
    let mut div = slot_op(1, "div");
    div.source_start = Some(0);
    let mut j = job(view(0, vec![CreateOp::ElementStart(div)], vec![]), vec![]);
    j.relative_template_path = Some(s("app.html"));
    j.template_source = Some(s("<div></div>"));
    angular_phases::attach_source_locations::attach_source_locations(&mut j);
    assert_eq!(j.root.create.len(), 1);
}

#[test]
fn next_context_inside_a_literal_array_is_merged_into() {
    let arr = IrExpression::LiteralArray(vec![read("a"), read_of(IrExpression::NextContext(2), "x")]);
    let update = vec![next_ctx_stmt(1), prop_reading(arr)];
    let mut j = job(view(0, vec![], update), vec![]);
    angular_phases::next_context_merging::merge_next_context_expressions(&mut j);
    let merged = IrExpression::LiteralArray(vec![read("a"), read_of(IrExpression::NextContext(3), "x")]);
    assert_eq!(j.root.update, vec![prop_reading(merged)]);
}

#[test]
fn next_context_statements_merge_inside_listener_handlers() {
    let handler = ListenerOp {
        target: XrefId(1),
        target_slot: None,
        name: s("click"),
        host_listener: false,
        is_animation_listener: false,
        legacy_animation_phase: None,
        handler_expression: None,
        handler_ops: Some(vec![next_ctx_stmt(1), next_ctx_stmt(1), prop_reading(read_of(IrExpression::NextContext(1), "x"))]),
        animation_kind: None,
    };
    let mut j = job(view(0, vec![CreateOp::Listener(handler)], vec![]), vec![]);
    angular_phases::next_context_merging::merge_next_context_expressions(&mut j);
    match &j.root.create[0] {
        CreateOp::Listener(l) => {
            assert_eq!(l.handler_ops, Some(vec![prop_reading(read_of(IrExpression::NextContext(3), "x"))]));
            assert_eq!(l.name, "click");
        },
        _ => panic!("expected a listener"),
    }
}
