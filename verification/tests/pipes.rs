#![allow(dead_code, unused_imports)]

use angular_phases::ir::{
    TemplateCompilationMode,
    AngularExpression, BindingKind, CompatibilityMode, ComponentCompilationJob, ConstValue, CreateOp, Diagnostic,
    HostBindingCompilationJob, HostBindingCompilationUnit, IrExpression, ListenerOp, LiteralValue, OutputExpression,
    SecurityContext, SlotId, SlotOp, UpdateBindingOp, UpdateOp, ViewCompilationUnit, XrefId,
};
use angular_phases::pipe_creation::create_pipes;
use angular_phases::ir::PipeOp;

fn s(x: &str) -> String {
    x.to_string()
}

fn read(name: &str) -> IrExpression {
    IrExpression::LexicalRead(s(name))
}

fn lit(v: &str) -> IrExpression {
    IrExpression::Ast(Box::new(AngularExpression::LiteralPrimitive(LiteralValue::String(s(v)))))
}

fn interp(strings: &[&str], expressions: Vec<IrExpression>) -> IrExpression {
    IrExpression::Interpolation {
        strings: strings.iter().map(|x| s(x)).collect(),
        expressions,
        i18n_placeholders: vec![],
    }
}

fn binding(target: u32, kind: BindingKind, name: &str, expression: IrExpression) -> UpdateBindingOp {
    UpdateBindingOp {
        target: XrefId(target),
        kind,
        name: s(name),
        unit: None,
        expression,
        security_context: SecurityContext::NoContext,
        is_text_attribute: false,
        is_structural_template_attribute: false,
        namespace: None,
        i18n_message: None,
        i18n_context: None,
    }
}

fn element(xref: u32, name: &str) -> CreateOp {
    CreateOp::ElementStart(SlotOp { xref: XrefId(xref), slot: None, name: s(name), local_refs: vec![], local_refs_index: None, non_bindable: false, source_start: None, attributes: None })
}

fn listener(target: u32, name: &str, host_listener: bool, is_animation_listener: bool) -> ListenerOp {
    ListenerOp {
        target: XrefId(target),
        target_slot: None,
        name: s(name),
        host_listener,
        is_animation_listener,
        legacy_animation_phase: None,
        handler_expression: None,
        handler_ops: None,
        animation_kind: None,
    }
}

fn view(xref: u32, create: Vec<CreateOp>, update: Vec<UpdateOp>) -> ViewCompilationUnit {
    ViewCompilationUnit { xref: XrefId(xref), decl_count: None, create, update, functions: vec![] }
}

fn job(root: ViewCompilationUnit, views: Vec<ViewCompilationUnit>) -> ComponentCompilationJob {
    ComponentCompilationJob {
        compatibility_mode: CompatibilityMode::Normal,
        mode: TemplateCompilationMode::Full,
        root,
        views,
        consts: vec![],
        diagnostics: vec![],
        next_xref: 100,
        enable_debug_locations: false,
        relative_template_path: None,
        template_source: None,
    }
}

fn host_job(create: Vec<CreateOp>, update: Vec<UpdateOp>) -> HostBindingCompilationJob {
    HostBindingCompilationJob {
        compatibility_mode: CompatibilityMode::Normal,
        root: HostBindingCompilationUnit { xref: XrefId(0), create, update, attributes: None },
        diagnostics: vec![],
    }
}

fn pipe(target: u32, name: &str, args: Vec<IrExpression>) -> IrExpression {
    IrExpression::PipeBinding { target: XrefId(target), target_slot: None, name: s(name), args, var_offset: None }
}

fn pipe_op(xref: u32, name: &str, num_args: u32) -> CreateOp {
    CreateOp::Pipe(PipeOp { xref: XrefId(xref), slot: None, name: s(name), num_args })
}

#[test]
fn one_pipe_operation_per_pipe_appended_in_order() {
    let update = vec![
        UpdateOp::Property(binding(1, BindingKind::Property, "a", pipe(20, "async", vec![pipe(21, "json", vec![read("x")])]))),
        UpdateOp::Property(binding(2, BindingKind::Property, "b", pipe(20, "async", vec![read("y")]))),
    ];
    let mut j = job(view(0, vec![element(1, "div"), element(2, "span")], update), vec![]);
    create_pipes(&mut j);
    assert_eq!(j.root.create.len(), 4);
    assert_eq!(j.root.create[2], pipe_op(21, "json", 1));
    assert_eq!(j.root.create[3], pipe_op(20, "async", 1));
}

#[test]
fn compatibility_mode_places_pipes_after_their_element() {
    let update = vec![
        UpdateOp::Property(binding(1, BindingKind::Property, "a", pipe(20, "p", vec![read("x")]))),
        UpdateOp::Property(binding(1, BindingKind::Property, "b", pipe(21, "q", vec![read("y"), read("z")]))),
        UpdateOp::Property(binding(9, BindingKind::Property, "c", pipe(22, "r", vec![]))),
    ];
    let mut j = job(view(0, vec![element(1, "div"), element(2, "span")], update), vec![]);
    j.compatibility_mode = CompatibilityMode::TemplateDefinitionBuilder;
    create_pipes(&mut j);
    assert_eq!(j.root.create.len(), 5);
    assert_eq!(j.root.create[1], pipe_op(20, "p", 1));
    assert_eq!(j.root.create[2], pipe_op(21, "q", 2));
    assert!(matches!(j.root.create[3], CreateOp::ElementStart(_)));
    assert_eq!(j.root.create[4], pipe_op(22, "r", 0));
}

#[test]
fn pipes_inside_variables_and_interpolations_are_found() {
    let update = vec![
        UpdateOp::InterpolateText(binding(3, BindingKind::Property, "", interp(&["", ""], vec![pipe(30, "upper", vec![read("t")])]))),
        UpdateOp::Variable(angular_phases::ir::UpdateVariableOp {
            xref: XrefId(4),
            kind: angular_phases::ir::SemanticVariableKind::Identifier,
            name: s("v"),
            initializer: pipe(31, "lower", vec![read("u")]),
            local: false,
        }),
    ];
    let mut j = job(view(0, vec![], vec![]), vec![view(7, vec![], update)]);
    create_pipes(&mut j);
    assert!(j.root.create.is_empty());
    assert_eq!(j.views[0].create, vec![pipe_op(30, "upper", 1), pipe_op(31, "lower", 1)]);
}

#[test]
fn pipes_inside_literal_arrays_are_found() {
    let arr = IrExpression::LiteralArray(vec![read("a"), pipe(40, "upper", vec![read("b")]), pipe(41, "json", vec![])]);
    let update = vec![UpdateOp::Property(binding(1, BindingKind::Property, "items", arr))];
    let mut j = job(view(0, vec![element(1, "div")], update), vec![]);
    create_pipes(&mut j);
    assert_eq!(j.root.create.len(), 3);
    assert_eq!(j.root.create[1], pipe_op(40, "upper", 1));
    assert_eq!(j.root.create[2], pipe_op(41, "json", 0));
}
