#![allow(dead_code, unused_imports)]

use angular_phases::ir::BinaryOperator;
use angular_phases::ir::{
    TemplateCompilationMode,
    AngularExpression, BindingKind, CompatibilityMode, ComponentCompilationJob, ConstValue, CreateOp, Diagnostic,
    HostBindingCompilationJob, HostBindingCompilationUnit, IrExpression, ListenerOp, LiteralValue, OutputExpression,
    SecurityContext, SlotId, SlotOp, UpdateBindingOp, UpdateOp, ViewCompilationUnit, XrefId,
};
use angular_phases::any_cast::{delete_any_casts, delete_any_casts_for_host, remove_any_cast};
use angular_phases::collapse_singleton_interpolations::{collapse_singleton_interpolations, collapse_singleton_interpolations_for_host};
use angular_phases::expr_transform::{rewrite_expr, ExprRewrite, MAX_PIPE_ARGS};
use angular_phases::has_const_expression_collection::collect_const_expressions;
use angular_phases::pipe_variadic::{create_variadic_pipes, transform_pipe_binding};

fn s(x: &str) -> String {
    x.to_string()
}

fn read(name: &str) -> IrExpression {
    IrExpression::LexicalRead(s(name))
}

fn lit(v: &str) -> IrExpression {
    IrExpression::Ast(Box::new(AngularExpression::LiteralPrimitive(LiteralValue::String(s(v)))))
}

fn interp(strings: &[&str], expressions: Vec<IrExpression>) -> IrExpression {
    IrExpression::Interpolation {
        strings: strings.iter().map(|x| s(x)).collect(),
        expressions,
        i18n_placeholders: vec![],
    }
}

fn binding(target: u32, kind: BindingKind, name: &str, expression: IrExpression) -> UpdateBindingOp {
    UpdateBindingOp {
        target: XrefId(target),
        kind,
        name: s(name),
        unit: None,
        expression,
        security_context: SecurityContext::NoContext,
        is_text_attribute: false,
        is_structural_template_attribute: false,
        namespace: None,
        i18n_message: None,
        i18n_context: None,
    }
}

fn element(xref: u32, name: &str) -> CreateOp {
    CreateOp::ElementStart(SlotOp { xref: XrefId(xref), slot: None, name: s(name), local_refs: vec![], local_refs_index: None, non_bindable: false, source_start: None, attributes: None })
}

fn listener(target: u32, name: &str, host_listener: bool, is_animation_listener: bool) -> ListenerOp {
    ListenerOp {
        target: XrefId(target),
        target_slot: None,
        name: s(name),
        host_listener,
        is_animation_listener,
        legacy_animation_phase: None,
        handler_expression: None,
        handler_ops: None,
        animation_kind: None,
    }
}

fn view(xref: u32, create: Vec<CreateOp>, update: Vec<UpdateOp>) -> ViewCompilationUnit {
    ViewCompilationUnit { xref: XrefId(xref), decl_count: None, create, update, functions: vec![] }
}

fn job(root: ViewCompilationUnit, views: Vec<ViewCompilationUnit>) -> ComponentCompilationJob {
    ComponentCompilationJob {
        compatibility_mode: CompatibilityMode::Normal,
        mode: TemplateCompilationMode::Full,
        root,
        views,
        consts: vec![],
        diagnostics: vec![],
        next_xref: 100,
        enable_debug_locations: false,
        relative_template_path: None,
        template_source: None,
    }
}

fn host_job(create: Vec<CreateOp>, update: Vec<UpdateOp>) -> HostBindingCompilationJob {
    HostBindingCompilationJob {
        compatibility_mode: CompatibilityMode::Normal,
        root: HostBindingCompilationUnit { xref: XrefId(0), create, update, attributes: None },
        diagnostics: vec![],
    }
}

fn any_call(arg: IrExpression) -> IrExpression {
    IrExpression::ResolvedCall { receiver: Box::new(read("$any")), args: vec![arg] }
}

fn pipe(target: u32, nargs: usize) -> IrExpression {
    IrExpression::PipeBinding {
        target: XrefId(target),
        target_slot: None,
        name: s("p"),
        args: (0..nargs).map(|i| read(&format!("a{}", i))).collect(),
        var_offset: None,
    }
}

fn bound_expression(op: &UpdateOp) -> &IrExpression {
    match op {
        UpdateOp::Property(b) | UpdateOp::Attribute(b) | UpdateOp::StyleProp(b) | UpdateOp::ClassMap(b) => &b.expression,
        _ => panic!("expected a binding"),
    }
}

#[test]
fn any_cast_is_removed() {
    assert_eq!(remove_any_cast(any_call(read("x"))), read("x"));
}

#[test]
fn other_calls_are_not_casts() {
    let call = IrExpression::ResolvedCall { receiver: Box::new(read("f")), args: vec![read("x")] };
    let expected = IrExpression::ResolvedCall { receiver: Box::new(read("f")), args: vec![read("x")] };
    assert_eq!(remove_any_cast(call), expected);
    let two_args = IrExpression::ResolvedCall { receiver: Box::new(read("$any")), args: vec![read("x"), read("y")] };
    let expected = IrExpression::ResolvedCall { receiver: Box::new(read("$any")), args: vec![read("x"), read("y")] };
    assert_eq!(remove_any_cast(two_args), expected);
}

#[test]
fn nested_any_casts_are_removed_everywhere() {
    let e = any_call(IrExpression::Binary { operator: BinaryOperator::Plus, lhs: Box::new(any_call(read("x"))), rhs: Box::new(read("y")) });
    let mut j = job(view(0, vec![], vec![UpdateOp::Property(binding(1, BindingKind::Property, "p", e))]), vec![]);
    delete_any_casts(&mut j);
    assert_eq!(
        bound_expression(&j.root.update[0]),
        &IrExpression::Binary { operator: BinaryOperator::Plus, lhs: Box::new(read("x")), rhs: Box::new(read("y")) }
    );
}

#[test]
fn any_casts_are_removed_from_host_listeners() {
    let mut l = listener(0, "click", true, false);
    l.handler_expression = Some(any_call(read("e")));
    let mut h = host_job(vec![CreateOp::Listener(l)], vec![]);
    delete_any_casts_for_host(&mut h);
    match &h.root.create[0] {
        CreateOp::Listener(l) => assert_eq!(l.handler_expression, Some(read("e"))),
        _ => panic!("expected a listener"),
    }
}

#[test]
fn pipe_with_many_arguments_becomes_variadic() {
    assert_eq!(MAX_PIPE_ARGS, 4);
    let mut j = job(
        view(0, vec![], vec![UpdateOp::Property(binding(1, BindingKind::Property, "p", pipe(7, 5)))]),
        vec![],
    );
    create_variadic_pipes(&mut j);
    match bound_expression(&j.root.update[0]) {
        IrExpression::PipeBindingVariadic { target, num_args, args, .. } => {
            assert_eq!(*target, XrefId(7));
            assert_eq!(*num_args, 5);
            match &**args {
                IrExpression::DerivedLiteralArray { entries, spreads } => {
                    assert_eq!(entries.len(), 5);
                    assert_eq!(entries[4], read("a4"));
                    assert_eq!(spreads, &vec![false; 5]);
                },
                _ => panic!("expected an array of arguments"),
            }
        },
        _ => panic!("expected a variadic pipe"),
    }
}

#[test]
fn one_pipe_binding_is_made_variadic_alone() {
    match transform_pipe_binding(pipe(3, 6)) {
        IrExpression::PipeBindingVariadic { target, name, num_args, .. } => {
            assert_eq!(target, XrefId(3));
            assert_eq!(name, s("p"));
            assert_eq!(num_args, 6);
        },
        _ => panic!("expected a variadic pipe"),
    }
    assert_eq!(transform_pipe_binding(pipe(3, 2)), pipe(3, 2));
    assert_eq!(transform_pipe_binding(read("x")), read("x"));
}

#[test]
fn pipe_with_few_arguments_is_unchanged() {
    let e = pipe(7, 4);
    assert_eq!(rewrite_expr(e, ExprRewrite::VariadicPipes), pipe(7, 4));
}

#[test]
fn singleton_interpolation_on_attribute_collapses() {
    let e = interp(&["", ""], vec![read("x")]);
    let mut j = job(view(0, vec![], vec![UpdateOp::Attribute(binding(1, BindingKind::Attribute, "title", e))]), vec![]);
    collapse_singleton_interpolations(&mut j);
    assert_eq!(bound_expression(&j.root.update[0]), &read("x"));
}

#[test]
fn interpolation_with_text_or_on_property_is_kept() {
    let with_text = interp(&["a", ""], vec![read("x")]);
    let on_property = interp(&["", ""], vec![read("y")]);
    let mut j = job(
        view(
            0,
            vec![],
            vec![
                UpdateOp::Attribute(binding(1, BindingKind::Attribute, "title", with_text)),
                UpdateOp::Property(binding(1, BindingKind::Property, "value", on_property)),
            ],
        ),
        vec![],
    );
    collapse_singleton_interpolations(&mut j);
    assert_eq!(bound_expression(&j.root.update[0]), &interp(&["a", ""], vec![read("x")]));
    assert_eq!(bound_expression(&j.root.update[1]), &interp(&["", ""], vec![read("y")]));
}

#[test]
fn host_class_map_interpolation_collapses() {
    let e = interp(&["", ""], vec![read("c")]);
    let mut h = host_job(vec![], vec![UpdateOp::ClassMap(binding(0, BindingKind::Property, "class", e))]);
    collapse_singleton_interpolations_for_host(&mut h);
    assert_eq!(bound_expression(&h.root.update[0]), &read("c"));
}

#[test]
fn const_collected_expressions_are_hoisted_in_order() {
    let inner = IrExpression::ConstCollected(Box::new(lit("a")));
    let outer = IrExpression::ConstCollected(Box::new(IrExpression::Binary { operator: BinaryOperator::Plus, lhs: Box::new(inner), rhs: Box::new(read("y")) }));
    let mut j = job(view(0, vec![], vec![UpdateOp::Property(binding(1, BindingKind::Property, "p", outer))]), vec![]);
    j.consts.push(ConstValue::String(s("existing")));
    collect_const_expressions(&mut j);
    assert_eq!(bound_expression(&j.root.update[0]), &IrExpression::ConstReference(2));
    assert_eq!(j.consts.len(), 3);
    assert_eq!(j.consts[0], ConstValue::String(s("existing")));
    assert_eq!(j.consts[1], ConstValue::Expression(lit("a")));
    assert_eq!(
        j.consts[2],
        ConstValue::Expression(IrExpression::Binary { operator: BinaryOperator::Plus, lhs: Box::new(IrExpression::ConstReference(1)), rhs: Box::new(read("y")) })
    );
}

#[test]
fn const_collection_visits_root_then_views_and_functions_first() {
    let mut root = view(0, vec![], vec![UpdateOp::Property(binding(1, BindingKind::Property, "p", IrExpression::ConstCollected(Box::new(lit("root")))))]);
    root.functions = vec![vec![UpdateOp::Property(binding(1, BindingKind::Property, "f", IrExpression::ConstCollected(Box::new(lit("fn")))))]];
    let other = view(5, vec![], vec![UpdateOp::Property(binding(2, BindingKind::Property, "q", IrExpression::ConstCollected(Box::new(lit("view")))))]);
    let mut j = job(root, vec![other]);
    collect_const_expressions(&mut j);
    assert_eq!(j.consts, vec![
        ConstValue::Expression(lit("fn")),
        ConstValue::Expression(lit("root")),
        ConstValue::Expression(lit("view")),
    ]);
    assert_eq!(bound_expression(&j.root.functions[0][0]), &IrExpression::ConstReference(0));
    assert_eq!(bound_expression(&j.root.update[0]), &IrExpression::ConstReference(1));
    assert_eq!(bound_expression(&j.views[0].update[0]), &IrExpression::ConstReference(2));
}

#[test]
fn const_collected_expressions_inside_literal_arrays_are_hoisted() {
    let arr = IrExpression::LiteralArray(vec![read("x"), IrExpression::ConstCollected(Box::new(lit("a")))]);
    let mut j = job(view(0, vec![], vec![UpdateOp::Property(binding(1, BindingKind::Property, "p", arr))]), vec![]);
    collect_const_expressions(&mut j);
    assert_eq!(bound_expression(&j.root.update[0]), &IrExpression::LiteralArray(vec![read("x"), IrExpression::ConstReference(0)]));
    assert_eq!(j.consts, vec![ConstValue::Expression(lit("a"))]);
}

#[test]
fn any_casts_are_removed_from_listener_handler_operations() {
    let mut l = listener(1, "click", false, false);
    l.handler_ops = Some(vec![UpdateOp::Property(binding(1, BindingKind::Property, "p", any_call(read("e"))))]);
    let mut j = job(view(0, vec![element(1, "button"), CreateOp::Listener(l)], vec![]), vec![]);
    delete_any_casts(&mut j);
    match &j.root.create[1] {
        CreateOp::Listener(l) => match &l.handler_ops {
            Some(ops) => assert_eq!(bound_expression(&ops[0]), &read("e")),
            None => panic!("expected handler operations"),
        },
        _ => panic!("expected a listener"),
    }
}
