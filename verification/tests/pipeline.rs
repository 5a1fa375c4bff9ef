#![allow(dead_code, unused_imports)]

use angular_phases::ir::{
    TemplateCompilationMode,
    AngularExpression, BindingKind, CompatibilityMode, ComponentCompilationJob, ConstValue, CreateOp, Diagnostic,
    HostBindingCompilationJob, HostBindingCompilationUnit, IrExpression, ListenerOp, LiteralValue, OutputExpression,
    SecurityContext, SlotId, SlotOp, UpdateBindingOp, UpdateOp, ViewCompilationUnit, XrefId,
};
use angular_phases::phases::{phases, transform_host_job, transform_template, CompilationJobKind, PhaseId};

fn s(x: &str) -> String {
    x.to_string()
}

fn read(name: &str) -> IrExpression {
    IrExpression::LexicalRead(s(name))
}

fn lit(v: &str) -> IrExpression {
    IrExpression::Ast(Box::new(AngularExpression::LiteralPrimitive(LiteralValue::String(s(v)))))
}

fn interp(strings: &[&str], expressions: Vec<IrExpression>) -> IrExpression {
    IrExpression::Interpolation {
        strings: strings.iter().map(|x| s(x)).collect(),
        expressions,
        i18n_placeholders: vec![],
    }
}

fn binding(target: u32, kind: BindingKind, name: &str, expression: IrExpression) -> UpdateBindingOp {
    UpdateBindingOp {
        target: XrefId(target),
        kind,
        name: s(name),
        unit: None,
        expression,
        security_context: SecurityContext::NoContext,
        is_text_attribute: false,
        is_structural_template_attribute: false,
        namespace: None,
        i18n_message: None,
        i18n_context: None,
    }
}

fn element(xref: u32, name: &str) -> CreateOp {
    CreateOp::ElementStart(SlotOp { xref: XrefId(xref), slot: None, name: s(name), local_refs: vec![], local_refs_index: None, non_bindable: false, source_start: None, attributes: None })
}

fn listener(target: u32, name: &str, host_listener: bool, is_animation_listener: bool) -> ListenerOp {
    ListenerOp {
        target: XrefId(target),
        target_slot: None,
        name: s(name),
        host_listener,
        is_animation_listener,
        legacy_animation_phase: None,
        handler_expression: None,
        handler_ops: None,
        animation_kind: None,
    }
}

fn view(xref: u32, create: Vec<CreateOp>, update: Vec<UpdateOp>) -> ViewCompilationUnit {
    ViewCompilationUnit { xref: XrefId(xref), decl_count: None, create, update, functions: vec![] }
}

fn job(root: ViewCompilationUnit, views: Vec<ViewCompilationUnit>) -> ComponentCompilationJob {
    ComponentCompilationJob {
        compatibility_mode: CompatibilityMode::Normal,
        mode: TemplateCompilationMode::Full,
        root,
        views,
        consts: vec![],
        diagnostics: vec![],
        next_xref: 100,
        enable_debug_locations: false,
        relative_template_path: None,
        template_source: None,
    }
}

fn host_job(create: Vec<CreateOp>, update: Vec<UpdateOp>) -> HostBindingCompilationJob {
    HostBindingCompilationJob {
        compatibility_mode: CompatibilityMode::Normal,
        root: HostBindingCompilationUnit { xref: XrefId(0), create, update, attributes: None },
        diagnostics: vec![],
    }
}

#[test]
fn phase_table_is_in_pipeline_order() {
    let table = phases();
    let names: Vec<&str> = table.iter().map(|p| p.name).collect();
    assert_eq!(
        names,
        vec![
            "parseHostStyleProperties",
            "propagateI18nBlocks",
            "specializeBindings",
            "convertAnimations",
            "extractAttributes",
            "createI18nContexts",
            "parseExtractedStyles",
            "collapseSingletonInterpolations",
            "orderOps",
            "createPipes",
            "configureDeferInstructions",
            "createVariadicPipes",
            "generateLocalLetReferences",
            "deleteAnyCasts",
            "liftLocalRefs",
            "convertI18nText",
            "convertI18nBindings",
            "allocateSlots",
            "collectConstExpressions",
            "collectElementConsts",
            "generateAdvance",
            "mergeNextContextExpressions",
            "generateNgContainerOps",
            "collapseEmptyInstructions",
            "attachSourceLocations",
        ]
    );
    assert_eq!(table[0].kind, CompilationJobKind::Host);
    assert_eq!(table[0].id, PhaseId::ParseHostStyleProperties);
    assert_eq!(table[1].kind, CompilationJobKind::Template);
    assert_eq!(table[2].kind, CompilationJobKind::Both);
    assert_eq!(table[5].kind, CompilationJobKind::Template);
}

#[test]
fn template_pipeline_runs_the_template_phases() {
    let mut title = binding(1, BindingKind::Attribute, "title", lit("t"));
    title.is_text_attribute = true;
    let pipe = IrExpression::PipeBinding {
        target: XrefId(20),
        target_slot: None,
        name: s("async"),
        args: vec![IrExpression::ResolvedCall { receiver: Box::new(read("$any")), args: vec![read("x")] }],
        var_offset: None,
    };
    let update = vec![
        UpdateOp::Attribute(title),
        UpdateOp::Property(binding(2, BindingKind::Property, "value", pipe)),
        UpdateOp::Property(binding(1, BindingKind::Property, "k", IrExpression::ConstCollected(Box::new(lit("c"))))),
    ];
    let create = vec![element(1, "div"), CreateOp::ElementEnd(XrefId(1)), element(2, "span"), CreateOp::ElementEnd(XrefId(2))];
    let mut j = job(view(0, create, update), vec![]);
    transform_template(&mut j);
    // The constant title became an attribute of the first element, collected
    // into the consts after the collected constant expression, and a pipe
    // operation was created at the end.
    match &j.root.create[0] {
        CreateOp::Element(e) | CreateOp::ElementStart(e) => assert_eq!(e.attributes, Some(1)),
        _ => panic!("expected the first element"),
    }
    match &j.consts[1] {
        ConstValue::Array(v) => {
            assert_eq!(v[0], ConstValue::String(s("title")));
            assert_eq!(v[1], ConstValue::String(s("t")));
        },
        _ => panic!("expected the attribute array of the first element"),
    }
    assert_eq!(j.root.decl_count, Some(3));
    match j.root.create.last() {
        Some(CreateOp::Pipe(p)) => assert_eq!(p.slot, Some(SlotId(2))),
        _ => panic!("expected the pipe at the end"),
    }
    assert_eq!(j.consts[0], ConstValue::Expression(lit("c")));
    // Updates: an advance to the second element's slot, the piped property on
    // it, then the constant binding on the first element (a move back, reported).
    assert_eq!(j.root.update.len(), 3);
    assert!(matches!(j.root.update[0], UpdateOp::Advance(_)));
    match &j.root.update[1] {
        UpdateOp::Property(b) => match &b.expression {
            IrExpression::PipeBinding { target_slot, args, .. } => {
                assert_eq!(*target_slot, Some(SlotId(2)));
                assert_eq!(args[0], read("x"));
            },
            _ => panic!("expected a pipe binding"),
        },
        _ => panic!("expected the piped property"),
    }
    match &j.root.update[2] {
        UpdateOp::Property(b) => assert_eq!(b.expression, IrExpression::ConstReference(0)),
        _ => panic!("expected the constant binding"),
    }
    assert_eq!(j.diagnostics, vec![Diagnostic::SlotCounterMovedBackwards { from: 1, to: 0 }]);
}

#[test]
fn host_pipeline_runs_the_host_phases() {
    let update = vec![
        UpdateOp::Binding(binding(0, BindingKind::Property, "style.fontSize.px", read("s"))),
        UpdateOp::DomProperty(binding(0, BindingKind::Property, "id", read("i"))),
    ];
    let mut h = host_job(vec![], update);
    transform_host_job(&mut h);
    // A generic binding is not reordered, so the two stay in place.
    match &h.root.update[0] {
        UpdateOp::Binding(b) => {
            assert_eq!(b.kind, BindingKind::StyleProperty);
            assert_eq!(b.name, "font-size");
            assert_eq!(b.unit, Some(s("px")));
        },
        _ => panic!("expected the style binding"),
    }
    match &h.root.update[1] {
        UpdateOp::DomProperty(b) => assert_eq!(b.name, "id"),
        _ => panic!("expected the dom property"),
    }
    // The extracted property left the creation list and, being a property,
    // stays out of the host's attribute array.
    assert!(h.root.create.is_empty());
    assert_eq!(h.root.attributes, None);
    assert!(h.diagnostics.is_empty());
}
