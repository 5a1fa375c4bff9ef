#![allow(dead_code, unused_imports)]

use angular_phases::ir::{
    TemplateCompilationMode,
    AngularExpression, BindingKind, CompatibilityMode, ComponentCompilationJob, ConstValue, CreateOp, Diagnostic,
    HostBindingCompilationJob, HostBindingCompilationUnit, IrExpression, ListenerOp, LiteralValue, OutputExpression,
    SecurityContext, SlotId, SlotOp, UpdateBindingOp, UpdateOp, ViewCompilationUnit, XrefId,
};
use angular_phases::i18n_text_extraction::convert_i18n_text;
use angular_phases::ir::{I18nExpressionFor, I18nExpressionOp, I18nParamResolutionTime, I18nStartOp, IcuPlaceholderOp, TextOp};

fn s(x: &str) -> String {
    x.to_string()
}

fn read(name: &str) -> IrExpression {
    IrExpression::LexicalRead(s(name))
}

fn lit(v: &str) -> IrExpression {
    IrExpression::Ast(Box::new(AngularExpression::LiteralPrimitive(LiteralValue::String(s(v)))))
}

fn interp(strings: &[&str], expressions: Vec<IrExpression>) -> IrExpression {
    IrExpression::Interpolation {
        strings: strings.iter().map(|x| s(x)).collect(),
        expressions,
        i18n_placeholders: vec![],
    }
}

fn binding(target: u32, kind: BindingKind, name: &str, expression: IrExpression) -> UpdateBindingOp {
    UpdateBindingOp {
        target: XrefId(target),
        kind,
        name: s(name),
        unit: None,
        expression,
        security_context: SecurityContext::NoContext,
        is_text_attribute: false,
        is_structural_template_attribute: false,
        namespace: None,
        i18n_message: None,
        i18n_context: None,
    }
}

fn element(xref: u32, name: &str) -> CreateOp {
    CreateOp::ElementStart(SlotOp { xref: XrefId(xref), slot: None, name: s(name), local_refs: vec![], local_refs_index: None, non_bindable: false, source_start: None, attributes: None })
}

fn listener(target: u32, name: &str, host_listener: bool, is_animation_listener: bool) -> ListenerOp {
    ListenerOp {
        target: XrefId(target),
        target_slot: None,
        name: s(name),
        host_listener,
        is_animation_listener,
        legacy_animation_phase: None,
        handler_expression: None,
        handler_ops: None,
        animation_kind: None,
    }
}

fn view(xref: u32, create: Vec<CreateOp>, update: Vec<UpdateOp>) -> ViewCompilationUnit {
    ViewCompilationUnit { xref: XrefId(xref), decl_count: None, create, update, functions: vec![] }
}

fn job(root: ViewCompilationUnit, views: Vec<ViewCompilationUnit>) -> ComponentCompilationJob {
    ComponentCompilationJob {
        compatibility_mode: CompatibilityMode::Normal,
        mode: TemplateCompilationMode::Full,
        root,
        views,
        consts: vec![],
        diagnostics: vec![],
        next_xref: 100,
        enable_debug_locations: false,
        relative_template_path: None,
        template_source: None,
    }
}

fn host_job(create: Vec<CreateOp>, update: Vec<UpdateOp>) -> HostBindingCompilationJob {
    HostBindingCompilationJob {
        compatibility_mode: CompatibilityMode::Normal,
        root: HostBindingCompilationUnit { xref: XrefId(0), create, update, attributes: None },
        diagnostics: vec![],
    }
}

fn i18n_start(xref: u32, slot: Option<u32>, context: Option<u32>) -> CreateOp {
    CreateOp::I18nStart(I18nStartOp {
        xref: XrefId(xref),
        slot: slot.map(SlotId),
        context: context.map(XrefId),
        root: None,
        message: None,
        sub_template_index: None,
    })
}

fn icu_start(xref: u32, context: Option<u32>) -> CreateOp {
    CreateOp::IcuStart(I18nStartOp {
        xref: XrefId(xref),
        slot: None,
        context: context.map(XrefId),
        root: None,
        message: None,
        sub_template_index: None,
    })
}

fn text(xref: u32, value: &str, icu: Option<&str>) -> CreateOp {
    CreateOp::Text(TextOp { xref: XrefId(xref), slot: None, initial_value: s(value), icu_placeholder: icu.map(s) })
}

fn placeholder_interp(strings: &[&str], expressions: Vec<IrExpression>, placeholders: &[&str]) -> IrExpression {
    IrExpression::Interpolation {
        strings: strings.iter().map(|x| s(x)).collect(),
        expressions,
        i18n_placeholders: placeholders.iter().map(|x| s(x)).collect(),
    }
}

#[test]
fn text_in_i18n_block_is_removed_and_its_interpolation_converted() {
    let create = vec![i18n_start(5, Some(2), Some(6)), text(7, "Hello", None), CreateOp::I18nEnd(XrefId(5)), text(8, "x", None)];
    let e = placeholder_interp(&["Hi ", "!"], vec![read("name")], &["INTERPOLATION"]);
    let update = vec![
        UpdateOp::InterpolateText(binding(7, BindingKind::Property, "", e)),
        UpdateOp::InterpolateText(binding(8, BindingKind::Property, "", read("y"))),
    ];
    let mut j = job(view(0, create, update), vec![]);
    convert_i18n_text(&mut j);
    assert_eq!(j.root.create.len(), 3);
    assert!(matches!(j.root.create[1], CreateOp::I18nEnd(_)));
    assert!(matches!(j.root.create[2], CreateOp::Text(_)));
    assert_eq!(j.root.update.len(), 2);
    assert_eq!(
        j.root.update[0],
        UpdateOp::I18nExpression(I18nExpressionOp {
            i18n_owner: XrefId(5),
            target: XrefId(5),
            context: XrefId(6),
            handle: SlotId(2),
            expression: read("name"),
            resolution_time: I18nParamResolutionTime::Creation,
            usage: I18nExpressionFor::I18nText,
            name: s(""),
            i18n_placeholder: Some(s("INTERPOLATION")),
            icu_placeholder: None,
        })
    );
    assert!(matches!(j.root.update[1], UpdateOp::InterpolateText(_)));
    assert_eq!(j.next_xref, 100);
}

#[test]
fn interpolation_with_two_expressions_becomes_two_i18n_expressions() {
    let create = vec![i18n_start(5, None, None), text(7, "", None), CreateOp::I18nEnd(XrefId(5))];
    let e = placeholder_interp(&["", " and ", ""], vec![read("a"), read("b")], &["P0"]);
    let mut j = job(view(0, create, vec![UpdateOp::InterpolateText(binding(7, BindingKind::Property, "", e))]), vec![]);
    convert_i18n_text(&mut j);
    assert_eq!(j.root.update.len(), 2);
    match (&j.root.update[0], &j.root.update[1]) {
        (UpdateOp::I18nExpression(a), UpdateOp::I18nExpression(b)) => {
            assert_eq!(a.expression, read("a"));
            assert_eq!(a.i18n_placeholder, Some(s("P0")));
            assert_eq!(a.context, XrefId(5));
            assert_eq!(a.handle, SlotId(0));
            assert_eq!(b.expression, read("b"));
            assert_eq!(b.i18n_placeholder, None);
        },
        _ => panic!("expected two i18n expressions"),
    }
}

#[test]
fn text_in_icu_becomes_a_placeholder_with_a_fresh_id() {
    let create = vec![
        i18n_start(5, None, Some(6)),
        icu_start(8, Some(9)),
        text(7, "init", Some("VAR_SELECT")),
        CreateOp::IcuEnd(XrefId(8)),
        CreateOp::I18nEnd(XrefId(5)),
    ];
    let e = placeholder_interp(&["one ", " two"], vec![read("v")], &[]);
    let mut j = job(view(0, create, vec![UpdateOp::InterpolateText(binding(7, BindingKind::Property, "", e))]), vec![]);
    convert_i18n_text(&mut j);
    assert_eq!(j.next_xref, 101);
    assert_eq!(j.root.create.len(), 5);
    assert_eq!(
        j.root.create[2],
        CreateOp::IcuPlaceholder(IcuPlaceholderOp { xref: XrefId(100), name: s("VAR_SELECT"), strings: vec![s("one "), s(" two")] })
    );
    match &j.root.update[0] {
        UpdateOp::I18nExpression(x) => {
            assert_eq!(x.context, XrefId(9));
            assert_eq!(x.resolution_time, I18nParamResolutionTime::Postprocessing);
            assert_eq!(x.icu_placeholder, Some(XrefId(100)));
        },
        _ => panic!("expected an i18n expression"),
    }
}

#[test]
fn placeholder_without_interpolation_keeps_its_initial_string() {
    let create = vec![i18n_start(5, None, None), icu_start(8, None), text(7, "init", Some("PH")), CreateOp::I18nEnd(XrefId(5))];
    let mut j = job(view(0, create, vec![]), vec![]);
    convert_i18n_text(&mut j);
    assert_eq!(
        j.root.create[2],
        CreateOp::IcuPlaceholder(IcuPlaceholderOp { xref: XrefId(100), name: s("PH"), strings: vec![s("init")] })
    );
}

#[test]
fn views_number_their_placeholders_after_the_root() {
    let root = view(0, vec![i18n_start(5, None, None), text(7, "", Some("A")), CreateOp::I18nEnd(XrefId(5))], vec![]);
    let other = view(3, vec![i18n_start(6, None, None), text(9, "", Some("B")), CreateOp::I18nEnd(XrefId(6))], vec![]);
    let mut j = job(root, vec![other]);
    convert_i18n_text(&mut j);
    assert_eq!(j.next_xref, 102);
    match (&j.root.create[1], &j.views[0].create[1]) {
        (CreateOp::IcuPlaceholder(a), CreateOp::IcuPlaceholder(b)) => {
            assert_eq!(a.xref, XrefId(100));
            assert_eq!(b.xref, XrefId(101));
        },
        _ => panic!("expected two placeholders"),
    }
}
