#![allow(dead_code, unused_imports)]

use angular_phases::ir::{
    TemplateCompilationMode,
    AngularExpression, BindingKind, CompatibilityMode, ComponentCompilationJob, ConstValue, CreateOp, Diagnostic,
    HostBindingCompilationJob, HostBindingCompilationUnit, IrExpression, ListenerOp, LiteralValue, OutputExpression,
    SecurityContext, SlotId, SlotOp, UpdateBindingOp, UpdateOp, ViewCompilationUnit, XrefId,
};
use angular_phases::parse_extracted_styles::{hyphenate, parse_extracted_styles, parse_extracted_styles_for_host};
use angular_phases::host_style_property_parsing::{parse_host_style_properties, parse_host_style_properties_for_host};
use angular_phases::ir::{ExtractedAttributeOp, TemplateKind, TemplateOp};

fn s(x: &str) -> String {
    x.to_string()
}

fn read(name: &str) -> IrExpression {
    IrExpression::LexicalRead(s(name))
}

fn lit(v: &str) -> IrExpression {
    IrExpression::Ast(Box::new(AngularExpression::LiteralPrimitive(LiteralValue::String(s(v)))))
}

fn interp(strings: &[&str], expressions: Vec<IrExpression>) -> IrExpression {
    IrExpression::Interpolation {
        strings: strings.iter().map(|x| s(x)).collect(),
        expressions,
        i18n_placeholders: vec![],
    }
}

fn binding(target: u32, kind: BindingKind, name: &str, expression: IrExpression) -> UpdateBindingOp {
    UpdateBindingOp {
        target: XrefId(target),
        kind,
        name: s(name),
        unit: None,
        expression,
        security_context: SecurityContext::NoContext,
        is_text_attribute: false,
        is_structural_template_attribute: false,
        namespace: None,
        i18n_message: None,
        i18n_context: None,
    }
}

fn element(xref: u32, name: &str) -> CreateOp {
    CreateOp::ElementStart(SlotOp { xref: XrefId(xref), slot: None, name: s(name), local_refs: vec![], local_refs_index: None, non_bindable: false, source_start: None, attributes: None })
}

fn listener(target: u32, name: &str, host_listener: bool, is_animation_listener: bool) -> ListenerOp {
    ListenerOp {
        target: XrefId(target),
        target_slot: None,
        name: s(name),
        host_listener,
        is_animation_listener,
        legacy_animation_phase: None,
        handler_expression: None,
        handler_ops: None,
        animation_kind: None,
    }
}

fn view(xref: u32, create: Vec<CreateOp>, update: Vec<UpdateOp>) -> ViewCompilationUnit {
    ViewCompilationUnit { xref: XrefId(xref), decl_count: None, create, update, functions: vec![] }
}

fn job(root: ViewCompilationUnit, views: Vec<ViewCompilationUnit>) -> ComponentCompilationJob {
    ComponentCompilationJob {
        compatibility_mode: CompatibilityMode::Normal,
        mode: TemplateCompilationMode::Full,
        root,
        views,
        consts: vec![],
        diagnostics: vec![],
        next_xref: 100,
        enable_debug_locations: false,
        relative_template_path: None,
        template_source: None,
    }
}

fn host_job(create: Vec<CreateOp>, update: Vec<UpdateOp>) -> HostBindingCompilationJob {
    HostBindingCompilationJob {
        compatibility_mode: CompatibilityMode::Normal,
        root: HostBindingCompilationUnit { xref: XrefId(0), create, update, attributes: None },
        diagnostics: vec![],
    }
}

fn extracted(target: u32, name: &str, value: Option<IrExpression>) -> CreateOp {
    CreateOp::ExtractedAttribute(ExtractedAttributeOp {
        target: XrefId(target),
        binding_kind: BindingKind::Attribute,
        namespace: None,
        name: s(name),
        value,
        security_context: SecurityContext::NoContext,
        truthy_expression: false,
        i18n_context: None,
        i18n_message: None,
    })
}

fn attr_name_kind_value(op: &CreateOp) -> (String, BindingKind, Option<String>) {
    match op {
        CreateOp::ExtractedAttribute(a) => {
            let v = match &a.value {
                Some(IrExpression::Ast(b)) => match &**b {
                    AngularExpression::LiteralPrimitive(LiteralValue::String(x)) => Some(x.clone()),
                    _ => None,
                },
                _ => None,
            };
            (a.name.clone(), a.binding_kind, v)
        },
        _ => panic!("expected an extracted attribute"),
    }
}

#[test]
fn hyphenate_converts_camel_case() {
    assert_eq!(hyphenate("backgroundColor"), "background-color");
    assert_eq!(hyphenate("fontSizeX"), "font-size-x");
    assert_eq!(hyphenate("ABC"), "abc");
    assert_eq!(hyphenate(""), "");
}

#[test]
fn style_attribute_becomes_style_properties() {
    let create = vec![element(1, "div"), extracted(1, "style", Some(lit("color: red; backgroundColor : blue;")))];
    let mut j = job(view(0, create, vec![]), vec![]);
    parse_extracted_styles(&mut j);
    assert_eq!(j.root.create.len(), 3);
    assert!(matches!(j.root.create[0], CreateOp::ElementStart(_)));
    assert_eq!(attr_name_kind_value(&j.root.create[1]), (s("color"), BindingKind::StyleProperty, Some(s("red"))));
    assert_eq!(
        attr_name_kind_value(&j.root.create[2]),
        (s("background-color"), BindingKind::StyleProperty, Some(s("blue")))
    );
}

#[test]
fn style_values_keep_semicolons_inside_quotes_and_parentheses() {
    let create = vec![extracted(1, "style", Some(lit("background: url('a;b'); width: calc(1px; 2px)")))];
    let mut j = job(view(0, create, vec![]), vec![]);
    parse_extracted_styles(&mut j);
    assert_eq!(j.root.create.len(), 2);
    assert_eq!(attr_name_kind_value(&j.root.create[0]), (s("background"), BindingKind::StyleProperty, Some(s("url('a;b')"))));
    assert_eq!(attr_name_kind_value(&j.root.create[1]), (s("width"), BindingKind::StyleProperty, Some(s("calc(1px; 2px)"))));
}

#[test]
fn class_attribute_becomes_class_names() {
    let create = vec![extracted(1, "class", Some(lit("  a   b ")))];
    let mut j = job(view(0, create, vec![]), vec![]);
    parse_extracted_styles(&mut j);
    assert_eq!(j.root.create.len(), 2);
    assert_eq!(attr_name_kind_value(&j.root.create[0]), (s("a"), BindingKind::ClassName, None));
    assert_eq!(attr_name_kind_value(&j.root.create[1]), (s("b"), BindingKind::ClassName, None));
}

#[test]
fn style_attribute_of_a_structural_template_is_kept() {
    let template = CreateOp::Template(TemplateOp {
        xref: XrefId(1),
        slot: None,
        embedded_view: XrefId(2),
        template_kind: TemplateKind::StructuralDirective,
        has_i18n_placeholder: false,
        local_refs: vec![],
        local_refs_index: None,
        empty_view: None,
        decls: None,
        empty_decls: None,
        attributes: None,
        empty_attributes: None,
        empty_has_i18n_placeholder: false,
    });
    let create = vec![template, extracted(1, "style", Some(lit("color: red")))];
    let mut j = job(view(0, create, vec![]), vec![]);
    parse_extracted_styles(&mut j);
    assert_eq!(j.root.create.len(), 2);
    assert_eq!(attr_name_kind_value(&j.root.create[1]), (s("style"), BindingKind::Attribute, Some(s("color: red"))));
}

#[test]
fn host_style_attribute_is_parsed_too() {
    let mut h = host_job(vec![extracted(0, "style", Some(lit("display: block")))], vec![]);
    parse_extracted_styles_for_host(&mut h);
    assert_eq!(h.root.create.len(), 1);
    assert_eq!(attr_name_kind_value(&h.root.create[0]), (s("display"), BindingKind::StyleProperty, Some(s("block"))));
}

fn host_binding_after(name: &str) -> (BindingKind, String, Option<String>) {
    let mut h = host_job(vec![], vec![UpdateOp::Binding(binding(0, BindingKind::Property, name, read("x")))]);
    parse_host_style_properties_for_host(&mut h);
    match &h.root.update[0] {
        UpdateOp::Binding(b) => (b.kind, b.name.clone(), b.unit.clone()),
        _ => panic!("expected a binding"),
    }
}

#[test]
fn host_style_binding_with_unit_is_split() {
    assert_eq!(host_binding_after("style.backgroundColor.px"), (BindingKind::StyleProperty, s("background-color"), Some(s("px"))));
}

#[test]
fn host_custom_property_is_not_hyphenated() {
    assert_eq!(host_binding_after("style.--myColor"), (BindingKind::StyleProperty, s("--myColor"), None));
}

#[test]
fn host_class_binding_becomes_class_name() {
    assert_eq!(host_binding_after("class.active"), (BindingKind::ClassName, s("active"), None));
}

#[test]
fn host_important_suffix_is_dropped() {
    assert_eq!(host_binding_after("style.width!important"), (BindingKind::StyleProperty, s("width"), None));
}

#[test]
fn host_other_binding_is_unchanged() {
    assert_eq!(host_binding_after("title"), (BindingKind::Property, s("title"), None));
}

#[test]
fn template_root_host_style_binding_is_parsed() {
    let mut j = job(view(0, vec![], vec![UpdateOp::Binding(binding(0, BindingKind::Property, "class.on", read("x")))]), vec![]);
    parse_host_style_properties(&mut j);
    match &j.root.update[0] {
        UpdateOp::Binding(b) => {
            assert_eq!(b.kind, BindingKind::ClassName);
            assert_eq!(b.name, "on");
        },
        _ => panic!("expected a binding"),
    }
}

#[test]
fn hyphenated_names_have_no_upper_case_and_stay_put() {
    let once = hyphenate("fooBAR");
    assert_eq!(once, "foo-bar");
    assert!(!once.chars().any(|c| c.is_ascii_uppercase()));
    assert_eq!(hyphenate(&once), once);
}

#[test]
fn host_style_parsing_keeps_the_other_binding_fields() {
    let mut b = binding(3, BindingKind::Property, "style.fontSize.px!important", read("x"));
    b.security_context = SecurityContext::Style;
    b.namespace = Some(s("svg"));
    let other = || {
        let mut o = binding(4, BindingKind::Attribute, "style.color", read("y"));
        o.is_text_attribute = true;
        o
    };
    let mut h = host_job(vec![], vec![UpdateOp::Binding(b), UpdateOp::Binding(other())]);
    h.root.attributes = Some(OutputExpression::LiteralArray(vec![]));
    parse_host_style_properties_for_host(&mut h);
    match &h.root.update[0] {
        UpdateOp::Binding(a) => {
            assert_eq!(a.kind, BindingKind::StyleProperty);
            assert_eq!(a.name, "font-size");
            assert_eq!(a.unit, Some(s("px")));
            assert_eq!(a.target, XrefId(3));
            assert_eq!(a.security_context, SecurityContext::Style);
            assert_eq!(a.namespace, Some(s("svg")));
            assert_eq!(a.expression, read("x"));
        },
        _ => panic!("expected a binding"),
    }
    assert_eq!(h.root.update[1], UpdateOp::Binding(other()));
    assert_eq!(h.root.attributes, Some(OutputExpression::LiteralArray(vec![])));
    assert_eq!(h.root.xref, XrefId(0));
}
