use angular_phases::const_collection::{collect_element_consts, collect_element_consts_for_host};
use angular_phases::ir::{
    AngularExpression, BindingKind, CompatibilityMode, ComponentCompilationJob, ConstValue, CreateOp, Diagnostic,
    ExtractedAttributeOp, HostBindingCompilationJob, HostBindingCompilationUnit, IrExpression, LiteralValue,
    OutputExpression, ProjectionOp, SecurityContext, SlotOp, TemplateCompilationMode, TemplateKind, TemplateOp,
    ViewCompilationUnit, XrefId,
};

fn text(s: &str) -> Option<IrExpression> {
    Some(IrExpression::OutputExpr(Box::new(OutputExpression::Literal(LiteralValue::String(s.to_string())))))
}

fn attr(target: u32, kind: BindingKind, name: &str, value: Option<IrExpression>) -> CreateOp {
    CreateOp::ExtractedAttribute(ExtractedAttributeOp {
        target: XrefId(target),
        binding_kind: kind,
        namespace: None,
        name: name.to_string(),
        value,
        security_context: SecurityContext::NoContext,
        truthy_expression: false,
        i18n_context: None,
        i18n_message: None,
    })
}

fn element(xref: u32) -> SlotOp {
    SlotOp {
        xref: XrefId(xref),
        slot: None,
        name: "div".to_string(),
        local_refs: vec![],
        local_refs_index: None,
        non_bindable: false,
        source_start: None,
        attributes: None,
    }
}

fn repeater(xref: u32, body: u32, empty: u32) -> TemplateOp {
    TemplateOp {
        xref: XrefId(xref),
        slot: None,
        embedded_view: XrefId(body),
        template_kind: TemplateKind::Block,
        has_i18n_placeholder: false,
        local_refs: vec![],
        local_refs_index: None,
        empty_view: Some(XrefId(empty)),
        empty_has_i18n_placeholder: false,
        decls: None,
        empty_decls: None,
        attributes: None,
        empty_attributes: None,
    }
}

fn projection(xref: u32) -> ProjectionOp {
    ProjectionOp { xref: XrefId(xref), slot: None, fallback: None, fallback_has_i18n_placeholder: false, attributes: None }
}

fn job(compat: CompatibilityMode, root: Vec<CreateOp>, views: Vec<Vec<CreateOp>>) -> ComponentCompilationJob {
    ComponentCompilationJob {
        compatibility_mode: compat,
        mode: TemplateCompilationMode::Full,
        root: ViewCompilationUnit { xref: XrefId(0), decl_count: None, create: root, update: vec![], functions: vec![] },
        views: views
            .into_iter()
            .enumerate()
            .map(|(i, create)| ViewCompilationUnit {
                xref: XrefId(10 + i as u32),
                decl_count: None,
                create,
                update: vec![],
                functions: vec![],
            })
            .collect(),
        consts: vec![ConstValue::String("existing".to_string())],
        diagnostics: vec![],
        next_xref: 100,
        enable_debug_locations: false,
        relative_template_path: None,
        template_source: None,
    }
}

fn s(x: &str) -> ConstValue {
    ConstValue::String(x.to_string())
}

fn attributes_of(op: &CreateOp) -> Option<u32> {
    match op {
        CreateOp::ElementStart(e) | CreateOp::Element(e) => e.attributes,
        _ => None,
    }
}

#[test]
fn attributes_are_grouped_by_kind_and_serialized() {
    let mut j = job(
        CompatibilityMode::Normal,
        vec![
            CreateOp::ElementStart(element(1)),
            attr(1, BindingKind::Property, "value", None),
            attr(1, BindingKind::ClassName, "x", None),
            attr(1, BindingKind::Attribute, "id", text("a")),
            attr(1, BindingKind::Template, "ngIf", None),
            attr(1, BindingKind::I18n, "title", None),
        ],
        vec![],
    );
    collect_element_consts(&mut j);
    assert_eq!(j.root.create.len(), 1);
    assert_eq!(attributes_of(&j.root.create[0]), Some(1));
    assert_eq!(
        j.consts[1],
        ConstValue::Array(vec![
            s("id"),
            s("a"),
            ConstValue::Number(1),
            s("x"),
            ConstValue::Number(3),
            s("value"),
            ConstValue::Number(4),
            s("ngIf"),
            ConstValue::Number(6),
            s("title"),
        ])
    );
    assert_eq!(j.consts.len(), 2);
}

#[test]
fn styles_namespaces_and_truthy_values_are_serialized() {
    let ns = ExtractedAttributeOp {
        target: XrefId(1),
        binding_kind: BindingKind::Attribute,
        namespace: Some("xlink".to_string()),
        name: "href".to_string(),
        value: text("#a"),
        security_context: SecurityContext::NoContext,
        truthy_expression: false,
        i18n_context: None,
        i18n_message: None,
    };
    let truthy = ExtractedAttributeOp {
        target: XrefId(1),
        binding_kind: BindingKind::Attribute,
        namespace: None,
        name: "hidden".to_string(),
        value: None,
        security_context: SecurityContext::NoContext,
        truthy_expression: true,
        i18n_context: None,
        i18n_message: None,
    };
    let style = attr(
        1,
        BindingKind::StyleProperty,
        "color",
        Some(IrExpression::Ast(Box::new(AngularExpression::LiteralPrimitive(LiteralValue::String("red".to_string()))))),
    );
    let mut j = job(
        CompatibilityMode::Normal,
        vec![
            CreateOp::Element(element(1)),
            CreateOp::ExtractedAttribute(ns),
            CreateOp::ExtractedAttribute(truthy),
            style,
        ],
        vec![],
    );
    collect_element_consts(&mut j);
    assert_eq!(
        j.consts[1],
        ConstValue::Array(vec![
            ConstValue::Number(0),
            s("xlink"),
            s("href"),
            s("#a"),
            s("hidden"),
            s(""),
            ConstValue::Number(2),
            s("color"),
            s("red"),
        ])
    );
}

#[test]
fn i18n_variable_values_stay_references() {
    let var = Some(IrExpression::OutputExpr(Box::new(OutputExpression::ReadVar("I18N_0".to_string()))));
    let mut j = job(
        CompatibilityMode::Normal,
        vec![CreateOp::Element(element(1)), attr(1, BindingKind::Attribute, "title", var)],
        vec![],
    );
    collect_element_consts(&mut j);
    assert_eq!(
        j.consts[1],
        ConstValue::Array(vec![
            s("title"),
            ConstValue::Expression(IrExpression::OutputExpr(Box::new(OutputExpression::ReadVar("I18N_0".to_string())))),
        ])
    );
}

#[test]
fn duplicates_are_kept_only_in_compatibility_mode() {
    let ops = || {
        vec![
            CreateOp::Element(element(1)),
            attr(1, BindingKind::Attribute, "id", text("a")),
            attr(1, BindingKind::Attribute, "id", text("b")),
            attr(1, BindingKind::Property, "p", None),
            attr(1, BindingKind::Property, "p", None),
        ]
    };
    let mut normal = job(CompatibilityMode::Normal, ops(), vec![]);
    collect_element_consts(&mut normal);
    assert_eq!(normal.consts[1], ConstValue::Array(vec![s("id"), s("a"), ConstValue::Number(3), s("p")]));
    let mut tdb = job(CompatibilityMode::TemplateDefinitionBuilder, ops(), vec![]);
    collect_element_consts(&mut tdb);
    assert_eq!(
        tdb.consts[1],
        ConstValue::Array(vec![s("id"), s("a"), s("id"), s("b"), ConstValue::Number(3), s("p")])
    );
}

#[test]
fn elements_get_indices_in_order_and_once() {
    let mut j = job(
        CompatibilityMode::Normal,
        vec![
            CreateOp::ElementStart(element(2)),
            CreateOp::ElementStart(element(1)),
            CreateOp::ElementStart(element(3)),
            attr(1, BindingKind::ClassName, "one", None),
            attr(2, BindingKind::ClassName, "two", None),
        ],
        vec![vec![CreateOp::Element(element(2))]],
    );
    collect_element_consts(&mut j);
    assert_eq!(j.consts.len(), 3);
    assert_eq!(attributes_of(&j.root.create[0]), Some(1));
    assert_eq!(attributes_of(&j.root.create[1]), Some(2));
    assert_eq!(attributes_of(&j.root.create[2]), None);
    assert_eq!(attributes_of(&j.views[0].create[0]), Some(1));
    assert_eq!(j.consts[1], ConstValue::Array(vec![ConstValue::Number(1), s("two")]));
}

#[test]
fn repeater_views_get_their_indices() {
    let mut j = job(
        CompatibilityMode::Normal,
        vec![
            CreateOp::RepeaterCreate(repeater(5, 10, 11)),
            attr(11, BindingKind::Template, "empty", None),
            attr(10, BindingKind::Template, "body", None),
        ],
        vec![],
    );
    collect_element_consts(&mut j);
    match &j.root.create[0] {
        CreateOp::RepeaterCreate(t) => {
            assert_eq!(t.attributes, Some(1));
            assert_eq!(t.empty_attributes, Some(2));
        }
        _ => panic!("expected a repeater"),
    }
}

#[test]
fn first_projection_takes_its_array() {
    let mut j = job(
        CompatibilityMode::Normal,
        vec![
            CreateOp::Projection(projection(4)),
            CreateOp::Projection(projection(4)),
            attr(4, BindingKind::Attribute, "select", text("a")),
        ],
        vec![],
    );
    collect_element_consts(&mut j);
    assert_eq!(j.consts.len(), 1);
    match (&j.root.create[0], &j.root.create[1]) {
        (CreateOp::Projection(a), CreateOp::Projection(b)) => {
            assert_eq!(
                a.attributes,
                Some(OutputExpression::LiteralArray(vec![
                    OutputExpression::Literal(LiteralValue::String("select".to_string())),
                    OutputExpression::Literal(LiteralValue::String("a".to_string())),
                ]))
            );
            assert_eq!(b.attributes, None);
        }
        _ => panic!("expected projections"),
    }
}

#[test]
fn host_attributes_leave_out_property_bindings() {
    let mut h = HostBindingCompilationJob {
        compatibility_mode: CompatibilityMode::Normal,
        root: HostBindingCompilationUnit {
            xref: XrefId(0),
            create: vec![
                attr(0, BindingKind::Attribute, "role", text("button")),
                attr(0, BindingKind::Property, "disabled", None),
                attr(7, BindingKind::ClassName, "c", None),
            ],
            update: vec![],
            attributes: None,
        },
        diagnostics: vec![],
    };
    collect_element_consts_for_host(&mut h);
    assert!(h.root.create.is_empty());
    assert_eq!(h.diagnostics, vec![Diagnostic::HostAttributeNotOnRoot]);
    assert_eq!(
        h.root.attributes,
        Some(OutputExpression::LiteralArray(vec![
            OutputExpression::Literal(LiteralValue::String("role".to_string())),
            OutputExpression::Literal(LiteralValue::String("button".to_string())),
            OutputExpression::Literal(LiteralValue::Number(1)),
            OutputExpression::Literal(LiteralValue::String("c".to_string())),
        ]))
    );
}

#[test]
fn host_without_attributes_keeps_no_array() {
    let mut h = HostBindingCompilationJob {
        compatibility_mode: CompatibilityMode::Normal,
        root: HostBindingCompilationUnit {
            xref: XrefId(0),
            create: vec![attr(0, BindingKind::Property, "disabled", None)],
            update: vec![],
            attributes: None,
        },
        diagnostics: vec![],
    };
    collect_element_consts_for_host(&mut h);
    assert_eq!(h.root.attributes, None);
}
