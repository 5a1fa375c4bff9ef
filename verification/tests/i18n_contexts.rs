use angular_phases::create_i18n_contexts::create_i18n_contexts;
use angular_phases::ir::{
    BindingKind, CompatibilityMode, ComponentCompilationJob, CreateOp, ExtractedAttributeOp, I18nContextKind,
    I18nContextOp, I18nStartOp, IrExpression, SecurityContext, TemplateCompilationMode, UpdateBindingOp, UpdateOp,
    ViewCompilationUnit, XrefId,
};

fn extracted(target: u32, name: &str, message: Option<u32>) -> CreateOp {
    CreateOp::ExtractedAttribute(ExtractedAttributeOp {
        target: XrefId(target),
        binding_kind: BindingKind::Attribute,
        namespace: None,
        name: name.to_string(),
        value: None,
        security_context: SecurityContext::NoContext,
        truthy_expression: false,
        i18n_context: None,
        i18n_message: message,
    })
}

fn binding(target: u32, kind: BindingKind, name: &str, message: Option<u32>) -> UpdateBindingOp {
    UpdateBindingOp {
        target: XrefId(target),
        kind,
        name: name.to_string(),
        unit: None,
        expression: IrExpression::LexicalRead("x".to_string()),
        security_context: SecurityContext::NoContext,
        is_text_attribute: false,
        is_structural_template_attribute: false,
        namespace: None,
        i18n_message: message,
        i18n_context: None,
    }
}

fn block(xref: u32, root: Option<u32>, message: u32) -> I18nStartOp {
    I18nStartOp {
        xref: XrefId(xref),
        slot: None,
        context: None,
        root: root.map(XrefId),
        message: Some(message),
        sub_template_index: None,
    }
}

fn context(xref: u32, kind: I18nContextKind, block: Option<u32>, message: u32) -> CreateOp {
    CreateOp::I18nContext(I18nContextOp {
        xref: XrefId(xref),
        context_kind: kind,
        i18n_block: block.map(XrefId),
        message: Some(message),
    })
}

fn view(xref: u32, create: Vec<CreateOp>, update: Vec<UpdateOp>) -> ViewCompilationUnit {
    ViewCompilationUnit { xref: XrefId(xref), decl_count: None, create, update, functions: vec![] }
}

fn job(root: ViewCompilationUnit, views: Vec<ViewCompilationUnit>) -> ComponentCompilationJob {
    ComponentCompilationJob {
        compatibility_mode: CompatibilityMode::Normal,
        mode: TemplateCompilationMode::Full,
        root,
        views,
        consts: vec![],
        diagnostics: vec![],
        next_xref: 100,
        enable_debug_locations: false,
        relative_template_path: None,
        template_source: None,
    }
}

fn context_of_create(op: &CreateOp) -> Option<XrefId> {
    match op {
        CreateOp::ExtractedAttribute(a) => a.i18n_context,
        CreateOp::I18nStart(o) | CreateOp::IcuStart(o) => o.context,
        _ => None,
    }
}

fn context_of_update(op: &UpdateOp) -> Option<XrefId> {
    match op {
        UpdateOp::Property(b) | UpdateOp::Attribute(b) => b.i18n_context,
        _ => None,
    }
}

#[test]
fn attributes_with_one_message_share_one_context() {
    let mut j = job(
        view(0, vec![extracted(1, "title", Some(5)), extracted(1, "lang", None)], vec![]),
        vec![view(
            10,
            vec![],
            vec![
                UpdateOp::Property(binding(2, BindingKind::Property, "alt", Some(5))),
                UpdateOp::Attribute(binding(3, BindingKind::Attribute, "aria-label", Some(6))),
            ],
        )],
    );
    create_i18n_contexts(&mut j);
    assert_eq!(j.root.create.len(), 3);
    assert_eq!(j.root.create[2], context(100, I18nContextKind::Attr, None, 5));
    assert_eq!(context_of_create(&j.root.create[0]), Some(XrefId(100)));
    assert_eq!(context_of_create(&j.root.create[1]), None);
    assert_eq!(j.views[0].create, vec![context(101, I18nContextKind::Attr, None, 6)]);
    assert_eq!(context_of_update(&j.views[0].update[0]), Some(XrefId(100)));
    assert_eq!(context_of_update(&j.views[0].update[1]), Some(XrefId(101)));
    assert_eq!(j.next_xref, 102);
}

#[test]
fn attribute_context_reaches_every_binding_with_its_target_and_name() {
    let mut j = job(
        view(
            0,
            vec![],
            vec![
                UpdateOp::Property(binding(2, BindingKind::Property, "alt", Some(5))),
                UpdateOp::Property(binding(2, BindingKind::Property, "alt", None)),
                UpdateOp::Property(binding(4, BindingKind::Property, "alt", None)),
            ],
        ),
        vec![],
    );
    create_i18n_contexts(&mut j);
    assert_eq!(context_of_update(&j.root.update[0]), Some(XrefId(100)));
    assert_eq!(context_of_update(&j.root.update[1]), Some(XrefId(100)));
    assert_eq!(context_of_update(&j.root.update[2]), None);
}

#[test]
fn child_blocks_share_the_context_of_their_root_block() {
    let mut j = job(
        view(0, vec![CreateOp::I18nStart(block(1, None, 7)), CreateOp::I18nEnd(XrefId(1))], vec![]),
        vec![view(10, vec![CreateOp::I18nStart(block(2, Some(1), 7)), CreateOp::I18nEnd(XrefId(2))], vec![])],
    );
    create_i18n_contexts(&mut j);
    assert_eq!(context_of_create(&j.root.create[0]), Some(XrefId(100)));
    assert_eq!(j.root.create[2], context(100, I18nContextKind::RootI18n, Some(1), 7));
    assert_eq!(context_of_create(&j.views[0].create[0]), Some(XrefId(100)));
    assert_eq!(j.views[0].create.len(), 2);
    assert_eq!(j.next_xref, 101);
}

#[test]
fn icu_with_its_own_message_gets_its_own_context() {
    let mut j = job(
        view(
            0,
            vec![
                CreateOp::I18nStart(block(1, None, 7)),
                CreateOp::IcuStart(block(3, None, 8)),
                CreateOp::IcuEnd(XrefId(3)),
                CreateOp::I18nEnd(XrefId(1)),
            ],
            vec![],
        ),
        vec![],
    );
    create_i18n_contexts(&mut j);
    assert_eq!(j.root.create[4], context(100, I18nContextKind::RootI18n, Some(1), 7));
    assert_eq!(j.root.create[5], context(101, I18nContextKind::Icu, Some(1), 8));
    assert_eq!(context_of_create(&j.root.create[1]), Some(XrefId(101)));
    assert_eq!(j.next_xref, 102);
}

#[test]
fn icu_alone_in_its_block_takes_over_the_block_context() {
    let mut j = job(
        view(
            0,
            vec![
                CreateOp::I18nStart(block(1, None, 7)),
                CreateOp::IcuStart(block(3, None, 7)),
                CreateOp::IcuEnd(XrefId(3)),
                CreateOp::I18nEnd(XrefId(1)),
            ],
            vec![],
        ),
        vec![],
    );
    create_i18n_contexts(&mut j);
    assert_eq!(j.root.create.len(), 5);
    assert_eq!(j.root.create[4], context(100, I18nContextKind::Icu, Some(1), 7));
    assert_eq!(context_of_create(&j.root.create[1]), Some(XrefId(100)));
    assert_eq!(j.next_xref, 101);
}

#[test]
fn icu_outside_any_block_gets_no_context() {
    let mut j = job(
        view(0, vec![CreateOp::IcuStart(block(3, None, 8)), CreateOp::IcuEnd(XrefId(3))], vec![]),
        vec![],
    );
    create_i18n_contexts(&mut j);
    assert_eq!(j.root.create.len(), 2);
    assert_eq!(context_of_create(&j.root.create[0]), None);
    assert_eq!(j.next_xref, 100);
}
