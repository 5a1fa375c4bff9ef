use angular_phases::ir::{
    CompatibilityMode, ComponentCompilationJob, CreateOp, I18nStartOp, ProjectionOp, SlotOp, TemplateCompilationMode,
    TemplateKind, TemplateOp, ViewCompilationUnit, XrefId,
};
use angular_phases::propagate_i18n_blocks::propagate_i18n_blocks;

fn element(xref: u32) -> CreateOp {
    CreateOp::ElementStart(SlotOp {
        xref: XrefId(xref),
        slot: None,
        name: "span".to_string(),
        local_refs: vec![],
        local_refs_index: None,
        non_bindable: false,
        source_start: None,
        attributes: None,
    })
}

fn start(xref: u32, root: Option<u32>, message: u32, sti: Option<u32>) -> CreateOp {
    CreateOp::I18nStart(I18nStartOp {
        xref: XrefId(xref),
        slot: None,
        context: None,
        root: root.map(XrefId),
        message: Some(message),
        sub_template_index: sti,
    })
}

fn end(xref: u32) -> CreateOp {
    CreateOp::I18nEnd(XrefId(xref))
}

fn tmpl(xref: u32, view: u32, placeholder: bool, empty: Option<(u32, bool)>) -> TemplateOp {
    TemplateOp {
        xref: XrefId(xref),
        slot: None,
        embedded_view: XrefId(view),
        template_kind: TemplateKind::Block,
        has_i18n_placeholder: placeholder,
        local_refs: vec![],
        local_refs_index: None,
        empty_view: empty.map(|(v, _)| XrefId(v)),
        empty_has_i18n_placeholder: empty.map(|(_, p)| p).unwrap_or(false),
        decls: None,
        empty_decls: None,
        attributes: None,
        empty_attributes: None,
    }
}

fn view(xref: u32, create: Vec<CreateOp>) -> ViewCompilationUnit {
    ViewCompilationUnit { xref: XrefId(xref), decl_count: None, create, update: vec![], functions: vec![] }
}

fn job(root: Vec<CreateOp>, views: Vec<ViewCompilationUnit>) -> ComponentCompilationJob {
    ComponentCompilationJob {
        compatibility_mode: CompatibilityMode::Normal,
        mode: TemplateCompilationMode::Full,
        root: view(0, root),
        views,
        consts: vec![],
        diagnostics: vec![],
        next_xref: 100,
        enable_debug_locations: false,
        relative_template_path: None,
        template_source: None,
    }
}

#[test]
fn placeholder_template_inside_a_message_gets_its_own_block() {
    let mut j = job(
        vec![start(1, None, 7, None), CreateOp::Template(tmpl(2, 10, true, None)), end(1)],
        vec![view(10, vec![element(11)])],
    );
    propagate_i18n_blocks(&mut j);
    assert_eq!(j.root.create[0], start(1, None, 7, None));
    assert_eq!(j.views[0].create, vec![start(100, Some(1), 7, Some(1)), element(11), end(100)]);
    assert_eq!(j.next_xref, 101);
}

#[test]
fn template_that_is_no_placeholder_is_not_wrapped() {
    let mut j = job(
        vec![start(1, None, 7, None), CreateOp::Template(tmpl(2, 10, false, None)), end(1)],
        vec![view(10, vec![element(11)])],
    );
    propagate_i18n_blocks(&mut j);
    assert_eq!(j.views[0].create, vec![element(11)]);
    assert_eq!(j.next_xref, 100);
}

#[test]
fn placeholder_outside_any_message_is_not_wrapped() {
    let mut j = job(vec![CreateOp::Template(tmpl(2, 10, true, None))], vec![view(10, vec![element(11)])]);
    propagate_i18n_blocks(&mut j);
    assert_eq!(j.views[0].create, vec![element(11)]);
    assert_eq!(j.next_xref, 100);
}

#[test]
fn view_starting_with_a_block_is_not_wrapped_again() {
    let mut j = job(
        vec![start(1, None, 7, None), CreateOp::Template(tmpl(2, 10, true, None)), end(1)],
        vec![view(10, vec![start(5, Some(1), 7, None), element(11), end(5)])],
    );
    propagate_i18n_blocks(&mut j);
    assert_eq!(j.views[0].create, vec![start(5, Some(1), 7, Some(1)), element(11), end(5)]);
    assert_eq!(j.next_xref, 100);
}

#[test]
fn sibling_placeholders_get_increasing_indices() {
    let mut j = job(
        vec![
            start(1, None, 7, None),
            CreateOp::Template(tmpl(2, 10, true, None)),
            CreateOp::Conditional(tmpl(20, 99, true, None)),
            end(1),
        ],
        vec![view(10, vec![element(11)]), view(20, vec![element(21)])],
    );
    propagate_i18n_blocks(&mut j);
    assert_eq!(j.views[0].create, vec![start(100, Some(1), 7, Some(1)), element(11), end(100)]);
    assert_eq!(j.views[1].create, vec![start(101, Some(1), 7, Some(2)), element(21), end(101)]);
    assert_eq!(j.next_xref, 102);
}

#[test]
fn index_restarts_after_a_root_level_block() {
    let mut j = job(
        vec![
            start(1, None, 7, None),
            CreateOp::Template(tmpl(2, 10, true, None)),
            end(1),
            start(3, None, 8, None),
            CreateOp::Template(tmpl(4, 20, true, None)),
            end(3),
        ],
        vec![view(10, vec![element(11)]), view(20, vec![element(21)])],
    );
    propagate_i18n_blocks(&mut j);
    assert_eq!(j.views[0].create[0], start(100, Some(1), 7, Some(1)));
    assert_eq!(j.views[1].create[0], start(101, Some(3), 8, Some(1)));
}

#[test]
fn repeater_body_and_empty_views_are_both_walked() {
    let mut j = job(
        vec![start(1, None, 7, None), CreateOp::RepeaterCreate(tmpl(2, 10, true, Some((20, true)))), end(1)],
        vec![view(10, vec![element(11)]), view(20, vec![element(21)])],
    );
    propagate_i18n_blocks(&mut j);
    assert_eq!(j.views[0].create[0], start(100, Some(1), 7, Some(1)));
    assert_eq!(j.views[1].create[0], start(101, Some(1), 7, Some(2)));
    assert_eq!(j.views[1].create.len(), 3);
}

#[test]
fn projection_fallback_is_walked() {
    let mut j = job(
        vec![
            start(1, None, 7, None),
            CreateOp::Projection(ProjectionOp {
                xref: XrefId(2),
                slot: None,
                fallback: Some(XrefId(10)),
                fallback_has_i18n_placeholder: true,
                attributes: None,
            }),
            end(1),
        ],
        vec![view(10, vec![element(11)])],
    );
    propagate_i18n_blocks(&mut j);
    assert_eq!(j.views[0].create, vec![start(100, Some(1), 7, Some(1)), element(11), end(100)]);
}

#[test]
fn nested_placeholder_views_are_rooted_in_the_outer_message() {
    let mut j = job(
        vec![start(1, None, 7, None), CreateOp::Template(tmpl(2, 10, true, None)), end(1)],
        vec![
            view(10, vec![CreateOp::Template(tmpl(12, 20, true, None))]),
            view(20, vec![element(21)]),
        ],
    );
    propagate_i18n_blocks(&mut j);
    assert_eq!(j.views[0].create[0], start(100, Some(1), 7, Some(1)));
    assert_eq!(j.views[1].create, vec![start(101, Some(1), 7, Some(2)), element(21), end(101)]);
}
