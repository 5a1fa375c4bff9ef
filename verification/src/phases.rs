//! The ordered table of transformation phases and the drivers that run it.
//!
//! A phase applies to template jobs, to host-binding jobs, or to both. The
//! drivers walk the table in order and run each phase that applies to the kind
//! of job at hand. The table holds the phases this library implements, in the
//! order of the full pipeline.

use vstd::prelude::*;
use crate::allocate_slots::{allocate_slots, job_slotted, slots_fit};
use crate::attribute_extraction::{
    extract_attributes, extract_attributes_for_host, host_job_attributes_extracted, job_attributes_extracted,
};
use crate::any_cast::{delete_any_casts, delete_any_casts_for_host};
use crate::collapse_singleton_interpolations::{
    collapse_singleton_interpolations, collapse_singleton_interpolations_for_host, host_job_collapsed, job_collapsed,
};
use crate::expr_transform::{host_job_rewritten, job_rewritten, ExprRewrite};
use crate::generate_advance::{generate_advance, job_advanced};
use crate::has_const_expression_collection::{collect_const_expressions, job_collected, job_gather};
use crate::i18n_text_extraction::{convert_i18n_text, job_i18n_text_converted, view_placeholder_count, views_placeholder_count};
use crate::host_style_property_parsing::{
    host_job_styles_rewritten, host_style_rewritten, parse_host_style_properties, parse_host_style_properties_for_host,
};
use crate::ir::{ComponentCompilationJob, HostBindingCompilationJob};
use crate::ordering::{host_job_ordered, job_ordered, order_ops, order_ops_for_host};
use crate::parse_extracted_styles::{
    host_job_styles_parsed, job_styles_parsed, parse_extracted_styles, parse_extracted_styles_for_host,
};
use crate::pipe_creation::{create_pipes, job_pipes_created};
use crate::pipe_variadic::create_variadic_pipes;
use crate::generate_local_let_references::{
    generate_local_let_references, job_let_references, view_store_lets, views_store_lets,
};
use crate::local_refs::{job_ref_entries, job_refs_lifted, lift_local_refs};
use crate::ng_container::{generate_ng_container_ops, job_containers_generated};
use crate::binding_specialization::{
    host_job_specialized, job_specialized, specialize_bindings, specialize_bindings_for_host,
};
use crate::convert_animations::{
    convert_animations, convert_animations_for_host, host_animations_converted, job_animations_converted,
};
use crate::next_context_merging::{job_contexts_fit, job_contexts_merged, merge_next_context_expressions};
use crate::defer_configs::{configure_defer_instructions, job_defers_configured};
use crate::convert_i18n_bindings::{convert_i18n_bindings, job_i18n_bindings_converted};
use crate::attach_source_locations::{attach_source_locations, job_located, job_lines_fit};
use crate::empty_elements::{collapse_empty_instructions, job_collapsed_empty};
use crate::propagate_i18n_blocks::{job_i18n_blocks_propagated, propagate_i18n_blocks, propagation};
use crate::create_i18n_contexts::{contexts_bound, create_i18n_contexts, job_i18n_contexts_created};
use crate::const_collection::{
    collect_element_consts, collect_element_consts_for_host, host_consts_collected, job_const_pass, job_consts_collected,
};

verus! {

/// The kind of compilation job a phase applies to.
#[derive(Clone, Copy, Debug, PartialEq, Eq, Structural)]
pub enum CompilationJobKind {
    /// Template compilation (component templates).
    Template,
    /// Host binding compilation.
    Host,
    /// Both template and host binding compilation.
    Both,
}

/// The phases of the table; each names the function that runs it on a template
/// job and, where it has one, the function that runs it on a host job.
#[derive(Clone, Copy, Debug, PartialEq, Eq, Structural)]
pub enum PhaseId {
    ParseHostStyleProperties,
    PropagateI18nBlocks,
    SpecializeBindings,
    ConvertAnimations,
    ExtractAttributes,
    CreateI18nContexts,
    ParseExtractedStyles,
    CollapseSingletonInterpolations,
    OrderOps,
    CreatePipes,
    ConfigureDeferInstructions,
    CreateVariadicPipes,
    GenerateLocalLetReferences,
    DeleteAnyCasts,
    LiftLocalRefs,
    ConvertI18nText,
    ConvertI18nBindings,
    AllocateSlots,
    CollectConstExpressions,
    CollectElementConsts,
    GenerateAdvance,
    MergeNextContextExpressions,
    GenerateNgContainerOps,
    CollapseEmptyInstructions,
    AttachSourceLocations,
}

/// A transformation phase.
pub struct Phase {
    /// The kind of compilation this phase applies to.
    pub kind: CompilationJobKind,
    /// The phase itself.
    pub id: PhaseId,
    /// The phase's name.
    pub name: &'static str,
}

/// The phases, in order.
pub open spec fn phase_order() -> Seq<PhaseId> {
    seq![
        PhaseId::ParseHostStyleProperties,
        PhaseId::PropagateI18nBlocks,
        PhaseId::SpecializeBindings,
        PhaseId::ConvertAnimations,
        PhaseId::ExtractAttributes,
        PhaseId::CreateI18nContexts,
        PhaseId::ParseExtractedStyles,
        PhaseId::CollapseSingletonInterpolations,
        PhaseId::OrderOps,
        PhaseId::CreatePipes,
        PhaseId::ConfigureDeferInstructions,
        PhaseId::CreateVariadicPipes,
        PhaseId::GenerateLocalLetReferences,
        PhaseId::DeleteAnyCasts,
        PhaseId::LiftLocalRefs,
        PhaseId::ConvertI18nText,
        PhaseId::ConvertI18nBindings,
        PhaseId::AllocateSlots,
        PhaseId::CollectConstExpressions,
        PhaseId::CollectElementConsts,
        PhaseId::GenerateAdvance,
        PhaseId::MergeNextContextExpressions,
        PhaseId::GenerateNgContainerOps,
        PhaseId::CollapseEmptyInstructions,
        PhaseId::AttachSourceLocations,
    ]
}

/// The kind of job a phase applies to.
pub open spec fn phase_kind(id: PhaseId) -> CompilationJobKind {
    match id {
        PhaseId::CreateI18nContexts => CompilationJobKind::Template,
        PhaseId::ExtractAttributes => CompilationJobKind::Both,
        PhaseId::ConvertAnimations => CompilationJobKind::Both,
        PhaseId::SpecializeBindings => CompilationJobKind::Both,
        PhaseId::PropagateI18nBlocks => CompilationJobKind::Template,
        PhaseId::ParseHostStyleProperties => CompilationJobKind::Host,
        PhaseId::ParseExtractedStyles => CompilationJobKind::Both,
        PhaseId::CollapseSingletonInterpolations => CompilationJobKind::Both,
        PhaseId::ConfigureDeferInstructions => CompilationJobKind::Template,
        PhaseId::CreatePipes => CompilationJobKind::Template,
        PhaseId::OrderOps => CompilationJobKind::Both,
        PhaseId::GenerateLocalLetReferences => CompilationJobKind::Template,
        PhaseId::CreateVariadicPipes => CompilationJobKind::Template,
        PhaseId::AllocateSlots => CompilationJobKind::Template,
        PhaseId::ConvertI18nBindings => CompilationJobKind::Template,
        PhaseId::ConvertI18nText => CompilationJobKind::Template,
        PhaseId::LiftLocalRefs => CompilationJobKind::Template,
        PhaseId::DeleteAnyCasts => CompilationJobKind::Both,
        PhaseId::CollectElementConsts => CompilationJobKind::Both,
        PhaseId::CollectConstExpressions => CompilationJobKind::Template,
        PhaseId::AttachSourceLocations => CompilationJobKind::Template,
        PhaseId::CollapseEmptyInstructions => CompilationJobKind::Template,
        PhaseId::GenerateNgContainerOps => CompilationJobKind::Template,
        PhaseId::MergeNextContextExpressions => CompilationJobKind::Template,
        PhaseId::GenerateAdvance => CompilationJobKind::Template,
    }
}

/// The name of a phase.
pub open spec fn phase_name(id: PhaseId) -> Seq<char> {
    match id {
        PhaseId::CreateI18nContexts => "createI18nContexts"@,
        PhaseId::ExtractAttributes => "extractAttributes"@,
        PhaseId::ConvertAnimations => "convertAnimations"@,
        PhaseId::SpecializeBindings => "specializeBindings"@,
        PhaseId::PropagateI18nBlocks => "propagateI18nBlocks"@,
        PhaseId::ParseHostStyleProperties => "parseHostStyleProperties"@,
        PhaseId::ParseExtractedStyles => "parseExtractedStyles"@,
        PhaseId::CollapseSingletonInterpolations => "collapseSingletonInterpolations"@,
        PhaseId::ConfigureDeferInstructions => "configureDeferInstructions"@,
        PhaseId::CreatePipes => "createPipes"@,
        PhaseId::OrderOps => "orderOps"@,
        PhaseId::GenerateLocalLetReferences => "generateLocalLetReferences"@,
        PhaseId::CreateVariadicPipes => "createVariadicPipes"@,
        PhaseId::AllocateSlots => "allocateSlots"@,
        PhaseId::ConvertI18nBindings => "convertI18nBindings"@,
        PhaseId::ConvertI18nText => "convertI18nText"@,
        PhaseId::LiftLocalRefs => "liftLocalRefs"@,
        PhaseId::DeleteAnyCasts => "deleteAnyCasts"@,
        PhaseId::CollectElementConsts => "collectElementConsts"@,
        PhaseId::CollectConstExpressions => "collectConstExpressions"@,
        PhaseId::AttachSourceLocations => "attachSourceLocations"@,
        PhaseId::CollapseEmptyInstructions => "collapseEmptyInstructions"@,
        PhaseId::GenerateNgContainerOps => "generateNgContainerOps"@,
        PhaseId::MergeNextContextExpressions => "mergeNextContextExpressions"@,
        PhaseId::GenerateAdvance => "generateAdvance"@,
    }
}

/// Whether a phase of this kind runs on template jobs.
pub open spec fn runs_on_template(kind: CompilationJobKind) -> bool {
    kind is Template || kind is Both
}

/// Whether a phase of this kind runs on host jobs.
pub open spec fn runs_on_host(kind: CompilationJobKind) -> bool {
    kind is Host || kind is Both
}

/// Whether a phase has a function for host jobs.
pub open spec fn has_host_run(id: PhaseId) -> bool {
    !(phase_kind(id) is Template)
}

fn phase(id: PhaseId) -> (p: Phase)
    ensures
        p.id == id,
        p.kind == phase_kind(id),
        p.name@ == phase_name(id),
{
    match id {
        PhaseId::CollectElementConsts => Phase { kind: CompilationJobKind::Both, id, name: "collectElementConsts" },
        PhaseId::CreateI18nContexts => Phase { kind: CompilationJobKind::Template, id, name: "createI18nContexts" },
        PhaseId::PropagateI18nBlocks => Phase { kind: CompilationJobKind::Template, id, name: "propagateI18nBlocks" },
        PhaseId::AttachSourceLocations => Phase { kind: CompilationJobKind::Template, id, name: "attachSourceLocations" },
        PhaseId::ConvertI18nBindings => Phase { kind: CompilationJobKind::Template, id, name: "convertI18nBindings" },
        PhaseId::ConfigureDeferInstructions => Phase { kind: CompilationJobKind::Template, id, name: "configureDeferInstructions" },
        PhaseId::MergeNextContextExpressions => Phase { kind: CompilationJobKind::Template, id, name: "mergeNextContextExpressions" },
        PhaseId::ConvertAnimations => Phase { kind: CompilationJobKind::Both, id, name: "convertAnimations" },
        PhaseId::SpecializeBindings => Phase { kind: CompilationJobKind::Both, id, name: "specializeBindings" },
        PhaseId::CollapseEmptyInstructions => Phase { kind: CompilationJobKind::Template, id, name: "collapseEmptyInstructions" },
        PhaseId::GenerateNgContainerOps => Phase { kind: CompilationJobKind::Template, id, name: "generateNgContainerOps" },
        PhaseId::LiftLocalRefs => Phase { kind: CompilationJobKind::Template, id, name: "liftLocalRefs" },
        PhaseId::GenerateLocalLetReferences => Phase { kind: CompilationJobKind::Template, id, name: "generateLocalLetReferences" },
        PhaseId::ExtractAttributes => Phase { kind: CompilationJobKind::Both, id, name: "extractAttributes" },
        PhaseId::AllocateSlots => Phase { kind: CompilationJobKind::Template, id, name: "allocateSlots" },
        PhaseId::ConvertI18nText => Phase { kind: CompilationJobKind::Template, id, name: "convertI18nText" },
        PhaseId::CreatePipes => Phase { kind: CompilationJobKind::Template, id, name: "createPipes" },
        PhaseId::ParseHostStyleProperties =>
            Phase { kind: CompilationJobKind::Host, id, name: "parseHostStyleProperties" },
        PhaseId::ParseExtractedStyles => Phase { kind: CompilationJobKind::Both, id, name: "parseExtractedStyles" },
        PhaseId::CollapseSingletonInterpolations =>
            Phase { kind: CompilationJobKind::Both, id, name: "collapseSingletonInterpolations" },
        PhaseId::OrderOps => Phase { kind: CompilationJobKind::Both, id, name: "orderOps" },
        PhaseId::CreateVariadicPipes => Phase { kind: CompilationJobKind::Template, id, name: "createVariadicPipes" },
        PhaseId::DeleteAnyCasts => Phase { kind: CompilationJobKind::Both, id, name: "deleteAnyCasts" },
        PhaseId::CollectConstExpressions =>
            Phase { kind: CompilationJobKind::Template, id, name: "collectConstExpressions" },
        PhaseId::GenerateAdvance => Phase { kind: CompilationJobKind::Template, id, name: "generateAdvance" },
    }
}

/// The table of phases, in order.
pub fn phases() -> (r: Vec<Phase>)
    ensures
        r@.len() == phase_order().len(),
        forall|i: int|
            0 <= i < r@.len() ==> {
                &&& (#[trigger] r@[i]).id == phase_order()[i]
                &&& r@[i].kind == phase_kind(phase_order()[i])
                &&& r@[i].name@ == phase_name(phase_order()[i])
            },
{
    let ids = vec![
        PhaseId::ParseHostStyleProperties,
        PhaseId::PropagateI18nBlocks,
        PhaseId::SpecializeBindings,
        PhaseId::ConvertAnimations,
        PhaseId::ExtractAttributes,
        PhaseId::CreateI18nContexts,
        PhaseId::ParseExtractedStyles,
        PhaseId::CollapseSingletonInterpolations,
        PhaseId::OrderOps,
        PhaseId::CreatePipes,
        PhaseId::ConfigureDeferInstructions,
        PhaseId::CreateVariadicPipes,
        PhaseId::GenerateLocalLetReferences,
        PhaseId::DeleteAnyCasts,
        PhaseId::LiftLocalRefs,
        PhaseId::ConvertI18nText,
        PhaseId::ConvertI18nBindings,
        PhaseId::AllocateSlots,
        PhaseId::CollectConstExpressions,
        PhaseId::CollectElementConsts,
        PhaseId::GenerateAdvance,
        PhaseId::MergeNextContextExpressions,
        PhaseId::GenerateNgContainerOps,
        PhaseId::CollapseEmptyInstructions,
        PhaseId::AttachSourceLocations,
    ];
    assert(ids@ =~= phase_order());
    let mut r: Vec<Phase> = Vec::new();
    let mut i: usize = 0;
    while i < ids.len()
        invariant
            ids@ == phase_order(),
            i <= ids@.len(),
            r@.len() == i,
            forall|j: int|
                0 <= j < i ==> {
                    &&& (#[trigger] r@[j]).id == phase_order()[j]
                    &&& r@[j].kind == phase_kind(phase_order()[j])
                    &&& r@[j].name@ == phase_name(phase_order()[j])
                },
        decreases ids.len() - i,
    {
        r.push(phase(ids[i]));
        i = i + 1;
    }
    r
}

/// What a phase needs of a template job (a phase that would panic on other jobs).
pub open spec fn template_phase_ready(id: PhaseId, job: ComponentCompilationJob) -> bool {
    match id {
        PhaseId::CollectConstExpressions => job.consts@.len() + job_gather(job).found.len() <= u32::MAX,
        PhaseId::AllocateSlots => slots_fit(job),
        PhaseId::GenerateLocalLetReferences => job.next_xref + view_store_lets(job.root) + views_store_lets(
            job.views@,
            job.views@.len() as int,
        ) <= u32::MAX,
        PhaseId::LiftLocalRefs => job.consts@.len() + job_ref_entries(job).len() <= u32::MAX,
        PhaseId::MergeNextContextExpressions => job_contexts_fit(job),
        PhaseId::AttachSourceLocations => job_lines_fit(job),
        PhaseId::PropagateI18nBlocks => propagation(job) is Some,
        PhaseId::CreateI18nContexts => job.next_xref + contexts_bound(job) <= u32::MAX,
        PhaseId::CollectElementConsts => job.consts@.len() + job_const_pass(job).1.len() <= u32::MAX,
        PhaseId::ConvertI18nText => job.next_xref + view_placeholder_count(job.root) + views_placeholder_count(
            job.views@,
            job.views@.len() as int,
        ) <= u32::MAX,
        _ => true,
    }
}

/// What a phase's template function guarantees of the job after it ran.
pub open spec fn template_phase_done(id: PhaseId, before: ComponentCompilationJob, after: ComponentCompilationJob) -> bool {
    match id {
        PhaseId::CollectElementConsts => job_consts_collected(before, after),
        PhaseId::CreateI18nContexts => job_i18n_contexts_created(before, after),
        PhaseId::PropagateI18nBlocks => job_i18n_blocks_propagated(before, after),
        PhaseId::AttachSourceLocations => job_located(before, after),
        PhaseId::ConvertI18nBindings => job_i18n_bindings_converted(before, after),
        PhaseId::ConfigureDeferInstructions => job_defers_configured(before, after),
        PhaseId::MergeNextContextExpressions => job_contexts_merged(before, after),
        PhaseId::ConvertAnimations => job_animations_converted(before, after),
        PhaseId::SpecializeBindings => job_specialized(before, after),
        PhaseId::CollapseEmptyInstructions => job_collapsed_empty(before, after),
        PhaseId::GenerateNgContainerOps => job_containers_generated(before, after),
        PhaseId::LiftLocalRefs => job_refs_lifted(before, after),
        PhaseId::GenerateLocalLetReferences => job_let_references(before, after),
        PhaseId::ExtractAttributes => job_attributes_extracted(before, after),
        PhaseId::AllocateSlots => job_slotted(before, after),
        PhaseId::ConvertI18nText => job_i18n_text_converted(before, after),
        PhaseId::CreatePipes => job_pipes_created(before, after),
        PhaseId::ParseHostStyleProperties => {
            &&& after.root.update@.len() == before.root.update@.len()
            &&& forall|i: int| 0 <= i < before.root.update@.len()
                ==> host_style_rewritten(#[trigger] before.root.update@[i], after.root.update@[i])
            &&& after.root.create == before.root.create
            &&& after.root.xref == before.root.xref
            &&& after.root.decl_count == before.root.decl_count
            &&& after.root.functions == before.root.functions
            &&& after.views == before.views
            &&& after.consts == before.consts
            &&& after.diagnostics == before.diagnostics
            &&& after.next_xref == before.next_xref
            &&& after.compatibility_mode == before.compatibility_mode
            &&& after.mode == before.mode
            &&& after.enable_debug_locations == before.enable_debug_locations
            &&& after.relative_template_path == before.relative_template_path
            &&& after.template_source == before.template_source
        },
        PhaseId::ParseExtractedStyles => job_styles_parsed(before, after),
        PhaseId::CollapseSingletonInterpolations => job_collapsed(before, after),
        PhaseId::OrderOps => job_ordered(before, after),
        PhaseId::CreateVariadicPipes => job_rewritten(before, after, ExprRewrite::VariadicPipes, false),
        PhaseId::DeleteAnyCasts => job_rewritten(before, after, ExprRewrite::RemoveAnyCasts, true),
        PhaseId::CollectConstExpressions => job_collected(before, after),
        PhaseId::GenerateAdvance => job_advanced(before, after),
    }
}

/// What a phase's host function guarantees of the host job after it ran.
pub open spec fn host_phase_done(id: PhaseId, before: HostBindingCompilationJob, after: HostBindingCompilationJob) -> bool {
    match id {
        PhaseId::CollectElementConsts => host_consts_collected(before, after),
        PhaseId::ConvertAnimations => host_animations_converted(before, after),
        PhaseId::SpecializeBindings => host_job_specialized(before, after),
        PhaseId::ExtractAttributes => host_job_attributes_extracted(before, after),
        PhaseId::ParseHostStyleProperties => host_job_styles_rewritten(before, after),
        PhaseId::ParseExtractedStyles => host_job_styles_parsed(before, after),
        PhaseId::CollapseSingletonInterpolations => host_job_collapsed(before, after),
        PhaseId::OrderOps => host_job_ordered(before, after),
        PhaseId::DeleteAnyCasts => host_job_rewritten(before, after, ExprRewrite::RemoveAnyCasts),
        _ => after == before,
    }
}

/// Whether `after` is what running the phases `ids` that apply to template jobs,
/// in order, can make of `before`.
pub open spec fn template_run(ids: Seq<PhaseId>, before: ComponentCompilationJob, after: ComponentCompilationJob) -> bool
    decreases ids.len(),
{
    if ids.len() == 0 {
        after == before
    } else if !runs_on_template(phase_kind(ids.last())) {
        template_run(ids.drop_last(), before, after)
    } else {
        exists|mid: ComponentCompilationJob|
            template_run(ids.drop_last(), before, mid) && #[trigger] template_phase_done(ids.last(), mid, after)
    }
}

/// Whether `after` is what running the phases `ids` that apply to host jobs (and
/// have a host function), in order, can make of `before`.
pub open spec fn host_run(ids: Seq<PhaseId>, before: HostBindingCompilationJob, after: HostBindingCompilationJob) -> bool
    decreases ids.len(),
{
    if ids.len() == 0 {
        after == before
    } else if !(runs_on_host(phase_kind(ids.last())) && has_host_run(ids.last())) {
        host_run(ids.drop_last(), before, after)
    } else {
        exists|mid: HostBindingCompilationJob|
            host_run(ids.drop_last(), before, mid) && #[trigger] host_phase_done(ids.last(), mid, after)
    }
}

/// Whether every template phase finds the job as it needs it, however the
/// phases before it ran.
pub open spec fn template_runs_ready(job: ComponentCompilationJob) -> bool {
    forall|i: int, mid: ComponentCompilationJob|
        0 <= i < phase_order().len() && runs_on_template(phase_kind(phase_order()[i]))
            && #[trigger] template_run(phase_order().take(i), job, mid) ==> template_phase_ready(phase_order()[i], mid)
}

fn run_template_phase(id: PhaseId, job: &mut ComponentCompilationJob)
    requires
        template_phase_ready(id, *old(job)),
    ensures
        template_phase_done(id, *old(job), *final(job)),
{
    match id {
        PhaseId::CollectElementConsts => collect_element_consts(job),
        PhaseId::CreateI18nContexts => create_i18n_contexts(job),
        PhaseId::PropagateI18nBlocks => propagate_i18n_blocks(job),
        PhaseId::AttachSourceLocations => attach_source_locations(job),
        PhaseId::ConvertI18nBindings => convert_i18n_bindings(job),
        PhaseId::ConfigureDeferInstructions => configure_defer_instructions(job),
        PhaseId::MergeNextContextExpressions => merge_next_context_expressions(job),
        PhaseId::ConvertAnimations => convert_animations(job),
        PhaseId::SpecializeBindings => specialize_bindings(job),
        PhaseId::CollapseEmptyInstructions => collapse_empty_instructions(job),
        PhaseId::GenerateNgContainerOps => generate_ng_container_ops(job),
        PhaseId::LiftLocalRefs => lift_local_refs(job),
        PhaseId::GenerateLocalLetReferences => generate_local_let_references(job),
        PhaseId::ExtractAttributes => extract_attributes(job),
        PhaseId::AllocateSlots => allocate_slots(job),
        PhaseId::ConvertI18nText => convert_i18n_text(job),
        PhaseId::CreatePipes => create_pipes(job),
        PhaseId::ParseHostStyleProperties => parse_host_style_properties(job),
        PhaseId::ParseExtractedStyles => parse_extracted_styles(job),
        PhaseId::CollapseSingletonInterpolations => collapse_singleton_interpolations(job),
        PhaseId::OrderOps => order_ops(job),
        PhaseId::CreateVariadicPipes => create_variadic_pipes(job),
        PhaseId::DeleteAnyCasts => delete_any_casts(job),
        PhaseId::CollectConstExpressions => collect_const_expressions(job),
        PhaseId::GenerateAdvance => generate_advance(job),
    }
}

fn run_host_phase(id: PhaseId, job: &mut HostBindingCompilationJob)
    requires
        has_host_run(id),
    ensures
        host_phase_done(id, *old(job), *final(job)),
{
    match id {
        PhaseId::CollectElementConsts => collect_element_consts_for_host(job),
        PhaseId::ConvertAnimations => convert_animations_for_host(job),
        PhaseId::SpecializeBindings => specialize_bindings_for_host(job),
        PhaseId::ExtractAttributes => extract_attributes_for_host(job),
        PhaseId::ParseHostStyleProperties => parse_host_style_properties_for_host(job),
        PhaseId::ParseExtractedStyles => parse_extracted_styles_for_host(job),
        PhaseId::CollapseSingletonInterpolations => collapse_singleton_interpolations_for_host(job),
        PhaseId::OrderOps => order_ops_for_host(job),
        PhaseId::DeleteAnyCasts => delete_any_casts_for_host(job),
        _ => {},
    }
}

/// Runs, in order, every phase of the table that applies to template jobs.
pub fn transform_template(job: &mut ComponentCompilationJob)
    requires
        template_runs_ready(*old(job)),
    ensures
        template_run(phase_order(), *old(job), *final(job)),
{
    let table = phases();
    let ghost j0 = *job;
    let ghost order = phase_order();
    proof {
        assert(order.take(0) =~= Seq::<PhaseId>::empty());
    }
    let mut i: usize = 0;
    while i < table.len()
        invariant
            table@.len() == order.len(),
            order == phase_order(),
            forall|k: int|
                0 <= k < table@.len() ==> {
                    &&& (#[trigger] table@[k]).id == order[k]
                    &&& table@[k].kind == phase_kind(order[k])
                },
            i <= table@.len(),
            template_runs_ready(j0),
            template_run(order.take(i as int), j0, *job),
        decreases table.len() - i,
    {
        let p = &table[i];
        let ghost before = *job;
        proof {
            assert(order.take(i + 1).drop_last() =~= order.take(i as int));
            assert(order.take(i + 1).last() == order[i as int]);
        }
        match p.kind {
            CompilationJobKind::Template | CompilationJobKind::Both => {
                run_template_phase(p.id, job);
                assert(template_phase_done(order.take(i + 1).last(), before, *job));
            },
            CompilationJobKind::Host => {},
        }
        i = i + 1;
    }
    proof {
        assert(order.take(order.len() as int) =~= order);
    }
}

/// Runs, in order, every phase of the table that applies to host jobs and has a
/// host function.
pub fn transform_host_job(job: &mut HostBindingCompilationJob)
    ensures
        host_run(phase_order(), *old(job), *final(job)),
{
    let table = phases();
    let ghost j0 = *job;
    let ghost order = phase_order();
    proof {
        assert(order.take(0) =~= Seq::<PhaseId>::empty());
    }
    let mut i: usize = 0;
    while i < table.len()
        invariant
            table@.len() == order.len(),
            order == phase_order(),
            forall|k: int|
                0 <= k < table@.len() ==> {
                    &&& (#[trigger] table@[k]).id == order[k]
                    &&& table@[k].kind == phase_kind(order[k])
                },
            i <= table@.len(),
            host_run(order.take(i as int), j0, *job),
        decreases table.len() - i,
    {
        let p = &table[i];
        let ghost before = *job;
        proof {
            assert(order.take(i + 1).drop_last() =~= order.take(i as int));
            assert(order.take(i + 1).last() == order[i as int]);
        }
        let runs = match p.kind {
            CompilationJobKind::Host | CompilationJobKind::Both => true,
            CompilationJobKind::Template => false,
        };
        if runs {
            run_host_phase(p.id, job);
            assert(host_phase_done(order.take(i + 1).last(), before, *job));
        }
        i = i + 1;
    }
    proof {
        assert(order.take(order.len() as int) =~= order);
    }
}

} // verus!
