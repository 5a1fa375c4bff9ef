//! Verified model of a set of Angular template-pipeline phases.

pub mod text;
pub mod ir;
pub mod expr_transform;
mod sorting;
mod fx;
pub mod ordering;
pub mod generate_advance;
pub mod i18n_closure;
pub mod host_style_property_parsing;
pub mod parse_extracted_styles;
pub mod any_cast;
pub mod pipe_variadic;
pub mod collapse_singleton_interpolations;
pub mod has_const_expression_collection;
pub mod pipe_creation;
pub mod i18n_text_extraction;
pub mod allocate_slots;
pub mod attribute_extraction;
pub mod ng_container;
pub mod empty_elements;
pub mod local_refs;
pub mod generate_local_let_references;
pub mod binding_specialization;
pub mod convert_animations;
pub mod next_context_merging;
pub mod defer_configs;
pub mod convert_i18n_bindings;
pub mod attach_source_locations;
pub mod propagate_i18n_blocks;
pub mod create_i18n_contexts;
pub mod const_collection;
pub mod pure_function_extraction;
pub mod phases;


