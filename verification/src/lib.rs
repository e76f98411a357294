//! A schema compilation-and-validation core.
//!
//! The library derives a declarative schema document from a type's shape,
//! compiles it into a validator artifact, caches the artifact per type key,
//! applies it to untyped runtime values, and reports every structural
//! violation as an ordered sequence of records naming the offending
//! location in both the value and the schema. A validated value is then
//! materialized into its target type and held to the type's declared
//! business rules.

mod apply;
mod cache;
mod compile;
mod payloads;
mod pipeline;
mod render;
mod report;
mod schema;
mod text;
mod value;

pub use apply::apply_schema;
pub use apply::lemma_required_reporting_complete;
pub use apply::spec_apply;
pub use apply::spec_required_record;
pub use apply::spec_type_violation;
pub use apply::spec_violations;
pub use cache::SchemaCache;
pub use cache::lemma_first_build_agreement;
pub use cache::lemma_validate_deterministic;
pub use cache::spec_cache_after;
pub use cache::spec_cached_validator;
pub use compile::CompiledValidator;
pub use compile::SpecCompiled;
pub use compile::compile;
pub use compile::spec_compile;
pub use compile::view_compiled;
pub use payloads::BoundedRequest;
pub use payloads::DegradedRequest;
pub use payloads::Request;
pub use payloads::lemma_named_record_never_degrades;
pub use payloads::spec_bounded_rules;
pub use payloads::spec_name_of;
pub use payloads::spec_named_record_shape;
pub use pipeline::SchemaDeserialize;
pub use pipeline::SchemaSerialize;
pub use pipeline::resolve_and_validate;
pub use render::render_value;
pub use render::spec_render;
pub use report::SpecViolation;
pub use report::ValidationFailure;
pub use report::Violation;
pub use report::render_report;
pub use report::spec_report;
pub use report::views_of;
pub use schema::FieldShape;
pub use schema::Schema;
pub use schema::SchemaProperty;
pub use schema::SpecField;
pub use schema::SpecSchema;
pub use schema::SpecShape;
pub use schema::TypeShape;
pub use schema::field_names_unique;
pub use schema::generate;
pub use schema::lemma_generate_wf;
pub use schema::schema_wf;
pub use schema::spec_generate;
pub use schema::spec_schema_wf;
pub use schema::spec_shape_wf;
pub use schema::view_schema;
pub use schema::view_shape;
pub use text::pointer_step;
pub use text::render_i64;
pub use value::JsonValue;
pub use value::ObjectField;
pub use value::SpecValue;
pub use value::value_wf;
pub use value::view_value;
pub use value::wf_value;
