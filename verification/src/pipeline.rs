//! The validation pipeline: resolve a compiled validator through the cache,
//! apply it, materialize the typed value, and run the type's declared
//! business rules.

use vstd::prelude::*;

use crate::apply::spec_apply;
use crate::cache::SchemaCache;
use crate::cache::spec_cache_after;
use crate::cache::spec_cached_validator;
use crate::report::SpecViolation;
use crate::report::ValidationFailure;
use crate::report::Violation;
use crate::report::views_of;
use crate::schema::SpecShape;
use crate::schema::TypeShape;
use crate::schema::view_shape;
use crate::value::JsonValue;
use crate::value::SpecValue;
use crate::value::view_value;
use crate::value::wf_value;

verus! {

/// A target type that can be validated and materialized from a runtime
/// value: it declares a stable key, a shape for schema generation, a
/// structural materialization, and optional field-level business rules.
pub trait SchemaDeserialize: Sized + DeepView {
    /// Stable identity of this type, used as the cache key.
    spec fn spec_key() -> u64;

    /// The structure of this type, as schema generation sees it.
    spec fn spec_shape() -> SpecShape;

    /// Which typed value, if any, a runtime value materializes into.
    spec fn spec_from_value(v: SpecValue) -> Option<Self::V>;

    /// The business-rule report of a typed value: empty exactly when every
    /// declared rule holds.
    spec fn spec_rules(t: Self::V) -> Seq<SpecViolation>;

    /// The cache key for this type.
    fn type_key() -> (k: u64)
        ensures
            k == Self::spec_key(),
    ;

    /// The shape handed to schema generation.
    fn shape() -> (s: TypeShape)
        ensures
            view_shape(s) == Self::spec_shape(),
    ;

    /// Materializes a runtime value into this type. Fails exactly on the
    /// values that do not materialize, with a low-level description.
    fn from_value(value: &JsonValue) -> (r: Result<Self, String>)
        ensures
            match r {
                Ok(t) => Self::spec_from_value(view_value(*value)) == Some(t.deep_view()),
                Err(_) => Self::spec_from_value(view_value(*value)) is None,
            },
    ;

    /// Checks the declared business rules of a materialized value,
    /// reporting one record per broken rule.
    fn check_rules(&self) -> (r: Vec<Violation>)
        ensures
            views_of(r@) == Self::spec_rules(self.deep_view()),
    ;
}

/// A value that can be turned back into a runtime value.
pub trait SchemaSerialize {
    /// The runtime value this value serializes into.
    spec fn spec_to_value(&self) -> SpecValue;

    /// Serializes this value into a runtime value.
    fn to_value(&self) -> (v: JsonValue)
        ensures
            view_value(v) == self.spec_to_value(),
    ;
}

/// Validates `value` against `T`'s schema and materializes it.
///
/// The compiled validator is resolved through the cache, generating and
/// compiling on the first use of `T`'s key. On structural violations the
/// whole ordered record sequence is reported in one pass. A value that
/// passes structural validation but does not materialize is malformed
/// input; a materialized value that breaks a declared business rule is a
/// rule violation. Exactly one of the typed result and the three failure
/// kinds comes back, and for every value that satisfies the schema,
/// materializes and breaks no rule, the typed result equals what direct
/// materialization of the value would produce.
pub fn resolve_and_validate<T: SchemaDeserialize>(cache: &mut SchemaCache, value: &JsonValue) -> (r:
    Result<T, ValidationFailure>)
    requires
        wf_value(view_value(*value)),
    ensures
        final(cache).model() == spec_cache_after(
            old(cache).model(),
            T::spec_key(),
            T::spec_shape(),
        ),
        ({
            let viols = spec_apply(
                spec_cached_validator(old(cache).model(), T::spec_key(), T::spec_shape()),
                view_value(*value),
            );
            &&& (viols.len() > 0 ==> (r matches Err(ValidationFailure::SchemaViolation(vs))
                && views_of(vs@) == viols))
            &&& (viols.len() == 0 ==> (match T::spec_from_value(view_value(*value)) {
                Option::None => r matches Err(ValidationFailure::MalformedInput(_)),
                Option::Some(tv) => {
                    &&& (T::spec_rules(tv).len() > 0 ==> (r matches Err(
                        ValidationFailure::RuleViolation(vs),
                    ) && views_of(vs@) == T::spec_rules(tv)))
                    &&& (T::spec_rules(tv).len() == 0 ==> (r matches Ok(t) && t.deep_view() == tv))
                },
            }))
        }),
{
    let key = T::type_key();
    let shape = T::shape();
    let viols = cache.validate(key, &shape, value);
    if viols.len() > 0 {
        return Err(ValidationFailure::SchemaViolation(viols));
    }
    match T::from_value(value) {
        Err(description) => Err(ValidationFailure::MalformedInput(description)),
        Ok(t) => {
            let rules = t.check_rules();
            if rules.len() > 0 {
                Err(ValidationFailure::RuleViolation(rules))
            } else {
                Ok(t)
            }
        },
    }
}

} // verus!
