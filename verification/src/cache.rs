//! The schema cache: a keyed store from a type key to its compiled
//! validator, created lazily and populated at most once per key.
//!
//! The cache only grows, bounded by the number of distinct type keys the
//! program presents; no entry is ever evicted or replaced. An explicit
//! cache object gives the store a lifecycle tied to the execution context
//! that owns it, with no ambient global state.

use std::collections::HashMap;

use vstd::prelude::*;

use crate::apply::spec_apply;
use crate::compile::CompiledValidator;
use crate::compile::SpecCompiled;
use crate::compile::compile;
use crate::compile::spec_compile;
use crate::compile::view_compiled;
use crate::report::Violation;
use crate::report::views_of;
use crate::schema::TypeShape;
use crate::schema::SpecShape;
use crate::schema::generate;
use crate::schema::spec_generate;
use crate::schema::view_shape;
use crate::value::JsonValue;
use crate::value::SpecValue;
use crate::value::view_value;

verus! {

broadcast use vstd::std_specs::hash::group_hash_axioms;

/// A process-local store mapping a type key to its compiled validator.
pub struct SchemaCache {
    entries: HashMap<u64, CompiledValidator>,
}

/// The validator a cache with contents `m` resolves for `key`: the stored
/// artifact when the key is present, the one compiled from the generated
/// document otherwise.
pub open spec fn spec_cached_validator(
    m: Map<u64, SpecCompiled>,
    key: u64,
    shape: SpecShape,
) -> SpecCompiled {
    if m.contains_key(key) {
        m[key]
    } else {
        spec_compile(spec_generate(shape))
    }
}

/// The cache contents after one lookup of `key` with `shape`: unchanged
/// when the key was present, extended by the compiled validator for the
/// generated document when it was not.
pub open spec fn spec_cache_after(
    m: Map<u64, SpecCompiled>,
    key: u64,
    shape: SpecShape,
) -> Map<u64, SpecCompiled> {
    if m.contains_key(key) {
        m
    } else {
        m.insert(key, spec_compile(spec_generate(shape)))
    }
}

impl SchemaCache {
    /// The cache contents: which validator each key is bound to.
    pub closed spec fn model(self) -> Map<u64, SpecCompiled> {
        self.entries@.map_values(|cv: CompiledValidator| view_compiled(cv))
    }

    /// An empty cache.
    pub fn new() -> (c: SchemaCache)
        ensures
            c.model() == Map::<u64, SpecCompiled>::empty(),
    {
        let c = SchemaCache { entries: HashMap::new() };
        proof {
            assert(c.model() =~= Map::<u64, SpecCompiled>::empty());
        }
        c
    }

    /// Resolves the compiled validator for `key` — generating and compiling
    /// the document from `shape` on the first miss, reusing the stored
    /// artifact ever after — and applies it to `value`, reporting every
    /// violation in traversal order.
    pub fn validate(&mut self, key: u64, shape: &TypeShape, value: &JsonValue) -> (r: Vec<
        Violation,
    >)
        ensures
            final(self).model() == spec_cache_after(old(self).model(), key, view_shape(*shape)),
            views_of(r@) == spec_apply(
                spec_cached_validator(old(self).model(), key, view_shape(*shape)),
                view_value(*value),
            ),
    {
        if !self.entries.contains_key(&key) {
            let doc = generate(shape);
            let cv = compile(doc);
            self.entries.insert(key, cv);
            proof {
                assert(self.model() =~= old(self).model().insert(
                    key,
                    spec_compile(spec_generate(view_shape(*shape))),
                ));
            }
        } else {
            proof {
                assert(self.model() =~= old(self).model());
            }
        }
        match self.entries.get(&key) {
            Some(cv) => cv.apply(value),
            None => {
                proof {
                    assert(false);
                }
                Vec::new()
            },
        }
    }

    /// Whether the validator stored for `key` is the degraded permissive
    /// fallback: the recorded diagnostic that its document did not compile.
    /// Yields nothing when the key has no entry yet.
    pub fn is_degraded(&self, key: u64) -> (r: Option<bool>)
        ensures
            match r {
                Some(b) => self.model().contains_key(key) && b == (self.model()[key]
                    is Permissive),
                None => !self.model().contains_key(key),
            },
    {
        match self.entries.get(&key) {
            Some(cv) => Some(cv.is_permissive()),
            None => None,
        }
    }
}

/// Cache correctness: for one type key and shape, concurrent first-time
/// lookups resolve behaviorally equivalent validators, whichever caller
/// builds first. Two caches that both lack the key resolve the same
/// validator, a cache populated by the winner hands every later reader that
/// same validator, and applying it reports the same violations for every
/// value.
pub proof fn lemma_first_build_agreement(
    m1: Map<u64, SpecCompiled>,
    m2: Map<u64, SpecCompiled>,
    key: u64,
    shape: SpecShape,
    v: SpecValue,
)
    requires
        !m1.contains_key(key),
        !m2.contains_key(key),
    ensures
        spec_cached_validator(m1, key, shape) == spec_cached_validator(m2, key, shape),
        spec_cached_validator(
            m1.insert(key, spec_compile(spec_generate(shape))),
            key,
            shape,
        ) == spec_cached_validator(m2, key, shape),
        spec_apply(spec_cached_validator(m1, key, shape), v) == spec_apply(
            spec_cached_validator(m2, key, shape),
            v,
        ),
{
}

/// Determinism: validating the same value against the same type key and
/// shape a second time reports identical violation records, whether the
/// second lookup finds the entry the first one built or the key was
/// already bound.
pub proof fn lemma_validate_deterministic(
    m: Map<u64, SpecCompiled>,
    key: u64,
    shape: SpecShape,
    v: SpecValue,
)
    ensures
        spec_cached_validator(spec_cache_after(m, key, shape), key, shape) == spec_cached_validator(
            m,
            key,
            shape,
        ),
        spec_apply(spec_cached_validator(spec_cache_after(m, key, shape), key, shape), v)
            == spec_apply(spec_cached_validator(m, key, shape), v),
{
}

} // verus!
