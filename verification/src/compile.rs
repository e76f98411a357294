//! Compiling a schema document into a validator artifact.
//!
//! A malformed document must never take the validation path down: it
//! compiles to the trivially permissive validator instead, and the caller
//! records a diagnostic. This trades strict validation for availability
//! when the bug is in schema derivation itself.

use vstd::prelude::*;

use crate::schema::Schema;
use crate::schema::SpecSchema;
use crate::schema::schema_wf;
use crate::schema::spec_schema_wf;
use crate::schema::view_schema;

verus! {

/// An executable validator artifact, derived one-to-one from a schema
/// document.
pub enum CompiledValidator {
    /// Enforces the embedded well-formed document.
    Strict(Schema),
    /// Accepts every value; the degraded fallback for a document that did
    /// not compile.
    Permissive,
}

/// Mathematical model of a compiled validator.
pub enum SpecCompiled {
    Strict(SpecSchema),
    Permissive,
}

pub open spec fn view_compiled(cv: CompiledValidator) -> SpecCompiled {
    match cv {
        CompiledValidator::Strict(doc) => SpecCompiled::Strict(view_schema(doc)),
        CompiledValidator::Permissive => SpecCompiled::Permissive,
    }
}

/// What compilation yields for a document: the document itself when it is
/// well formed, the permissive fallback otherwise.
pub open spec fn spec_compile(doc: SpecSchema) -> SpecCompiled {
    if spec_schema_wf(doc) {
        SpecCompiled::Strict(doc)
    } else {
        SpecCompiled::Permissive
    }
}

/// Compiles a schema document into a validator. Never fails: a malformed
/// document yields the permissive fallback.
pub fn compile(doc: Schema) -> (r: CompiledValidator)
    ensures
        view_compiled(r) == spec_compile(view_schema(doc)),
{
    if schema_wf(&doc) {
        CompiledValidator::Strict(doc)
    } else {
        CompiledValidator::Permissive
    }
}

impl CompiledValidator {
    /// Whether this validator is the degraded permissive fallback.
    pub fn is_permissive(&self) -> (b: bool)
        ensures
            b == (view_compiled(*self) is Permissive),
    {
        match self {
            CompiledValidator::Permissive => true,
            CompiledValidator::Strict(_) => false,
        }
    }
}

} // verus!
