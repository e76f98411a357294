//! Type shapes, schema documents and the schema generator.
//!
//! A type shape describes the structure of a target type. The generator
//! derives from it a declarative schema document with every nested
//! definition inlined, deterministically: the same shape always yields the
//! same document.

use vstd::prelude::*;

verus! {

broadcast use vstd::seq::axiom_seq_index_decreases, vstd::seq::axiom_seq_subrange_decreases, vstd::std_specs::vec::group_vec_axioms;

/// The structure of a target type, as handed to schema generation.
pub enum TypeShape {
    Bool,
    Int,
    Str,
    Array(Box<TypeShape>),
    Struct(Vec<FieldShape>),
}

/// One declared field of a struct shape.
pub struct FieldShape {
    pub name: String,
    pub shape: TypeShape,
    pub required: bool,
}

/// Mathematical model of a type shape.
pub enum SpecShape {
    Bool,
    Int,
    Str,
    Array(Box<SpecShape>),
    Struct(Seq<SpecField>),
}

/// Mathematical model of one declared field.
pub struct SpecField {
    pub name: Seq<char>,
    pub shape: SpecShape,
    pub required: bool,
}

pub open spec fn view_shape(s: TypeShape) -> SpecShape
    decreases s,
{
    match s {
        TypeShape::Bool => SpecShape::Bool,
        TypeShape::Int => SpecShape::Int,
        TypeShape::Str => SpecShape::Str,
        TypeShape::Array(t) => SpecShape::Array(Box::new(view_shape(*t))),
        TypeShape::Struct(fields) => SpecShape::Struct(view_field_shapes(fields@)),
    }
}

pub open spec fn view_field_shapes(fields: Seq<FieldShape>) -> Seq<SpecField>
    decreases fields,
{
    if fields.len() == 0 {
        Seq::empty()
    } else {
        seq![
            SpecField {
                name: fields.first().name@,
                shape: view_shape(fields.first().shape),
                required: fields.first().required,
            },
        ] + view_field_shapes(fields.drop_first())
    }
}

pub broadcast proof fn lemma_view_field_shapes_len(fields: Seq<FieldShape>)
    ensures
        #[trigger] view_field_shapes(fields).len() == fields.len(),
    decreases fields,
{
    if fields.len() > 0 {
        lemma_view_field_shapes_len(fields.drop_first());
    }
}

pub broadcast proof fn lemma_view_field_shapes_index(fields: Seq<FieldShape>, i: int)
    requires
        0 <= i < fields.len(),
    ensures
        view_field_shapes(fields).len() == fields.len(),
        #[trigger] view_field_shapes(fields)[i] == (SpecField {
            name: fields[i].name@,
            shape: view_shape(fields[i].shape),
            required: fields[i].required,
        }),
    decreases fields,
{
    lemma_view_field_shapes_len(fields);
    if i > 0 {
        lemma_view_field_shapes_index(fields.drop_first(), i - 1);
    }
}

/// A declarative schema document: the expected shape of a runtime value.
///
/// `Any` is the trivially permissive document that accepts every value; the
/// pipeline substitutes it when compilation of a derived document fails.
pub enum Schema {
    Any,
    Null,
    Bool,
    Int,
    Str,
    Array(Box<Schema>),
    Object { properties: Vec<SchemaProperty>, required: Vec<String> },
}

/// One named property of an object document.
pub struct SchemaProperty {
    pub name: String,
    pub schema: Schema,
}

/// Mathematical model of a schema document.
pub enum SpecSchema {
    Any,
    Null,
    Bool,
    Int,
    Str,
    Array(Box<SpecSchema>),
    Object { properties: Seq<(Seq<char>, SpecSchema)>, required: Seq<Seq<char>> },
}

pub open spec fn view_schema(s: Schema) -> SpecSchema
    decreases s,
{
    match s {
        Schema::Any => SpecSchema::Any,
        Schema::Null => SpecSchema::Null,
        Schema::Bool => SpecSchema::Bool,
        Schema::Int => SpecSchema::Int,
        Schema::Str => SpecSchema::Str,
        Schema::Array(t) => SpecSchema::Array(Box::new(view_schema(*t))),
        Schema::Object { properties, required } => SpecSchema::Object {
            properties: view_props(properties@),
            required: view_names(required@),
        },
    }
}

pub open spec fn view_props(props: Seq<SchemaProperty>) -> Seq<(Seq<char>, SpecSchema)>
    decreases props,
{
    if props.len() == 0 {
        Seq::empty()
    } else {
        seq![(props.first().name@, view_schema(props.first().schema))] + view_props(
            props.drop_first(),
        )
    }
}

/// The views of a sequence of strings.
pub open spec fn view_names(names: Seq<String>) -> Seq<Seq<char>> {
    Seq::new(names.len(), |i: int| names[i]@)
}

pub broadcast proof fn lemma_view_props_len(props: Seq<SchemaProperty>)
    ensures
        #[trigger] view_props(props).len() == props.len(),
    decreases props,
{
    if props.len() > 0 {
        lemma_view_props_len(props.drop_first());
    }
}

pub broadcast proof fn lemma_view_props_index(props: Seq<SchemaProperty>, i: int)
    requires
        0 <= i < props.len(),
    ensures
        view_props(props).len() == props.len(),
        #[trigger] view_props(props)[i] == (props[i].name@, view_schema(props[i].schema)),
    decreases props,
{
    lemma_view_props_len(props);
    if i > 0 {
        lemma_view_props_index(props.drop_first(), i - 1);
    }
}

proof fn lemma_view_props_snoc(props: Seq<SchemaProperty>, p: SchemaProperty)
    ensures
        view_props(props.push(p)) == view_props(props).push((p.name@, view_schema(p.schema))),
    decreases props,
{
    if props.len() == 0 {
        assert(props.push(p).drop_first() =~= Seq::<SchemaProperty>::empty());
        assert(props.push(p).first() == p);
        assert(view_props(Seq::<SchemaProperty>::empty()) =~= Seq::<(
            Seq<char>,
            SpecSchema,
        )>::empty());
        assert(view_props(props.push(p)) =~= view_props(props).push(
            (p.name@, view_schema(p.schema)),
        ));
    } else {
        assert(props.push(p).len() > 0);
        assert(props.push(p).first() == props.first());
        assert(props.push(p).drop_first() =~= props.drop_first().push(p));
        lemma_view_props_snoc(props.drop_first(), p);
        assert(view_props(props.push(p)) =~= view_props(props).push(
            (p.name@, view_schema(p.schema)),
        ));
    }
}

/// The properties of the document generated from the first `n` fields of a
/// struct shape: one property per field, in declaration order.
pub open spec fn spec_gen_props_upto(fields: Seq<SpecField>, n: int) -> Seq<(Seq<char>, SpecSchema)>
    decreases fields, n,
{
    if n <= 0 || n > fields.len() {
        Seq::empty()
    } else {
        spec_gen_props_upto(fields, n - 1).push(
            (fields[n - 1].name, spec_generate(fields[n - 1].shape)),
        )
    }
}

/// The required names of the document generated from the first `n` fields:
/// the names of the required fields, in declaration order.
pub open spec fn spec_gen_required_upto(fields: Seq<SpecField>, n: int) -> Seq<Seq<char>>
    decreases n,
{
    if n <= 0 || n > fields.len() {
        Seq::empty()
    } else if fields[n - 1].required {
        spec_gen_required_upto(fields, n - 1).push(fields[n - 1].name)
    } else {
        spec_gen_required_upto(fields, n - 1)
    }
}

/// The schema document derived from a type shape. Deterministic: a function
/// of the shape alone.
pub open spec fn spec_generate(s: SpecShape) -> SpecSchema
    decreases s, 0nat,
{
    match s {
        SpecShape::Bool => SpecSchema::Bool,
        SpecShape::Int => SpecSchema::Int,
        SpecShape::Str => SpecSchema::Str,
        SpecShape::Array(t) => SpecSchema::Array(Box::new(spec_generate(*t))),
        SpecShape::Struct(fields) => SpecSchema::Object {
            properties: spec_gen_props_upto(fields, fields.len() as int),
            required: spec_gen_required_upto(fields, fields.len() as int),
        },
    }
}

/// Derives the schema document for a type shape.
#[verifier::loop_isolation(false)]
pub fn generate(shape: &TypeShape) -> (doc: Schema)
    ensures
        view_schema(doc) == spec_generate(view_shape(*shape)),
    decreases *shape,
{
    match shape {
        TypeShape::Bool => Schema::Bool,
        TypeShape::Int => Schema::Int,
        TypeShape::Str => Schema::Str,
        TypeShape::Array(t) => {
            proof {
                assert(decreases_to!(*shape => shape->Array_0));
            }
            let inner = generate(t);
            Schema::Array(Box::new(inner))
        },
        TypeShape::Struct(fields) => {
            let ghost vfields = view_field_shapes(fields@);
            let mut properties: Vec<SchemaProperty> = Vec::new();
            let mut required: Vec<String> = Vec::new();
            let mut i: usize = 0;
            proof {
                lemma_view_field_shapes_len(fields@);
                assert(view_props(properties@) =~= spec_gen_props_upto(vfields, 0));
                assert(view_names(required@) =~= spec_gen_required_upto(vfields, 0));
            }
            while i < fields.len()
                invariant
                    i <= fields@.len(),
                    view_props(properties@) == spec_gen_props_upto(vfields, i as int),
                    view_names(required@) == spec_gen_required_upto(vfields, i as int),
                decreases fields@.len() - i,
            {
                proof {
                    assert(decreases_to!(*shape => shape->Struct_0));
                    assert(decreases_to!(shape->Struct_0 => shape->Struct_0@));
                    assert(decreases_to!(shape->Struct_0@ => shape->Struct_0@[i as int]));
                    assert(decreases_to!(shape->Struct_0@[i as int] => shape->Struct_0@[i as int].shape));
                    lemma_view_field_shapes_index(fields@, i as int);
                }
                let sub = generate(&fields[i].shape);
                let name = fields[i].name.clone();
                if fields[i].required {
                    required.push(name.clone());
                }
                let ghost props_before = properties@;
                properties.push(SchemaProperty { name, schema: sub });
                proof {
                    lemma_view_props_snoc(
                        props_before,
                        SchemaProperty { name: fields@[i as int].name, schema: sub },
                    );
                    assert(view_props(properties@) =~= spec_gen_props_upto(vfields, i + 1));
                    assert(view_names(required@) =~= spec_gen_required_upto(vfields, i + 1));
                }
                i = i + 1;
            }
            Schema::Object { properties, required }
        },
    }
}

/// Well-formedness of a schema document: no object document names a
/// property twice. A document that breaks this is malformed and does not
/// compile.
pub open spec fn spec_schema_wf(doc: SpecSchema) -> bool
    decreases doc,
{
    match doc {
        SpecSchema::Array(t) => spec_schema_wf(*t),
        SpecSchema::Object { properties, required } => prop_names_unique(properties) && wf_props(
            properties,
        ),
        _ => true,
    }
}

/// Property names of an object document are pairwise distinct.
pub open spec fn prop_names_unique(props: Seq<(Seq<char>, SpecSchema)>) -> bool {
    forall|i: int, j: int| 0 <= i < j < props.len() ==> props[i].0 != props[j].0
}

pub open spec fn wf_props(props: Seq<(Seq<char>, SpecSchema)>) -> bool
    decreases props,
{
    if props.len() == 0 {
        true
    } else {
        spec_schema_wf(props.first().1) && wf_props(props.drop_first())
    }
}

pub broadcast proof fn lemma_wf_props_index(props: Seq<(Seq<char>, SpecSchema)>, i: int)
    requires
        0 <= i < props.len(),
        wf_props(props),
    ensures
        #[trigger] spec_schema_wf(props[i].1),
    decreases props,
{
    if i > 0 {
        lemma_wf_props_index(props.drop_first(), i - 1);
    }
}

proof fn lemma_wf_props_from_index(props: Seq<(Seq<char>, SpecSchema)>)
    requires
        forall|i: int| 0 <= i < props.len() ==> spec_schema_wf(#[trigger] props[i].1),
    ensures
        wf_props(props),
    decreases props,
{
    if props.len() > 0 {
        assert forall|i: int| 0 <= i < props.drop_first().len() implies spec_schema_wf(
            #[trigger] props.drop_first()[i].1,
        ) by {
            assert(props.drop_first()[i] == props[i + 1]);
        }
        lemma_wf_props_from_index(props.drop_first());
    }
}

/// Whether a schema document is well formed.
#[verifier::loop_isolation(false)]
pub fn schema_wf(doc: &Schema) -> (b: bool)
    ensures
        b == spec_schema_wf(view_schema(*doc)),
    decreases *doc,
{
    match doc {
        Schema::Array(t) => {
            proof {
                assert(decreases_to!(*doc => doc->Array_0));
            }
            schema_wf(t)
        },
        Schema::Object { properties, required } => {
            let mut i: usize = 0;
            while i < properties.len()
                invariant
                    i <= properties@.len(),
                    forall|j: int|
                        0 <= j < i ==> spec_schema_wf(
                            view_schema(#[trigger] properties@[j].schema),
                        ),
                    forall|p: int, q: int|
                        0 <= p < q < properties@.len() && p < i ==> properties@[p].name@
                            != properties@[q].name@,
                decreases properties@.len() - i,
            {
                let mut j: usize = i + 1;
                while j < properties.len()
                    invariant
                        i < j,
                        i < properties@.len(),
                        j <= properties@.len(),
                        forall|q: int|
                            i < q < j ==> properties@[i as int].name@ != properties@[q].name@,
                    decreases properties@.len() - j,
                {
                    if properties[i].name.eq(&properties[j].name) {
                        proof {
                            lemma_view_props_len(properties@);
                            lemma_view_props_index(properties@, i as int);
                            lemma_view_props_index(properties@, j as int);
                        }
                        return false;
                    }
                    j = j + 1;
                }
                proof {
                    assert(decreases_to!(*doc => doc->Object_properties));
                    assert(decreases_to!(doc->Object_properties => doc->Object_properties@));
                    assert(decreases_to!(doc->Object_properties@ => doc->Object_properties@[i as int]));
                    assert(decreases_to!(doc->Object_properties@[i as int] => doc->Object_properties@[i as int].schema));
                }
                if !schema_wf(&properties[i].schema) {
                    proof {
                        lemma_view_props_index(properties@, i as int);
                        if wf_props(view_props(properties@)) {
                            lemma_wf_props_index(view_props(properties@), i as int);
                        }
                    }
                    return false;
                }
                i = i + 1;
            }
            proof {
                lemma_view_props_len(properties@);
                assert forall|j: int| 0 <= j < view_props(properties@).len() implies spec_schema_wf(
                    #[trigger] view_props(properties@)[j].1,
                ) by {
                    lemma_view_props_index(properties@, j);
                }
                lemma_wf_props_from_index(view_props(properties@));
                assert forall|p: int, q: int|
                    0 <= p < q < view_props(properties@).len() implies view_props(
                    properties@,
                )[p].0 != view_props(properties@)[q].0 by {
                    lemma_view_props_index(properties@, p);
                    lemma_view_props_index(properties@, q);
                }
            }
            true
        },
        _ => true,
    }
}


/// Well-formedness of a type shape: no struct declares the same field name
/// twice, at any depth.
pub open spec fn spec_shape_wf(s: SpecShape) -> bool
    decreases s,
{
    match s {
        SpecShape::Array(t) => spec_shape_wf(*t),
        SpecShape::Struct(fields) => field_names_unique(fields) && wf_field_list(fields),
        _ => true,
    }
}

/// Field names of a struct shape are pairwise distinct.
pub open spec fn field_names_unique(fields: Seq<SpecField>) -> bool {
    forall|i: int, j: int| 0 <= i < j < fields.len() ==> fields[i].name != fields[j].name
}

pub open spec fn wf_field_list(fields: Seq<SpecField>) -> bool
    decreases fields,
{
    if fields.len() == 0 {
        true
    } else {
        spec_shape_wf(fields.first().shape) && wf_field_list(fields.drop_first())
    }
}

pub broadcast proof fn lemma_wf_field_list_index(fields: Seq<SpecField>, i: int)
    requires
        0 <= i < fields.len(),
        wf_field_list(fields),
    ensures
        #[trigger] spec_shape_wf(fields[i].shape),
    decreases fields,
{
    if i > 0 {
        lemma_wf_field_list_index(fields.drop_first(), i - 1);
    }
}

proof fn lemma_gen_props_upto_index(fields: Seq<SpecField>, n: int, i: int)
    requires
        0 <= n <= fields.len(),
        0 <= i < n,
    ensures
        spec_gen_props_upto(fields, n).len() == n,
        spec_gen_props_upto(fields, n)[i] == (fields[i].name, spec_generate(fields[i].shape)),
    decreases n,
{
    if n > 0 {
        lemma_gen_props_upto_len(fields, n - 1);
        if i < n - 1 {
            lemma_gen_props_upto_index(fields, n - 1, i);
        }
    }
}

proof fn lemma_gen_props_upto_len(fields: Seq<SpecField>, n: int)
    requires
        0 <= n <= fields.len(),
    ensures
        spec_gen_props_upto(fields, n).len() == n,
    decreases n,
{
    if n > 0 {
        lemma_gen_props_upto_len(fields, n - 1);
    }
}

/// A well-formed shape always derives a well-formed document: generation
/// never hands the compiler a malformed document, so such a type never
/// degrades to the permissive fallback.
pub proof fn lemma_generate_wf(s: SpecShape)
    requires
        spec_shape_wf(s),
    ensures
        spec_schema_wf(spec_generate(s)),
    decreases s,
{
    match s {
        SpecShape::Array(t) => {
            lemma_generate_wf(*t);
        },
        SpecShape::Struct(fields) => {
            let n = fields.len() as int;
            let props = spec_gen_props_upto(fields, n);
            lemma_gen_props_upto_len(fields, n);
            assert forall|i: int, j: int| 0 <= i < j < props.len() implies props[i].0
                != props[j].0 by {
                lemma_gen_props_upto_index(fields, n, i);
                lemma_gen_props_upto_index(fields, n, j);
            }
            assert forall|i: int| 0 <= i < props.len() implies spec_schema_wf(
                #[trigger] props[i].1,
            ) by {
                lemma_gen_props_upto_index(fields, n, i);
                lemma_wf_field_list_index(fields, i);
                lemma_generate_wf(fields[i].shape);
            }
            lemma_wf_props_from_index(props);
        },
        _ => {
        },
    }
}

} // verus!
