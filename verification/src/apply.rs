//! Applying a validator to a runtime value.
//!
//! Application walks the schema document and the value together and collects
//! every violation in one pass, in traversal order: there is no early exit
//! after the first violation. The result is a function of the document and
//! the value alone.

use vstd::prelude::*;
use vstd::string::StringExecFns;

use crate::compile::CompiledValidator;
use crate::compile::SpecCompiled;
use crate::compile::view_compiled;
use crate::render::render_value;
use crate::render::spec_render;
use crate::report::SpecViolation;
use crate::report::Violation;
use crate::report::views_of;
use crate::schema::Schema;
use crate::schema::SchemaProperty;
use crate::schema::SpecSchema;
use crate::schema::lemma_view_props_index;
use crate::schema::lemma_view_props_len;
use crate::schema::view_names;
use crate::schema::view_props;
use crate::schema::view_schema;
use crate::text::append_u64;
use crate::text::pointer_step;
use crate::text::spec_pointer_step;
use crate::text::spec_udec;
use crate::value::JsonValue;
use crate::value::ObjectField;
use crate::value::SpecValue;
use crate::value::find_key;
use crate::value::lemma_view_fields_index;
use crate::value::lemma_view_list_index;
use crate::value::lemma_view_list_len;
use crate::value::spec_has_key;
use crate::value::spec_lookup;
use crate::value::view_fields;
use crate::value::view_list;
use crate::value::view_value;

verus! {

broadcast use vstd::seq::axiom_seq_index_decreases, vstd::seq::axiom_seq_subrange_decreases, vstd::std_specs::vec::group_vec_axioms;

/// The record for a value that does not have the type a document demands.
pub open spec fn spec_type_violation(
    v: SpecValue,
    tyname: Seq<char>,
    ipath: Seq<char>,
    kpath: Seq<char>,
) -> SpecViolation {
    SpecViolation {
        message: spec_render(v) + " is not of type \""@ + tyname + "\""@,
        instance_location: ipath,
        keyword_location: kpath + "/type"@,
    }
}

/// The record for a required property that an object value does not bind.
pub open spec fn spec_required_record(
    name: Seq<char>,
    ipath: Seq<char>,
    kpath: Seq<char>,
) -> SpecViolation {
    SpecViolation {
        message: "\""@ + name + "\" is a required property"@,
        instance_location: ipath,
        keyword_location: kpath + "/required"@,
    }
}

/// Every violation of `doc` by `v`, in traversal order, with locations
/// rooted at the given instance and keyword pointers.
pub open spec fn spec_violations(
    doc: SpecSchema,
    v: SpecValue,
    ipath: Seq<char>,
    kpath: Seq<char>,
) -> Seq<SpecViolation>
    decreases doc, 0nat,
{
    match doc {
        SpecSchema::Any => Seq::empty(),
        SpecSchema::Null => if v is Null {
            Seq::empty()
        } else {
            seq![spec_type_violation(v, "null"@, ipath, kpath)]
        },
        SpecSchema::Bool => if v is Bool {
            Seq::empty()
        } else {
            seq![spec_type_violation(v, "boolean"@, ipath, kpath)]
        },
        SpecSchema::Int => if v is Int {
            Seq::empty()
        } else {
            seq![spec_type_violation(v, "integer"@, ipath, kpath)]
        },
        SpecSchema::Str => if v is Str {
            Seq::empty()
        } else {
            seq![spec_type_violation(v, "string"@, ipath, kpath)]
        },
        SpecSchema::Array(item) => match v {
            SpecValue::Array(elems) => spec_items_violations(*item, elems, 0, ipath, kpath),
            _ => seq![spec_type_violation(v, "array"@, ipath, kpath)],
        },
        SpecSchema::Object { properties, required } => match v {
            SpecValue::Object(fields) => spec_required_violations(required, 0, fields, ipath, kpath)
                + spec_props_violations(properties, 0, fields, ipath, kpath),
            _ => seq![spec_type_violation(v, "object"@, ipath, kpath)],
        },
    }
}

/// Violations of the array items from position `i` on: each element is held
/// to the item document, at its index in the instance pointer and under
/// `items` in the keyword pointer.
pub open spec fn spec_items_violations(
    item: SpecSchema,
    elems: Seq<SpecValue>,
    i: int,
    ipath: Seq<char>,
    kpath: Seq<char>,
) -> Seq<SpecViolation>
    decreases item, elems.len() - i,
{
    if i < 0 || i >= elems.len() {
        Seq::empty()
    } else {
        spec_violations(item, elems[i], ipath + "/"@ + spec_udec(i as nat), kpath + "/items"@)
            + spec_items_violations(item, elems, i + 1, ipath, kpath)
    }
}

/// Violations of the required names from position `i` on: one record per
/// required name the object does not bind, in list order.
pub open spec fn spec_required_violations(
    required: Seq<Seq<char>>,
    i: int,
    fields: Seq<(Seq<char>, SpecValue)>,
    ipath: Seq<char>,
    kpath: Seq<char>,
) -> Seq<SpecViolation>
    decreases required, required.len() - i,
{
    if i < 0 || i >= required.len() {
        Seq::empty()
    } else {
        let rest = spec_required_violations(required, i + 1, fields, ipath, kpath);
        if spec_has_key(fields, required[i]) {
            rest
        } else {
            seq![spec_required_record(required[i], ipath, kpath)] + rest
        }
    }
}

/// Violations of the properties from position `i` on: each bound property
/// value is held to its property document; an unbound property contributes
/// nothing here.
pub open spec fn spec_props_violations(
    properties: Seq<(Seq<char>, SpecSchema)>,
    i: int,
    fields: Seq<(Seq<char>, SpecValue)>,
    ipath: Seq<char>,
    kpath: Seq<char>,
) -> Seq<SpecViolation>
    decreases properties, properties.len() - i,
{
    if i < 0 || i >= properties.len() {
        Seq::empty()
    } else {
        let here = if spec_has_key(fields, properties[i].0) {
            spec_violations(
                properties[i].1,
                spec_lookup(fields, properties[i].0),
                spec_pointer_step(ipath, properties[i].0),
                spec_pointer_step(kpath + "/properties"@, properties[i].0),
            )
        } else {
            Seq::empty()
        };
        here + spec_props_violations(properties, i + 1, fields, ipath, kpath)
    }
}

/// What applying a compiled validator reports: nothing for the permissive
/// fallback, the document's violations otherwise.
pub open spec fn spec_apply(cv: SpecCompiled, v: SpecValue) -> Seq<SpecViolation> {
    match cv {
        SpecCompiled::Permissive => Seq::empty(),
        SpecCompiled::Strict(doc) => spec_violations(doc, v, Seq::empty(), Seq::empty()),
    }
}

fn push_type_violation(
    out: &mut Vec<Violation>,
    value: &JsonValue,
    tyname: &str,
    ipath: &str,
    kpath: &str,
)
    ensures
        views_of(final(out)@) == views_of(old(out)@) + seq![
            spec_type_violation(view_value(*value), tyname@, ipath@, kpath@),
        ],
{
    let mut message = render_value(value);
    message.append(" is not of type \"");
    message.append(tyname);
    message.append("\"");
    let mut keyword = kpath.to_owned();
    keyword.append("/type");
    out.push(
        Violation { message, instance_location: ipath.to_owned(), keyword_location: keyword },
    );
    proof {
        assert(message@ =~= spec_render(view_value(*value)) + " is not of type \""@ + tyname@
            + "\""@);
        assert(views_of(out@) =~= views_of(old(out)@) + seq![
            spec_type_violation(view_value(*value), tyname@, ipath@, kpath@),
        ]);
    }
}

/// Appends every violation of `doc` by `value` to `out`, in traversal
/// order.
pub fn apply_schema(
    doc: &Schema,
    value: &JsonValue,
    ipath: &str,
    kpath: &str,
    out: &mut Vec<Violation>,
)
    ensures
        views_of(final(out)@) == views_of(old(out)@) + spec_violations(
            view_schema(*doc),
            view_value(*value),
            ipath@,
            kpath@,
        ),
    decreases *doc, 0nat,
{
    match doc {
        Schema::Any => {
            proof {
                assert(views_of(out@) =~= views_of(out@) + Seq::<SpecViolation>::empty());
            }
        },
        Schema::Null => {
            match value {
                JsonValue::Null => {
                    proof {
                        assert(views_of(out@) =~= views_of(out@) + Seq::<SpecViolation>::empty());
                    }
                },
                _ => {
                    push_type_violation(out, value, "null", ipath, kpath);
                },
            }
        },
        Schema::Bool => {
            match value {
                JsonValue::Bool(_) => {
                    proof {
                        assert(views_of(out@) =~= views_of(out@) + Seq::<SpecViolation>::empty());
                    }
                },
                _ => {
                    push_type_violation(out, value, "boolean", ipath, kpath);
                },
            }
        },
        Schema::Int => {
            match value {
                JsonValue::Int(_) => {
                    proof {
                        assert(views_of(out@) =~= views_of(out@) + Seq::<SpecViolation>::empty());
                    }
                },
                _ => {
                    push_type_violation(out, value, "integer", ipath, kpath);
                },
            }
        },
        Schema::Str => {
            match value {
                JsonValue::Str(_) => {
                    proof {
                        assert(views_of(out@) =~= views_of(out@) + Seq::<SpecViolation>::empty());
                    }
                },
                _ => {
                    push_type_violation(out, value, "string", ipath, kpath);
                },
            }
        },
        Schema::Array(item) => {
            match value {
                JsonValue::Array(elems) => {
                    proof {
                        assert(decreases_to!(*doc => doc->Array_0));
                    }
                    apply_items(item, elems, 0, ipath, kpath, out);
                },
                _ => {
                    push_type_violation(out, value, "array", ipath, kpath);
                },
            }
        },
        Schema::Object { properties, required } => {
            match value {
                JsonValue::Object(fields) => {
                    proof {
                        assert(decreases_to!(*doc => doc->Object_properties));
                        assert(decreases_to!(doc->Object_properties => doc->Object_properties@));
                    }
                    let ghost views_before = views_of(out@);
                    apply_required(required, 0, fields, ipath, kpath, out);
                    apply_props(properties, 0, fields, ipath, kpath, out);
                    proof {
                        assert(views_of(out@) =~= views_before + (spec_required_violations(
                            view_names(required@),
                            0,
                            view_fields(fields@),
                            ipath@,
                            kpath@,
                        ) + spec_props_violations(
                            view_props(properties@),
                            0,
                            view_fields(fields@),
                            ipath@,
                            kpath@,
                        )));
                    }
                },
                _ => {
                    push_type_violation(out, value, "object", ipath, kpath);
                },
            }
        },
    }
}

fn apply_items(
    item: &Schema,
    elems: &Vec<JsonValue>,
    i: usize,
    ipath: &str,
    kpath: &str,
    out: &mut Vec<Violation>,
)
    ensures
        views_of(final(out)@) == views_of(old(out)@) + spec_items_violations(
            view_schema(*item),
            view_list(elems@),
            i as int,
            ipath@,
            kpath@,
        ),
    decreases *item, elems@.len() - i,
{
    proof {
        lemma_view_list_len(elems@);
    }
    if i >= elems.len() {
        proof {
            assert(views_of(out@) =~= views_of(out@) + Seq::<SpecViolation>::empty());
        }
        return ;
    }
    let mut child_ip = ipath.to_owned();
    child_ip.append("/");
    append_u64(&mut child_ip, i as u64);
    let mut child_kp = kpath.to_owned();
    child_kp.append("/items");
    proof {
        lemma_view_list_index(elems@, i as int);
    }
    let ghost views_before = views_of(out@);
    apply_schema(item, &elems[i], child_ip.as_str(), child_kp.as_str(), out);
    apply_items(item, elems, i + 1, ipath, kpath, out);
    proof {
        assert(views_of(out@) =~= views_before + spec_items_violations(
            view_schema(*item),
            view_list(elems@),
            i as int,
            ipath@,
            kpath@,
        ));
    }
}

fn apply_required(
    required: &Vec<String>,
    i: usize,
    fields: &Vec<ObjectField>,
    ipath: &str,
    kpath: &str,
    out: &mut Vec<Violation>,
)
    ensures
        views_of(final(out)@) == views_of(old(out)@) + spec_required_violations(
            view_names(required@),
            i as int,
            view_fields(fields@),
            ipath@,
            kpath@,
        ),
    decreases required@, required@.len() - i,
{
    if i >= required.len() {
        proof {
            assert(views_of(out@) =~= views_of(out@) + Seq::<SpecViolation>::empty());
        }
        return ;
    }
    let ghost views_before = views_of(out@);
    proof {
        assert(view_names(required@)[i as int] == required@[i as int]@);
    }
    match find_key(fields, &required[i]) {
        Some(idx) => {
            proof {
                lemma_view_fields_index(fields@, idx as int);
                assert(spec_has_key(view_fields(fields@), required@[i as int]@));
            }
        },
        None => {
            let mut message = String::new();
            message.append("\"");
            message.append(required[i].as_str());
            message.append("\" is a required property");
            let mut keyword = kpath.to_owned();
            keyword.append("/required");
            out.push(
                Violation {
                    message,
                    instance_location: ipath.to_owned(),
                    keyword_location: keyword,
                },
            );
            proof {
                assert(message@ =~= "\""@ + required@[i as int]@ + "\" is a required property"@);
                assert(keyword@ =~= kpath@ + "/required"@);
                assert(views_of(out@) =~= views_before + seq![
                    spec_required_record(required@[i as int]@, ipath@, kpath@),
                ]);
            }
        },
    }
    apply_required(required, i + 1, fields, ipath, kpath, out);
    proof {
        assert(views_of(out@) =~= views_before + spec_required_violations(
            view_names(required@),
            i as int,
            view_fields(fields@),
            ipath@,
            kpath@,
        ));
    }
}

fn apply_props(
    properties: &Vec<SchemaProperty>,
    i: usize,
    fields: &Vec<ObjectField>,
    ipath: &str,
    kpath: &str,
    out: &mut Vec<Violation>,
)
    ensures
        views_of(final(out)@) == views_of(old(out)@) + spec_props_violations(
            view_props(properties@),
            i as int,
            view_fields(fields@),
            ipath@,
            kpath@,
        ),
    decreases properties@, properties@.len() - i,
{
    proof {
        lemma_view_props_len(properties@);
    }
    if i >= properties.len() {
        proof {
            assert(views_of(out@) =~= views_of(out@) + Seq::<SpecViolation>::empty());
        }
        return ;
    }
    let ghost views_before = views_of(out@);
    proof {
        lemma_view_props_index(properties@, i as int);
    }
    match find_key(fields, &properties[i].name) {
        Some(idx) => {
            proof {
                lemma_view_fields_index(fields@, idx as int);
                assert(spec_has_key(view_fields(fields@), properties@[i as int].name@));
            }
            let child_ip = pointer_step(ipath, properties[i].name.as_str());
            let mut kp = kpath.to_owned();
            kp.append("/properties");
            let child_kp = pointer_step(kp.as_str(), properties[i].name.as_str());
            proof {
                assert(decreases_to!(properties@ => properties@[i as int]));
                assert(decreases_to!(properties@[i as int] => properties@[i as int].schema));
            }
            apply_schema(
                &properties[i].schema,
                &fields[idx].value,
                child_ip.as_str(),
                child_kp.as_str(),
                out,
            );
        },
        None => {
        },
    }
    apply_props(properties, i + 1, fields, ipath, kpath, out);
    proof {
        assert(views_of(out@) =~= views_before + spec_props_violations(
            view_props(properties@),
            i as int,
            view_fields(fields@),
            ipath@,
            kpath@,
        ));
    }
}

impl CompiledValidator {
    /// Applies this validator to a value and reports every violation, in
    /// traversal order. The report is a function of the validator and the
    /// value alone: applying twice yields identical records.
    pub fn apply(&self, value: &JsonValue) -> (r: Vec<Violation>)
        ensures
            views_of(r@) == spec_apply(view_compiled(*self), view_value(*value)),
    {
        match self {
            CompiledValidator::Permissive => {
                let r: Vec<Violation> = Vec::new();
                proof {
                    assert(views_of(r@) =~= Seq::<SpecViolation>::empty());
                }
                r
            },
            CompiledValidator::Strict(doc) => {
                let mut out: Vec<Violation> = Vec::new();
                let ip = String::new();
                let kp = String::new();
                apply_schema(doc, value, ip.as_str(), kp.as_str(), &mut out);
                proof {
                    assert(views_of(out@) =~= spec_apply(view_compiled(*self), view_value(*value)));
                }
                out
            },
        }
    }
}

proof fn lemma_contains_concat_left(a: Seq<SpecViolation>, b: Seq<SpecViolation>, x: SpecViolation)
    requires
        a.contains(x),
    ensures
        (a + b).contains(x),
{
    let i = choose|i: int| 0 <= i < a.len() && a[i] == x;
    assert((a + b)[i] == x);
}

proof fn lemma_contains_concat_right(a: Seq<SpecViolation>, b: Seq<SpecViolation>, x: SpecViolation)
    requires
        b.contains(x),
    ensures
        (a + b).contains(x),
{
    let i = choose|i: int| 0 <= i < b.len() && b[i] == x;
    assert((a + b)[a.len() + i] == x);
}

proof fn lemma_required_contains(
    required: Seq<Seq<char>>,
    i: int,
    fields: Seq<(Seq<char>, SpecValue)>,
    ipath: Seq<char>,
    kpath: Seq<char>,
    name: Seq<char>,
)
    requires
        0 <= i <= required.len(),
        exists|j: int| i <= j < required.len() && required[j] == name,
        !spec_has_key(fields, name),
    ensures
        spec_required_violations(required, i, fields, ipath, kpath).contains(
            spec_required_record(name, ipath, kpath),
        ),
    decreases required.len() - i,
{
    let j = choose|j: int| i <= j < required.len() && required[j] == name;
    let rest = spec_required_violations(required, i + 1, fields, ipath, kpath);
    if j == i {
        assert(required[i] == name);
        assert(!spec_has_key(fields, required[i]));
        let full = seq![spec_required_record(name, ipath, kpath)] + rest;
        assert(full[0] == spec_required_record(name, ipath, kpath));
        assert(full.contains(spec_required_record(name, ipath, kpath)));
    } else {
        assert(i + 1 <= j < required.len() && required[j] == name);
        lemma_required_contains(required, i + 1, fields, ipath, kpath, name);
        if spec_has_key(fields, required[i]) {
        } else {
            lemma_contains_concat_right(
                seq![spec_required_record(required[i], ipath, kpath)],
                rest,
                spec_required_record(name, ipath, kpath),
            );
        }
    }
}

/// Completeness of reporting: when two distinct required properties are
/// both absent from an object value, the one report carries a record for
/// each of them; neither hides the other.
pub proof fn lemma_required_reporting_complete(
    properties: Seq<(Seq<char>, SpecSchema)>,
    required: Seq<Seq<char>>,
    fields: Seq<(Seq<char>, SpecValue)>,
    ipath: Seq<char>,
    kpath: Seq<char>,
    r1: Seq<char>,
    r2: Seq<char>,
)
    requires
        required.contains(r1),
        required.contains(r2),
        r1 != r2,
        !spec_has_key(fields, r1),
        !spec_has_key(fields, r2),
    ensures
        spec_violations(
            SpecSchema::Object { properties, required },
            SpecValue::Object(fields),
            ipath,
            kpath,
        ).contains(spec_required_record(r1, ipath, kpath)),
        spec_violations(
            SpecSchema::Object { properties, required },
            SpecValue::Object(fields),
            ipath,
            kpath,
        ).contains(spec_required_record(r2, ipath, kpath)),
{
    let req = spec_required_violations(required, 0, fields, ipath, kpath);
    let props = spec_props_violations(properties, 0, fields, ipath, kpath);
    lemma_required_contains(required, 0, fields, ipath, kpath, r1);
    lemma_required_contains(required, 0, fields, ipath, kpath, r2);
    lemma_contains_concat_left(req, props, spec_required_record(r1, ipath, kpath));
    lemma_contains_concat_left(req, props, spec_required_record(r2, ipath, kpath));
}

} // verus!
