//! Ready-made target types: a plain named record, one with a declared
//! business rule, and one whose declared shape derives a malformed
//! document, exercising the degraded-permissive path.

use vstd::prelude::*;
use vstd::string::StrSliceExecFns;
use vstd::string::StringExecFns;

use crate::pipeline::SchemaDeserialize;
use crate::pipeline::SchemaSerialize;
use crate::report::SpecViolation;
use crate::report::Violation;
use crate::report::views_of;
use crate::schema::FieldShape;
use crate::schema::SpecField;
use crate::schema::SpecShape;
use crate::schema::TypeShape;
use crate::schema::lemma_view_field_shapes_index;
use crate::schema::lemma_view_field_shapes_len;
use crate::schema::view_field_shapes;
use crate::schema::view_shape;
use crate::value::JsonValue;
use crate::value::ObjectField;
use crate::value::SpecValue;
use crate::value::find_key;
use crate::value::lemma_view_fields_index;
use crate::value::lemma_view_fields_len;
use crate::value::spec_has_key;
use crate::value::spec_lookup;
use crate::value::view_fields;
use crate::value::view_value;

verus! {

/// A record with one required string field.
pub struct Request {
    pub name: String,
}

impl DeepView for Request {
    type V = Seq<char>;

    open spec fn deep_view(&self) -> Seq<char> {
        self.name@
    }
}

/// The shape of a record with a single required string field named `name`.
pub open spec fn spec_named_record_shape() -> SpecShape {
    SpecShape::Struct(seq![SpecField { name: "name"@, shape: SpecShape::Str, required: true }])
}

fn named_record_shape() -> (s: TypeShape)
    ensures
        view_shape(s) == spec_named_record_shape(),
{
    let mut fields: Vec<FieldShape> = Vec::new();
    fields.push(FieldShape { name: "name".to_owned(), shape: TypeShape::Str, required: true });
    proof {
        lemma_view_field_shapes_len(fields@);
        lemma_view_field_shapes_index(fields@, 0);
        assert(view_field_shapes(fields@) =~= seq![
            SpecField { name: "name"@, shape: SpecShape::Str, required: true },
        ]);
    }
    TypeShape::Struct(fields)
}

/// The string bound to `name`, when the value is an object that binds
/// `name` to a string.
pub open spec fn spec_name_of(v: SpecValue) -> Option<Seq<char>> {
    match v {
        SpecValue::Object(fields) => if spec_has_key(fields, "name"@) {
            match spec_lookup(fields, "name"@) {
                SpecValue::Str(s) => Some(s),
                _ => None,
            }
        } else {
            None
        },
        _ => None,
    }
}

fn name_of(value: &JsonValue) -> (r: Result<String, String>)
    ensures
        match r {
            Ok(s) => spec_name_of(view_value(*value)) == Some(s@),
            Err(_) => spec_name_of(view_value(*value)) is None,
        },
{
    match value {
        JsonValue::Object(fields) => {
            let key: String = "name".to_owned();
            match find_key(fields, &key) {
                Some(i) => {
                    proof {
                        lemma_view_fields_index(fields@, i as int);
                        assert(spec_has_key(view_fields(fields@), "name"@));
                    }
                    match &fields[i].value {
                        JsonValue::Str(s) => Ok(s.clone()),
                        _ => Err("the value bound to \"name\" is not a string".to_owned()),
                    }
                },
                None => Err("the object does not bind \"name\"".to_owned()),
            }
        },
        _ => Err("the value is not an object".to_owned()),
    }
}

impl SchemaDeserialize for Request {
    open spec fn spec_key() -> u64 {
        1
    }

    open spec fn spec_shape() -> SpecShape {
        spec_named_record_shape()
    }

    open spec fn spec_from_value(v: SpecValue) -> Option<Seq<char>> {
        spec_name_of(v)
    }

    open spec fn spec_rules(t: Seq<char>) -> Seq<SpecViolation> {
        Seq::empty()
    }

    fn type_key() -> u64 {
        1
    }

    fn shape() -> TypeShape {
        named_record_shape()
    }

    fn from_value(value: &JsonValue) -> (r: Result<Self, String>) {
        match name_of(value) {
            Ok(name) => Ok(Request { name }),
            Err(description) => Err(description),
        }
    }

    fn check_rules(&self) -> (r: Vec<Violation>) {
        let r: Vec<Violation> = Vec::new();
        proof {
            assert(views_of(r@) =~= Seq::<SpecViolation>::empty());
        }
        r
    }
}

impl SchemaSerialize for Request {
    open spec fn spec_to_value(&self) -> SpecValue {
        SpecValue::Object(seq![("name"@, SpecValue::Str(self.name@))])
    }

    fn to_value(&self) -> (v: JsonValue) {
        let mut fields: Vec<ObjectField> = Vec::new();
        fields.push(ObjectField { key: "name".to_owned(), value: JsonValue::Str(self.name.clone()) });
        proof {
            lemma_view_fields_len(fields@);
            lemma_view_fields_index(fields@, 0);
            assert(view_fields(fields@) =~= seq![("name"@, SpecValue::Str(self.name@))]);
        }
        JsonValue::Object(fields)
    }
}

/// A record with one required string field that declares a business rule:
/// the name must be at most 5 characters long.
pub struct BoundedRequest {
    pub name: String,
}

impl DeepView for BoundedRequest {
    type V = Seq<char>;

    open spec fn deep_view(&self) -> Seq<char> {
        self.name@
    }
}

/// The rule report of a bounded record: one record at `name` when the name
/// is longer than 5 characters, nothing otherwise.
pub open spec fn spec_bounded_rules(name: Seq<char>) -> Seq<SpecViolation> {
    if name.len() > 5 {
        seq![
            SpecViolation {
                message: "\""@ + name + "\" is longer than 5 characters"@,
                instance_location: "/name"@,
                keyword_location: "/properties/name/maxLength"@,
            },
        ]
    } else {
        Seq::empty()
    }
}

impl SchemaDeserialize for BoundedRequest {
    open spec fn spec_key() -> u64 {
        2
    }

    open spec fn spec_shape() -> SpecShape {
        spec_named_record_shape()
    }

    open spec fn spec_from_value(v: SpecValue) -> Option<Seq<char>> {
        spec_name_of(v)
    }

    open spec fn spec_rules(t: Seq<char>) -> Seq<SpecViolation> {
        spec_bounded_rules(t)
    }

    fn type_key() -> u64 {
        2
    }

    fn shape() -> TypeShape {
        named_record_shape()
    }

    fn from_value(value: &JsonValue) -> (r: Result<Self, String>) {
        match name_of(value) {
            Ok(name) => Ok(BoundedRequest { name }),
            Err(description) => Err(description),
        }
    }

    fn check_rules(&self) -> (r: Vec<Violation>) {
        let mut r: Vec<Violation> = Vec::new();
        if self.name.as_str().unicode_len() > 5 {
            let mut message = String::new();
            message.append("\"");
            message.append(self.name.as_str());
            message.append("\" is longer than 5 characters");
            r.push(
                Violation {
                    message,
                    instance_location: "/name".to_owned(),
                    keyword_location: "/properties/name/maxLength".to_owned(),
                },
            );
            proof {
                assert(message@ =~= "\""@ + self.name@ + "\" is longer than 5 characters"@);
                assert(views_of(r@) =~= spec_bounded_rules(self.deep_view()));
            }
        } else {
            proof {
                assert(views_of(r@) =~= Seq::<SpecViolation>::empty());
            }
        }
        r
    }
}

impl SchemaSerialize for BoundedRequest {
    open spec fn spec_to_value(&self) -> SpecValue {
        SpecValue::Object(seq![("name"@, SpecValue::Str(self.name@))])
    }

    fn to_value(&self) -> (v: JsonValue) {
        let mut fields: Vec<ObjectField> = Vec::new();
        fields.push(ObjectField { key: "name".to_owned(), value: JsonValue::Str(self.name.clone()) });
        proof {
            lemma_view_fields_len(fields@);
            lemma_view_fields_index(fields@, 0);
            assert(view_fields(fields@) =~= seq![("name"@, SpecValue::Str(self.name@))]);
        }
        JsonValue::Object(fields)
    }
}

/// A record whose declared shape names the same property twice, so the
/// derived document is malformed and compiles to the permissive fallback:
/// structural validation then accepts every value and materialization has
/// to carry the weight alone.
pub struct DegradedRequest {
    pub flag: bool,
}

impl DeepView for DegradedRequest {
    type V = bool;

    open spec fn deep_view(&self) -> bool {
        self.flag
    }
}

/// The flag bound to `flag`, when the value is an object that binds `flag`
/// to a boolean.
pub open spec fn spec_flag_of(v: SpecValue) -> Option<bool> {
    match v {
        SpecValue::Object(fields) => if spec_has_key(fields, "flag"@) {
            match spec_lookup(fields, "flag"@) {
                SpecValue::Bool(b) => Some(b),
                _ => None,
            }
        } else {
            None
        },
        _ => None,
    }
}

impl SchemaDeserialize for DegradedRequest {
    open spec fn spec_key() -> u64 {
        3
    }

    open spec fn spec_shape() -> SpecShape {
        SpecShape::Struct(
            seq![
                SpecField { name: "flag"@, shape: SpecShape::Bool, required: true },
                SpecField { name: "flag"@, shape: SpecShape::Int, required: true },
            ],
        )
    }

    open spec fn spec_from_value(v: SpecValue) -> Option<bool> {
        spec_flag_of(v)
    }

    open spec fn spec_rules(t: bool) -> Seq<SpecViolation> {
        Seq::empty()
    }

    fn type_key() -> u64 {
        3
    }

    fn shape() -> TypeShape {
        let mut fields: Vec<FieldShape> = Vec::new();
        fields.push(FieldShape { name: "flag".to_owned(), shape: TypeShape::Bool, required: true });
        fields.push(FieldShape { name: "flag".to_owned(), shape: TypeShape::Int, required: true });
        proof {
            lemma_view_field_shapes_len(fields@);
            lemma_view_field_shapes_index(fields@, 0);
            lemma_view_field_shapes_index(fields@, 1);
            assert(view_field_shapes(fields@) =~= seq![
                SpecField { name: "flag"@, shape: SpecShape::Bool, required: true },
                SpecField { name: "flag"@, shape: SpecShape::Int, required: true },
            ]);
        }
        TypeShape::Struct(fields)
    }

    fn from_value(value: &JsonValue) -> (r: Result<Self, String>) {
        match value {
            JsonValue::Object(fields) => {
                let key: String = "flag".to_owned();
                match find_key(fields, &key) {
                    Some(i) => {
                        proof {
                            lemma_view_fields_index(fields@, i as int);
                            assert(spec_has_key(view_fields(fields@), "flag"@));
                        }
                        match &fields[i].value {
                            JsonValue::Bool(b) => Ok(DegradedRequest { flag: *b }),
                            _ => Err("the value bound to \"flag\" is not a boolean".to_owned()),
                        }
                    },
                    None => Err("the object does not bind \"flag\"".to_owned()),
                }
            },
            _ => Err("the value is not an object".to_owned()),
        }
    }

    fn check_rules(&self) -> (r: Vec<Violation>) {
        let r: Vec<Violation> = Vec::new();
        proof {
            assert(views_of(r@) =~= Seq::<SpecViolation>::empty());
        }
        r
    }
}


/// The named-record shape is well formed, so its document always compiles
/// strictly: validation of these records never runs degraded.
pub proof fn lemma_named_record_never_degrades()
    ensures
        crate::compile::spec_compile(
            crate::schema::spec_generate(spec_named_record_shape()),
        ) is Strict,
{
    let fields = seq![SpecField { name: "name"@, shape: SpecShape::Str, required: true }];
    assert(fields.drop_first().len() == 0);
    assert(crate::schema::wf_field_list(fields.drop_first()));
    assert(fields.first() == SpecField { name: "name"@, shape: SpecShape::Str, required: true });
    assert(crate::schema::spec_shape_wf(SpecShape::Str));
    assert(crate::schema::wf_field_list(fields));
    assert(crate::schema::spec_shape_wf(spec_named_record_shape()));
    crate::schema::lemma_generate_wf(spec_named_record_shape());
}

} // verus!
