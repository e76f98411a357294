use schema_guard::BoundedRequest;
use schema_guard::DegradedRequest;
use schema_guard::FieldShape;
use schema_guard::JsonValue;
use schema_guard::ObjectField;
use schema_guard::Request;
use schema_guard::SchemaCache;
use schema_guard::SchemaSerialize;
use schema_guard::TypeShape;
use schema_guard::ValidationFailure;
use schema_guard::resolve_and_validate;
use schema_guard::render_report;
use schema_guard::value_wf;

fn object(fields: Vec<(&str, JsonValue)>) -> JsonValue {
    JsonValue::Object(
        fields
            .into_iter()
            .map(|(key, value)| ObjectField { key: key.to_string(), value })
            .collect(),
    )
}

fn string(s: &str) -> JsonValue {
    JsonValue::Str(s.to_string())
}

#[test]
fn test_request_ok() {
    let mut cache = SchemaCache::new();
    let value = object(vec![("name", string("taro"))]);
    assert!(value_wf(&value));
    let result: Result<Request, ValidationFailure> = resolve_and_validate(&mut cache, &value);
    match result {
        Ok(request) => assert_eq!(request.name, "taro"),
        Err(_) => panic!("a valid request must produce a typed result"),
    }
}

#[test]
fn lib_test_request_ok() {
    let mut cache = SchemaCache::new();
    let value = object(vec![("name", string("taro"))]);
    let result: Result<BoundedRequest, ValidationFailure> =
        resolve_and_validate(&mut cache, &value);
    match result {
        Ok(request) => assert_eq!(request.name, "taro"),
        Err(_) => panic!("a valid request must produce a typed result"),
    }
}

#[test]
fn test_required_key_err() {
    let mut cache = SchemaCache::new();
    let value = object(vec![]);
    let result: Result<Request, ValidationFailure> = resolve_and_validate(&mut cache, &value);
    match result {
        Err(ValidationFailure::SchemaViolation(records)) => {
            assert_eq!(records.len(), 1);
            assert_eq!(records[0].message, "\"name\" is a required property");
            assert_eq!(records[0].instance_location, "");
            assert_eq!(records[0].keyword_location, "/required");
            assert_eq!(
                render_report(&records),
                "[{\"error\":\"\\\"name\\\" is a required property\",\
                 \"instanceLocation\":\"\",\"keywordLocation\":\"/required\"}]"
            );
        }
        _ => panic!("an empty object must be a schema violation"),
    }
}

#[test]
fn test_wrong_type_err() {
    let mut cache = SchemaCache::new();
    let value = object(vec![("name", JsonValue::Int(0))]);
    let result: Result<Request, ValidationFailure> = resolve_and_validate(&mut cache, &value);
    match result {
        Err(ValidationFailure::SchemaViolation(records)) => {
            assert_eq!(records.len(), 1);
            assert_eq!(records[0].message, "0 is not of type \"string\"");
            assert_eq!(records[0].instance_location, "/name");
            assert_eq!(records[0].keyword_location, "/properties/name/type");
            assert_eq!(
                render_report(&records),
                "[{\"error\":\"0 is not of type \\\"string\\\"\",\
                 \"instanceLocation\":\"/name\",\"keywordLocation\":\"/properties/name/type\"}]"
            );
        }
        _ => panic!("a mistyped property must be a schema violation"),
    }
}

#[test]
fn test_validation_error() {
    let mut cache = SchemaCache::new();
    let value = object(vec![("name", string("kojiro"))]);
    let result: Result<BoundedRequest, ValidationFailure> =
        resolve_and_validate(&mut cache, &value);
    match result {
        Err(ValidationFailure::RuleViolation(records)) => {
            assert_eq!(records.len(), 1);
            assert_eq!(records[0].message, "\"kojiro\" is longer than 5 characters");
            assert_eq!(records[0].instance_location, "/name");
            assert_eq!(records[0].keyword_location, "/properties/name/maxLength");
        }
        _ => panic!("a name longer than five characters must be a rule violation"),
    }
}

#[test]
fn validation_is_deterministic() {
    let mut cache = SchemaCache::new();
    let value = object(vec![("name", JsonValue::Int(0))]);
    let first: Result<Request, ValidationFailure> = resolve_and_validate(&mut cache, &value);
    let second: Result<Request, ValidationFailure> = resolve_and_validate(&mut cache, &value);
    let (a, b) = match (first, second) {
        (
            Err(ValidationFailure::SchemaViolation(a)),
            Err(ValidationFailure::SchemaViolation(b)),
        ) => (a, b),
        _ => panic!("both calls must report a schema violation"),
    };
    assert_eq!(render_report(&a), render_report(&b));
}

#[test]
fn two_caches_agree() {
    let mut first_cache = SchemaCache::new();
    let mut second_cache = SchemaCache::new();
    let value = object(vec![]);
    let first: Result<Request, ValidationFailure> =
        resolve_and_validate(&mut first_cache, &value);
    let second: Result<Request, ValidationFailure> =
        resolve_and_validate(&mut second_cache, &value);
    match (first, second) {
        (
            Err(ValidationFailure::SchemaViolation(a)),
            Err(ValidationFailure::SchemaViolation(b)),
        ) => assert_eq!(render_report(&a), render_report(&b)),
        _ => panic!("both caches must report the same schema violation"),
    }
}

fn two_required_fields_shape() -> TypeShape {
    TypeShape::Struct(vec![
        FieldShape {
            name: "first".to_string(),
            shape: TypeShape::Str,
            required: true,
        },
        FieldShape {
            name: "second".to_string(),
            shape: TypeShape::Int,
            required: true,
        },
    ])
}

#[test]
fn reports_every_missing_required_property() {
    let mut cache = SchemaCache::new();
    let shape = two_required_fields_shape();
    let records = cache.validate(100, &shape, &object(vec![]));
    assert_eq!(records.len(), 2);
    assert_eq!(records[0].message, "\"first\" is a required property");
    assert_eq!(records[1].message, "\"second\" is a required property");
    assert_eq!(records[0].keyword_location, "/required");
    assert_eq!(records[1].keyword_location, "/required");
}

#[test]
fn reports_every_violating_array_item() {
    let mut cache = SchemaCache::new();
    let shape = TypeShape::Array(Box::new(TypeShape::Str));
    let value = JsonValue::Array(vec![JsonValue::Int(7), string("x"), JsonValue::Bool(false)]);
    let records = cache.validate(101, &shape, &value);
    assert_eq!(records.len(), 2);
    assert_eq!(records[0].message, "7 is not of type \"string\"");
    assert_eq!(records[0].instance_location, "/0");
    assert_eq!(records[0].keyword_location, "/items/type");
    assert_eq!(records[1].message, "false is not of type \"string\"");
    assert_eq!(records[1].instance_location, "/2");
    assert_eq!(records[1].keyword_location, "/items/type");
}

#[test]
fn nested_object_locations() {
    let mut cache = SchemaCache::new();
    let shape = TypeShape::Struct(vec![FieldShape {
        name: "user".to_string(),
        shape: TypeShape::Struct(vec![FieldShape {
            name: "name".to_string(),
            shape: TypeShape::Str,
            required: true,
        }]),
        required: true,
    }]);
    let value = object(vec![("user", object(vec![]))]);
    let records = cache.validate(102, &shape, &value);
    assert_eq!(records.len(), 1);
    assert_eq!(records[0].message, "\"name\" is a required property");
    assert_eq!(records[0].instance_location, "/user");
    assert_eq!(records[0].keyword_location, "/properties/user/required");
}

#[test]
fn pointer_tokens_are_escaped() {
    let mut cache = SchemaCache::new();
    let shape = TypeShape::Struct(vec![FieldShape {
        name: "a/b~c".to_string(),
        shape: TypeShape::Int,
        required: true,
    }]);
    let value = object(vec![("a/b~c", string("oops"))]);
    let records = cache.validate(103, &shape, &value);
    assert_eq!(records.len(), 1);
    assert_eq!(records[0].instance_location, "/a~1b~0c");
    assert_eq!(records[0].keyword_location, "/properties/a~1b~0c/type");
}

#[test]
fn renders_offending_values() {
    let mut cache = SchemaCache::new();
    let shape = TypeShape::Array(Box::new(TypeShape::Str));
    let value = JsonValue::Array(vec![
        JsonValue::Null,
        JsonValue::Bool(true),
        JsonValue::Int(-42),
        JsonValue::Int(i64::MIN),
        string("a\"b"),
        JsonValue::Array(vec![JsonValue::Int(1), JsonValue::Int(2)]),
        object(vec![("k", JsonValue::Int(3))]),
    ]);
    let records = cache.validate(104, &shape, &value);
    assert_eq!(records.len(), 6);
    assert_eq!(records[0].message, "null is not of type \"string\"");
    assert_eq!(records[1].message, "true is not of type \"string\"");
    assert_eq!(records[2].message, "-42 is not of type \"string\"");
    assert_eq!(
        records[3].message,
        "-9223372036854775808 is not of type \"string\""
    );
    assert_eq!(records[4].message, "[1,2] is not of type \"string\"");
    assert_eq!(records[5].message, "{\"k\":3} is not of type \"string\"");
}

#[test]
fn degraded_schema_still_validates() {
    let mut cache = SchemaCache::new();
    let empty = object(vec![]);
    let result: Result<DegradedRequest, ValidationFailure> =
        resolve_and_validate(&mut cache, &empty);
    match result {
        Err(ValidationFailure::MalformedInput(_)) => {}
        _ => panic!("the permissive fallback must leave materialization to report the failure"),
    }
    assert_eq!(cache.is_degraded(3), Some(true));
    let good = object(vec![("flag", JsonValue::Bool(true))]);
    let result: Result<DegradedRequest, ValidationFailure> =
        resolve_and_validate(&mut cache, &good);
    match result {
        Ok(request) => assert!(request.flag),
        Err(_) => panic!("a materializable value must produce a typed result"),
    }
}

#[test]
fn healthy_schema_is_not_degraded() {
    let mut cache = SchemaCache::new();
    assert_eq!(cache.is_degraded(1), None);
    let value = object(vec![("name", string("taro"))]);
    let _: Result<Request, ValidationFailure> = resolve_and_validate(&mut cache, &value);
    assert_eq!(cache.is_degraded(1), Some(false));
}

#[test]
fn materialization_failure_is_malformed_input() {
    let mut cache = SchemaCache::new();
    let value = object(vec![("flag", JsonValue::Int(0))]);
    let result: Result<DegradedRequest, ValidationFailure> =
        resolve_and_validate(&mut cache, &value);
    match result {
        Err(ValidationFailure::MalformedInput(description)) => {
            assert_eq!(description, "the value bound to \"flag\" is not a boolean");
        }
        _ => panic!("a value that does not materialize must be malformed input"),
    }
}

#[test]
fn duplicate_keys_are_not_well_formed() {
    let duplicated = object(vec![("k", JsonValue::Int(1)), ("k", JsonValue::Int(2))]);
    assert!(!value_wf(&duplicated));
    let nested = object(vec![(
        "outer",
        object(vec![("k", JsonValue::Int(1)), ("k", JsonValue::Int(2))]),
    )]);
    assert!(!value_wf(&nested));
    let unique = object(vec![("a", JsonValue::Int(1)), ("b", JsonValue::Int(2))]);
    assert!(value_wf(&unique));
}

#[test]
fn serialization_round_trip() {
    let request = Request {
        name: "hanako".to_string(),
    };
    let value = request.to_value();
    let mut cache = SchemaCache::new();
    let back: Result<Request, ValidationFailure> = resolve_and_validate(&mut cache, &value);
    match back {
        Ok(again) => assert_eq!(again.name, "hanako"),
        Err(_) => panic!("a serialized request must validate"),
    }
}

#[test]
fn unknown_keys_are_ignored() {
    let mut cache = SchemaCache::new();
    let value = object(vec![
        ("name", string("taro")),
        ("extra", JsonValue::Int(1)),
    ]);
    let result: Result<Request, ValidationFailure> = resolve_and_validate(&mut cache, &value);
    match result {
        Ok(request) => assert_eq!(request.name, "taro"),
        Err(_) => panic!("unknown keys must not fail validation"),
    }
}

#[test]
fn non_object_root_is_reported_at_the_root() {
    let mut cache = SchemaCache::new();
    let value = JsonValue::Int(5);
    let result: Result<Request, ValidationFailure> = resolve_and_validate(&mut cache, &value);
    match result {
        Err(ValidationFailure::SchemaViolation(records)) => {
            assert_eq!(records.len(), 1);
            assert_eq!(records[0].message, "5 is not of type \"object\"");
            assert_eq!(records[0].instance_location, "");
            assert_eq!(records[0].keyword_location, "/type");
        }
        _ => panic!("a non-object root must be a schema violation"),
    }
}

#[test]
fn failure_render_shapes() {
    let malformed = ValidationFailure::MalformedInput("broken".to_string());
    assert_eq!(malformed.render(), "broken");
    let empty = ValidationFailure::SchemaViolation(Vec::new());
    assert_eq!(empty.render(), "[]");
}

#[test]
fn name_of_exactly_five_characters_passes() {
    let mut cache = SchemaCache::new();
    let value = object(vec![("name", string("gorou"))]);
    let result: Result<BoundedRequest, ValidationFailure> =
        resolve_and_validate(&mut cache, &value);
    match result {
        Ok(request) => assert_eq!(request.name, "gorou"),
        Err(_) => panic!("a five-character name must pass the rule"),
    }
}

#[test]
fn report_escapes_message_contents() {
    let mut cache = SchemaCache::new();
    let shape = TypeShape::Array(Box::new(TypeShape::Int));
    let value = JsonValue::Array(vec![string("a\"b\\c")]);
    let records = cache.validate(105, &shape, &value);
    assert_eq!(records.len(), 1);
    assert_eq!(records[0].message, "\"a\\\"b\\\\c\" is not of type \"integer\"");
    assert_eq!(
        render_report(&records),
        "[{\"error\":\"\\\"a\\\\\\\"b\\\\\\\\c\\\" is not of type \\\"integer\\\"\",\
         \"instanceLocation\":\"/0\",\"keywordLocation\":\"/items/type\"}]"
    );
}

#[test]
fn one_cache_serves_many_types() {
    let mut cache = SchemaCache::new();
    let good = object(vec![("name", string("taro"))]);
    let long = object(vec![("name", string("kojiro"))]);
    let plain: Result<Request, ValidationFailure> = resolve_and_validate(&mut cache, &good);
    assert!(plain.is_ok());
    let bounded: Result<BoundedRequest, ValidationFailure> =
        resolve_and_validate(&mut cache, &long);
    assert!(matches!(bounded, Err(ValidationFailure::RuleViolation(_))));
    assert_eq!(cache.is_degraded(1), Some(false));
    assert_eq!(cache.is_degraded(2), Some(false));
    let plain_again: Result<Request, ValidationFailure> = resolve_and_validate(&mut cache, &good);
    assert!(plain_again.is_ok());
}
