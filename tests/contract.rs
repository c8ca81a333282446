use data_contract_creator::compile::{compile, derive_required};
use data_contract_creator::import::{import, ImportError};
use data_contract_creator::model::{
    default_additional_properties, DataType, DocumentType, Index, IndexProperties, Property,
};
use data_contract_creator::validate::{extract_basic_error_messages, format_violation, Violation};

fn property(name: &str, data_type: DataType, required: bool) -> Property {
    let mut p = default_additional_properties(data_type);
    p.name = name.to_string();
    p.required = required;
    p
}

fn document(name: &str, properties: Vec<Property>) -> DocumentType {
    let mut d = DocumentType::default();
    d.name = name.to_string();
    d.properties = properties;
    d
}

const NOTE: &str = "{\"note\":{\"type\":\"object\",\"properties\":{\"body\":{\"type\":\"string\"}},\"required\":[\"body\"],\"additionalProperties\":false}}";

#[test]
fn note_with_required_body_compiles_to_canonical_text() {
    let docs = vec![document("note", vec![property("body", DataType::String, true)])];
    assert_eq!(compile(&docs), NOTE);
}

#[test]
fn importing_note_gives_required_string_body() {
    let docs = import(NOTE).unwrap();
    assert_eq!(docs.len(), 1);
    assert_eq!(docs[0].name, "note");
    assert_eq!(docs[0].properties.len(), 1);
    let body = &docs[0].properties[0];
    assert_eq!(body.name, "body");
    assert_eq!(body.data_type, DataType::String);
    assert!(body.required);
    assert_eq!(docs[0].required, vec!["body".to_string()]);
}

#[test]
fn unique_index_round_trips() {
    let mut d = document("note", vec![property("body", DataType::String, true)]);
    d.indices.push(Index {
        name: "byBody".to_string(),
        properties: vec![IndexProperties("body".to_string(), "asc".to_string())],
        unique: true,
    });
    let text = compile(&vec![d]);
    assert!(text.contains("\"indices\":[{\"name\":\"byBody\",\"properties\":[{\"body\":\"asc\"}],\"unique\":true}]"));
    let back = import(&text).unwrap();
    let ix = &back[0].indices[0];
    assert_eq!(ix.name, "byBody");
    assert!(ix.unique);
    assert_eq!(ix.properties[0].0, "body");
    assert_eq!(ix.properties[0].1, "asc");
}

#[test]
fn non_unique_index_omits_unique_and_keeps_direction() {
    let mut d = document("note", vec![property("body", DataType::String, false)]);
    d.indices.push(Index {
        name: "byBody".to_string(),
        properties: vec![IndexProperties("body".to_string(), "desc".to_string())],
        unique: false,
    });
    let text = compile(&vec![d]);
    assert!(text.contains("{\"name\":\"byBody\",\"properties\":[{\"body\":\"desc\"}]}"));
    let back = import(&text).unwrap();
    assert!(!back[0].indices[0].unique);
    assert_eq!(back[0].indices[0].properties[0].1, "desc");
}

#[test]
fn zero_min_length_compiles_like_unset() {
    let mut zero = property("body", DataType::String, false);
    zero.min_length = Some(0);
    let unset = property("body", DataType::String, false);
    let a = compile(&vec![document("note", vec![zero])]);
    let b = compile(&vec![document("note", vec![unset])]);
    assert_eq!(a, b);
    assert!(!a.contains("minLength"));
}

#[test]
fn compiling_twice_gives_identical_text() {
    let mut p = property("count", DataType::Integer, true);
    p.minimum = Some(1);
    p.maximum = Some(10);
    let docs = vec![document("tally", vec![p, property("label", DataType::String, false)])];
    assert_eq!(compile(&docs), compile(&docs));
}

#[test]
fn required_array_lists_exactly_required_properties() {
    let docs = vec![document(
        "item",
        vec![
            property("a", DataType::String, true),
            property("b", DataType::Integer, false),
            property("c", DataType::Boolean, true),
        ],
    )];
    let text = compile(&docs);
    assert!(text.contains("\"required\":[\"a\",\"c\"]"));
    let names = derive_required(&docs[0].properties);
    assert_eq!(names, vec!["a".to_string(), "c".to_string()]);
}

#[test]
fn no_required_property_omits_required_array() {
    let docs = vec![document("item", vec![property("a", DataType::String, false)])];
    assert!(!compile(&docs).contains("required"));
}

#[test]
fn constraints_compile_in_canonical_order() {
    let mut s = property("title", DataType::String, false);
    s.description = Some("a title".to_string());
    s.min_length = Some(1);
    s.max_length = Some(63);
    s.pattern = Some("^[a-z]+$".to_string());
    s.format = Some("email".to_string());
    s.comment = Some("note".to_string());
    let mut n = property("score", DataType::Integer, false);
    n.minimum = Some(-5);
    n.maximum = Some(5);
    let mut a = property("blob", DataType::Array, false);
    a.byte_array = Some(false);
    a.min_items = Some(2);
    a.max_items = Some(4);
    let text = compile(&vec![document("rec", vec![s, n, a])]);
    assert_eq!(
        text,
        "{\"rec\":{\"type\":\"object\",\"properties\":{\
         \"title\":{\"type\":\"string\",\"description\":\"a title\",\"minLength\":1,\"maxLength\":63,\"pattern\":\"^[a-z]+$\",\"format\":\"email\",\"$comment\":\"note\"},\
         \"score\":{\"type\":\"integer\",\"minimum\":-5,\"maximum\":5},\
         \"blob\":{\"type\":\"array\",\"byteArray\":false,\"minItems\":2,\"maxItems\":4}},\
         \"additionalProperties\":false}}"
    );
}

#[test]
fn nested_object_compiles_recursively() {
    let mut inner = property("inner", DataType::Object, true);
    inner.properties = Some(vec![property("leaf", DataType::Boolean, true)]);
    let mut outer = property("outer", DataType::Object, false);
    outer.properties = Some(vec![inner, property("tag", DataType::String, false)]);
    outer.min_properties = Some(1);
    let mut d = document("tree", vec![outer]);
    d.comment = String::from("nested");
    let text = compile(&vec![d]);
    assert_eq!(
        text,
        "{\"tree\":{\"type\":\"object\",\"properties\":{\"outer\":{\"type\":\"object\",\"properties\":{\
         \"inner\":{\"type\":\"object\",\"properties\":{\"leaf\":{\"type\":\"boolean\"}},\"required\":[\"leaf\"],\"additionalProperties\":false},\
         \"tag\":{\"type\":\"string\"}},\"minProperties\":1,\"required\":[\"inner\"],\"additionalProperties\":false}},\
         \"additionalProperties\":false,\"$comment\":\"nested\"}}"
    );
}

#[test]
fn nested_object_round_trips() {
    let mut inner = property("leaf", DataType::Number, true);
    inner.description = Some("a leaf".to_string());
    let mut outer = property("outer", DataType::Object, true);
    outer.properties = Some(vec![inner]);
    let text = compile(&vec![document("tree", vec![outer])]);
    let back = import(&text).unwrap();
    let o = &back[0].properties[0];
    assert_eq!(o.data_type, DataType::Object);
    assert!(o.required);
    let kids = o.properties.as_ref().unwrap();
    assert_eq!(kids[0].name, "leaf");
    assert_eq!(kids[0].data_type, DataType::Number);
    assert!(kids[0].required);
    assert_eq!(kids[0].description.as_deref(), Some("a leaf"));
    assert_eq!(o.rec_required, Some(vec!["leaf".to_string()]));
    assert_eq!(compile(&back), text);
}

#[test]
fn import_reads_constraints() {
    let text = "{\"t\":{\"properties\":{\"n\":{\"type\":\"integer\",\"minimum\":-3,\"maximum\":7},\
                \"s\":{\"type\":\"string\",\"minLength\":2,\"pattern\":\"x\"},\
                \"a\":{\"type\":\"array\",\"byteArray\":true,\"maxItems\":9}},\"$comment\":\"c\"}}";
    let docs = import(text).unwrap();
    let ps = &docs[0].properties;
    assert_eq!(ps[0].minimum, Some(-3));
    assert_eq!(ps[0].maximum, Some(7));
    assert_eq!(ps[1].min_length, Some(2));
    assert_eq!(ps[1].pattern.as_deref(), Some("x"));
    assert_eq!(ps[2].byte_array, Some(true));
    assert_eq!(ps[2].max_items, Some(9));
    assert!(!ps[0].required);
    assert_eq!(docs[0].comment, "c");
}

#[test]
fn import_keeps_document_order_and_replaces_model() {
    let docs = import("{\"b\":{\"type\":\"object\",\"properties\":{}},\"a\":{\"type\":\"object\",\"properties\":{}}}").unwrap();
    assert_eq!(docs.len(), 2);
    assert_eq!(docs[0].name, "b");
    assert_eq!(docs[1].name, "a");
}

#[test]
fn malformed_text_is_an_error() {
    assert!(matches!(import("{not json"), Err(ImportError::Malformed)));
    assert!(matches!(import("[1, 2]"), Err(ImportError::Malformed)));
}

#[test]
fn unknown_type_is_an_error_with_path() {
    let text = "{\"note\":{\"properties\":{\"body\":{\"type\":\"text\"}}}}";
    match import(text) {
        Err(ImportError::UnknownType(path)) => {
            assert_eq!(path, vec!["note".to_string(), "body".to_string()]);
        }
        _ => panic!("expected an unknown type"),
    }
}

#[test]
fn unknown_nested_type_names_the_full_path() {
    let text = "{\"d\":{\"properties\":{\"o\":{\"type\":\"object\",\"properties\":{\"x\":{\"type\":7}}}}}}";
    match import(text) {
        Err(ImportError::UnknownType(path)) => {
            assert_eq!(path, vec!["d".to_string(), "o".to_string(), "x".to_string()]);
        }
        _ => panic!("expected an unknown type"),
    }
}

#[test]
fn identical_messages_are_reported_once() {
    let v = Violation::Schema {
        category: "JsonSchemaError".to_string(),
        summary: "pattern is invalid".to_string(),
        instance_path: "/note/properties/body".to_string(),
    };
    let msgs = extract_basic_error_messages(&vec![v.clone(), v, Violation::Other("other".to_string())]);
    assert_eq!(
        msgs,
        vec![
            "JsonSchemaError: pattern is invalid, Path: /note/properties/body".to_string(),
            "other".to_string()
        ]
    );
}

#[test]
fn no_findings_means_passed() {
    assert!(extract_basic_error_messages(&vec![]).is_empty());
}

#[test]
fn schema_finding_is_formatted_with_category_and_path() {
    let v = Violation::Schema {
        category: "JsonSchemaError".to_string(),
        summary: "s".to_string(),
        instance_path: "/p".to_string(),
    };
    assert_eq!(format_violation(&v), "JsonSchemaError: s, Path: /p");
}

#[test]
fn extreme_bounds_round_trip() {
    let mut s = property("s", DataType::String, false);
    s.max_length = Some(u32::MAX);
    let mut n = property("n", DataType::Integer, false);
    n.minimum = Some(i32::MIN);
    n.maximum = Some(i32::MAX);
    let text = compile(&vec![document("edge", vec![s, n])]);
    assert!(text.contains("\"maxLength\":4294967295"));
    assert!(text.contains("\"minimum\":-2147483648"));
    let back = import(&text).unwrap();
    assert_eq!(back[0].properties[0].max_length, Some(u32::MAX));
    assert_eq!(back[0].properties[1].minimum, Some(i32::MIN));
    assert_eq!(back[0].properties[1].maximum, Some(i32::MAX));
}

#[test]
fn out_of_range_numbers_import_as_unset() {
    let docs = import(
        "{\"d\":{\"properties\":{\"s\":{\"type\":\"string\",\"minLength\":4294967297,\"maxLength\":-1},\
         \"n\":{\"type\":\"integer\",\"minimum\":-2147483649,\"maximum\":2147483648}}}}",
    )
    .unwrap();
    assert_eq!(docs[0].properties[0].min_length, None);
    assert_eq!(docs[0].properties[0].max_length, None);
    assert_eq!(docs[0].properties[1].minimum, None);
    assert_eq!(docs[0].properties[1].maximum, None);
}

#[test]
fn index_direction_comes_from_the_last_entry_only() {
    let docs = import(
        "{\"d\":{\"properties\":{},\"indices\":[{\"name\":\"i\",\"properties\":[{\"a\":\"desc\",\"b\":5},{\"c\":\"desc\"}]}]}}",
    )
    .unwrap();
    let pairs = &docs[0].indices[0].properties;
    assert_eq!(pairs[0].0, "b");
    assert_eq!(pairs[0].1, "asc");
    assert_eq!(pairs[1].0, "c");
    assert_eq!(pairs[1].1, "desc");
}

#[test]
fn empty_contract_compiles_to_empty_object() {
    assert_eq!(compile(&vec![]), "{}");
    assert!(import("{}").unwrap().is_empty());
}
