use data_contract_creator::model::{default_additional_properties, DataType, DocumentType, Property};
use data_contract_creator::sync::{generate_json_object, sync_required};

fn property(name: &str, data_type: DataType, required: bool) -> Property {
    let mut p = default_additional_properties(data_type);
    p.name = name.to_string();
    p.required = required;
    p
}

#[test]
fn new_document_type_holds_one_default_property() {
    let d = DocumentType::with_default_property();
    assert_eq!(d.name, "");
    assert_eq!(d.properties.len(), 1);
    assert_eq!(d.properties[0].data_type, DataType::String);
    assert!(!d.properties[0].required);
    assert!(d.indices.is_empty());
    assert!(d.required.is_empty());
}

#[test]
fn removing_a_property_drops_it_from_required() {
    let mut d = DocumentType::default();
    d.properties = vec![property("a", DataType::String, true), property("b", DataType::String, true)];
    d.required = vec!["a".to_string(), "b".to_string()];
    d.remove_property(0);
    assert_eq!(d.properties.len(), 1);
    assert_eq!(d.properties[0].name, "b");
    assert_eq!(d.required, vec!["b".to_string()]);
}

#[test]
fn switching_type_resets_constraints() {
    let mut p = property("body", DataType::String, true);
    p.min_length = Some(3);
    p.pattern = Some("x".to_string());
    p.description = Some("kept".to_string());
    p.set_data_type(DataType::Integer);
    assert_eq!(p.data_type, DataType::Integer);
    assert_eq!(p.min_length, None);
    assert_eq!(p.pattern, None);
    assert_eq!(p.description.as_deref(), Some("kept"));
    assert!(p.required);
}

#[test]
fn added_index_has_one_ascending_pair() {
    let mut d = DocumentType::default();
    d.add_index();
    assert_eq!(d.indices.len(), 1);
    assert!(!d.indices[0].unique);
    assert_eq!(d.indices[0].properties.len(), 1);
    assert_eq!(d.indices[0].properties[0].0, "");
    assert_eq!(d.indices[0].properties[0].1, "asc");
}

#[test]
fn compiling_syncs_required_lists_and_repeats_identically() {
    let mut inner = property("obj", DataType::Object, false);
    inner.properties = Some(vec![property("x", DataType::String, true), property("y", DataType::String, false)]);
    let mut d = DocumentType::default();
    d.name = "doc".to_string();
    d.properties = vec![property("a", DataType::String, false), inner, property("c", DataType::Integer, true)];
    d.required = vec!["a".to_string(), "stale".to_string()];
    let mut docs = vec![d];
    let first = generate_json_object(&mut docs);
    assert_eq!(docs[0].required, vec!["c".to_string()]);
    assert_eq!(docs[0].properties[1].rec_required, Some(vec!["x".to_string()]));
    let second = generate_json_object(&mut docs);
    assert_eq!(first, second);
    assert!(first.contains("\"required\":[\"c\"]"));
}

#[test]
fn sync_sets_empty_list_for_object_without_children() {
    let mut d = DocumentType::default();
    d.properties = vec![property("o", DataType::Object, false)];
    let mut docs = vec![d];
    sync_required(&mut docs);
    assert_eq!(docs[0].properties[0].rec_required, Some(vec![]));
    assert!(docs[0].required.is_empty());
}

#[test]
fn nested_property_is_added_and_removed() {
    let mut p = property("obj", DataType::Object, false);
    assert!(p.properties.is_none());
    p.add_nested_property();
    p.add_nested_property();
    let kids = p.properties.as_ref().unwrap();
    assert_eq!(kids.len(), 2);
    assert_eq!(kids[0].data_type, DataType::String);
    assert_eq!(kids[0].rec_required, Some(vec![]));
    p.properties.as_mut().unwrap()[1].name = "second".to_string();
    p.remove_nested_property(0);
    let kids = p.properties.as_ref().unwrap();
    assert_eq!(kids.len(), 1);
    assert_eq!(kids[0].name, "second");
}

#[test]
fn removing_nested_property_without_list_changes_nothing() {
    let mut p = property("s", DataType::String, false);
    p.remove_nested_property(3);
    assert!(p.properties.is_none());
}

#[test]
fn switching_an_object_away_drops_its_children() {
    let mut p = property("obj", DataType::Object, false);
    p.add_nested_property();
    p.rec_required = Some(vec!["x".to_string()]);
    p.min_properties = Some(1);
    p.set_data_type(DataType::String);
    assert_eq!(p.data_type, DataType::String);
    assert!(p.properties.is_none());
    assert!(p.rec_required.is_none());
    assert_eq!(p.min_properties, None);
}

#[test]
fn switching_to_object_keeps_children() {
    let mut p = property("obj", DataType::Object, false);
    p.add_nested_property();
    p.set_data_type(DataType::Object);
    assert_eq!(p.properties.as_ref().unwrap().len(), 1);
}
