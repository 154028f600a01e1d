use dynamic_crud::registry::SchemaRegistry;
use dynamic_crud::store::RecordStore;
use dynamic_crud::validation::{compile_failure_errors, decide_validity, validate_payload};

fn v(s: &str) -> serde_json::Value {
    serde_json::from_str(s).unwrap()
}

#[test]
fn validate_payload_accepts_conforming_instance() {
    let schema = v(r#"{"type": "object", "required": ["name"]}"#);
    let instance = v(r#"{"name": "Jane"}"#);
    assert!(validate_payload(&schema, &instance).is_ok());
}

#[test]
fn validate_payload_collects_each_failure() {
    let schema = v(
        r#"{
            "type": "object",
            "properties": {
                "name": { "type": "string" },
                "age": { "type": "integer" }
            },
            "required": ["name", "age"]
        }"#,
    );
    let instance = v(r#"{"name": 5}"#);
    let errors = validate_payload(&schema, &instance).unwrap_err();
    assert!(errors.len() >= 2);
    assert!(errors.iter().any(|e| e.contains("age")));
}

#[test]
fn validate_payload_reports_uncompilable_schema_once() {
    let schema = v(r#"{"type": 123}"#);
    let errors = validate_payload(&schema, &v("{}")).unwrap_err();
    assert_eq!(errors.len(), 1);
}

#[test]
fn decide_validity_accepts_exactly_the_empty_list() {
    assert!(decide_validity(Vec::new()).is_ok());
    let reasons = vec!["missing required property".to_string(), "wrong type".to_string()];
    assert_eq!(decide_validity(reasons.clone()).unwrap_err(), reasons);
}

#[test]
fn compile_failure_is_one_entry_carrying_the_report() {
    let errors = compile_failure_errors("not a valid schema document".to_string());
    assert_eq!(errors, vec!["not a valid schema document".to_string()]);
}

#[test]
fn external_references_fail_to_compile_instead_of_fetching() {
    // Reference resolution is compiled out, so a schema reaching outside its
    // own document is a compile failure reported to the caller, never a
    // network or file access.
    let schema = v(r#"{"$ref": "https://example.com/task.json"}"#);
    let errors = validate_payload(&schema, &v("{}")).unwrap_err();
    assert_eq!(errors.len(), 1);
}

#[test]
fn registry_lookup_sees_the_latest_registration() {
    let mut registry = SchemaRegistry::new();
    let name = "Task".to_string();
    assert!(registry.lookup(&name).is_none());

    registry.register(name.clone(), v(r#"{"type": "object"}"#));
    assert_eq!(registry.lookup(&name).unwrap(), &v(r#"{"type": "object"}"#));

    registry.register(name.clone(), v(r#"{"type": "array"}"#));
    assert_eq!(registry.lookup(&name).unwrap(), &v(r#"{"type": "array"}"#));

    let other = "Other".to_string();
    assert!(registry.lookup(&other).is_none());
}

#[test]
fn store_keeps_models_apart() {
    let mut store = RecordStore::new();
    let model_a = "A".to_string();
    let model_b = "B".to_string();
    let id = "shared-id".to_string();

    store.insert(model_a.clone(), id.clone(), v("1"));
    store.insert(model_b.clone(), id.clone(), v("2"));
    assert_eq!(store.get(&model_a, &id).unwrap(), &v("1"));
    assert_eq!(store.get(&model_b, &id).unwrap(), &v("2"));

    assert!(store.remove(&model_a, &id));
    assert!(store.get(&model_a, &id).is_none());
    assert_eq!(store.get(&model_b, &id).unwrap(), &v("2"));
}

#[test]
fn store_update_replaces_only_existing_records() {
    let mut store = RecordStore::new();
    let model = "M".to_string();
    let id = "one".to_string();
    let missing = "two".to_string();

    store.insert(model.clone(), id.clone(), v(r#"{"n": 1}"#));
    assert!(store.update(&model, &id, v(r#"{"n": 2}"#)));
    assert_eq!(store.get(&model, &id).unwrap(), &v(r#"{"n": 2}"#));

    assert!(!store.update(&model, &missing, v(r#"{"n": 3}"#)));
    assert!(store.get(&model, &missing).is_none());
}

#[test]
fn store_insert_overwrites_same_key() {
    let mut store = RecordStore::new();
    let model = "M".to_string();
    let id = "one".to_string();

    store.insert(model.clone(), id.clone(), v("true"));
    store.insert(model.clone(), id.clone(), v("false"));
    assert_eq!(store.get(&model, &id).unwrap(), &v("false"));

    assert!(store.remove(&model, &id));
    assert!(!store.remove(&model, &id));
}
