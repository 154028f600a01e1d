use dynamic_crud::service::{CrudError, ModelService};

fn v(s: &str) -> serde_json::Value {
    serde_json::from_str(s).unwrap()
}

fn task_schema() -> serde_json::Value {
    v(r#"{
        "type": "object",
        "properties": {
            "title": { "type": "string" },
            "completed": { "type": "boolean" }
        },
        "required": ["title", "completed"]
    }"#)
}

fn person_schema() -> serde_json::Value {
    v(r#"{
        "type": "object",
        "properties": {
            "name": { "type": "string" },
            "age": { "type": "integer" }
        },
        "required": ["name", "age"]
    }"#)
}

#[test]
fn task_full_lifecycle() {
    let mut svc = ModelService::new();
    svc.upload_schema("Task".to_string(), task_schema());

    let model = "Task".to_string();
    let payload = v(r#"{"title": "Learn", "completed": false}"#);
    let (id, stored) = svc.create_item(&model, payload.clone()).unwrap();
    assert_eq!(stored, payload);

    let read = svc.get_item(&model, &id).unwrap();
    assert_eq!(read, payload);

    let replacement = v(r#"{"title": "Master", "completed": true}"#);
    let updated = svc.update_item(&model, &id, replacement.clone()).unwrap();
    assert_eq!(updated, replacement);
    assert_eq!(svc.get_item(&model, &id).unwrap(), replacement);

    svc.delete_item(&model, &id).unwrap();
    assert!(matches!(svc.get_item(&model, &id), Err(CrudError::NotFound)));
}

#[test]
fn create_on_unregistered_model_is_no_such_model() {
    let mut svc = ModelService::new();
    let model = "Ghost".to_string();
    let r = svc.create_item(&model, v("{}"));
    assert!(matches!(r, Err(CrudError::NoSuchModel)));
}

#[test]
fn update_on_unregistered_model_is_no_such_model() {
    let mut svc = ModelService::new();
    let model = "Ghost".to_string();
    let id = "some-id".to_string();
    let r = svc.update_item(&model, &id, v("{}"));
    assert!(matches!(r, Err(CrudError::NoSuchModel)));
}

#[test]
fn missing_required_property_fails_validation() {
    let mut svc = ModelService::new();
    svc.upload_schema("ValidationModel".to_string(), person_schema());
    let model = "ValidationModel".to_string();
    let r = svc.create_item(&model, v(r#"{"name": "Jane"}"#));
    match r {
        Err(CrudError::ValidationFailed(errors)) => {
            assert!(!errors.is_empty());
            assert!(errors.iter().any(|e| e.contains("age")));
        },
        other => panic!("expected a validation failure, got {:?}", other),
    }
}

#[test]
fn wrong_type_fails_validation() {
    let mut svc = ModelService::new();
    svc.upload_schema("Task".to_string(), task_schema());
    let model = "Task".to_string();
    let r = svc.create_item(&model, v(r#"{"title": "Learn", "completed": "yes"}"#));
    assert!(matches!(r, Err(CrudError::ValidationFailed(ref errors)) if !errors.is_empty()));
}

#[test]
fn malformed_schema_surfaces_as_single_validation_error() {
    let mut svc = ModelService::new();
    svc.upload_schema("Broken".to_string(), v(r#"{"type": 123}"#));
    let model = "Broken".to_string();
    let r = svc.create_item(&model, v(r#"{"anything": true}"#));
    match r {
        Err(CrudError::ValidationFailed(errors)) => assert_eq!(errors.len(), 1),
        _ => panic!("expected the schema compile failure to be reported"),
    }
}

#[test]
fn failed_update_leaves_record_unchanged() {
    let mut svc = ModelService::new();
    svc.upload_schema("Task".to_string(), task_schema());
    let model = "Task".to_string();
    let payload = v(r#"{"title": "Keep", "completed": false}"#);
    let (id, _) = svc.create_item(&model, payload.clone()).unwrap();

    let r = svc.update_item(&model, &id, v(r#"{"title": 7, "completed": false}"#));
    assert!(matches!(r, Err(CrudError::ValidationFailed(_))));
    assert_eq!(svc.get_item(&model, &id).unwrap(), payload);
}

#[test]
fn invalid_payload_on_missing_id_reports_validation_not_absence() {
    let mut svc = ModelService::new();
    svc.upload_schema("Task".to_string(), task_schema());
    let model = "Task".to_string();
    let id = "no-such-id".to_string();
    let r = svc.update_item(&model, &id, v(r#"{"title": 7}"#));
    assert!(matches!(r, Err(CrudError::ValidationFailed(_))));

    let r2 = svc.update_item(&model, &id, v(r#"{"title": "ok", "completed": true}"#));
    assert!(matches!(r2, Err(CrudError::NotFound)));
}

#[test]
fn round_trip_survives_schema_replacement() {
    let mut svc = ModelService::new();
    svc.upload_schema("Task".to_string(), task_schema());
    let model = "Task".to_string();
    let payload = v(r#"{"title": "Early", "completed": false}"#);
    let (id, _) = svc.create_item(&model, payload.clone()).unwrap();

    // Replace the schema with one the stored record does not satisfy: reads
    // never re-validate, so the record is still there, unchanged.
    svc.upload_schema("Task".to_string(), person_schema());
    assert_eq!(svc.get_item(&model, &id).unwrap(), payload);
}

#[test]
fn repeated_upload_changes_nothing_observable() {
    let mut once = ModelService::new();
    once.upload_schema("Task".to_string(), task_schema());
    let mut twice = ModelService::new();
    twice.upload_schema("Task".to_string(), task_schema());
    twice.upload_schema("Task".to_string(), task_schema());

    let model = "Task".to_string();
    let good = v(r#"{"title": "Learn", "completed": false}"#);
    let bad = v(r#"{"title": "Learn"}"#);
    assert!(once.create_item(&model, good.clone()).is_ok());
    assert!(twice.create_item(&model, good).is_ok());
    assert!(matches!(
        once.create_item(&model, bad.clone()),
        Err(CrudError::ValidationFailed(_))
    ));
    assert!(matches!(
        twice.create_item(&model, bad),
        Err(CrudError::ValidationFailed(_))
    ));
}

#[test]
fn models_are_isolated_identifier_spaces() {
    let mut svc = ModelService::new();
    svc.upload_schema("A".to_string(), task_schema());
    svc.upload_schema("B".to_string(), task_schema());
    let model_a = "A".to_string();
    let model_b = "B".to_string();

    let payload = v(r#"{"title": "Shared", "completed": true}"#);
    let (id_a, _) = svc.create_item(&model_a, payload.clone()).unwrap();

    // The identifier created under A is invisible under B.
    assert!(matches!(svc.get_item(&model_b, &id_a), Err(CrudError::NotFound)));

    let (id_b, _) = svc.create_item(&model_b, payload.clone()).unwrap();
    assert_eq!(svc.get_item(&model_a, &id_a).unwrap(), payload);
    assert_eq!(svc.get_item(&model_b, &id_b).unwrap(), payload);

    // Deleting under B leaves A's record alone.
    svc.delete_item(&model_b, &id_b).unwrap();
    assert_eq!(svc.get_item(&model_a, &id_a).unwrap(), payload);
}

#[test]
fn delete_is_final() {
    let mut svc = ModelService::new();
    svc.upload_schema("Task".to_string(), task_schema());
    let model = "Task".to_string();
    let (id, _) = svc
        .create_item(&model, v(r#"{"title": "Gone", "completed": true}"#))
        .unwrap();

    assert!(svc.delete_item(&model, &id).is_ok());
    assert!(matches!(svc.get_item(&model, &id), Err(CrudError::NotFound)));
    assert!(matches!(svc.delete_item(&model, &id), Err(CrudError::NotFound)));
}

#[test]
fn delete_on_empty_model_is_not_found() {
    let mut svc = ModelService::new();
    let model = "Task".to_string();
    let id = "missing".to_string();
    assert!(matches!(svc.delete_item(&model, &id), Err(CrudError::NotFound)));
}

#[test]
fn generated_identifiers_are_canonical_and_fresh() {
    let mut svc = ModelService::new();
    svc.upload_schema("Task".to_string(), task_schema());
    let model = "Task".to_string();
    let payload = v(r#"{"title": "One", "completed": false}"#);
    let (id1, _) = svc.create_item(&model, payload.clone()).unwrap();
    let (id2, _) = svc.create_item(&model, payload).unwrap();
    assert_eq!(id1.len(), 36);
    assert_eq!(id2.len(), 36);
    assert_ne!(id1, id2);
}
