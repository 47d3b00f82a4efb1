use indelible::domain::{
    string_field, ImportItemOutcome, ImportJob, ImportJobCountsDelta, ImportJobStatus, ImportMethod,
    IntegrationOAuthProvider, JsonValue,
};

#[test]
fn identifiers_of_the_enumerations() {
    assert_eq!(IntegrationOAuthProvider::Custom.as_str(), "custom");
    assert_eq!(ImportMethod::Oauth.as_str(), "oauth");
    assert_eq!(ImportMethod::Csv.as_str(), "csv");
    assert_eq!(ImportMethod::Zip.as_str(), "zip");
    assert_eq!(ImportJobStatus::AwaitingProvider.as_str(), "awaiting_provider");
    assert_eq!(ImportJobStatus::Pending.as_str(), "pending");
    assert_eq!(ImportJobStatus::Running.as_str(), "running");
    assert_eq!(ImportJobStatus::Completed.as_str(), "completed");
    assert_eq!(ImportJobStatus::Failed.as_str(), "failed");
    assert_eq!(ImportJobStatus::Partial.as_str(), "partial");
    assert_eq!(ImportJobStatus::RolledBack.as_str(), "rolled_back");
    assert_eq!(ImportItemOutcome::Imported.as_str(), "imported");
    assert_eq!(ImportItemOutcome::Updated.as_str(), "updated");
    assert_eq!(ImportItemOutcome::Duplicate.as_str(), "duplicate");
    assert_eq!(ImportItemOutcome::SkippedPrivate.as_str(), "skipped_private");
    assert_eq!(ImportItemOutcome::Failed.as_str(), "failed");
}

#[test]
fn import_counts_default_to_zero() {
    let d = ImportJobCountsDelta::default();
    assert_eq!((d.imported, d.updated, d.duplicate, d.skipped_private, d.failed), (0, 0, 0, 0, 0));
}

#[test]
fn string_fields_of_a_json_object() {
    let v = JsonValue::Object(vec![
        ("address".to_string(), JsonValue::Text("in@example.com".to_string())),
        ("count".to_string(), JsonValue::Number("3".to_string())),
        ("address".to_string(), JsonValue::Text("second".to_string())),
    ]);
    assert_eq!(string_field(&v, "address").as_deref(), Some("in@example.com"));
    assert_eq!(string_field(&v, "count"), None);
    assert_eq!(string_field(&v, "missing"), None);
    assert_eq!(string_field(&JsonValue::Text("x".to_string()), "address"), None);
}

#[test]
fn an_import_job_holds_its_counts_and_times() {
    let job = ImportJob {
        id: 1,
        user_id: 2,
        import_source: "pocket".to_string(),
        import_method: ImportMethod::Csv,
        status: ImportJobStatus::Running,
        imported_count: 3,
        updated_count: 0,
        duplicate_count: 1,
        skipped_private_count: 0,
        failed_count: 0,
        raw_artifact_key: None,
        provider_report: None,
        error: None,
        created_at: 1_700_000_000_000,
        started_at: Some(1_700_000_001_000),
        finished_at: None,
    };
    assert_eq!((job.status.as_str(), job.import_method.as_str(), job.imported_count), ("running", "csv", 3));
}
