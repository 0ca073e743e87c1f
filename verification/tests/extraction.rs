use report_service::doc::DocValue;
use report_service::error::ApiError;
use report_service::issues::build_issues_view;
use report_service::issues::extract_issues;
use report_service::report::NewReport;
use report_service::store::ReportStore;

fn obj(fields: Vec<(&str, DocValue)>) -> DocValue {
    DocValue::Obj(fields.into_iter().map(|(k, v)| (k.to_string(), v)).collect())
}

fn s(v: &str) -> DocValue {
    DocValue::Str(v.to_string())
}

#[test]
fn test_extract_issues() {
    let json = obj(vec![
        (
            "critical_issues",
            DocValue::Arr(vec![obj(vec![
                ("severity", s("CRITICAL")),
                ("description", s("Test issue")),
                ("phase_id", s("phase1")),
            ])]),
        ),
        (
            "warnings",
            DocValue::Arr(vec![obj(vec![
                ("severity", s("WARNING")),
                ("description", s("Test warning")),
            ])]),
        ),
    ]);

    let critical = extract_issues(&json, "critical_issues");
    assert_eq!(critical.len(), 1);
    assert_eq!(critical[0].severity, "CRITICAL");
    assert_eq!(critical[0].description, "Test issue");

    let warnings = extract_issues(&json, "warnings");
    assert_eq!(warnings.len(), 1);
    assert_eq!(warnings[0].severity, "WARNING");
}

#[test]
fn test_extract_issues_empty() {
    let json = obj(vec![]);
    let issues = extract_issues(&json, "critical_issues");
    assert_eq!(issues.len(), 0);
}

#[test]
fn extract_skips_entry_missing_description() {
    let json = obj(vec![(
        "warnings",
        DocValue::Arr(vec![
            obj(vec![("severity", s("WARNING"))]),
            obj(vec![("severity", s("WARNING")), ("description", s("valid entry"))]),
        ]),
    )]);
    let issues = extract_issues(&json, "warnings");
    assert_eq!(issues.len(), 1);
    assert_eq!(issues[0].description, "valid entry");
}

#[test]
fn extract_on_non_array_field_is_empty() {
    let json = obj(vec![("critical_issues", s("not an array"))]);
    assert_eq!(extract_issues(&json, "critical_issues").len(), 0);
}

#[test]
fn extract_optional_fields_require_strings() {
    let json = obj(vec![(
        "warnings",
        DocValue::Arr(vec![obj(vec![
            ("severity", s("WARNING")),
            ("description", s("entry")),
            ("impact", DocValue::Int(5)),
            ("recommendation", s("fix it")),
        ])]),
    )]);
    let issues = extract_issues(&json, "warnings");
    assert_eq!(issues.len(), 1);
    assert!(issues[0].impact.is_none());
    assert_eq!(issues[0].recommendation.as_deref(), Some("fix it"));
    assert!(issues[0].phase_id.is_none());
}

#[test]
fn issues_view_without_document_is_not_found() {
    let mut store = ReportStore::new();
    let req = NewReport {
        server_name: "srv".to_string(),
        repository_url: "https://x/plain".to_string(),
        developer_email: "a@b.com".to_string(),
        report_data: "# doc".to_string(),
        report_json: None,
    };
    store.create(req, 1, 100).unwrap();
    let report = store.get_by_id(1).unwrap();
    let view = build_issues_view(report);
    assert!(matches!(view, Err(ApiError::NotFound)));
}

#[test]
fn issues_view_counts_sections() {
    let mut store = ReportStore::new();
    let json = obj(vec![(
        "critical_issues",
        DocValue::Arr(vec![obj(vec![
            ("severity", s("CRITICAL")),
            ("description", s("one finding")),
        ])]),
    )]);
    let req = NewReport {
        server_name: "srv".to_string(),
        repository_url: "https://x/structured".to_string(),
        developer_email: "a@b.com".to_string(),
        report_data: "# doc".to_string(),
        report_json: Some(json),
    };
    store.create(req, 2, 100).unwrap();
    let report = store.get_by_id(2).unwrap();
    let view = build_issues_view(report).unwrap();
    assert_eq!(view.report_id, 2);
    assert_eq!(view.server_name, "srv");
    assert_eq!(view.critical_issues.len(), 1);
    assert_eq!(view.warnings.len(), 0);
    assert_eq!(view.recommendations.len(), 0);
}
