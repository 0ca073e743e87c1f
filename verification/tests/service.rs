use report_service::analytics::analytics_summary;
use report_service::analytics::analytics_summary_now;
use report_service::analytics::risk_distribution;
use report_service::doc::DocValue;
use report_service::error::ApiError;
use report_service::health_check;
use report_service::report::NewReport;
use report_service::report::Status;
use report_service::store::ReportStore;

fn req(url: &str) -> NewReport {
    NewReport {
        server_name: "srv".to_string(),
        repository_url: url.to_string(),
        developer_email: "a@b.com".to_string(),
        report_data: "# doc".to_string(),
        report_json: None,
    }
}

fn req_with_risk(url: &str, risk: &str) -> NewReport {
    let doc = DocValue::Obj(vec![(
        "phase1_security".to_string(),
        DocValue::Obj(vec![("risk_level".to_string(), DocValue::Str(risk.to_string()))]),
    )]);
    NewReport { report_json: Some(doc), ..req(url) }
}

#[test]
fn test_health_check() {
    let result = health_check();
    assert_eq!(result, "OK");
}

#[test]
fn create_is_pending_with_no_review() {
    let mut store = ReportStore::new();
    assert!(store.create(req("https://x/a"), 1, 100).is_ok());
    let rp = store.get_by_id(1).unwrap();
    assert_eq!(rp.status, Status::PendingReview);
    assert!(rp.reviewed_at.is_none());
    assert!(rp.reviewed_by.is_none());
    assert!(rp.review_notes.is_none());
    assert_eq!(rp.submitted_at, 100);
}

#[test]
fn duplicate_url_conflicts_whatever_else_differs() {
    let mut store = ReportStore::new();
    store.create(req("https://x/a"), 1, 100).unwrap();
    let mut other = req("https://x/a");
    other.server_name = "another".to_string();
    other.developer_email = "z@q.org".to_string();
    other.report_data = "entirely different".to_string();
    let r = store.create(other, 2, 999);
    assert_eq!(r, Err(ApiError::Conflict));
    assert_eq!(store.len(), 1);
}

#[test]
fn id_collision_is_storage_error() {
    let mut store = ReportStore::new();
    store.create(req("https://x/a"), 5, 10).unwrap();
    let r = store.create(req("https://x/b"), 5, 20);
    assert_eq!(r, Err(ApiError::StorageError));
    assert_eq!(store.len(), 1);
}

#[test]
fn get_after_create_returns_equal_value() {
    let mut store = ReportStore::new();
    let submitted = req_with_risk("https://x/a", "LOW");
    store.create(submitted, 9, 42).unwrap();
    let rp = store.get_by_id(9).unwrap();
    assert_eq!(rp.id, 9);
    assert_eq!(rp.server_name, "srv");
    assert_eq!(rp.repository_url, "https://x/a");
    assert_eq!(rp.developer_email, "a@b.com");
    assert_eq!(rp.report_data, "# doc");
    assert!(rp.report_json.is_some());
    assert_eq!(rp.status, Status::PendingReview);
    assert_eq!(rp.submitted_at, 42);
}

#[test]
fn get_missing_is_not_found() {
    let store = ReportStore::new();
    assert!(matches!(store.get_by_id(77), Err(ApiError::NotFound)));
}

#[test]
fn list_orders_newest_first_and_filters() {
    let mut store = ReportStore::new();
    store.create(req("https://x/a"), 1, 10).unwrap();
    store.create(req("https://x/b"), 2, 30).unwrap();
    store.create(req("https://x/c"), 3, 20).unwrap();

    let all = store.list(None);
    let ids: Vec<u128> = all.iter().map(|r| r.id).collect();
    assert_eq!(ids, vec![2, 3, 1]);

    store
        .update_status(3, "approved", "alice".to_string(), None, 50)
        .unwrap();
    let approved = store.list(Some(Status::Approved));
    assert_eq!(approved.len(), 1);
    assert_eq!(approved[0].id, 3);

    let rejected = store.list(Some(Status::Rejected));
    assert!(rejected.is_empty());
}

#[test]
fn update_status_validates_and_overwrites() {
    let mut store = ReportStore::new();
    store.create(req("https://x/a"), 1, 10).unwrap();

    let back_to_pending =
        store.update_status(1, "pending_review", "alice".to_string(), None, 20);
    assert_eq!(back_to_pending, Err(ApiError::InvalidInput));
    let junk = store.update_status(1, "bogus", "alice".to_string(), None, 20);
    assert_eq!(junk, Err(ApiError::InvalidInput));
    assert_eq!(store.get_by_id(1).unwrap().status, Status::PendingReview);

    store
        .update_status(1, "approved", "alice".to_string(), None, 30)
        .unwrap();
    {
        let rp = store.get_by_id(1).unwrap();
        assert_eq!(rp.status, Status::Approved);
        assert_eq!(rp.reviewed_by.as_deref(), Some("alice"));
        assert_eq!(rp.reviewed_at, Some(30));
        assert!(rp.review_notes.is_none());
        assert_eq!(rp.submitted_at, 10);
    }

    let again = store.update_status(
        1,
        "rejected",
        "bob".to_string(),
        Some("second look".to_string()),
        40,
    );
    assert!(again.is_ok());
    let rp = store.get_by_id(1).unwrap();
    assert_eq!(rp.status, Status::Rejected);
    assert_eq!(rp.reviewed_by.as_deref(), Some("bob"));
    assert_eq!(rp.reviewed_at, Some(40));
    assert_eq!(rp.review_notes.as_deref(), Some("second look"));
}

#[test]
fn update_status_missing_is_not_found() {
    let mut store = ReportStore::new();
    store.create(req("https://x/a"), 1, 10).unwrap();
    let r = store.update_status(999, "approved", "alice".to_string(), None, 20);
    assert_eq!(r, Err(ApiError::NotFound));
}

#[test]
fn summary_counts_statuses_and_skips_null_documents() {
    let mut store = ReportStore::new();
    store.create(req_with_risk("https://x/a", "LOW"), 1, 10).unwrap();
    store.create(req("https://x/b"), 2, 20).unwrap();
    store.create(req("https://x/c"), 3, 30).unwrap();
    store
        .update_status(3, "approved", "alice".to_string(), None, 40)
        .unwrap();

    let summary = analytics_summary(&store, 50);
    assert_eq!(summary.total_reports, 3);
    assert_eq!(summary.with_structured_data, 1);
    assert_eq!(summary.by_status.pending_review, 2);
    assert_eq!(summary.by_status.approved, 1);
    assert_eq!(summary.by_status.rejected, 0);
    assert_eq!(summary.by_risk_level.len(), 1);
    assert_eq!(summary.by_risk_level[0].0, "LOW");
    assert_eq!(summary.by_risk_level[0].1, 1);
    assert_eq!(summary.recent_submissions_24h, 3);
}

#[test]
fn risk_distribution_groups_by_level() {
    let mut store = ReportStore::new();
    store.create(req_with_risk("https://x/a", "LOW"), 1, 10).unwrap();
    store.create(req_with_risk("https://x/b", "LOW"), 2, 20).unwrap();
    store.create(req_with_risk("https://x/c", "HIGH"), 3, 30).unwrap();
    store.create(req("https://x/d"), 4, 40).unwrap();
    let no_risk = NewReport {
        report_json: Some(DocValue::Obj(vec![])),
        ..req("https://x/e")
    };
    store.create(no_risk, 5, 50).unwrap();

    let mut groups = risk_distribution(&store);
    groups.sort();
    assert_eq!(groups.len(), 2);
    assert_eq!(groups[0].0, "HIGH");
    assert_eq!(groups[0].1, 1);
    assert_eq!(groups[1].0, "LOW");
    assert_eq!(groups[1].1, 2);
}

#[test]
fn recent_window_is_twenty_four_hours_exclusive() {
    let now: i64 = 200_000_000_000;
    let mut store = ReportStore::new();
    store.create(req("https://x/a"), 1, now - 86_400_000).unwrap();
    store.create(req("https://x/b"), 2, now - 86_399_999).unwrap();
    store.create(req("https://x/c"), 3, now).unwrap();
    let summary = analytics_summary(&store, now);
    assert_eq!(summary.recent_submissions_24h, 2);
}

#[test]
fn scenario_submit_then_review() {
    let mut store = ReportStore::new();
    let id = store.create_report(req("https://x/y")).unwrap();
    assert_eq!(store.get_by_id(id).unwrap().status, Status::PendingReview);

    let second = store.create_report(req("https://x/y"));
    assert_eq!(second, Err(ApiError::Conflict));

    store
        .update_status_now(id, "approved", "rev@x.com".to_string(), None)
        .unwrap();
    let rp = store.get_by_id(id).unwrap();
    assert_eq!(rp.status, Status::Approved);
    assert_eq!(rp.reviewed_by.as_deref(), Some("rev@x.com"));
    assert!(rp.reviewed_at.is_some());

    let summary = analytics_summary_now(&store);
    assert_eq!(summary.total_reports, 1);
    assert_eq!(summary.by_status.approved, 1);
}

#[test]
fn status_literals_parse_exactly() {
    assert_eq!(Status::parse("pending_review"), Some(Status::PendingReview));
    assert_eq!(Status::parse("approved"), Some(Status::Approved));
    assert_eq!(Status::parse("rejected"), Some(Status::Rejected));
    assert_eq!(Status::parse("Approved"), None);
    assert_eq!(Status::parse(""), None);
    assert_eq!(Status::parse("approved "), None);
}

#[test]
fn status_as_str_round_trips() {
    for st in [Status::PendingReview, Status::Approved, Status::Rejected] {
        assert_eq!(Status::parse(st.as_str()), Some(st));
    }
}

#[test]
fn error_messages_name_the_failure() {
    assert_eq!(
        ApiError::Conflict.message(),
        "Report already exists for this repository"
    );
    assert_eq!(ApiError::NotFound.message(), "Report not found");
    assert_eq!(
        ApiError::InvalidInput.message(),
        "Status must be 'approved' or 'rejected'"
    );
    assert_eq!(
        ApiError::StorageError.message(),
        "Failed to access report storage"
    );
}
