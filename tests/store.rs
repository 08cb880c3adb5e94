use kasuri::application::{Application, ApplicationRepositoryRecord};
use kasuri::application_repository::{bulk_delete_sql, bulk_insert_sql, ApplicationRepository};
use kasuri::kasuri_repository::{parse_search_time, KasuriRepository};

fn cand(id: &str, name: &str) -> Application {
    Application::new(name.to_string(), id.to_string(), id.to_string())
}

fn record(id: &str, usage_count: u64, last_used: Option<i64>) -> ApplicationRepositoryRecord {
    ApplicationRepositoryRecord {
        app_id: id.to_string(),
        name: id.to_string(),
        path: id.to_string(),
        usage_count,
        last_used,
        added_date: 1,
    }
}

fn ids(repo: &ApplicationRepository) -> Vec<String> {
    repo.records().iter().map(|r| r.app_id.clone()).collect()
}

#[test]
fn renew_into_empty_store_inserts_everything() {
    let mut repo = ApplicationRepository::new();
    let renewal = repo.renew_applications(vec![cand("a", "A"), cand("b", "B")], 100);
    assert_eq!(renewal.added.len(), 2);
    assert!(renewal.removed.is_empty());
    assert_eq!(ids(&repo), vec!["a", "b"]);
    let r = &repo.records()[0];
    assert_eq!(r.usage_count, 0);
    assert_eq!(r.last_used, None);
    assert_eq!(r.added_date, 100);
}

#[test]
fn renew_twice_with_same_scan_changes_nothing() {
    let mut repo = ApplicationRepository::with_records(vec![record("a", 3, Some(5)), record("x", 1, None)]).unwrap();
    let scan = || vec![cand("a", "A"), cand("b", "B"), cand("c", "C")];
    let first = repo.renew_applications(scan(), 100);
    assert_eq!(first.added.len(), 2);
    assert_eq!(first.removed, vec!["x".to_string()]);
    let after_first = ids(&repo);
    let second = repo.renew_applications(scan(), 200);
    assert!(second.added.is_empty());
    assert!(second.removed.is_empty());
    assert_eq!(ids(&repo), after_first);
}

#[test]
fn renew_keeps_usage_of_surviving_records() {
    let mut repo = ApplicationRepository::with_records(vec![record("a", 7, Some(1234)), record("b", 2, None)]).unwrap();
    repo.renew_applications(vec![cand("b", "B renamed"), cand("a", "A")], 999);
    let a = repo.records().iter().find(|r| r.app_id == "a").unwrap();
    assert_eq!(a.usage_count, 7);
    assert_eq!(a.last_used, Some(1234));
    assert_eq!(a.added_date, 1);
    let b = repo.records().iter().find(|r| r.app_id == "b").unwrap();
    assert_eq!(b.usage_count, 2);
    assert_eq!(b.name, "b");
}

#[test]
fn empty_scan_deletes_every_record() {
    let mut repo = ApplicationRepository::with_records(vec![
        record("a", 1, None),
        record("b", 2, None),
        record("c", 3, None),
    ])
    .unwrap();
    let renewal = repo.renew_applications(vec![], 10);
    assert!(renewal.added.is_empty());
    assert_eq!(renewal.removed, vec!["a".to_string(), "b".to_string(), "c".to_string()]);
    assert!(repo.records().is_empty());
}

#[test]
fn duplicate_candidates_give_one_record_and_the_last_wins() {
    let mut repo = ApplicationRepository::new();
    let renewal = repo.renew_applications(vec![cand("a", "first"), cand("a", "second")], 5);
    assert_eq!(renewal.added.len(), 1);
    assert_eq!(renewal.added[0].name, "second");
    assert_eq!(ids(&repo), vec!["a"]);
}

#[test]
fn records_with_shared_identity_are_refused() {
    assert!(ApplicationRepository::with_records(vec![record("a", 0, None), record("a", 1, None)]).is_none());
}

#[test]
fn update_usage_counts_and_stamps() {
    let mut repo = ApplicationRepository::with_records(vec![record("a", 1, None), record("b", 4, Some(3))]).unwrap();
    repo.update_usage("a", 500);
    repo.update_usage("missing", 600);
    repo.update_usage("", 700);
    let recs = repo.records();
    assert_eq!(recs[0].usage_count, 2);
    assert_eq!(recs[0].last_used, Some(500));
    assert_eq!(recs[1].usage_count, 4);
    assert_eq!(recs[1].last_used, Some(3));
}

#[test]
fn get_applications_derives_recency() {
    let now = 1_000_000;
    let repo = ApplicationRepository::with_records(vec![record("a", 10, Some(now - 2 * 86400))]).unwrap();
    let apps = repo.get_applications(now);
    assert_eq!(apps.len(), 1);
    assert_eq!(apps[0].usage_recency_score.usage_count, 10);
    assert_eq!(apps[0].usage_recency_score.days_since_last_used, 2);
}

#[test]
fn bulk_statements_have_one_placeholder_group_per_row() {
    assert_eq!(bulk_delete_sql(3), "DELETE FROM applications WHERE app_id IN (?,?,?);");
    assert_eq!(
        bulk_insert_sql(2),
        "INSERT INTO applications (app_id, name, path, added_date) VALUES (?, ?, ?, ?), (?, ?, ?, ?);"
    );
}

#[test]
fn stored_scan_time_is_read_as_decimal() {
    assert_eq!(parse_search_time("1700000000"), Some(1700000000));
    assert_eq!(parse_search_time("0"), Some(0));
    assert_eq!(parse_search_time(""), None);
    assert_eq!(parse_search_time("12a"), None);
    assert_eq!(parse_search_time("9223372036854775807"), Some(i64::MAX));
    assert_eq!(parse_search_time("9223372036854775808"), None);
    let missing = KasuriRepository::with_stored_value(None).unwrap();
    assert_eq!(missing.get_last_application_search_time(), 0);
    assert!(KasuriRepository::with_stored_value(Some("x".to_string())).is_none());
}
