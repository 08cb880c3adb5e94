use kasuri::application::{Application, ApplicationRepositoryRecord};
use kasuri::application_repository::ApplicationRepository;
use kasuri::kasuri::{Kasuri, KasuriError};
use kasuri::kasuri_repository::KasuriRepository;
use kasuri::settings::{ApplicationNameAlias, Settings};

fn settings(interval: u64) -> Settings {
    Settings {
        application_search_path_list: vec![],
        application_search_interval_on_startup_minute: interval,
        log_level: "info".to_string(),
        width: 600,
        auto_startup: false,
        shortcut_key: "Alt+Space".to_string(),
        application_name_aliases: vec![ApplicationNameAlias {
            path: "C:\\Apps\\fx.exe".to_string(),
            alias: "Browser".to_string(),
        }],
    }
}

fn record(id: &str, name: &str, usage_count: u64) -> ApplicationRepositoryRecord {
    ApplicationRepositoryRecord {
        app_id: id.to_string(),
        name: name.to_string(),
        path: id.to_string(),
        usage_count,
        last_used: None,
        added_date: 0,
    }
}

fn controller(last_scan: i64) -> Kasuri {
    let repo = ApplicationRepository::with_records(vec![
        record("C:\\Apps\\fx.exe", "Firefox", 1),
        record("C:\\Apps\\fe.exe", "File Explorer", 4),
    ])
    .unwrap();
    let mut state = KasuriRepository::new();
    state.set_last_application_search_time(last_scan);
    Kasuri::with_settings(settings(60), repo, state)
}

#[test]
fn scan_is_due_only_after_the_interval() {
    let k = controller(1000);
    assert!(!k.is_search_application_needed(1000 + 3600));
    assert!(k.is_search_application_needed(1000 + 3601));
    assert!(!k.is_search_application_needed(0));
}

#[test]
fn launch_before_loading_is_an_error() {
    let k = controller(0);
    assert_eq!(k.handle_launch_application("C:\\Apps\\fx.exe").err(), Some(KasuriError::CacheNotInitialized));
    assert!(k.handle_search_application("fire").is_empty());
}

#[test]
fn loading_resolves_icons_and_aliases() {
    let mut k = controller(0);
    k.load_applications_to_cache(0, "D:\\cache\\");
    let fx = k.handle_launch_application("C:\\Apps\\fx.exe").unwrap().unwrap();
    assert_eq!(fx.alias.as_deref(), Some("Browser"));
    let expected = format!("D:\\cache\\{}", fx.get_icon_name());
    assert_eq!(fx.icon_path.as_deref(), Some(expected.as_str()));
    let fe = k.handle_launch_application("C:\\Apps\\fe.exe").unwrap().unwrap();
    assert!(fe.alias.is_none());
    assert!(k.handle_launch_application("nope").unwrap().is_none());
}

#[test]
fn search_returns_views_of_ranked_apps() {
    let mut k = controller(0);
    k.load_applications_to_cache(0, "D:\\cache\\");
    let found = k.handle_search_application("firefox");
    assert_eq!(found.len(), 1);
    assert_eq!(found[0].name, "Firefox");
    assert_eq!(found[0].app_id, "C:\\Apps\\fx.exe");
    assert!(found[0].icon_path.starts_with("D:\\cache\\"));
    assert!(k.handle_search_application("").is_empty());
}

#[test]
fn rescan_then_reload_replaces_working_set() {
    let mut k = controller(0);
    let scanned = vec![Application::new("Code".to_string(), "C:\\code.exe".to_string(), "C:\\code.exe".to_string())];
    let renewal = k.load_applications_from_search_path(scanned, 5000);
    assert_eq!(renewal.added.len(), 1);
    assert_eq!(renewal.removed.len(), 2);
    assert_eq!(k.last_application_search_time(), 5000);
    k.load_applications_to_cache(5000, "c/");
    assert!(k.handle_launch_application("C:\\Apps\\fx.exe").unwrap().is_none());
    assert!(k.handle_launch_application("C:\\code.exe").unwrap().is_some());
}

#[test]
fn recorded_launch_updates_usage() {
    let mut k = controller(0);
    assert!(!k.record_launch("C:\\Apps\\fx.exe", 700));
    assert_eq!(k.application_repository().records()[0].usage_count, 1);
    k.load_applications_to_cache(0, "c/");
    assert!(k.record_launch("C:\\Apps\\fx.exe", 777));
    assert!(!k.record_launch("unknown", 778));
    let rec = &k.application_repository().records()[0];
    assert_eq!(rec.usage_count, 2);
    assert_eq!(rec.last_used, Some(777));
}
