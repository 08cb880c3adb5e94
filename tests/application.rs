use kasuri::application::{
    create_app_icon_arguments, icon_name_from_digest, AppForView, Application, ApplicationRepositoryRecord, LaunchError,
    LaunchKind,
};
use kasuri::log::{set_log_level, set_log_level_str, LogLevel, Logger};
use kasuri::recency::UsageRecency;
use kasuri::settings::{ApplicationNameAlias, PartialSettings, ScanSource, Settings};
use kasuri::ui::MenuId;

fn with_path(path: &str) -> Application {
    Application::new("n".to_string(), path.to_string(), path.to_string())
}

#[test]
fn recency_two_days_ago_is_a_third() {
    let now = 1_700_000_000;
    let r = UsageRecency::from_usage(10, Some(now - 2 * 86400), now);
    assert_eq!(r.usage_count, 10);
    assert_eq!(r.days_since_last_used + 1, 3);
    let score = r.usage_count as f64 / (r.days_since_last_used + 1) as f64;
    assert!((score - 3.33).abs() < 0.01);
}

#[test]
fn recency_without_last_use_is_the_count() {
    let r = UsageRecency::from_usage(7, None, 1_700_000_000);
    assert_eq!(r.days_since_last_used, 0);
    let future = UsageRecency::from_usage(7, Some(1_800_000_000), 1_700_000_000);
    assert_eq!(future.days_since_last_used, 0);
    let partial_day = UsageRecency::from_usage(7, Some(1_700_000_000 - 86399), 1_700_000_000);
    assert_eq!(partial_day.days_since_last_used, 0);
}

#[test]
fn from_record_carries_fields() {
    let rec = ApplicationRepositoryRecord {
        app_id: "C:\\a\\b.exe".to_string(),
        name: "b".to_string(),
        path: "C:\\a\\b.exe".to_string(),
        usage_count: 4,
        last_used: Some(0),
        added_date: 0,
    };
    let app = Application::from_record(rec, 86400 * 3);
    assert_eq!(app.name, "b");
    assert_eq!(app.usage_recency_score, UsageRecency { usage_count: 4, days_since_last_used: 3 });
    assert!(app.alias.is_none() && app.icon_path.is_none());
}

#[test]
fn icon_name_is_md5_prefix_with_png() {
    let app = Application::new("x".to_string(), "abc".to_string(), "abc".to_string());
    assert_eq!(app.get_icon_name(), "900150983cd24fb0.png");
}

#[test]
fn launch_kind_follows_path() {
    assert_eq!(with_path("C:\\Apps\\tool.exe").launch_kind(), Ok(LaunchKind::Executable));
    assert_eq!(with_path("C:\\Apps\\tool.lnk").launch_kind(), Ok(LaunchKind::Shortcut));
    assert_eq!(with_path("Microsoft.App_1.0_x64__abc").launch_kind(), Ok(LaunchKind::StoreApp));
    assert_eq!(with_path("C:\\Apps\\notes.txt").launch_kind(), Err(LaunchError::InvalidPath));
}

#[test]
fn file_entries_filter_by_extension() {
    let found = Application::from_file_entry("Tool".to_string(), "EXE", "C:\\t\\Tool.EXE".to_string()).unwrap();
    assert_eq!(found.name, "Tool");
    assert_eq!(found.app_id, "C:\\t\\Tool.EXE");
    assert_eq!(found.path, "C:\\t\\Tool.EXE");
    assert!(Application::from_file_entry("Link".to_string(), "lNk", "C:\\Link.lnk".to_string()).is_some());
    assert!(Application::from_file_entry("readme".to_string(), "txt", "C:\\readme.txt".to_string()).is_none());
    assert!(Application::from_file_entry("x".to_string(), "exe2", "C:\\x.exe2".to_string()).is_none());
}

#[test]
fn icon_source_uses_package_name() {
    assert_eq!(with_path("Microsoft.App_1.0_x64").icon_source(), "Microsoft.App");
    assert_eq!(with_path("NoUnderscore").icon_source(), "NoUnderscore");
    assert_eq!(with_path("C:\\a_b\\c.exe").icon_source(), "C:\\a_b\\c.exe");
}

#[test]
fn icon_arguments_are_quoted_lists() {
    let apps = vec![with_path("C:\\a.exe"), with_path("Pkg_1")];
    let (sources, targets) = create_app_icon_arguments(&apps, "D:\\icons\\");
    assert_eq!(sources, "\"C:\\a.exe\",\"Pkg\"");
    let expected = format!("\"D:\\icons\\{}\",\"D:\\icons\\{}\"", apps[0].get_icon_name(), apps[1].get_icon_name());
    assert_eq!(targets, expected);
    assert_eq!(create_app_icon_arguments(&vec![], "d").0, "");
}

#[test]
fn store_launch_command_names_the_app() {
    let app = Application::new("x".to_string(), "Pkg!App".to_string(), "Pkg_1".to_string());
    assert_eq!(app.store_launch_command(), "Start-Process \"shell:AppsFolder\\Pkg!App\"");
}

#[test]
fn log_level_names_ignore_case() {
    let mut logger = Logger::new();
    set_log_level_str(&mut logger, "DEBUG");
    assert_eq!(logger.level, LogLevel::Debug);
    set_log_level_str(&mut logger, "Warn");
    assert_eq!(logger.level, LogLevel::Warn);
    set_log_level_str(&mut logger, "verbose");
    assert_eq!(logger.level, LogLevel::Info);
    set_log_level(&mut logger, LogLevel::Error);
    assert_eq!(logger.level, LogLevel::Error);
}

#[test]
fn menu_ids_round_trip() {
    for m in [MenuId::Exit, MenuId::Reload, MenuId::OpenLogDir, MenuId::Settings] {
        assert_eq!(MenuId::from_id(m.as_str()), Some(m));
    }
    assert_eq!(MenuId::OpenLogDir.as_str(), "open-log-dir");
    assert_eq!(MenuId::from_id("quit"), None);
}

#[test]
fn partial_settings_take_defaults() {
    let defaults = Settings {
        application_search_path_list: vec!["WindowsStoreApp".to_string(), "C:\\Apps".to_string()],
        application_search_interval_on_startup_minute: 60,
        log_level: "info".to_string(),
        width: 600,
        auto_startup: true,
        shortcut_key: "Alt+Space".to_string(),
        application_name_aliases: vec![],
    };
    let partial = PartialSettings {
        application_search_path_list: None,
        application_search_interval_on_startup_minute: Some(5),
        log_level: None,
        width: Some(800),
        auto_startup: None,
        shortcut_key: None,
        application_name_aliases: Some(vec![ApplicationNameAlias { path: "p".to_string(), alias: "q".to_string() }]),
    };
    let s = Settings::from_partial(partial, defaults);
    assert_eq!(s.get_application_search_interval_on_startup_minute(), 5);
    assert_eq!(s.get_width(), 800);
    assert_eq!(s.get_log_level(), "info");
    assert!(s.get_auto_startup());
    assert_eq!(s.get_shortcut_key(), "Alt+Space");
    assert_eq!(s.get_application_name_aliases().len(), 1);
    assert_eq!(s.get_application_search_path_list().len(), 2);
    let sources = s.scan_sources();
    assert!(matches!(sources[0], ScanSource::PackageRegistry));
    assert!(matches!(&sources[1], ScanSource::Directory(p) if p == "C:\\Apps"));
}

#[test]
fn view_struct_is_plain() {
    let v = AppForView { name: "a".to_string(), app_id: "b".to_string(), icon_path: "".to_string() };
    assert_eq!(v.name, "a");
}

#[test]
fn icon_name_from_digest_takes_sixteen_digits() {
    assert_eq!(icon_name_from_digest("900150983cd24fb0d6963f7d28e17f72"), "900150983cd24fb0.png");
    assert_eq!(icon_name_from_digest("abc"), "abc.png");
}
