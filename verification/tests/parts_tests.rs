use window_restore::app_launcher::{AppLauncher, WaitStep};
use window_restore::config::{Config, ConfigError, MAX_RESTORE_DELAY_MS, MAX_RETRY_ATTEMPTS};
use window_restore::display_manager::{DisplayFrame, DisplayInfo, DisplayManager};
use window_restore::ffi::{
    check_permissions, result_to_error_code, retain_sound_windows, save_current_layout,
    ERROR_APP_NOT_FOUND, ERROR_DISPLAY_NOT_FOUND, ERROR_FILE_IO, ERROR_JSON,
    ERROR_PERMISSION_DENIED, ERROR_SUCCESS, ERROR_UNKNOWN, ERROR_WINDOW_NOT_FOUND,
};
use window_restore::layout_manager::LayoutManager;
use window_restore::notification::{NotificationManager, NotificationType};
use window_restore::permission_checker::{check_accessibility_permission, PermissionChecker};
use window_restore::window_restorer::{
    ApplyResult, LiveWindow, RestoreAction, RestoreEvent, WindowRestorer,
};
use window_restore::window_scanner::{
    RawWindow, WindowFault, WindowFrame, WindowInfo, WindowLevel,
};
use window_restore::{ValidationError, WindowRestore, WindowRestoreError};

fn window(app: &str, title: &str) -> WindowInfo {
    WindowInfo {
        app_name: app.to_string(),
        bundle_id: format!("com.example.{}", app),
        title: title.to_string(),
        frame: WindowFrame { x: 0, y: 0, width: 100.0f64.to_bits(), height: 50.0f64.to_bits() },
        display_uuid: "D1".to_string(),
        window_level: WindowLevel::Normal,
        is_minimized: false,
        is_hidden: false,
    }
}

fn display(uuid: &str, name: &str, is_main: bool) -> DisplayInfo {
    DisplayInfo {
        uuid: uuid.to_string(),
        name: name.to_string(),
        frame: DisplayFrame { x: 0, y: 0, width: 1920.0f64.to_bits(), height: 1080.0f64.to_bits() },
        is_main,
        scale_factor: 1.0f64.to_bits(),
    }
}

#[test]
fn the_standard_settings() {
    let config = Config::default();
    assert_eq!(config.exclude_apps, vec!["com.apple.finder".to_string()]);
    assert!(config.minimize_hidden_windows);
    assert_eq!(config.restore_delay_ms, 1000);
    assert_eq!(config.max_retry_attempts, 3);
    assert_eq!(config.scan_interval_ms, 5000);
    assert_eq!(config.max_memory_usage_mb, 50);
    assert_eq!(config.validate(), Ok(()));
}

#[test]
fn each_setting_has_its_bound() {
    let mut cfg = Config::default();
    cfg.restore_delay_ms = MAX_RESTORE_DELAY_MS;
    cfg.max_retry_attempts = MAX_RETRY_ATTEMPTS;
    cfg.scan_interval_ms = 1;
    cfg.max_memory_usage_mb = 1;
    cfg.exclude_apps.clear();
    assert_eq!(cfg.validate(), Ok(()));

    cfg.restore_delay_ms = MAX_RESTORE_DELAY_MS + 1;
    assert_eq!(cfg.validate(), Err(ConfigError::RestoreDelayTooLong));
    cfg.max_retry_attempts = MAX_RETRY_ATTEMPTS + 1;
    assert_eq!(cfg.validate(), Err(ConfigError::RestoreDelayTooLong));
    cfg.restore_delay_ms = 0;
    assert_eq!(cfg.validate(), Err(ConfigError::TooManyRetryAttempts));
    cfg.max_retry_attempts = 0;
    cfg.scan_interval_ms = 0;
    cfg.max_memory_usage_mb = 0;
    assert_eq!(cfg.validate(), Err(ConfigError::ScanIntervalZero));
    cfg.scan_interval_ms = 1;
    assert_eq!(cfg.validate(), Err(ConfigError::MemoryLimitZero));
    cfg.max_memory_usage_mb = 1;
    cfg.exclude_apps = vec!["a".to_string(), "".to_string(), " ".to_string()];
    assert_eq!(cfg.validate(), Err(ConfigError::BlankExcludedApp { index: 1 }));
}

#[test]
fn applications_are_excluded_and_included() {
    let mut cfg = Config::default();
    assert!(cfg.is_app_excluded("com.apple.finder"));
    assert!(!cfg.is_app_excluded("com.apple.safari"));
    assert!(!cfg.is_app_excluded("com.apple.finde"));

    cfg.exclude_app("com.apple.safari");
    assert_eq!(cfg.exclude_apps, vec!["com.apple.finder".to_string(), "com.apple.safari".to_string()]);
    cfg.exclude_app("com.apple.safari");
    cfg.exclude_app("com.apple.finder");
    assert_eq!(cfg.exclude_apps.len(), 2);
    assert!(cfg.is_app_excluded("com.apple.safari"));

    cfg.exclude_apps.push("com.apple.finder".to_string());
    cfg.exclude_apps.push("x".to_string());
    cfg.include_app("com.apple.finder");
    assert_eq!(cfg.exclude_apps, vec!["com.apple.safari".to_string(), "x".to_string()]);
    cfg.include_app("absent");
    assert_eq!(cfg.exclude_apps.len(), 2);
    assert!(!cfg.is_app_excluded("com.apple.finder"));
    assert_eq!(cfg.restore_delay_ms, 1000);
}

#[test]
fn where_the_settings_live() {
    assert_eq!(
        Config::get_config_path(Some("/data".to_string()), None, "/cwd".to_string()),
        vec!["/data".to_string(), "config.json".to_string()]
    );
    assert_eq!(
        Config::get_config_path(None, Some("/share".to_string()), "/cwd".to_string()),
        vec!["/share".to_string(), "window_restore".to_string(), "config.json".to_string()]
    );
    assert_eq!(
        Config::get_config_path(None, None, "/cwd".to_string()),
        vec!["/cwd".to_string(), "target".to_string(), "window_restore".to_string(), "config.json".to_string()]
    );
}

#[test]
fn notification_scripts() {
    let manager = NotificationManager::new().unwrap();
    assert_eq!(
        manager.show_notification("Title", "Message", NotificationType::Info),
        "display notification \"Message\" with title \"Title\""
    );
    assert_eq!(
        manager.show_success("a \"b\"", "say \"hi\""),
        "display notification \"say \\\"hi\\\"\" with title \"a \\\"b\\\"\""
    );
    assert_eq!(manager.show_error("E", "m"), "display notification \"m\" with title \"E\"");
    assert_eq!(manager.show_warning("W", "m"), "display notification \"m\" with title \"W\"");
    assert_eq!(manager.show_info("I", "m"), "display notification \"m\" with title \"I\"");
    assert_eq!(
        manager.show_layout_saved("work"),
        "display notification \"Layout 'work' has been saved successfully\" with title \"Layout Saved\""
    );
    assert_eq!(
        manager.show_layout_restored("work"),
        "display notification \"Layout 'work' has been restored successfully\" with title \"Layout Restored\""
    );
    assert_eq!(
        manager.show_layout_deleted("my \"best\""),
        "display notification \"Layout 'my \\\"best\\\"' has been deleted\" with title \"Layout Deleted\""
    );
    assert_eq!(
        manager.show_permission_required(),
        "display notification \"Window Restore needs accessibility permissions to work properly. Please grant permissions in System Preferences.\" with title \"Permission Required\""
    );
    assert_eq!(manager.show_generic_error("boom"), "display notification \"boom\" with title \"Error\"");
}

#[test]
fn launcher_commands() {
    let launcher = AppLauncher::new().unwrap();
    assert_eq!(launcher.launch_command("com.apple.safari"), vec!["open", "-b", "com.apple.safari"]);
    assert_eq!(launcher.running_query("com.apple.safari"), vec!["pgrep", "-f", "com.apple.safari"]);
    assert_eq!(
        launcher.launch_refused("com.apple.safari", "no such app"),
        "Failed to launch app com.apple.safari: no such app"
    );
}

#[test]
fn the_steps_of_a_wait() {
    let launcher = AppLauncher::new().unwrap();
    assert_eq!(launcher.wait_for_app(true, 0, 10_000, 500), WaitStep::Ready);
    assert_eq!(launcher.wait_for_app(true, 9_999, 10_000, 500), WaitStep::Ready);
    assert_eq!(launcher.wait_for_app(true, 10_000, 10_000, 500), WaitStep::TimedOut);
    assert_eq!(launcher.wait_for_app(true, 20_000, 10_000, 500), WaitStep::TimedOut);
    assert_eq!(launcher.wait_for_app(true, 0, 0, 500), WaitStep::TimedOut);
    assert!(launcher.may_poll(0, 1));
    assert!(launcher.may_poll(9_999, 10_000));
    assert!(!launcher.may_poll(0, 0));
    assert!(!launcher.may_poll(10_000, 10_000));
    assert_eq!(launcher.wait_for_app(false, 0, 10_000, 500), WaitStep::PollAgain);
    assert_eq!(launcher.wait_for_app(false, 9_000, 10_000, 500), WaitStep::PollAgain);
    assert_eq!(launcher.wait_for_app(false, 9_499, 10_000, 500), WaitStep::PollAgain);
    assert_eq!(launcher.wait_for_app(false, 9_500, 10_000, 500), WaitStep::TimedOut);
    assert_eq!(launcher.wait_for_app(false, 10_000, 10_000, 500), WaitStep::TimedOut);
    assert_eq!(launcher.wait_for_app(false, u64::MAX, 10_000, 500), WaitStep::TimedOut);
    assert_eq!(launcher.wait_for_app(false, 0, 0, 500), WaitStep::TimedOut);
    assert_eq!(launcher.wait_for_app(false, 0, 2, 0), WaitStep::PollAgain);
    assert_eq!(launcher.wait_for_app(false, 1, 2, 0), WaitStep::TimedOut);
    assert_eq!(launcher.wait_for_app(false, 0, u64::MAX, u64::MAX), WaitStep::TimedOut);
    assert_eq!(launcher.wait_for_app(false, 0, u64::MAX, u64::MAX - 1), WaitStep::PollAgain);
}

#[test]
fn names_are_read_from_a_process_listing() {
    let launcher = AppLauncher::new().unwrap();
    let listing = "COMM\n  /sbin/launchd \n\n/usr/bin/some app\r\n \t \nlast";
    let expected: Vec<String> = listing
        .lines()
        .map(|line| line.trim().to_string())
        .filter(|line| !line.is_empty())
        .collect();
    assert_eq!(launcher.get_running_apps(listing), expected);
    assert_eq!(launcher.get_running_apps(listing), vec!["COMM", "/sbin/launchd", "/usr/bin/some app", "last"]);
    assert_eq!(launcher.get_running_apps(""), Vec::<String>::new());
    assert_eq!(launcher.get_running_apps("\n\n"), Vec::<String>::new());
    assert_eq!(launcher.get_running_apps("one"), vec!["one"]);
    assert_eq!(launcher.get_running_apps("one\n"), vec!["one"]);
    assert_eq!(launcher.get_running_apps("\none\n two"), vec!["one", "two"]);
}

#[test]
fn permissions_as_reported() {
    let checker = PermissionChecker::new().unwrap();
    assert!(!checker.check_accessibility_permission());
    assert!(checker.check_screen_recording_permission());
    let status = checker.check_all_permissions();
    assert!(!status.accessibility);
    assert!(status.screen_recording);
    assert!(!status.all_granted);
    assert!(!check_accessibility_permission());

    for accessibility in [false, true] {
        for screen in [false, true] {
            let checker = PermissionChecker::reported(accessibility, screen);
            assert_eq!(checker.check_accessibility_permission(), accessibility);
            assert_eq!(checker.check_screen_recording_permission(), screen);
            let status = checker.check_all_permissions();
            assert_eq!(status.all_granted, accessibility && screen);
            assert_eq!(status.accessibility, accessibility);
            assert_eq!(status.screen_recording, screen);
        }
    }
}

#[test]
fn displays_are_found_by_identifier_and_by_rank() {
    let mut manager = DisplayManager::new().unwrap();
    assert_eq!(manager.get_display_count(), 0);
    assert_eq!(manager.get_main_display(), None);
    assert_eq!(manager.get_display_by_uuid("D1"), None);
    assert!(!manager.display_exists("D1"));
    assert_eq!(manager.resolve_target("D1"), None);

    manager
        .refresh_displays(vec![
            display("D1", "left", false),
            display("D2", "middle", true),
            display("D1", "again", true),
            display("D3", "right", true),
        ])
        .unwrap();
    assert_eq!(manager.get_display_count(), 3);
    assert_eq!(manager.get_displays().len(), 3);
    assert_eq!(manager.get_display_by_uuid("D1").unwrap().name, "left");
    assert_eq!(manager.get_display_by_uuid("D3").unwrap().name, "right");
    assert_eq!(manager.get_main_display().unwrap().uuid, "D2");
    assert!(manager.display_exists("D2"));
    assert!(!manager.display_exists("D4"));
    assert_eq!(manager.resolve_target("D3"), Some(2));
    assert_eq!(manager.resolve_target("D1"), Some(0));
    assert_eq!(manager.resolve_target("gone"), Some(1));

    manager.refresh_displays(vec![display("D9", "only", false)]).unwrap();
    assert_eq!(manager.get_display_count(), 1);
    assert_eq!(manager.get_main_display(), None);
    assert_eq!(manager.resolve_target("gone"), None);
    assert_eq!(manager.resolve_target("D9"), Some(0));
    manager.refresh_displays(vec![]).unwrap();
    assert_eq!(manager.get_display_count(), 0);
}

#[test]
fn result_codes() {
    assert_eq!(result_to_error_code(&Ok(())), 0);
    assert_eq!(ERROR_SUCCESS, 0);
    let cases = [
        (WindowRestoreError::PermissionDenied("p".into()), 1, ERROR_PERMISSION_DENIED),
        (WindowRestoreError::AppNotFound("a".into()), 2, ERROR_APP_NOT_FOUND),
        (WindowRestoreError::WindowNotFound("w".into()), 3, ERROR_WINDOW_NOT_FOUND),
        (WindowRestoreError::DisplayNotFound("d".into()), 4, ERROR_DISPLAY_NOT_FOUND),
        (WindowRestoreError::FileIOError("f".into()), 5, ERROR_FILE_IO),
        (WindowRestoreError::JsonError("j".into()), 6, ERROR_JSON),
        (WindowRestoreError::Validation(ValidationError::EmptyName), 99, ERROR_UNKNOWN),
        (WindowRestoreError::LayoutNotFound("l".into()), 99, ERROR_UNKNOWN),
        (WindowRestoreError::Topology("t".into()), 99, ERROR_UNKNOWN),
    ];
    for (error, code, named) in cases {
        assert_eq!(named, code);
        assert_eq!(result_to_error_code(&Err(error)), code);
    }
    assert_eq!(check_permissions(true), 0);
    assert_eq!(check_permissions(false), 1);
}

#[test]
fn a_scan_is_saved_without_its_faulty_windows() {
    let mut blank = window("B", "");
    blank.title = "  ".to_string();
    let mut huge = window("C", "c");
    huge.frame.width = f64::INFINITY.to_bits();
    let scanned = vec![window("A", "a"), blank, window("D", "d"), huge];
    assert_eq!(retain_sound_windows(scanned.clone()), vec![window("A", "a"), window("D", "d")]);
    assert_eq!(retain_sound_windows(vec![]), vec![]);

    let mut manager = LayoutManager::new().unwrap();
    assert_eq!(save_current_layout(&mut manager, "now", Some(scanned.clone()), "t1"), Ok(()));
    assert_eq!(manager.load_layout("now").unwrap().windows, vec![window("A", "a"), window("D", "d")]);
    assert_eq!(save_current_layout(&mut manager, "failed scan", None, "t2"), Ok(()));
    assert_eq!(manager.load_layout("failed scan").unwrap().windows, vec![]);
    assert_eq!(
        save_current_layout(&mut manager, "a*b", Some(scanned), "t3"),
        Err(WindowRestoreError::Validation(ValidationError::ForbiddenNameCharacter))
    );
    assert_eq!(manager.list_layouts().unwrap(), vec!["failed scan".to_string(), "now".to_string()]);
}

#[test]
fn the_position_script() {
    assert_eq!(
        WindowRestorer::position_script("Editor", 10, -20),
        "tell application \"System Events\"\n  tell process \"Editor\"\n    try\n      set position of first window to {10, -20}\n      return \"OK\"\n    on error errMsg\n      return errMsg\n    end try\n  end tell\nend tell"
    );
    let script = WindowRestorer::position_script("My \"App\"", 0, 0);
    assert!(script.contains("tell process \"My \\\"App\\\"\"\n"));
    assert!(script.contains("to {0, 0}\n"));
}

#[test]
fn the_run_of_a_script_is_read() {
    assert_eq!(WindowRestorer::script_result(true, "OK", ""), ApplyResult::Applied);
    assert_eq!(WindowRestorer::script_result(true, "OK\n", "warning"), ApplyResult::Applied);
    assert_eq!(WindowRestorer::script_result(true, "  all OK \t\n", ""), ApplyResult::Applied);
    assert_eq!(
        WindowRestorer::script_result(true, " no window \n", ""),
        ApplyResult::Failed("AppleScript returned error: no window".to_string())
    );
    assert_eq!(
        WindowRestorer::script_result(true, "", ""),
        ApplyResult::Failed("AppleScript returned error: ".to_string())
    );
    assert_eq!(
        WindowRestorer::script_result(true, "K", ""),
        ApplyResult::Failed("AppleScript returned error: K".to_string())
    );
    assert_eq!(
        WindowRestorer::script_result(true, "ok", ""),
        ApplyResult::Failed("AppleScript returned error: ok".to_string())
    );
    assert_eq!(
        WindowRestorer::script_result(false, "OK", "not allowed"),
        ApplyResult::Failed("AppleScript execution failed: not allowed".to_string())
    );
}

#[test]
fn a_window_without_a_live_match_is_not_found() {
    assert_eq!(WindowRestorer::apply_result(None, ApplyResult::Applied), ApplyResult::WindowNotFound);
    assert_eq!(
        WindowRestorer::apply_result(None, ApplyResult::Failed("x".to_string())),
        ApplyResult::WindowNotFound
    );
    assert_eq!(WindowRestorer::apply_result(Some(3), ApplyResult::Applied), ApplyResult::Applied);
    assert_eq!(
        WindowRestorer::apply_result(Some(0), ApplyResult::Failed("x".to_string())),
        ApplyResult::Failed("x".to_string())
    );
}

#[test]
fn asking_for_a_permission_never_fails() {
    let checker = PermissionChecker::new().unwrap();
    assert_eq!(checker.request_accessibility_permission(), Ok(()));
    assert_eq!(checker.request_screen_recording_permission(), Ok(()));
    assert!(!checker.check_accessibility_permission());
}

#[test]
fn names_are_sorted_as_they_are() {
    let names: Vec<String> =
        ["work", "a/b", "", "Work", "home", "work", " ", "é", "ab", "a"].iter().map(|s| s.to_string()).collect();
    let mut expected = names.clone();
    expected.sort();
    assert_eq!(LayoutManager::sort_names(names), expected);
    assert_eq!(LayoutManager::sort_names(vec![]), Vec::<String>::new());
}

#[test]
fn a_live_window_is_found_by_name_and_title() {
    let live = vec![
        LiveWindow { app_name: "Editor".into(), title: "lib.rs".into() },
        LiveWindow { app_name: "Browser".into(), title: "main.rs".into() },
        LiveWindow { app_name: "Editor".into(), title: "main.rs".into() },
        LiveWindow { app_name: "Editor".into(), title: "main.rs".into() },
    ];
    assert_eq!(WindowRestorer::find_live_window(&live, &window("Editor", "main.rs")), Some(2));
    assert_eq!(WindowRestorer::find_live_window(&live, &window("Editor", "lib.rs")), Some(0));
    assert_eq!(WindowRestorer::find_live_window(&live, &window("Editor", "Main.rs")), None);
    assert_eq!(WindowRestorer::find_live_window(&live, &window("Browser", "lib.rs")), None);
    assert_eq!(WindowRestorer::find_live_window(&vec![], &window("Editor", "main.rs")), None);
}

#[test]
fn the_library_as_one_object() {
    let mut app = WindowRestore::new().unwrap();
    assert!(!app.check_permissions());
    app.report_permissions(true, true);
    assert!(app.check_permissions());
    assert_eq!(app.get_layout_list(), Ok(vec![]));

    let reported = vec![
        RawWindow { owner_name: Some("Editor".into()), owner_pid: Some(7), name: Some("main.rs".into()), bounds: None, layer: Some(0) },
        RawWindow { owner_name: None, owner_pid: None, name: None, bounds: None, layer: None },
    ];
    assert_eq!(app.save_layout("work", &reported), Ok(()));
    assert_eq!(
        app.save_layout("wo?rk", &reported),
        Err(WindowRestoreError::Validation(ValidationError::ForbiddenNameCharacter))
    );
    assert_eq!(app.get_layout_list(), Ok(vec!["work".to_string()]));

    let session = app.restore_layout("work").unwrap();
    assert_eq!(session.action(), RestoreAction::CheckPermission);
    assert_eq!(session.layout().layout_name, "work");
    assert_eq!(session.layout().windows.len(), 2);
    assert_eq!(session.layout().windows[0].bundle_id, "com.app.7");
    assert_eq!(session.layout().windows[1].title, "Untitled");
    let session = session.advance(RestoreEvent::Permission(app.check_permissions()));
    assert_eq!(session.action(), RestoreAction::RefreshDisplays);

    assert_eq!(
        app.restore_layout("home").map(|_| ()),
        Err(WindowRestoreError::LayoutNotFound("home".to_string()))
    );
    assert_eq!(
        app.restore_layout("<").map(|_| ()),
        Err(WindowRestoreError::Validation(ValidationError::ForbiddenNameCharacter))
    );
    assert_eq!(app.delete_layout("work"), Ok(()));
    assert_eq!(app.delete_layout("work"), Err(WindowRestoreError::LayoutNotFound("work".to_string())));
    assert_eq!(app.get_layout_list(), Ok(vec![]));
}

#[test]
fn validation_errors_have_a_text() {
    assert_eq!(ValidationError::EmptyName.message(), "Layout name must not be empty");
    assert_eq!(ValidationError::ForbiddenNameCharacter.message(), "Layout name contains invalid characters");
    let texts = [
        (WindowFault::BlankAppName, "Window app_name must not be empty (window 0)"),
        (WindowFault::BlankBundleId, "Window bundle_id must not be empty (window 0)"),
        (WindowFault::BlankTitle, "Window title must not be empty (window 0)"),
        (WindowFault::InvalidSize, "Window frame has invalid size (window 0)"),
        (WindowFault::InvalidPosition, "Window frame has invalid position (window 0)"),
        (WindowFault::BlankDisplay, "Window display_uuid must not be empty (window 0)"),
    ];
    for (fault, text) in texts {
        assert_eq!(ValidationError::Window { index: 0, fault }.message(), text);
    }
    assert_eq!(
        ValidationError::Window { index: 1234, fault: WindowFault::BlankTitle }.message(),
        "Window title must not be empty (window 1234)"
    );
    let app = WindowRestore::new().unwrap();
    assert_eq!(app.config(), &Config::default());
}
