use window_restore::app_launcher::AppLauncher;
use window_restore::config::Config;
use window_restore::display_manager::DisplayManager;
use window_restore::layout_manager::LayoutManager;
use window_restore::notification::NotificationManager;
use window_restore::permission_checker::PermissionChecker;
use window_restore::window_scanner::WindowInfo;
use window_restore::WindowRestore;

#[test]
fn test_window_restore_creation() {
    let app = WindowRestore::new();
    assert!(app.is_ok());
}

#[test]
fn test_config_default() {
    let config = Config::default();
    assert_eq!(config.auto_restore, false);
    assert_eq!(config.display_change_detection, true);
    assert!(config.exclude_apps.contains(&"com.apple.finder".to_string()));
}

#[test]
fn test_layout_manager_creation() {
    let manager = LayoutManager::new();
    assert!(manager.is_ok());
}

#[test]
fn test_layout_name_validation() {
    let mut lm = LayoutManager::new().expect("layout manager");
    let windows: Vec<WindowInfo> = vec![];

    let res = lm.save_layout(" ", &windows);
    assert!(res.is_err());

    for bad in ["a/b", "a\\b", "a:b", "a*b", "a?b", "a\"b", "a<b", "a>b", "a|b"] {
        let res = lm.save_layout(bad, &windows);
        assert!(res.is_err(), "should fail for name: {}", bad);
    }
}

#[test]
fn test_config_validation_bounds() {
    let mut cfg = Config::default();
    cfg.restore_delay_ms = 120_000;
    assert!(cfg.validate().is_err());
    cfg.restore_delay_ms = 1_000;

    cfg.max_retry_attempts = 99;
    assert!(cfg.validate().is_err());
    cfg.max_retry_attempts = 3;

    cfg.scan_interval_ms = 0;
    assert!(cfg.validate().is_err());
    cfg.scan_interval_ms = 5_000;

    cfg.max_memory_usage_mb = 0;
    assert!(cfg.validate().is_err());
    cfg.max_memory_usage_mb = 50;

    cfg.exclude_apps.push(" ".into());
    assert!(cfg.validate().is_err());
}

#[test]
fn test_permission_checker_creation() {
    let checker = PermissionChecker::new();
    assert!(checker.is_ok());
}

#[test]
fn test_notification_manager_creation() {
    let manager = NotificationManager::new();
    assert!(manager.is_ok());
}

#[test]
fn test_app_launcher_creation() {
    let launcher = AppLauncher::new();
    assert!(launcher.is_ok());
}

#[test]
fn test_display_manager_creation() {
    let manager = DisplayManager::new();
    assert!(manager.is_ok());
}
