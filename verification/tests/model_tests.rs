use window_restore::layout_manager::LayoutManager;
use window_restore::window_restorer::Layout;
use window_restore::window_scanner::{
    RawBounds, RawWindow, Visibility, WindowFault, WindowFrame, WindowInfo, WindowLevel,
    WindowScanner,
};
use window_restore::ValidationError;

fn frame(x: f64, y: f64, width: f64, height: f64) -> WindowFrame {
    WindowFrame { x: x.to_bits(), y: y.to_bits(), width: width.to_bits(), height: height.to_bits() }
}

fn window(app: &str, title: &str) -> WindowInfo {
    WindowInfo {
        app_name: app.to_string(),
        bundle_id: format!("com.example.{}", app),
        title: title.to_string(),
        frame: frame(10.0, 20.0, 300.0, 200.0),
        display_uuid: "D1".to_string(),
        window_level: WindowLevel::Normal,
        is_minimized: false,
        is_hidden: false,
    }
}

fn layout(name: &str, windows: Vec<WindowInfo>) -> Layout {
    Layout {
        layout_name: name.to_string(),
        created_at: "2024-01-01T00:00:00+00:00".to_string(),
        updated_at: "2024-01-01T00:00:00+00:00".to_string(),
        windows,
    }
}

#[test]
fn unknown_raw_levels_are_normal() {
    assert_eq!(WindowLevel::from_raw(0), WindowLevel::Normal);
    assert_eq!(WindowLevel::from_raw(3), WindowLevel::Floating);
    assert_eq!(WindowLevel::from_raw(8), WindowLevel::Modal);
    assert_eq!(WindowLevel::from_raw(20), WindowLevel::Dock);
    for raw in [-1, 1, 2, 4, 7, 9, 19, 21, 1000, i32::MIN, i32::MAX] {
        assert_eq!(WindowLevel::from_raw(raw), WindowLevel::Normal);
    }
    for level in [WindowLevel::Normal, WindowLevel::Floating, WindowLevel::Modal, WindowLevel::Dock] {
        assert_eq!(WindowLevel::from_raw(level.raw()), level);
    }
    assert_eq!(WindowLevel::Dock.raw(), 20);
}

#[test]
fn minimized_wins_over_hidden() {
    let mut w = window("Editor", "main.rs");
    assert_eq!(w.visibility(), Visibility::Shown);
    w.is_hidden = true;
    assert_eq!(w.visibility(), Visibility::Hidden);
    w.is_minimized = true;
    assert_eq!(w.visibility(), Visibility::Minimized);
    w.is_hidden = false;
    assert_eq!(w.visibility(), Visibility::Minimized);
}

#[test]
fn a_well_formed_window_breaks_no_rule() {
    assert_eq!(window("Editor", "main.rs").check(), None);
    let mut zero = window("Editor", "main.rs");
    zero.frame = frame(-5.5, -0.0, 0.0, -0.0);
    assert_eq!(zero.check(), None);
}

#[test]
fn each_window_rule_is_reported() {
    let mut w = window("Editor", "main.rs");
    w.app_name = "  ".to_string();
    assert_eq!(w.check(), Some(WindowFault::BlankAppName));

    let mut w = window("Editor", "main.rs");
    w.title = "".to_string();
    assert_eq!(w.check(), Some(WindowFault::BlankTitle));

    for bad in [f64::NAN, f64::INFINITY, f64::NEG_INFINITY, -1.0, -0.001] {
        let mut w = window("Editor", "main.rs");
        w.frame.width = bad.to_bits();
        assert_eq!(w.check(), Some(WindowFault::InvalidSize), "width {}", bad);
        let mut w = window("Editor", "main.rs");
        w.frame.height = bad.to_bits();
        assert_eq!(w.check(), Some(WindowFault::InvalidSize), "height {}", bad);
    }

    for bad in [f64::NAN, f64::INFINITY, f64::NEG_INFINITY] {
        let mut w = window("Editor", "main.rs");
        w.frame.x = bad.to_bits();
        assert_eq!(w.check(), Some(WindowFault::InvalidPosition));
        let mut w = window("Editor", "main.rs");
        w.frame.y = bad.to_bits();
        assert_eq!(w.check(), Some(WindowFault::InvalidPosition));
    }

    let mut w = window("Editor", "main.rs");
    w.display_uuid = "\t".to_string();
    assert_eq!(w.check(), Some(WindowFault::BlankDisplay));
}

#[test]
fn the_rules_are_checked_in_order() {
    let mut w = window("Editor", "main.rs");
    w.app_name = "".to_string();
    w.bundle_id = " ".to_string();
    w.title = "".to_string();
    w.frame.width = f64::NAN.to_bits();
    w.frame.x = f64::NAN.to_bits();
    w.display_uuid = "".to_string();
    assert_eq!(w.check(), Some(WindowFault::BlankAppName));
    w.app_name = "Editor".to_string();
    assert_eq!(w.check(), Some(WindowFault::BlankBundleId));
    w.bundle_id = "com.example.editor".to_string();
    assert_eq!(w.check(), Some(WindowFault::BlankTitle));
    w.title = "main.rs".to_string();
    assert_eq!(w.check(), Some(WindowFault::InvalidSize));
    w.frame.width = 1.0f64.to_bits();
    assert_eq!(w.check(), Some(WindowFault::InvalidPosition));
    w.frame.x = 1.0f64.to_bits();
    assert_eq!(w.check(), Some(WindowFault::BlankDisplay));
    w.display_uuid = "D1".to_string();
    assert_eq!(w.check(), None);
}

#[test]
fn a_blank_bundle_id_is_refused() {
    for blank in ["", " ", "\t\u{3000}"] {
        let mut w = window("Editor", "main.rs");
        w.bundle_id = blank.to_string();
        assert_eq!(w.check(), Some(WindowFault::BlankBundleId));
        let lm = LayoutManager::new().unwrap();
        assert_eq!(
            lm.validate_layout(&layout("work", vec![window("A", "a"), w])),
            Err(ValidationError::Window { index: 1, fault: WindowFault::BlankBundleId })
        );
    }
}

#[test]
fn layout_names_are_checked() {
    assert_eq!(LayoutManager::validate_layout_name("work"), Ok(()));
    assert_eq!(LayoutManager::validate_layout_name("my layout 2"), Ok(()));
    assert_eq!(LayoutManager::validate_layout_name(""), Err(ValidationError::EmptyName));
    assert_eq!(LayoutManager::validate_layout_name(" \t"), Err(ValidationError::EmptyName));
    assert_eq!(
        LayoutManager::validate_layout_name("bad/name"),
        Err(ValidationError::ForbiddenNameCharacter)
    );
    assert_eq!(LayoutManager::validate_layout_name(" / "), Err(ValidationError::ForbiddenNameCharacter));
}

#[test]
fn the_first_faulty_window_is_reported_with_its_index() {
    let lm = LayoutManager::new().unwrap();
    let good = layout("work", vec![window("A", "a"), window("B", "b")]);
    assert_eq!(lm.validate_layout(&good), Ok(()));
    assert_eq!(lm.validate_layout(&layout("work", vec![])), Ok(()));

    let mut second = window("B", "b");
    second.title = " ".to_string();
    let mut third = window("C", "c");
    third.app_name = "".to_string();
    let bad = layout("work", vec![window("A", "a"), second, third]);
    assert_eq!(
        lm.validate_layout(&bad),
        Err(ValidationError::Window { index: 1, fault: WindowFault::BlankTitle })
    );

    let mut third = window("C", "c");
    third.frame.height = (-2.0f64).to_bits();
    let bad = layout("work", vec![window("A", "a"), window("B", "b"), third]);
    assert_eq!(
        lm.validate_layout(&bad),
        Err(ValidationError::Window { index: 2, fault: WindowFault::InvalidSize })
    );
}

#[test]
fn the_name_is_checked_before_the_windows() {
    let lm = LayoutManager::new().unwrap();
    let mut w = window("A", "a");
    w.title = "".to_string();
    assert_eq!(lm.validate_layout(&layout("a:b", vec![w])), Err(ValidationError::ForbiddenNameCharacter));
    let mut w = window("A", "a");
    w.title = "".to_string();
    assert_eq!(lm.validate_layout(&layout("  ", vec![w])), Err(ValidationError::EmptyName));
}

#[test]
fn a_full_description_becomes_a_record() {
    let raw = RawWindow {
        owner_name: Some("Safari".to_string()),
        owner_pid: Some(4321),
        name: Some("Start Page".to_string()),
        bounds: Some(RawBounds {
            x: Some(1.5f64.to_bits()),
            y: Some(2.0f64.to_bits()),
            width: Some(800.0f64.to_bits()),
            height: Some(600.0f64.to_bits()),
        }),
        layer: Some(3),
    };
    let w = WindowScanner::parse_window(&raw);
    assert_eq!(w.app_name, "Safari");
    assert_eq!(w.bundle_id, "com.app.4321");
    assert_eq!(w.title, "Start Page");
    assert_eq!(w.frame, frame(1.5, 2.0, 800.0, 600.0));
    assert_eq!(w.display_uuid, "main");
    assert_eq!(w.window_level, WindowLevel::Floating);
    assert!(!w.is_minimized);
    assert!(!w.is_hidden);
}

#[test]
fn what_a_description_lacks_is_filled_in() {
    let raw = RawWindow { owner_name: None, owner_pid: None, name: None, bounds: None, layer: None };
    let w = WindowScanner::parse_window(&raw);
    assert_eq!(w.app_name, "Unknown");
    assert_eq!(w.bundle_id, "unknown");
    assert_eq!(w.title, "Untitled");
    assert_eq!(w.frame, frame(0.0, 0.0, 0.0, 0.0));
    assert_eq!(w.frame, WindowFrame { x: 0, y: 0, width: 0, height: 0 });
    assert_eq!(w.window_level, WindowLevel::Normal);
    assert_eq!(w.check(), None);

    let partial = RawBounds { x: None, y: Some(7.0f64.to_bits()), width: None, height: Some(9.0f64.to_bits()) };
    assert_eq!(WindowScanner::parse_bounds(&partial), frame(0.0, 7.0, 0.0, 9.0));

    let negative_pid = RawWindow { owner_name: None, owner_pid: Some(-7), name: None, bounds: None, layer: Some(99) };
    let w = WindowScanner::parse_window(&negative_pid);
    assert_eq!(w.bundle_id, "com.app.-7");
    assert_eq!(w.window_level, WindowLevel::Normal);
}

#[test]
fn a_scan_keeps_the_order_of_the_report() {
    let scanner = WindowScanner::new().unwrap();
    let reported = vec![
        RawWindow { owner_name: Some("A".into()), owner_pid: Some(1), name: Some("one".into()), bounds: None, layer: Some(0) },
        RawWindow { owner_name: Some("B".into()), owner_pid: Some(2), name: None, bounds: None, layer: Some(8) },
        RawWindow { owner_name: None, owner_pid: Some(3), name: Some("three".into()), bounds: None, layer: None },
    ];
    let windows = scanner.scan_windows(&reported);
    assert_eq!(windows.len(), 3);
    assert_eq!(windows[0].title, "one");
    assert_eq!(windows[1].title, "Untitled");
    assert_eq!(windows[1].window_level, WindowLevel::Modal);
    assert_eq!(windows[2].app_name, "Unknown");
    assert_eq!(windows[2].bundle_id, "com.app.3");
    assert_eq!(scanner.scan_windows(&vec![]).len(), 0);
}

#[test]
fn a_copy_of_a_layout_equals_it() {
    let l = layout("work", vec![window("A", "a"), window("B", "b")]);
    assert_eq!(l.clone(), l);
}
