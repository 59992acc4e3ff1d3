use window_restore::layout_manager::LayoutManager;
use window_restore::window_restorer::Layout;
use window_restore::window_scanner::{WindowFault, WindowFrame, WindowInfo, WindowLevel};
use window_restore::{ValidationError, WindowRestoreError};

fn editor_window() -> WindowInfo {
    WindowInfo {
        app_name: "Editor".to_string(),
        bundle_id: "com.example.editor".to_string(),
        title: "main.rs".to_string(),
        frame: WindowFrame {
            x: 10.0f64.to_bits(),
            y: 20.0f64.to_bits(),
            width: 300.0f64.to_bits(),
            height: 200.0f64.to_bits(),
        },
        display_uuid: "D1".to_string(),
        window_level: WindowLevel::Normal,
        is_minimized: false,
        is_hidden: false,
    }
}

fn titled(title: &str) -> WindowInfo {
    let mut w = editor_window();
    w.title = title.to_string();
    w
}

#[test]
fn scenario_save_list_load_delete() {
    let mut store = LayoutManager::new().unwrap();
    store.save_layout("work", &[editor_window()]).unwrap();
    assert_eq!(store.list_layouts().unwrap(), vec!["work".to_string()]);
    let loaded = store.load_layout("work").unwrap();
    assert_eq!(loaded.layout_name, "work");
    assert_eq!(loaded.windows, vec![editor_window()]);
    assert_eq!(loaded.windows[0].app_name, "Editor");
    assert_eq!(loaded.windows[0].title, "main.rs");
    assert_eq!(f64::from_bits(loaded.windows[0].frame.x), 10.0);
    assert_eq!(f64::from_bits(loaded.windows[0].frame.y), 20.0);
    assert_eq!(f64::from_bits(loaded.windows[0].frame.width), 300.0);
    assert_eq!(f64::from_bits(loaded.windows[0].frame.height), 200.0);
    assert_eq!(loaded.windows[0].display_uuid, "D1");
    store.delete_layout("work").unwrap();
    assert_eq!(store.list_layouts().unwrap(), Vec::<String>::new());
}

#[test]
fn scenario_bad_name_leaves_the_store_unchanged() {
    let mut store = LayoutManager::new().unwrap();
    store.save_layout_at("kept", &[editor_window()], "t0").unwrap();
    let result = store.save_layout("bad/name", &[]);
    assert_eq!(result, Err(WindowRestoreError::Validation(ValidationError::ForbiddenNameCharacter)));
    assert_eq!(store.list_layouts().unwrap(), vec!["kept".to_string()]);
    assert!(!store.layout_exists("bad/name"));
    assert_eq!(store.load_layout("kept").unwrap().updated_at, "t0");
}

#[test]
fn forbidden_names_are_refused_by_save_load_and_delete() {
    for bad in ["a/b", "a\\b", "a:b", "a*b", "a?b", "a\"b", "a<b", "a>b", "a|b"] {
        let mut store = LayoutManager::new().unwrap();
        store.save_layout_at("kept", &[editor_window()], "t0").unwrap();
        let expected = Err(WindowRestoreError::Validation(ValidationError::ForbiddenNameCharacter));
        assert_eq!(store.save_layout_at(bad, &[editor_window()], "t1"), expected);
        assert_eq!(store.load_layout(bad).map(|_| ()), expected);
        assert_eq!(store.delete_layout(bad), expected);
        assert_eq!(store.list_layouts().unwrap(), vec!["kept".to_string()]);
    }
}

#[test]
fn a_blank_name_is_refused() {
    let mut store = LayoutManager::new().unwrap();
    let expected = Err(WindowRestoreError::Validation(ValidationError::EmptyName));
    assert_eq!(store.save_layout_at("", &[], "t"), expected);
    assert_eq!(store.save_layout_at("   ", &[], "t"), expected);
    assert_eq!(store.delete_layout(""), expected);
    assert_eq!(store.load_layout(" ").map(|_| ()), expected);
    assert_eq!(store.list_layouts().unwrap().len(), 0);
}

#[test]
fn a_faulty_window_stops_the_save() {
    let mut store = LayoutManager::new().unwrap();
    store.save_layout_at("work", &[editor_window()], "t0").unwrap();
    for bad in [f64::NAN, f64::INFINITY, -1.0] {
        let mut w = editor_window();
        w.frame.width = bad.to_bits();
        let result = store.save_layout_at("work", &[editor_window(), w], "t1");
        assert_eq!(
            result,
            Err(WindowRestoreError::Validation(ValidationError::Window {
                index: 1,
                fault: WindowFault::InvalidSize
            }))
        );
        let kept = store.load_layout("work").unwrap();
        assert_eq!(kept.updated_at, "t0");
        assert_eq!(kept.windows.len(), 1);
    }
}

#[test]
fn a_second_save_keeps_the_creation_time() {
    let mut store = LayoutManager::new().unwrap();
    store.save_layout_at("work", &[titled("one")], "2024-01-01T00:00:00+00:00").unwrap();
    let first = store.load_layout("work").unwrap();
    assert_eq!(first.created_at, "2024-01-01T00:00:00+00:00");
    assert_eq!(first.updated_at, "2024-01-01T00:00:00+00:00");
    store.save_layout_at("work", &[titled("two"), titled("three")], "2024-06-01T12:00:00+00:00").unwrap();
    let second = store.load_layout("work").unwrap();
    assert_eq!(second.created_at, "2024-01-01T00:00:00+00:00");
    assert_eq!(second.updated_at, "2024-06-01T12:00:00+00:00");
    assert!(second.updated_at > first.updated_at);
    assert_eq!(second.windows, vec![titled("two"), titled("three")]);
    assert_eq!(store.list_layouts().unwrap(), vec!["work".to_string()]);
}

#[test]
fn a_save_by_the_clock_sets_both_times() {
    let mut store = LayoutManager::new().unwrap();
    store.save_layout("work", &[editor_window()]).unwrap();
    let first = store.load_layout("work").unwrap();
    assert!(!first.created_at.is_empty());
    assert_eq!(first.created_at, first.updated_at);
    assert!(first.created_at.contains('T'));
    store.save_layout("work", &[]).unwrap();
    let second = store.load_layout("work").unwrap();
    assert_eq!(second.created_at, first.created_at);
    assert!(second.updated_at >= first.updated_at);
    assert_eq!(second.windows.len(), 0);
}

#[test]
fn the_order_of_the_windows_is_kept() {
    let mut store = LayoutManager::new().unwrap();
    let windows = vec![titled("c"), titled("a"), titled("b"), titled("a")];
    store.save_layout_at("work", &windows, "t").unwrap();
    assert_eq!(store.load_layout("work").unwrap().windows, windows);
}

#[test]
fn names_are_listed_in_ascending_order() {
    let mut store = LayoutManager::new().unwrap();
    for name in ["work", "home", "Work", "a", "zz", "ab", "é", "home2"] {
        store.save_layout_at(name, &[], "t").unwrap();
    }
    let mut expected: Vec<String> =
        ["work", "home", "Work", "a", "zz", "ab", "é", "home2"].iter().map(|s| s.to_string()).collect();
    expected.sort();
    assert_eq!(store.list_layouts().unwrap(), expected);
    store.delete_layout("a").unwrap();
    store.delete_layout("zz").unwrap();
    expected.retain(|n| n != "a" && n != "zz");
    assert_eq!(store.list_layouts().unwrap(), expected);
}

#[test]
fn an_empty_store_lists_nothing() {
    let store = LayoutManager::new().unwrap();
    assert_eq!(store.list_layouts(), Ok(vec![]));
}

#[test]
fn delete_of_an_absent_name_is_not_found() {
    let mut store = LayoutManager::new().unwrap();
    assert_eq!(store.delete_layout("work"), Err(WindowRestoreError::LayoutNotFound("work".to_string())));
    store.save_layout_at("home", &[], "t").unwrap();
    assert_eq!(store.delete_layout("work"), Err(WindowRestoreError::LayoutNotFound("work".to_string())));
    assert_eq!(store.list_layouts().unwrap(), vec!["home".to_string()]);
    store.delete_layout("home").unwrap();
    assert_eq!(store.delete_layout("home"), Err(WindowRestoreError::LayoutNotFound("home".to_string())));
}

#[test]
fn load_of_an_absent_name_is_not_found() {
    let mut store = LayoutManager::new().unwrap();
    assert_eq!(
        store.load_layout("work").map(|_| ()),
        Err(WindowRestoreError::LayoutNotFound("work".to_string()))
    );
    store.save_layout_at("work", &[], "t").unwrap();
    assert!(store.load_layout("work").is_ok());
    assert_eq!(
        store.load_layout("Work").map(|_| ()),
        Err(WindowRestoreError::LayoutNotFound("Work".to_string()))
    );
}

#[test]
fn exists_never_fails() {
    let mut store = LayoutManager::new().unwrap();
    assert!(!store.layout_exists("work"));
    assert!(!store.layout_exists("bad/name"));
    assert!(!store.layout_exists(""));
    store.save_layout_at("work", &[], "t").unwrap();
    assert!(store.layout_exists("work"));
    assert!(!store.layout_exists("wor"));
    assert!(!store.layout_exists("work "));
}

#[test]
fn a_record_from_storage_is_checked_and_filed() {
    let mut store = LayoutManager::new().unwrap();
    let record = Layout {
        layout_name: "work".to_string(),
        created_at: "c".to_string(),
        updated_at: "u".to_string(),
        windows: vec![editor_window()],
    };
    assert_eq!(store.import_layout(record.clone()), Ok(()));
    assert_eq!(store.load_layout("work").unwrap(), record);

    let mut broken = record.clone();
    broken.layout_name = "other".to_string();
    broken.windows[0].display_uuid = "".to_string();
    assert_eq!(
        store.import_layout(broken),
        Err(WindowRestoreError::Validation(ValidationError::Window {
            index: 0,
            fault: WindowFault::BlankDisplay
        }))
    );
    assert_eq!(store.list_layouts().unwrap(), vec!["work".to_string()]);

    let mut newer = record.clone();
    newer.updated_at = "u2".to_string();
    newer.windows.clear();
    store.import_layout(newer.clone()).unwrap();
    assert_eq!(store.load_layout("work").unwrap(), newer);
    store.save_layout_at("work", &[editor_window()], "now").unwrap();
    let saved = store.load_layout("work").unwrap();
    assert_eq!(saved.created_at, "c");
    assert_eq!(saved.updated_at, "now");
}

#[test]
fn where_the_data_lives() {
    assert_eq!(
        LayoutManager::get_layouts_dir(Some("/data".to_string()), Some("/home/u/.local/share".to_string()), "/cwd".to_string()),
        vec!["/data".to_string(), "layouts".to_string()]
    );
    assert_eq!(
        LayoutManager::get_layouts_dir(None, Some("/home/u/.local/share".to_string()), "/cwd".to_string()),
        vec!["/home/u/.local/share".to_string(), "window_restore".to_string(), "layouts".to_string()]
    );
    assert_eq!(
        LayoutManager::get_layouts_dir(None, None, "/cwd".to_string()),
        vec!["/cwd".to_string(), "target".to_string(), "window_restore".to_string(), "layouts".to_string()]
    );
    assert_eq!(LayoutManager::layout_file_name("work"), "work.json");
}
