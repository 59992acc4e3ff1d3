//! What the foreign interface needs of the library: the result codes, and
//! the save of a scan.

use vstd::prelude::*;

use crate::layout_manager::{saved, store_well_formed, LayoutManager};
use crate::window_restorer::layout_fault;
use crate::window_scanner::{window_views, WindowInfo, WindowInfoView};
use crate::WindowRestoreError;

verus! {

/// The code of a call that succeeded.
pub const ERROR_SUCCESS: i32 = 0;

/// The code of a missing permission.
pub const ERROR_PERMISSION_DENIED: i32 = 1;

/// The code of an application that was not found.
pub const ERROR_APP_NOT_FOUND: i32 = 2;

/// The code of a window that was not found.
pub const ERROR_WINDOW_NOT_FOUND: i32 = 3;

/// The code of a display that was not found.
pub const ERROR_DISPLAY_NOT_FOUND: i32 = 4;

/// The code of a failed read or write.
pub const ERROR_FILE_IO: i32 = 5;

/// The code of a record that could not be encoded or decoded.
pub const ERROR_JSON: i32 = 6;

/// The code of every error that has no code of its own.
pub const ERROR_UNKNOWN: i32 = 99;

/// The code that stands for an error.
pub open spec fn code_of(error: WindowRestoreError) -> i32 {
    match error {
        WindowRestoreError::PermissionDenied(_) => ERROR_PERMISSION_DENIED,
        WindowRestoreError::AppNotFound(_) => ERROR_APP_NOT_FOUND,
        WindowRestoreError::WindowNotFound(_) => ERROR_WINDOW_NOT_FOUND,
        WindowRestoreError::DisplayNotFound(_) => ERROR_DISPLAY_NOT_FOUND,
        WindowRestoreError::FileIOError(_) => ERROR_FILE_IO,
        WindowRestoreError::JsonError(_) => ERROR_JSON,
        WindowRestoreError::Validation(_) => ERROR_UNKNOWN,
        WindowRestoreError::LayoutNotFound(_) => ERROR_UNKNOWN,
        WindowRestoreError::Topology(_) => ERROR_UNKNOWN,
    }
}

/// The code that stands for the result of a call: zero for success, else
/// the code of the error.
pub fn result_to_error_code(result: &Result<(), WindowRestoreError>) -> (code: i32)
    ensures
        code == match *result {
            Ok(_) => ERROR_SUCCESS,
            Err(e) => code_of(e),
        },
        code == ERROR_SUCCESS <==> *result is Ok,
{
    match result {
        Ok(_) => ERROR_SUCCESS,
        Err(e) => match e {
            WindowRestoreError::PermissionDenied(_) => ERROR_PERMISSION_DENIED,
            WindowRestoreError::AppNotFound(_) => ERROR_APP_NOT_FOUND,
            WindowRestoreError::WindowNotFound(_) => ERROR_WINDOW_NOT_FOUND,
            WindowRestoreError::DisplayNotFound(_) => ERROR_DISPLAY_NOT_FOUND,
            WindowRestoreError::FileIOError(_) => ERROR_FILE_IO,
            WindowRestoreError::JsonError(_) => ERROR_JSON,
            WindowRestoreError::Validation(_) => ERROR_UNKNOWN,
            WindowRestoreError::LayoutNotFound(_) => ERROR_UNKNOWN,
            WindowRestoreError::Topology(_) => ERROR_UNKNOWN,
        },
    }
}

/// The code that stands for the state of the permission to control windows.
pub fn check_permissions(granted: bool) -> (code: i32)
    ensures
        code == if granted {
            ERROR_SUCCESS
        } else {
            ERROR_PERMISSION_DENIED
        },
{
    if granted {
        ERROR_SUCCESS
    } else {
        ERROR_PERMISSION_DENIED
    }
}

/// The windows that break no rule, in order.
pub open spec fn sound_windows(windows: Seq<WindowInfoView>) -> Seq<WindowInfoView>
    decreases windows.len(),
{
    if windows.len() == 0 {
        Seq::empty()
    } else if windows.last().fault() is None {
        sound_windows(windows.drop_last()).push(windows.last())
    } else {
        sound_windows(windows.drop_last())
    }
}

/// What is saved of a scan: its windows that break no rule, and nothing
/// where the scan failed.
pub open spec fn scan_to_save(scanned: Option<Vec<WindowInfo>>) -> Seq<WindowInfoView> {
    match scanned {
        Some(windows) => sound_windows(window_views(windows@)),
        None => Seq::empty(),
    }
}

/// `sound_windows` keeps well-formed windows only, so that a save of them
/// fails for the name alone.
pub proof fn lemma_sound_windows(windows: Seq<WindowInfoView>)
    ensures
        sound_windows(windows).len() <= windows.len(),
        forall|i: int|
            0 <= i < sound_windows(windows).len() ==> (#[trigger] sound_windows(windows)[i]).fault()
                is None,
    decreases windows.len(),
{
    if windows.len() > 0 {
        lemma_sound_windows(windows.drop_last());
    }
}

/// The windows of `windows` that break no rule, in order.
pub fn retain_sound_windows(windows: Vec<WindowInfo>) -> (kept: Vec<WindowInfo>)
    ensures
        window_views(kept@) == sound_windows(window_views(windows@)),
{
    let ghost views = window_views(windows@);
    let mut kept: Vec<WindowInfo> = Vec::new();
    let n = windows.len();
    for i in 0..n
        invariant
            n == windows.len(),
            views == window_views(windows@),
            window_views(kept@) == sound_windows(views.take(i as int)),
    {
        proof {
            assert(views.take(i + 1).drop_last() == views.take(i as int));
            assert(views.take(i + 1).last() == windows[i as int]@);
        }
        if windows[i].check().is_none() {
            kept.push(windows[i].clone());
            assert(window_views(kept@) =~= sound_windows(views.take(i as int)).push(
                windows[i as int]@,
            ));
        }
    }
    assert(views.take(n as int) == views);
    kept
}

/// Saves the scan of the screen under `name` at the time `now`. Windows
/// that break a rule are left out, and a scan that failed is saved as a
/// layout without windows, so only the name can make the save fail.
pub fn save_current_layout(
    manager: &mut LayoutManager,
    name: &str,
    scanned: Option<Vec<WindowInfo>>,
    now: &str,
) -> (r: Result<(), WindowRestoreError>)
    ensures
        final(manager)@ == saved(old(manager)@, name@, scan_to_save(scanned), now@),
        store_well_formed(final(manager)@),
        r is Ok <==> layout_fault(name@, scan_to_save(scanned)) is None,
        r matches Err(e) ==> e matches WindowRestoreError::Validation(v) && layout_fault(
            name@,
            scan_to_save(scanned),
        ) == Some(v),
{
    let windows = match scanned {
        Some(found) => retain_sound_windows(found),
        None => {
            let none: Vec<WindowInfo> = Vec::new();
            assert(window_views(none@) =~= Seq::<WindowInfoView>::empty());
            none
        },
    };
    manager.save_layout_at(name, windows.as_slice(), now)
}

} // verus!
