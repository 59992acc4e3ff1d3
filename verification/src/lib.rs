//! Verified core of a window layout save-and-restore utility.
//!
//! The library holds the snapshot model, the rules that keep snapshots well
//! formed, the snapshot store and the decisions of a restoration. Reading the
//! screen, launching applications, moving windows and touching the disk are
//! left to the caller, which hands the library plain values and acts on the
//! plain values it gets back.

use vstd::prelude::*;
use vstd::string::StringExecFns;

pub mod app_launcher;
pub mod binary64;
pub mod config;
pub mod display_manager;
pub mod ffi;
pub mod layout_manager;
pub mod notification;
pub mod permission_checker;
pub mod text;
pub mod window_restorer;
pub mod window_scanner;

use crate::config::Config;
use crate::layout_manager::{saved, store_well_formed, LayoutManager, StoreView};
use crate::permission_checker::PermissionChecker;
use crate::text::{decimal, unsigned_decimal_string};
use crate::window_restorer::{
    layout_fault, name_fault, valid_name, RestoreSession, SessionView, WindowRestorer,
};
use crate::window_scanner::{parsed_windows, RawWindow, WindowFault, WindowScanner};

verus! {

/// The rule that a layout breaks, with what is needed to find the place.
#[derive(Debug, Clone, Copy, PartialEq, Eq, Structural)]
pub enum ValidationError {
    /// The layout name is empty or white space.
    EmptyName,
    /// The layout name holds a path separator or one of `: * ? " < > |`.
    ForbiddenNameCharacter,
    /// The window at `index` breaks the rule `fault`.
    Window { index: usize, fault: WindowFault },
}

/// What is said of a window that breaks a rule.
pub open spec fn fault_text(fault: WindowFault) -> Seq<char> {
    match fault {
        WindowFault::BlankAppName => "Window app_name must not be empty"@,
        WindowFault::BlankBundleId => "Window bundle_id must not be empty"@,
        WindowFault::BlankTitle => "Window title must not be empty"@,
        WindowFault::InvalidSize => "Window frame has invalid size"@,
        WindowFault::InvalidPosition => "Window frame has invalid position"@,
        WindowFault::BlankDisplay => "Window display_uuid must not be empty"@,
    }
}

impl ValidationError {
    /// The text of the error: the rule, and for a window its index.
    pub open spec fn text(self) -> Seq<char> {
        match self {
            ValidationError::EmptyName => "Layout name must not be empty"@,
            ValidationError::ForbiddenNameCharacter => "Layout name contains invalid characters"@,
            ValidationError::Window { index, fault } => fault_text(fault) + " (window "@ + decimal(
                index as int,
            ) + ")"@,
        }
    }

    /// The text of the error, for a reader.
    pub fn message(&self) -> (r: String)
        ensures
            r@ == self.text(),
    {
        match self {
            ValidationError::EmptyName => String::from_str("Layout name must not be empty"),
            ValidationError::ForbiddenNameCharacter => String::from_str(
                "Layout name contains invalid characters",
            ),
            ValidationError::Window { index, fault } => {
                let mut text = match fault {
                    WindowFault::BlankAppName => String::from_str(
                        "Window app_name must not be empty",
                    ),
                    WindowFault::BlankBundleId => String::from_str(
                        "Window bundle_id must not be empty",
                    ),
                    WindowFault::BlankTitle => String::from_str("Window title must not be empty"),
                    WindowFault::InvalidSize => String::from_str("Window frame has invalid size"),
                    WindowFault::InvalidPosition => String::from_str(
                        "Window frame has invalid position",
                    ),
                    WindowFault::BlankDisplay => String::from_str(
                        "Window display_uuid must not be empty",
                    ),
                };
                text.append(" (window ");
                text.append(unsigned_decimal_string(*index as u64).as_str());
                text.append(")");
                text
            },
        }
    }
}

/// What can go wrong in a call of the library.
#[derive(Debug, PartialEq, Eq)]
pub enum WindowRestoreError {
    /// A permission that the call needs has not been granted.
    PermissionDenied(String),
    AppNotFound(String),
    WindowNotFound(String),
    DisplayNotFound(String),
    /// Reading or writing a record failed.
    FileIOError(String),
    /// A record could not be encoded or decoded.
    JsonError(String),
    /// A layout name or a window breaks a rule.
    Validation(ValidationError),
    /// The store holds no layout of this name.
    LayoutNotFound(String),
    /// The displays could not be read.
    Topology(String),
}

/// The library as one object: the settings, the store, the scanner, the
/// orchestrator and the permissions.
pub struct WindowRestore {
    config: Config,
    layout_manager: LayoutManager,
    window_scanner: WindowScanner,
    window_restorer: WindowRestorer,
    permission_checker: PermissionChecker,
}

impl WindowRestore {
    /// The layouts that are stored.
    pub closed spec fn layouts(&self) -> StoreView {
        self.layout_manager@
    }

    /// The settings.
    pub closed spec fn settings(&self) -> config::ConfigView {
        self.config@
    }

    /// The permissions as they were last reported.
    pub closed spec fn permissions(&self) -> PermissionChecker {
        self.permission_checker
    }

    /// The policy under which layouts are restored.
    pub closed spec fn policy(&self) -> window_restorer::RestorePolicy {
        self.window_restorer.policy()
    }

    /// The library with the standard settings, an empty store, and no
    /// report of the permissions yet.
    pub fn new() -> (r: Result<Self, WindowRestoreError>)
        ensures
            r is Ok,
            r->Ok_0.layouts() == Map::<Seq<char>, window_restorer::LayoutView>::empty(),
            r->Ok_0.permissions() == (PermissionChecker {
                accessibility: false,
                screen_recording: true,
            }),
            r->Ok_0.policy() == window_restorer::RestorePolicy::standard(),
            r->Ok_0.settings() == config::ConfigView::standard(),
    {
        let layout_manager = match LayoutManager::new() {
            Ok(m) => m,
            Err(e) => {
                return Err(e);
            },
        };
        let window_scanner = match WindowScanner::new() {
            Ok(s) => s,
            Err(e) => {
                return Err(e);
            },
        };
        let window_restorer = match WindowRestorer::new() {
            Ok(r) => r,
            Err(e) => {
                return Err(e);
            },
        };
        let permission_checker = match PermissionChecker::new() {
            Ok(c) => c,
            Err(e) => {
                return Err(e);
            },
        };
        Ok(
            WindowRestore {
                config: Config::default(),
                layout_manager,
                window_scanner,
                window_restorer,
                permission_checker,
            },
        )
    }

    /// The settings.
    pub fn config(&self) -> (r: &Config)
        ensures
            r@ == self.settings(),
    {
        &self.config
    }

    /// Takes in what the platform reports of the permissions.
    pub fn report_permissions(&mut self, accessibility: bool, screen_recording: bool)
        ensures
            final(self).permissions() == (PermissionChecker { accessibility, screen_recording }),
            final(self).layouts() == old(self).layouts(),
            final(self).policy() == old(self).policy(),
            final(self).settings() == old(self).settings(),
    {
        self.permission_checker = PermissionChecker::reported(accessibility, screen_recording);
    }

    /// Takes in a record that was read from storage, as the store does.
    pub fn import_layout(&mut self, layout: window_restorer::Layout) -> (r: Result<
        (),
        WindowRestoreError,
    >)
        ensures
            r is Ok <==> layout@.well_formed(),
            r is Ok ==> final(self).layouts() == old(self).layouts().insert(
                layout@.layout_name,
                layout@,
            ),
            r is Err ==> final(self).layouts() == old(self).layouts(),
            final(self).permissions() == old(self).permissions(),
            final(self).policy() == old(self).policy(),
            final(self).settings() == old(self).settings(),
    {
        self.layout_manager.import_layout(layout)
    }

    /// Saves the windows that the window server reported under `name`, at
    /// the current time. The report becomes window records first; then the
    /// save is that of the store.
    pub fn save_layout(&mut self, name: &str, reported: &Vec<RawWindow>) -> (r: Result<
        (),
        WindowRestoreError,
    >)
        ensures
            r is Ok <==> layout_fault(name@, parsed_windows(reported@)) is None,
            r matches Err(e) ==> e matches WindowRestoreError::Validation(v) && layout_fault(
                name@,
                parsed_windows(reported@),
            ) == Some(v),
            r is Err ==> final(self).layouts() == old(self).layouts(),
            r is Ok ==> final(self).layouts().contains_key(name@) && final(self).layouts() == saved(
                old(self).layouts(),
                name@,
                parsed_windows(reported@),
                final(self).layouts()[name@].updated_at,
            ),
            store_well_formed(final(self).layouts()),
            final(self).permissions() == old(self).permissions(),
            final(self).policy() == old(self).policy(),
            final(self).settings() == old(self).settings(),
    {
        let windows = self.window_scanner.scan_windows(reported);
        self.layout_manager.save_layout(name, windows.as_slice())
    }

    /// Starts the restoration of the layout stored under `name`. The call
    /// fails where the name breaks a rule or the store holds no such layout;
    /// else the restoration has begun, and nothing has been done yet.
    pub fn restore_layout(&self, name: &str) -> (r: Result<RestoreSession, WindowRestoreError>)
        ensures
            r is Ok <==> valid_name(name@) && self.layouts().contains_key(name@),
            r matches Ok(session) ==> session@ == SessionView::start(
                self.layouts()[name@],
                self.policy(),
            ),
            r matches Err(e) ==> match name_fault(name@) {
                Some(v) => e matches WindowRestoreError::Validation(w) && w == v,
                None => e matches WindowRestoreError::LayoutNotFound(n) && n@ == name@,
            },
    {
        match self.layout_manager.load_layout(name) {
            Ok(layout) => Ok(self.window_restorer.restore_layout(&layout)),
            Err(e) => Err(e),
        }
    }

    /// The names of the stored layouts, in ascending order.
    pub fn get_layout_list(&self) -> (r: Result<Vec<String>, WindowRestoreError>)
        ensures
            r is Ok,
            layout_manager::ascending(layout_manager::string_views(r->Ok_0@)),
            forall|n: Seq<char>|
                layout_manager::string_views(r->Ok_0@).contains(n) <==> self.layouts().contains_key(
                    n,
                ),
    {
        self.layout_manager.list_layouts()
    }

    /// Removes the layout stored under `name`, as the store does.
    pub fn delete_layout(&mut self, name: &str) -> (r: Result<(), WindowRestoreError>)
        ensures
            final(self).layouts() == layout_manager::deleted(old(self).layouts(), name@),
            r is Ok <==> valid_name(name@) && old(self).layouts().contains_key(name@),
            r matches Err(e) ==> match name_fault(name@) {
                Some(v) => e matches WindowRestoreError::Validation(w) && w == v,
                None => e matches WindowRestoreError::LayoutNotFound(n) && n@ == name@,
            },
            final(self).permissions() == old(self).permissions(),
            final(self).policy() == old(self).policy(),
            final(self).settings() == old(self).settings(),
    {
        self.layout_manager.delete_layout(name)
    }

    /// Whether the permission to control windows is granted.
    pub fn check_permissions(&self) -> (r: bool)
        ensures
            r == self.permissions().accessibility,
    {
        self.permission_checker.check_accessibility_permission()
    }
}

} // verus!
