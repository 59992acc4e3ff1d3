//! The window snapshot model: what is captured of one window, and how the
//! window server's description of a window becomes such a record.

use vstd::prelude::*;
use vstd::string::StringExecFns;

use crate::binary64::{is_below_zero, is_below_zero_bits, is_finite, is_finite_bits};
use crate::text::{decimal, decimal_string, is_blank, is_blank_str};
use crate::WindowRestoreError;

verus! {

/// The layer a window lives on.
#[derive(Debug, Clone, Copy, PartialEq, Eq, Structural)]
pub enum WindowLevel {
    /// An ordinary window (raw level 0).
    Normal,
    /// A floating window (raw level 3).
    Floating,
    /// A modal dialog (raw level 8).
    Modal,
    /// System chrome such as the Dock (raw level 20).
    Dock,
}

impl WindowLevel {
    /// The level for a raw layer number; an unknown number is taken as
    /// `Normal`.
    pub open spec fn of_raw(level: i32) -> WindowLevel {
        if level == 3 {
            WindowLevel::Floating
        } else if level == 8 {
            WindowLevel::Modal
        } else if level == 20 {
            WindowLevel::Dock
        } else {
            WindowLevel::Normal
        }
    }

    /// The raw layer number of a level.
    pub open spec fn raw_of(self) -> i32 {
        match self {
            WindowLevel::Normal => 0,
            WindowLevel::Floating => 3,
            WindowLevel::Modal => 8,
            WindowLevel::Dock => 20,
        }
    }

    /// The level for a raw layer number.
    pub fn from_raw(level: i32) -> (r: WindowLevel)
        ensures
            r == Self::of_raw(level),
    {
        if level == 3 {
            WindowLevel::Floating
        } else if level == 8 {
            WindowLevel::Modal
        } else if level == 20 {
            WindowLevel::Dock
        } else {
            WindowLevel::Normal
        }
    }

    /// The raw layer number of the level.
    pub fn raw(self) -> (r: i32)
        ensures
            r == self.raw_of(),
    {
        match self {
            WindowLevel::Normal => 0,
            WindowLevel::Floating => 3,
            WindowLevel::Modal => 8,
            WindowLevel::Dock => 20,
        }
    }

    /// A level survives the passage through its raw number.
    pub proof fn lemma_raw_round_trip(self)
        ensures
            Self::of_raw(self.raw_of()) == self,
    {
    }
}

/// What a window is to be at the end of a restoration.
#[derive(Debug, Clone, Copy, PartialEq, Eq, Structural)]
pub enum Visibility {
    Minimized,
    Hidden,
    Shown,
}

/// Position and size of a window, each measure held as the bit pattern of a
/// binary64 number (`f64::to_bits`).
#[derive(Debug, Clone, Copy, PartialEq, Eq, Structural)]
pub struct WindowFrame {
    pub x: u64,
    pub y: u64,
    pub width: u64,
    pub height: u64,
}

impl WindowFrame {
    /// Width and height are finite and not below zero.
    pub open spec fn size_ok(self) -> bool {
        &&& is_finite_bits(self.width)
        &&& is_finite_bits(self.height)
        &&& !is_below_zero_bits(self.width)
        &&& !is_below_zero_bits(self.height)
    }

    /// Both coordinates of the origin are finite.
    pub open spec fn position_ok(self) -> bool {
        is_finite_bits(self.x) && is_finite_bits(self.y)
    }

    /// The invariant of a stored frame.
    pub open spec fn well_formed(self) -> bool {
        self.size_ok() && self.position_ok()
    }

    /// Whether width and height are finite and not below zero.
    pub fn has_valid_size(&self) -> (b: bool)
        ensures
            b == self.size_ok(),
    {
        is_finite(self.width) && is_finite(self.height) && !is_below_zero(self.width)
            && !is_below_zero(self.height)
    }

    /// Whether both coordinates of the origin are finite.
    pub fn has_valid_position(&self) -> (b: bool)
        ensures
            b == self.position_ok(),
    {
        is_finite(self.x) && is_finite(self.y)
    }
}

/// One captured window.
#[derive(Debug, PartialEq, Eq)]
pub struct WindowInfo {
    /// The application's display label.
    pub app_name: String,
    /// The stable key by which the application is launched.
    pub bundle_id: String,
    /// The window's title, by which it is found again.
    pub title: String,
    pub frame: WindowFrame,
    /// The display the window was on when it was captured.
    pub display_uuid: String,
    pub window_level: WindowLevel,
    pub is_minimized: bool,
    pub is_hidden: bool,
}

/// The mathematical value of a `WindowInfo`.
pub struct WindowInfoView {
    pub app_name: Seq<char>,
    pub bundle_id: Seq<char>,
    pub title: Seq<char>,
    pub frame: WindowFrame,
    pub display_uuid: Seq<char>,
    pub window_level: WindowLevel,
    pub is_minimized: bool,
    pub is_hidden: bool,
}

/// The rule that a window breaks.
#[derive(Debug, Clone, Copy, PartialEq, Eq, Structural)]
pub enum WindowFault {
    /// The application name is empty or white space.
    BlankAppName,
    /// The application identity is empty or white space.
    BlankBundleId,
    /// The title is empty or white space.
    BlankTitle,
    /// Width or height is not finite, or below zero.
    InvalidSize,
    /// A coordinate of the origin is not finite.
    InvalidPosition,
    /// The display identifier is empty or white space.
    BlankDisplay,
}

impl WindowInfoView {
    /// The first rule that the window breaks, in the order in which the rules
    /// are checked; `None` for a well-formed window.
    pub open spec fn fault(self) -> Option<WindowFault> {
        if is_blank(self.app_name) {
            Some(WindowFault::BlankAppName)
        } else if is_blank(self.bundle_id) {
            Some(WindowFault::BlankBundleId)
        } else if is_blank(self.title) {
            Some(WindowFault::BlankTitle)
        } else if !self.frame.size_ok() {
            Some(WindowFault::InvalidSize)
        } else if !self.frame.position_ok() {
            Some(WindowFault::InvalidPosition)
        } else if is_blank(self.display_uuid) {
            Some(WindowFault::BlankDisplay)
        } else {
            None
        }
    }

    /// The invariant of a stored window.
    pub open spec fn well_formed(self) -> bool {
        &&& !is_blank(self.app_name)
        &&& !is_blank(self.bundle_id)
        &&& !is_blank(self.title)
        &&& self.frame.well_formed()
        &&& !is_blank(self.display_uuid)
    }

    /// Minimized wins over hidden; a window that is neither is shown.
    pub open spec fn visibility(self) -> Visibility {
        if self.is_minimized {
            Visibility::Minimized
        } else if self.is_hidden {
            Visibility::Hidden
        } else {
            Visibility::Shown
        }
    }

    /// A window is well formed exactly when it breaks no rule.
    pub proof fn lemma_fault_free_is_well_formed(self)
        ensures
            self.fault() is None <==> self.well_formed(),
    {
    }
}

impl View for WindowInfo {
    type V = WindowInfoView;

    open spec fn view(&self) -> WindowInfoView {
        WindowInfoView {
            app_name: self.app_name@,
            bundle_id: self.bundle_id@,
            title: self.title@,
            frame: self.frame,
            display_uuid: self.display_uuid@,
            window_level: self.window_level,
            is_minimized: self.is_minimized,
            is_hidden: self.is_hidden,
        }
    }
}

impl Clone for WindowInfo {
    fn clone(&self) -> (r: Self)
        ensures
            r@ == self@,
    {
        WindowInfo {
            app_name: self.app_name.clone(),
            bundle_id: self.bundle_id.clone(),
            title: self.title.clone(),
            frame: self.frame,
            display_uuid: self.display_uuid.clone(),
            window_level: self.window_level,
            is_minimized: self.is_minimized,
            is_hidden: self.is_hidden,
        }
    }
}

impl WindowInfo {
    /// The first rule that the window breaks, if any.
    pub fn check(&self) -> (r: Option<WindowFault>)
        ensures
            r == self@.fault(),
    {
        if is_blank_str(self.app_name.as_str()) {
            Some(WindowFault::BlankAppName)
        } else if is_blank_str(self.bundle_id.as_str()) {
            Some(WindowFault::BlankBundleId)
        } else if is_blank_str(self.title.as_str()) {
            Some(WindowFault::BlankTitle)
        } else if !self.frame.has_valid_size() {
            Some(WindowFault::InvalidSize)
        } else if !self.frame.has_valid_position() {
            Some(WindowFault::InvalidPosition)
        } else if is_blank_str(self.display_uuid.as_str()) {
            Some(WindowFault::BlankDisplay)
        } else {
            None
        }
    }

    /// What the window is to be once its frame has been set.
    pub fn visibility(&self) -> (r: Visibility)
        ensures
            r == self@.visibility(),
    {
        if self.is_minimized {
            Visibility::Minimized
        } else if self.is_hidden {
            Visibility::Hidden
        } else {
            Visibility::Shown
        }
    }
}

/// The views of a sequence of windows, in order.
pub open spec fn window_views(windows: Seq<WindowInfo>) -> Seq<WindowInfoView> {
    Seq::new(windows.len(), |i: int| windows[i]@)
}

/// A copy of `windows`.
pub fn clone_windows(windows: &[WindowInfo]) -> (r: Vec<WindowInfo>)
    ensures
        window_views(r@) == window_views(windows@),
{
    let mut out: Vec<WindowInfo> = Vec::new();
    let n = windows.len();
    for i in 0..n
        invariant
            n == windows.len(),
            out.len() == i,
            forall|j: int| 0 <= j < i ==> out[j]@ == windows[j]@,
    {
        out.push(windows[i].clone());
    }
    assert(window_views(out@) =~= window_views(windows@));
    out
}

/// The bounds dictionary of a window as the window server reports it; a
/// measure is `None` where the dictionary has no entry for it.
#[derive(Debug, Clone, Copy, PartialEq, Eq)]
pub struct RawBounds {
    pub x: Option<u64>,
    pub y: Option<u64>,
    pub width: Option<u64>,
    pub height: Option<u64>,
}

/// The description of a window as the window server reports it; a field is
/// `None` where the description has no entry for it.
#[derive(Debug)]
pub struct RawWindow {
    pub owner_name: Option<String>,
    pub owner_pid: Option<i32>,
    pub name: Option<String>,
    pub bounds: Option<RawBounds>,
    pub layer: Option<i32>,
}

/// The mathematical value of a `RawWindow`.
pub struct RawWindowView {
    pub owner_name: Option<Seq<char>>,
    pub owner_pid: Option<i32>,
    pub name: Option<Seq<char>>,
    pub bounds: Option<RawBounds>,
    pub layer: Option<i32>,
}

impl View for RawWindow {
    type V = RawWindowView;

    open spec fn view(&self) -> RawWindowView {
        RawWindowView {
            owner_name: match self.owner_name {
                Some(s) => Some(s@),
                None => None,
            },
            owner_pid: self.owner_pid,
            name: match self.name {
                Some(s) => Some(s@),
                None => None,
            },
            bounds: self.bounds,
            layer: self.layer,
        }
    }
}

/// A measure that the bounds dictionary lacks counts as zero.
pub open spec fn measure_or_zero(m: Option<u64>) -> u64 {
    match m {
        Some(bits) => bits,
        None => 0,
    }
}

/// The frame that a bounds dictionary describes.
pub open spec fn frame_of_bounds(bounds: RawBounds) -> WindowFrame {
    WindowFrame {
        x: measure_or_zero(bounds.x),
        y: measure_or_zero(bounds.y),
        width: measure_or_zero(bounds.width),
        height: measure_or_zero(bounds.height),
    }
}

/// The record that a window description becomes. What the description lacks
/// is filled in: the owner is `Unknown`, the identity `unknown`, the title
/// `Untitled`, the frame empty at the origin and the level `Normal`. The
/// identity is made from the owner's process number. The window counts as
/// visible on the display `main`.
pub open spec fn parsed_window(raw: RawWindowView) -> WindowInfoView {
    WindowInfoView {
        app_name: match raw.owner_name {
            Some(s) => s,
            None => "Unknown"@,
        },
        bundle_id: match raw.owner_pid {
            Some(pid) => "com.app."@ + decimal(pid as int),
            None => "unknown"@,
        },
        title: match raw.name {
            Some(s) => s,
            None => "Untitled"@,
        },
        frame: match raw.bounds {
            Some(b) => frame_of_bounds(b),
            None => WindowFrame { x: 0, y: 0, width: 0, height: 0 },
        },
        display_uuid: "main"@,
        window_level: match raw.layer {
            Some(level) => WindowLevel::of_raw(level),
            None => WindowLevel::Normal,
        },
        is_minimized: false,
        is_hidden: false,
    }
}

/// The records of a sequence of window descriptions, in order.
pub open spec fn parsed_windows(raw: Seq<RawWindow>) -> Seq<WindowInfoView> {
    Seq::new(raw.len(), |i: int| parsed_window(raw[i]@))
}

/// Turns what the window server reports into window records.
pub struct WindowScanner {}

impl WindowScanner {
    /// A scanner. It holds nothing, and making it never fails.
    pub fn new() -> (r: Result<Self, WindowRestoreError>)
        ensures
            r is Ok,
    {
        Ok(WindowScanner {  })
    }

    /// The frame that a bounds dictionary describes.
    pub fn parse_bounds(bounds: &RawBounds) -> (r: WindowFrame)
        ensures
            r == frame_of_bounds(*bounds),
    {
        WindowFrame {
            x: match bounds.x {
                Some(bits) => bits,
                None => 0,
            },
            y: match bounds.y {
                Some(bits) => bits,
                None => 0,
            },
            width: match bounds.width {
                Some(bits) => bits,
                None => 0,
            },
            height: match bounds.height {
                Some(bits) => bits,
                None => 0,
            },
        }
    }

    /// The record that one window description becomes.
    pub fn parse_window(raw: &RawWindow) -> (r: WindowInfo)
        ensures
            r@ == parsed_window(raw@),
    {
        let app_name = match &raw.owner_name {
            Some(s) => s.clone(),
            None => String::from_str("Unknown"),
        };
        let bundle_id = match raw.owner_pid {
            Some(pid) => {
                let number = decimal_string(pid as i64);
                String::from_str("com.app.").concat(number.as_str())
            },
            None => String::from_str("unknown"),
        };
        let title = match &raw.name {
            Some(s) => s.clone(),
            None => String::from_str("Untitled"),
        };
        let frame = match &raw.bounds {
            Some(b) => Self::parse_bounds(b),
            None => WindowFrame { x: 0, y: 0, width: 0, height: 0 },
        };
        let window_level = match raw.layer {
            Some(level) => WindowLevel::from_raw(level),
            None => WindowLevel::Normal,
        };
        WindowInfo {
            app_name,
            bundle_id,
            title,
            frame,
            display_uuid: String::from_str("main"),
            window_level,
            is_minimized: false,
            is_hidden: false,
        }
    }

    /// The records of all the windows that the window server reported, in
    /// the order of the report.
    pub fn scan_windows(&self, reported: &Vec<RawWindow>) -> (r: Vec<WindowInfo>)
        ensures
            window_views(r@) == parsed_windows(reported@),
    {
        let mut out: Vec<WindowInfo> = Vec::new();
        let n = reported.len();
        for i in 0..n
            invariant
                n == reported.len(),
                out.len() == i,
                forall|j: int| 0 <= j < i ==> out[j]@ == parsed_window(reported[j]@),
        {
            out.push(Self::parse_window(&reported[i]));
        }
        assert(window_views(out@) =~= parsed_windows(reported@));
        out
    }
}

} // verus!
