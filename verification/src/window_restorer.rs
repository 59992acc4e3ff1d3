//! Layouts, and the decisions of a restoration.

use vstd::prelude::*;

use vstd::string::StringExecFns;

use crate::app_launcher::{poll_advance, wait_allows_poll, wait_step, AppLauncher, WaitStep};
use crate::display_manager::{
    display_views, first_of_each, lemma_main_position, lemma_position_of, DisplayInfo,
    DisplayInfoView, DisplayManager,
};
use crate::text::{
    chars_of, decimal, decimal_string, escape_double_quotes, escape_quotes, has_forbidden_name_char,
    is_blank, same_text, string_of, trim_bounds, trimmed,
};
use crate::window_scanner::{clone_windows, window_views, WindowInfo, WindowInfoView};
use crate::{ValidationError, WindowRestoreError};

verus! {

/// A named, timestamped sequence of captured windows. The order of the
/// windows is the order in which they are restored.
#[derive(Debug, PartialEq, Eq)]
pub struct Layout {
    pub layout_name: String,
    /// Set when the name is first saved, and kept when it is saved again.
    pub created_at: String,
    /// Set on every save.
    pub updated_at: String,
    pub windows: Vec<WindowInfo>,
}

/// The mathematical value of a `Layout`.
pub struct LayoutView {
    pub layout_name: Seq<char>,
    pub created_at: Seq<char>,
    pub updated_at: Seq<char>,
    pub windows: Seq<WindowInfoView>,
}

/// The rule that a layout name breaks, if any: emptiness is checked before
/// the characters.
pub open spec fn name_fault(name: Seq<char>) -> Option<ValidationError> {
    if is_blank(name) {
        Some(ValidationError::EmptyName)
    } else if has_forbidden_name_char(name) {
        Some(ValidationError::ForbiddenNameCharacter)
    } else {
        None
    }
}

/// A layout name is valid when it is not blank and holds no forbidden
/// character.
pub open spec fn valid_name(name: Seq<char>) -> bool {
    !is_blank(name) && !has_forbidden_name_char(name)
}

/// The index of the first window at or after `from` that breaks a rule, or
/// the number of windows where there is none.
pub open spec fn first_faulty_window(windows: Seq<WindowInfoView>, from: int) -> int
    decreases windows.len() - from,
{
    if from < 0 || from >= windows.len() {
        windows.len() as int
    } else if windows[from].fault() is Some {
        from
    } else {
        first_faulty_window(windows, from + 1)
    }
}

/// The first rule that the windows break: that of the first window that
/// breaks one.
pub open spec fn windows_fault(windows: Seq<WindowInfoView>) -> Option<ValidationError> {
    let index = first_faulty_window(windows, 0);
    if index < windows.len() {
        Some(ValidationError::Window { index: index as usize, fault: windows[index].fault()->0 })
    } else {
        None
    }
}

/// The first rule that a layout of this name and these windows breaks: the
/// name is checked before the windows.
pub open spec fn layout_fault(name: Seq<char>, windows: Seq<WindowInfoView>) -> Option<
    ValidationError,
> {
    match name_fault(name) {
        Some(e) => Some(e),
        None => windows_fault(windows),
    }
}

/// Every window is well formed.
pub open spec fn windows_well_formed(windows: Seq<WindowInfoView>) -> bool {
    forall|i: int| 0 <= i < windows.len() ==> (#[trigger] windows[i]).well_formed()
}

/// What `first_faulty_window` finds: an index in range, a window that breaks
/// a rule if the index is that of a window, and none that breaks one before
/// it.
pub proof fn lemma_first_faulty_window(windows: Seq<WindowInfoView>, from: int)
    requires
        0 <= from <= windows.len(),
    ensures
        from <= first_faulty_window(windows, from) <= windows.len(),
        first_faulty_window(windows, from) < windows.len() ==> windows[first_faulty_window(
            windows,
            from,
        )].fault() is Some,
        forall|j: int|
            from <= j < first_faulty_window(windows, from) ==> (#[trigger] windows[j]).fault()
                is None,
    decreases windows.len() - from,
{
    if from < windows.len() && windows[from].fault() is None {
        lemma_first_faulty_window(windows, from + 1);
    }
}

/// The windows break no rule exactly when each of them is well formed.
pub proof fn lemma_windows_fault_free(windows: Seq<WindowInfoView>)
    ensures
        windows_fault(windows) is None <==> windows_well_formed(windows),
{
    lemma_first_faulty_window(windows, 0);
    let index = first_faulty_window(windows, 0);
    if index < windows.len() {
        windows[index].lemma_fault_free_is_well_formed();
    } else {
        assert forall|i: int| 0 <= i < windows.len() implies (#[trigger] windows[i]).well_formed() by {
            windows[i].lemma_fault_free_is_well_formed();
        }
    }
}

impl LayoutView {
    /// The first rule that the layout breaks, if any.
    pub open spec fn fault(self) -> Option<ValidationError> {
        layout_fault(self.layout_name, self.windows)
    }

    /// The invariant of a stored layout: a valid name and well-formed
    /// windows.
    pub open spec fn well_formed(self) -> bool {
        valid_name(self.layout_name) && windows_well_formed(self.windows)
    }

    /// A layout is well formed exactly when it breaks no rule.
    pub proof fn lemma_fault_free_is_well_formed(self)
        ensures
            self.fault() is None <==> self.well_formed(),
    {
        lemma_windows_fault_free(self.windows);
    }
}

impl View for Layout {
    type V = LayoutView;

    open spec fn view(&self) -> LayoutView {
        LayoutView {
            layout_name: self.layout_name@,
            created_at: self.created_at@,
            updated_at: self.updated_at@,
            windows: window_views(self.windows@),
        }
    }
}

impl Clone for Layout {
    fn clone(&self) -> (r: Self)
        ensures
            r@ == self@,
    {
        Layout {
            layout_name: self.layout_name.clone(),
            created_at: self.created_at.clone(),
            updated_at: self.updated_at.clone(),
            windows: clone_windows(self.windows.as_slice()),
        }
    }
}

/// Delays and bounds of a restoration.
#[derive(Debug, Clone, Copy, PartialEq, Eq, Structural)]
pub struct RestorePolicy {
    /// How long a launched application is waited for.
    pub launch_timeout_ms: u64,
    /// The pause between two polls of a launched application.
    pub launch_poll_ms: u64,
    /// The pause after the launches, before the first window is touched.
    pub settle_delay_ms: u64,
    /// How often a window is tried; at least one attempt is always made.
    pub max_attempts: u32,
    /// The pause before a window is tried again.
    pub retry_backoff_ms: u64,
    /// The pause after each window.
    pub window_pause_ms: u64,
}

impl RestorePolicy {
    /// Ten seconds for a launch, polled every half second; one second to
    /// settle; three attempts half a second apart; a fifth of a second
    /// between windows.
    pub open spec fn standard() -> RestorePolicy {
        RestorePolicy {
            launch_timeout_ms: 10_000,
            launch_poll_ms: 500,
            settle_delay_ms: 1_000,
            max_attempts: 3,
            retry_backoff_ms: 500,
            window_pause_ms: 200,
        }
    }

    /// How often a window is tried at most: `max_attempts` times, and once
    /// where that is zero.
    pub open spec fn attempts(self) -> int {
        if self.max_attempts == 0 {
            1
        } else {
            self.max_attempts as int
        }
    }

    /// By how much a pause between two polls advances the time waited.
    pub open spec fn poll_step(self) -> int {
        poll_advance(self.launch_poll_ms)
    }
}

impl Default for RestorePolicy {
    fn default() -> (r: Self)
        ensures
            r == RestorePolicy::standard(),
    {
        RestorePolicy {
            launch_timeout_ms: 10_000,
            launch_poll_ms: 500,
            settle_delay_ms: 1_000,
            max_attempts: 3,
            retry_backoff_ms: 500,
            window_pause_ms: 200,
        }
    }
}

/// What is known of an application of the layout.
#[derive(Debug, PartialEq, Eq)]
pub enum LaunchState {
    /// It was running before the restoration began.
    Running,
    /// Its launch was requested, and it has not been waited for yet.
    Launched,
    /// It was launched and reported running in time.
    Ready,
    /// It was launched and did not report running in time.
    TimedOut,
    /// Its launch was refused, for the reason given.
    Failed(String),
}

/// How one attempt to put a window in place ended.
#[derive(Debug, PartialEq, Eq)]
pub enum ApplyResult {
    Applied,
    /// No live window has the application name and title of the snapshot.
    WindowNotFound,
    /// The attempt failed for the reason given; it may succeed if repeated.
    Failed(String),
}

/// What became of one window of the layout.
#[derive(Debug, PartialEq, Eq)]
pub enum RestoreOutcome {
    Restored,
    NotFound,
    /// Every attempt failed; the reason is that of the last one.
    ApplyFailed(String),
    /// The window's application could not be launched.
    LaunchFailed(String),
}

/// Why a restoration was given up as a whole.
#[derive(Debug, PartialEq, Eq)]
pub enum RestoreFailure {
    /// The permission to control windows has not been granted.
    PermissionDenied,
    /// The displays could not be read, for the reason given.
    Topology(String),
}

/// What the caller is to do next for a restoration.
#[derive(Debug, Clone, Copy, PartialEq, Eq, Structural)]
pub enum RestoreAction {
    /// Find out whether the permission to control windows is granted.
    CheckPermission,
    /// Read the connected displays.
    RefreshDisplays,
    /// Find out whether the application of the window at `window` runs.
    QueryRunning { window: usize },
    /// Launch the application of the window at `window`.
    Launch { window: usize },
    Sleep { ms: u64 },
    /// Map the captured origin of the window at `window` to an absolute
    /// position.
    Convert { window: usize },
    /// Find the live window for the window at `window`, move it to `x`,
    /// `y` on the display at `display`, then give it its size and its
    /// visibility.
    Apply { window: usize, display: Option<usize>, x: u64, y: u64 },
    /// Nothing: the restoration has ended.
    Done,
}

/// What the caller reports back.
#[derive(Debug, PartialEq, Eq)]
pub enum RestoreEvent {
    /// Answers `CheckPermission`.
    Permission(bool),
    /// Answers `RefreshDisplays` with the displays found.
    DisplaysRefreshed(Vec<DisplayInfo>),
    /// Answers `RefreshDisplays` where the displays could not be read.
    DisplaysUnavailable(String),
    /// Answers `QueryRunning`.
    Running(bool),
    /// Answers `Launch` where the request was accepted.
    Launched,
    /// Answers `Launch` where the request was refused.
    LaunchRefused(String),
    /// Answers `Sleep`.
    Slept,
    /// Answers `Convert`, with `None` where the origin cannot be mapped.
    Converted(Option<(u64, u64)>),
    /// Answers `Apply`.
    Applied(ApplyResult),
}

/// Where a restoration stands: the action that is awaited.
#[derive(Debug, Clone, Copy, PartialEq, Eq, Structural)]
pub enum Phase {
    Permission,
    Topology,
    /// Asking whether the application at `app` of the launch plan runs.
    Probe { app: usize },
    /// Launching the application at `app` of the launch plan.
    Launch { app: usize },
    /// Polling the launched application at `app`, after `waited_ms`.
    Poll { app: usize, waited_ms: u64 },
    /// Pausing before the next poll of the application at `app`.
    PollSleep { app: usize, waited_ms: u64 },
    Settle,
    Convert { window: usize },
    /// Trying the window at `window` for the `attempt`-th time, at `x`, `y`.
    Apply { window: usize, attempt: u32, x: u64, y: u64 },
    /// Pausing after the `attempt`-th attempt failed.
    Backoff { window: usize, attempt: u32, x: u64, y: u64 },
    /// Pausing after the window at `window`.
    Pause { window: usize },
    Finished,
    Failed,
}

/// No earlier window has the application of the window at `i`.
pub open spec fn is_first_seen(windows: Seq<WindowInfoView>, i: int) -> bool {
    forall|j: int| 0 <= j < i ==> (#[trigger] windows[j]).bundle_id != windows[i].bundle_id
}

/// The launch plan: for each application of the layout, the index of its
/// first window, in ascending order. So each application occurs once, in the
/// order in which the windows first name it.
pub open spec fn launch_plan(windows: Seq<WindowInfoView>) -> Seq<int>
    decreases windows.len(),
{
    if windows.len() == 0 {
        Seq::empty()
    } else {
        let earlier = launch_plan(windows.drop_last());
        if is_first_seen(windows, windows.len() - 1) {
            earlier.push(windows.len() - 1)
        } else {
            earlier
        }
    }
}

/// The position in the plan of the application `id`, looked for at or after
/// `from`; the length of the plan where it is not there.
pub open spec fn app_index(
    windows: Seq<WindowInfoView>,
    plan: Seq<int>,
    id: Seq<char>,
    from: int,
) -> int
    decreases plan.len() - from,
{
    if from < 0 || from >= plan.len() {
        plan.len() as int
    } else if windows[plan[from]].bundle_id == id {
        from
    } else {
        app_index(windows, plan, id, from + 1)
    }
}

/// The position of the first application at or after `from` whose launch
/// was requested and which has not been waited for; the number of states
/// where there is none.
pub open spec fn next_launched(launches: Seq<LaunchState>, from: int) -> int
    decreases launches.len() - from,
{
    if from < 0 || from >= launches.len() {
        launches.len() as int
    } else if launches[from] is Launched {
        from
    } else {
        next_launched(launches, from + 1)
    }
}

/// What `app_index` finds: a position in range, and at it the application
/// looked for, if the position is one of the plan.
pub proof fn lemma_app_index(
    windows: Seq<WindowInfoView>,
    plan: Seq<int>,
    id: Seq<char>,
    from: int,
)
    requires
        0 <= from <= plan.len(),
    ensures
        from <= app_index(windows, plan, id, from) <= plan.len(),
        app_index(windows, plan, id, from) < plan.len() ==> windows[plan[app_index(
            windows,
            plan,
            id,
            from,
        )]].bundle_id == id,
    decreases plan.len() - from,
{
    if from < plan.len() && windows[plan[from]].bundle_id != id {
        lemma_app_index(windows, plan, id, from + 1);
    }
}

/// The states of the applications once those that were launched and have
/// not been waited for are given up as timed out.
pub open spec fn given_up(launches: Seq<LaunchState>) -> Seq<LaunchState> {
    Seq::new(
        launches.len(),
        |k: int|
            if launches[k] is Launched {
                LaunchState::TimedOut
            } else {
                launches[k]
            },
    )
}

/// The plan as mathematical integers.
pub open spec fn plan_indices(apps: Seq<usize>) -> Seq<int> {
    Seq::new(apps.len(), |k: int| apps[k] as int)
}

/// The plan holds indices of windows, in ascending order.
pub proof fn lemma_launch_plan_in_range(windows: Seq<WindowInfoView>)
    ensures
        launch_plan(windows).len() <= windows.len(),
        forall|k: int|
            0 <= k < launch_plan(windows).len() ==> 0 <= (#[trigger] launch_plan(windows)[k])
                < windows.len(),
        forall|k: int, l: int|
            0 <= k < l < launch_plan(windows).len() ==> launch_plan(windows)[k] < launch_plan(
                windows,
            )[l],
    decreases windows.len(),
{
    if windows.len() > 0 {
        lemma_launch_plan_in_range(windows.drop_last());
    }
}

/// The plan holds the first window of each application, and no other.
pub proof fn lemma_launch_plan_members(windows: Seq<WindowInfoView>, i: int)
    requires
        0 <= i < windows.len(),
    ensures
        launch_plan(windows).contains(i) <==> is_first_seen(windows, i),
    decreases windows.len(),
{
    let last = windows.len() - 1;
    let shorter = windows.drop_last();
    let earlier = launch_plan(shorter);
    lemma_launch_plan_in_range(shorter);
    if i < last {
        lemma_launch_plan_members(shorter, i);
        assert(is_first_seen(shorter, i) <==> is_first_seen(windows, i)) by {
            if is_first_seen(shorter, i) {
                assert forall|j: int| 0 <= j < i implies (#[trigger] windows[j]).bundle_id
                    != windows[i].bundle_id by {
                    assert(shorter[j].bundle_id != shorter[i].bundle_id);
                }
            }
            if is_first_seen(windows, i) {
                assert forall|j: int| 0 <= j < i implies (#[trigger] shorter[j]).bundle_id
                    != shorter[i].bundle_id by {
                    assert(windows[j].bundle_id != windows[i].bundle_id);
                }
            }
        }
        if earlier.contains(i) {
            let k = choose|k: int| 0 <= k < earlier.len() && earlier[k] == i;
            assert(launch_plan(windows)[k] == i);
        }
        if launch_plan(windows).contains(i) {
            let k = choose|k: int| 0 <= k < launch_plan(windows).len() && launch_plan(windows)[k] == i;
            assert(earlier[k] == i);
        }
    } else {
        if is_first_seen(windows, last) {
            assert(launch_plan(windows)[earlier.len() as int] == last);
        } else if launch_plan(windows).contains(i) {
            let k = choose|k: int| 0 <= k < earlier.len() && earlier[k] == i;
            assert(false);
        }
    }
}

/// At or before each window stands the first window of its application.
proof fn lemma_first_window_of_application(windows: Seq<WindowInfoView>, i: int) -> (j: int)
    requires
        0 <= i < windows.len(),
    ensures
        0 <= j <= i,
        windows[j].bundle_id == windows[i].bundle_id,
        is_first_seen(windows, j),
    decreases i,
{
    if is_first_seen(windows, i) {
        i
    } else {
        let earlier = choose|k: int|
            0 <= k < i && (#[trigger] windows[k]).bundle_id == windows[i].bundle_id;
        lemma_first_window_of_application(windows, earlier)
    }
}

proof fn lemma_app_index_finds(
    windows: Seq<WindowInfoView>,
    plan: Seq<int>,
    id: Seq<char>,
    from: int,
    at: int,
)
    requires
        0 <= from <= at < plan.len(),
        windows[plan[at]].bundle_id == id,
    ensures
        app_index(windows, plan, id, from) <= at,
    decreases at - from,
{
    if from < at && windows[plan[from]].bundle_id != id {
        lemma_app_index_finds(windows, plan, id, from + 1, at);
    }
}

/// The plan holds the application of every window: before a window is
/// tried, its application has been asked for and, where it did not run,
/// launched.
pub proof fn law_every_application_is_planned(windows: Seq<WindowInfoView>, i: int)
    requires
        0 <= i < windows.len(),
    ensures
        0 <= app_index(windows, launch_plan(windows), windows[i].bundle_id, 0) < launch_plan(
            windows,
        ).len(),
        windows[launch_plan(windows)[app_index(
            windows,
            launch_plan(windows),
            windows[i].bundle_id,
            0,
        )]].bundle_id == windows[i].bundle_id,
{
    let plan = launch_plan(windows);
    let first = lemma_first_window_of_application(windows, i);
    lemma_launch_plan_members(windows, first);
    let at = choose|k: int| 0 <= k < plan.len() && plan[k] == first;
    lemma_app_index_finds(windows, plan, windows[i].bundle_id, 0, at);
    lemma_app_index(windows, plan, windows[i].bundle_id, 0);
}

/// The mathematical value of a restoration under way.
pub struct SessionView {
    pub layout: LayoutView,
    pub policy: RestorePolicy,
    /// The displays, once they have been read.
    pub displays: Seq<DisplayInfoView>,
    pub phase: Phase,
    /// What is known of the applications of the plan, in the plan's order.
    pub launches: Seq<LaunchState>,
    /// What became of the windows handled so far, in the layout's order.
    pub outcomes: Seq<RestoreOutcome>,
    pub failure: Option<RestoreFailure>,
}

impl SessionView {
    /// The launch plan of the layout.
    pub open spec fn plan(self) -> Seq<int> {
        launch_plan(self.layout.windows)
    }

    /// What holds of every restoration, from its start to its end.
    pub open spec fn inv(self) -> bool {
        let windows = self.layout.windows.len();
        let apps = self.plan().len();
        windows <= usize::MAX && match self.phase {
            Phase::Permission | Phase::Topology => self.launches.len() == 0 && self.outcomes.len()
                == 0,
            Phase::Probe { app } | Phase::Launch { app } => app < apps && self.launches.len()
                == app && self.outcomes.len() == 0,
            Phase::Poll { app, waited_ms } => app < apps && self.launches.len() == apps
                && self.outcomes.len() == 0 && wait_allows_poll(
                waited_ms,
                self.policy.launch_timeout_ms,
            ),
            Phase::PollSleep { app, waited_ms } => app < apps && self.launches.len() == apps
                && self.outcomes.len() == 0 && waited_ms + self.policy.poll_step()
                < self.policy.launch_timeout_ms,
            Phase::Settle => self.launches.len() == apps && self.outcomes.len() == 0,
            Phase::Convert { window } => window < windows && self.launches.len() == apps
                && self.outcomes.len() == window,
            Phase::Apply { window, attempt, x, y } => window < windows && self.launches.len()
                == apps && self.outcomes.len() == window && 1 <= attempt <= self.policy.attempts(),
            Phase::Backoff { window, attempt, x, y } => window < windows && self.launches.len()
                == apps && self.outcomes.len() == window && 1 <= attempt
                < self.policy.max_attempts,
            Phase::Pause { window } => window < windows && self.launches.len() == apps
                && self.outcomes.len() == window + 1,
            Phase::Finished => self.launches.len() == apps && self.outcomes.len() == windows,
            Phase::Failed => self.failure is Some && self.outcomes.len() == 0,
        }
    }

    /// The restoration has ended, with a report or with a failure.
    pub open spec fn ended(self) -> bool {
        self.phase == Phase::Finished || self.phase == Phase::Failed
    }

    /// The action that is awaited.
    pub open spec fn pending(self) -> RestoreAction {
        match self.phase {
            Phase::Permission => RestoreAction::CheckPermission,
            Phase::Topology => RestoreAction::RefreshDisplays,
            Phase::Probe { app } => RestoreAction::QueryRunning {
                window: self.plan()[app as int] as usize,
            },
            Phase::Launch { app } => RestoreAction::Launch { window: self.plan()[app as int] as usize },
            Phase::Poll { app, waited_ms } => RestoreAction::QueryRunning {
                window: self.plan()[app as int] as usize,
            },
            Phase::PollSleep { app, waited_ms } => RestoreAction::Sleep {
                ms: self.policy.launch_poll_ms,
            },
            Phase::Settle => RestoreAction::Sleep { ms: self.policy.settle_delay_ms },
            Phase::Convert { window } => RestoreAction::Convert { window },
            Phase::Apply { window, attempt, x, y } => RestoreAction::Apply {
                window,
                display: match DisplayManager::target_of(
                    self.displays,
                    self.layout.windows[window as int].display_uuid,
                ) {
                    Some(d) => Some(d as usize),
                    None => None,
                },
                x,
                y,
            },
            Phase::Backoff { window, attempt, x, y } => RestoreAction::Sleep {
                ms: self.policy.retry_backoff_ms,
            },
            Phase::Pause { window } => RestoreAction::Sleep { ms: self.policy.window_pause_ms },
            Phase::Finished | Phase::Failed => RestoreAction::Done,
        }
    }

    /// The restoration with another phase.
    pub open spec fn at(self, phase: Phase) -> SessionView {
        SessionView { phase, ..self }
    }

    /// The launch phase goes on with the application at `next`, or, past the
    /// last, turns to waiting for those that were launched.
    pub open spec fn enter_launch(self, next: int) -> SessionView {
        if next < self.plan().len() {
            self.at(Phase::Probe { app: next as usize })
        } else {
            self.enter_wait(0)
        }
    }

    /// The wait goes on with the first launched application at or after
    /// `from`; where there is none, the settle delay follows. With a launch
    /// timeout of zero nothing is waited for: every application that was
    /// launched counts as timed out, and the settle delay follows at once.
    pub open spec fn enter_wait(self, from: int) -> SessionView {
        let app = next_launched(self.launches, from);
        if !wait_allows_poll(0, self.policy.launch_timeout_ms) {
            SessionView { launches: given_up(self.launches), phase: Phase::Settle, ..self }
        } else if app < self.launches.len() {
            self.at(Phase::Poll { app: app as usize, waited_ms: 0 })
        } else {
            self.at(Phase::Settle)
        }
    }

    /// The wait for the application at `app` has ended in `state`.
    pub open spec fn waited(self, app: int, state: LaunchState) -> SessionView {
        SessionView { launches: self.launches.update(app, state), ..self }.enter_wait(app + 1)
    }

    /// The window at `window` has met with `outcome`: the pause after it
    /// follows.
    pub open spec fn record(self, window: usize, outcome: RestoreOutcome) -> SessionView {
        SessionView {
            outcomes: self.outcomes.push(outcome),
            phase: Phase::Pause { window },
            ..self
        }
    }

    /// The restoration turns to the window at `window`. Past the last window
    /// it is finished. A window whose application could not be launched is
    /// not tried.
    pub open spec fn enter_window(self, window: int) -> SessionView {
        if window >= self.layout.windows.len() {
            self.at(Phase::Finished)
        } else {
            let app = app_index(
                self.layout.windows,
                self.plan(),
                self.layout.windows[window].bundle_id,
                0,
            );
            if app < self.launches.len() && self.launches[app] is Failed {
                self.record(
                    window as usize,
                    RestoreOutcome::LaunchFailed(self.launches[app]->Failed_0),
                )
            } else {
                self.at(Phase::Convert { window: window as usize })
            }
        }
    }

    /// The restoration after `event`. An event that does not answer the
    /// awaited action changes nothing.
    pub open spec fn step(self, event: RestoreEvent) -> SessionView {
        match (self.phase, event) {
            (Phase::Permission, RestoreEvent::Permission(granted)) => if granted {
                self.at(Phase::Topology)
            } else {
                SessionView {
                    phase: Phase::Failed,
                    failure: Some(RestoreFailure::PermissionDenied),
                    ..self
                }
            },
            (Phase::Topology, RestoreEvent::DisplaysRefreshed(reported)) => SessionView {
                displays: first_of_each(display_views(reported@)),
                ..self
            }.enter_launch(0),
            (Phase::Topology, RestoreEvent::DisplaysUnavailable(reason)) => SessionView {
                phase: Phase::Failed,
                failure: Some(RestoreFailure::Topology(reason)),
                ..self
            },
            (Phase::Probe { app }, RestoreEvent::Running(running)) => if running {
                SessionView {
                    launches: self.launches.push(LaunchState::Running),
                    ..self
                }.enter_launch(app + 1)
            } else {
                self.at(Phase::Launch { app })
            },
            (Phase::Launch { app }, RestoreEvent::Launched) => SessionView {
                launches: self.launches.push(LaunchState::Launched),
                ..self
            }.enter_launch(app + 1),
            (Phase::Launch { app }, RestoreEvent::LaunchRefused(reason)) => SessionView {
                launches: self.launches.push(LaunchState::Failed(reason)),
                ..self
            }.enter_launch(app + 1),
            (Phase::Poll { app, waited_ms }, RestoreEvent::Running(running)) => match wait_step(
                running,
                waited_ms,
                self.policy.launch_timeout_ms,
                self.policy.launch_poll_ms,
            ) {
                WaitStep::Ready => self.waited(app as int, LaunchState::Ready),
                WaitStep::TimedOut => self.waited(app as int, LaunchState::TimedOut),
                WaitStep::PollAgain => self.at(Phase::PollSleep { app, waited_ms }),
            },
            (Phase::PollSleep { app, waited_ms }, RestoreEvent::Slept) => self.at(
                Phase::Poll { app, waited_ms: (waited_ms + self.policy.poll_step()) as u64 },
            ),
            (Phase::Settle, RestoreEvent::Slept) => self.enter_window(0),
            (Phase::Convert { window }, RestoreEvent::Converted(position)) => match position {
                Some((x, y)) => self.at(Phase::Apply { window, attempt: 1, x, y }),
                None => self.at(
                    Phase::Apply {
                        window,
                        attempt: 1,
                        x: self.layout.windows[window as int].frame.x,
                        y: self.layout.windows[window as int].frame.y,
                    },
                ),
            },
            (Phase::Apply { window, attempt, x, y }, RestoreEvent::Applied(result)) => match result {
                ApplyResult::Applied => self.record(window, RestoreOutcome::Restored),
                ApplyResult::WindowNotFound => self.record(window, RestoreOutcome::NotFound),
                ApplyResult::Failed(reason) => if attempt < self.policy.max_attempts {
                    self.at(Phase::Backoff { window, attempt, x, y })
                } else {
                    self.record(window, RestoreOutcome::ApplyFailed(reason))
                },
            },
            (Phase::Backoff { window, attempt, x, y }, RestoreEvent::Slept) => self.at(
                Phase::Apply { window, attempt: (attempt + 1) as u32, x, y },
            ),
            (Phase::Pause { window }, RestoreEvent::Slept) => self.enter_window(window + 1),
            _ => self,
        }
    }
}

/// What `next_launched` finds: an index in range.
pub proof fn lemma_next_launched(launches: Seq<LaunchState>, from: int)
    requires
        0 <= from <= launches.len(),
    ensures
        from <= next_launched(launches, from) <= launches.len(),
        next_launched(launches, from) < launches.len() ==> launches[next_launched(
            launches,
            from,
        )] is Launched,
    decreases launches.len() - from,
{
    if from < launches.len() && !(launches[from] is Launched) {
        lemma_next_launched(launches, from + 1);
    }
}

/// Whatever is reported, a restoration stays what `inv` says it is.
pub proof fn lemma_step_preserves_inv(session: SessionView, event: RestoreEvent)
    requires
        session.inv(),
    ensures
        session.step(event).inv(),
{
    lemma_launch_plan_in_range(session.layout.windows);
    match session.phase {
        Phase::Probe { app } => {
            let pushed = SessionView {
                launches: session.launches.push(LaunchState::Running),
                ..session
            };
            lemma_next_launched(pushed.launches, 0);
        },
        Phase::Launch { app } => {
            match event {
                RestoreEvent::Launched => {
                    lemma_next_launched(session.launches.push(LaunchState::Launched), 0);
                },
                RestoreEvent::LaunchRefused(reason) => {
                    lemma_next_launched(session.launches.push(LaunchState::Failed(reason)), 0);
                },
                _ => {},
            }
        },
        Phase::Topology => {
            lemma_next_launched(session.launches, 0);
        },
        Phase::Poll { app, waited_ms } => {
            lemma_next_launched(session.launches.update(app as int, LaunchState::Ready), app + 1);
            lemma_next_launched(session.launches.update(app as int, LaunchState::TimedOut), app + 1);
        },
        _ => {},
    }
}

/// Whether `event` answers the action that is awaited in `phase`.
pub open spec fn answers(phase: Phase, event: RestoreEvent) -> bool {
    match (phase, event) {
        (Phase::Permission, RestoreEvent::Permission(_)) => true,
        (Phase::Topology, RestoreEvent::DisplaysRefreshed(_)) => true,
        (Phase::Topology, RestoreEvent::DisplaysUnavailable(_)) => true,
        (Phase::Probe { .. }, RestoreEvent::Running(_)) => true,
        (Phase::Launch { .. }, RestoreEvent::Launched) => true,
        (Phase::Launch { .. }, RestoreEvent::LaunchRefused(_)) => true,
        (Phase::Poll { .. }, RestoreEvent::Running(_)) => true,
        (Phase::PollSleep { .. }, RestoreEvent::Slept) => true,
        (Phase::Settle, RestoreEvent::Slept) => true,
        (Phase::Convert { .. }, RestoreEvent::Converted(_)) => true,
        (Phase::Apply { .. }, RestoreEvent::Applied(_)) => true,
        (Phase::Backoff { .. }, RestoreEvent::Slept) => true,
        (Phase::Pause { .. }, RestoreEvent::Slept) => true,
        _ => false,
    }
}

/// Whether `event` reports that all went well: the permission is granted,
/// the displays were read, the launch was accepted, the window is in place.
pub open spec fn favourable(event: RestoreEvent) -> bool {
    match event {
        RestoreEvent::Permission(granted) => granted,
        RestoreEvent::DisplaysUnavailable(_) => false,
        RestoreEvent::LaunchRefused(_) => false,
        RestoreEvent::Applied(result) => result is Applied,
        _ => true,
    }
}

/// Whether `event` reports that one of the two conditions of a restoration
/// is not met: the permission is missing, or the displays cannot be read.
pub open spec fn fatal(event: RestoreEvent) -> bool {
    match event {
        RestoreEvent::Permission(granted) => !granted,
        RestoreEvent::DisplaysUnavailable(_) => true,
        _ => false,
    }
}

/// The order in which the measures of two restorations are compared: by
/// the first component in which they differ.
pub open spec fn measure_below(a: (int, int, int, int), b: (int, int, int, int)) -> bool {
    ||| a.0 < b.0
    ||| a.0 == b.0 && a.1 < b.1
    ||| a.0 == b.0 && a.1 == b.1 && a.2 < b.2
    ||| a.0 == b.0 && a.1 == b.1 && a.2 == b.2 && a.3 < b.3
}

impl SessionView {
    /// The restoration after the events, taken in order.
    pub open spec fn run(self, events: Seq<RestoreEvent>) -> SessionView
        decreases events.len(),
    {
        if events.len() == 0 {
            self
        } else {
            self.run(events.drop_last()).step(events.last())
        }
    }

    /// Nothing has gone wrong so far: the restoration has not failed, no
    /// launch was refused, and every window handled is restored.
    pub open spec fn unhindered(self) -> bool {
        &&& self.phase != Phase::Failed
        &&& forall|k: int| 0 <= k < self.launches.len() ==> !(#[trigger] self.launches[k] is Failed)
        &&& forall|i: int| 0 <= i < self.outcomes.len() ==> #[trigger] self.outcomes[i] is Restored
    }

    /// What is left of a restoration, as four numbers, none below zero: the
    /// stages ahead, the applications or windows ahead in the stage, and
    /// what is left to do for the one at hand.
    pub open spec fn measure(self) -> (int, int, int, int) {
        let windows = self.layout.windows.len() as int;
        let tries = self.policy.attempts();
        match self.phase {
            Phase::Permission => (6, 0, 0, 0),
            Phase::Topology => (5, 0, 0, 0),
            Phase::Probe { app } => (4, self.plan().len() - app, 1, 0),
            Phase::Launch { app } => (4, self.plan().len() - app, 0, 0),
            Phase::Poll { app, waited_ms } => (
                3,
                self.launches.len() - app,
                if waited_ms < self.policy.launch_timeout_ms {
                    self.policy.launch_timeout_ms - waited_ms
                } else {
                    0
                },
                1,
            ),
            Phase::PollSleep { app, waited_ms } => (
                3,
                self.launches.len() - app,
                self.policy.launch_timeout_ms - waited_ms,
                0,
            ),
            Phase::Settle => (2, 0, 0, 0),
            Phase::Convert { window } => (1, windows - window, 2 * tries + 2, 0),
            Phase::Apply { window, attempt, x, y } => (
                1,
                windows - window,
                2 * (tries - attempt) + 1,
                0,
            ),
            Phase::Backoff { window, attempt, x, y } => (
                1,
                windows - window,
                2 * (tries - attempt),
                0,
            ),
            Phase::Pause { window } => (1, windows - window, 0, 0),
            Phase::Finished | Phase::Failed => (0, 0, 0, 0),
        }
    }
}

/// With a launch timeout of zero no application is ever asked whether it
/// has started: the launch phase is followed by the settle delay at once,
/// and every application that was launched counts as timed out.
pub proof fn law_no_poll_without_timeout(session: SessionView, from: int)
    requires
        session.policy.launch_timeout_ms == 0,
    ensures
        session.inv() ==> !(session.phase is Poll) && !(session.phase is PollSleep),
        session.enter_wait(from).phase == Phase::Settle,
        session.enter_wait(from).launches.len() == session.launches.len(),
        forall|k: int|
            0 <= k < session.launches.len() ==> (#[trigger] session.enter_wait(from).launches[k])
                == if session.launches[k] is Launched {
                LaunchState::TimedOut
            } else {
                session.launches[k]
            },
{
}

/// An event that does not answer the awaited action changes nothing.
pub proof fn law_unawaited_event_changes_nothing(session: SessionView, event: RestoreEvent)
    requires
        !answers(session.phase, event),
    ensures
        session.step(event) == session,
{
}

/// Every answer brings the restoration nearer to its end: the measure gets
/// smaller and never falls below zero. So a restoration ends, however long
/// an application takes to start and however often a window fails.
pub proof fn law_every_answer_makes_progress(session: SessionView, event: RestoreEvent)
    requires
        session.inv(),
        answers(session.phase, event),
    ensures
        measure_below(session.step(event).measure(), session.measure()),
        session.measure().0 >= 0 && session.measure().1 >= 0 && session.measure().2 >= 0
            && session.measure().3 >= 0,
{
    lemma_launch_plan_in_range(session.layout.windows);
    match session.phase {
        Phase::Topology => {
            lemma_next_launched(session.launches, 0);
        },
        Phase::Probe { app } => {
            lemma_next_launched(session.launches.push(LaunchState::Running), 0);
        },
        Phase::Launch { app } => {
            match event {
                RestoreEvent::Launched => {
                    lemma_next_launched(session.launches.push(LaunchState::Launched), 0);
                },
                RestoreEvent::LaunchRefused(reason) => {
                    lemma_next_launched(session.launches.push(LaunchState::Failed(reason)), 0);
                },
                _ => {},
            }
        },
        Phase::Poll { app, waited_ms } => {
            lemma_next_launched(session.launches.update(app as int, LaunchState::Ready), app + 1);
            lemma_next_launched(session.launches.update(app as int, LaunchState::TimedOut), app + 1);
        },
        _ => {},
    }
}

/// Whatever is reported, a restoration stays what `inv` says it is, and
/// goes on under the policy and on the layout with which it began.
pub proof fn law_run_preserves_inv(session: SessionView, events: Seq<RestoreEvent>)
    requires
        session.inv(),
    ensures
        session.run(events).inv(),
        session.run(events).layout == session.layout,
        session.run(events).policy == session.policy,
    decreases events.len(),
{
    if events.len() > 0 {
        law_run_preserves_inv(session, events.drop_last());
        lemma_step_preserves_inv(session.run(events.drop_last()), events.last());
    }
}

/// A restoration fails as a whole only where the permission is missing or
/// the displays cannot be read. Nothing else ends it early: not a launch
/// that is refused, not an application that never starts, not a window that
/// cannot be put in place.
pub proof fn law_only_preconditions_fail(session: SessionView, event: RestoreEvent)
    requires
        session.phase != Phase::Failed,
        session.step(event).phase == Phase::Failed,
    ensures
        fatal(event),
        session.phase == Phase::Permission || session.phase == Phase::Topology,
{
}

/// The same, of a whole run: without a fatal event it does not fail.
pub proof fn law_run_without_fatal_event_does_not_fail(
    session: SessionView,
    events: Seq<RestoreEvent>,
)
    requires
        session.phase != Phase::Failed,
        forall|i: int| 0 <= i < events.len() ==> !fatal(#[trigger] events[i]),
    ensures
        session.run(events).phase != Phase::Failed,
    decreases events.len(),
{
    if events.len() > 0 {
        let earlier = events.drop_last();
        assert forall|i: int| 0 <= i < earlier.len() implies !fatal(#[trigger] earlier[i]) by {
            assert(earlier[i] == events[i]);
        }
        law_run_without_fatal_event_does_not_fail(session, earlier);
        assert(!fatal(events[events.len() - 1]));
    }
}

/// Where nothing has gone wrong and the next event is favourable, still
/// nothing has gone wrong.
pub proof fn law_favourable_step(session: SessionView, event: RestoreEvent)
    requires
        session.inv(),
        session.unhindered(),
        favourable(event),
    ensures
        session.step(event).unhindered(),
{
    let next = session.step(event);
    let windows = session.layout.windows;
    assert forall|window: int| 0 <= window < windows.len() implies (#[trigger] session.enter_window(
        window,
    )).outcomes == session.outcomes by {
        let app = app_index(windows, session.plan(), windows[window].bundle_id, 0);
        lemma_app_index(windows, session.plan(), windows[window].bundle_id, 0);
        if app < session.launches.len() {
            assert(!(session.launches[app] is Failed));
        }
    }
    match (session.phase, event) {
        (Phase::Settle, RestoreEvent::Slept) => {
            assert(next == session.enter_window(0));
        },
        (Phase::Pause { window }, RestoreEvent::Slept) => {
            assert(next == session.enter_window(window + 1));
        },
        _ => {},
    }
    assert forall|k: int| 0 <= k < next.launches.len() implies !(#[trigger] next.launches[k]
        is Failed) by {
        if k < session.launches.len() {
            assert(!(session.launches[k] is Failed));
        }
    }
    assert forall|i: int| 0 <= i < next.outcomes.len() implies #[trigger] next.outcomes[i]
        is Restored by {
        if i < session.outcomes.len() {
            assert(session.outcomes[i] is Restored);
        }
    }
}

/// Outcomes that are all `Restored` count as such.
pub proof fn lemma_count_all_restored(outcomes: Seq<RestoreOutcome>)
    requires
        forall|i: int| 0 <= i < outcomes.len() ==> #[trigger] outcomes[i] is Restored,
    ensures
        count_restored(outcomes) == outcomes.len(),
        count_not_found(outcomes) == 0,
        count_failed(outcomes) == 0,
    decreases outcomes.len(),
{
    if outcomes.len() > 0 {
        let earlier = outcomes.drop_last();
        assert forall|i: int| 0 <= i < earlier.len() implies #[trigger] earlier[i] is Restored by {
            assert(earlier[i] == outcomes[i]);
        }
        lemma_count_all_restored(earlier);
        assert(outcomes[outcomes.len() - 1] is Restored);
    }
}

/// A restoration in which every event is favourable reports every window
/// of the layout as restored. A restoration keeps nothing from one call to
/// the next, so this holds of each call alike: the second restoration of a
/// layout whose windows are in place reports what the first did.
pub proof fn law_favourable_run_restores_all(
    layout: LayoutView,
    policy: RestorePolicy,
    events: Seq<RestoreEvent>,
)
    requires
        layout.windows.len() <= usize::MAX,
        forall|i: int| 0 <= i < events.len() ==> favourable(#[trigger] events[i]),
    ensures
        SessionView::start(layout, policy).run(events).inv(),
        SessionView::start(layout, policy).run(events).unhindered(),
        SessionView::start(layout, policy).run(events).phase == Phase::Finished ==> ({
            let outcomes = SessionView::start(layout, policy).run(events).outcomes;
            &&& outcomes.len() == layout.windows.len()
            &&& forall|i: int| 0 <= i < outcomes.len() ==> #[trigger] outcomes[i] is Restored
            &&& count_restored(outcomes) == layout.windows.len()
            &&& count_not_found(outcomes) == 0
            &&& count_failed(outcomes) == 0
        }),
    decreases events.len(),
{
    let start = SessionView::start(layout, policy);
    law_run_preserves_inv(start, events);
    if events.len() > 0 {
        let earlier = events.drop_last();
        assert forall|i: int| 0 <= i < earlier.len() implies favourable(#[trigger] earlier[i]) by {
            assert(earlier[i] == events[i]);
        }
        law_favourable_run_restores_all(layout, policy, earlier);
        assert(favourable(events[events.len() - 1]));
        lemma_step_preserves_inv(start.run(earlier), events.last());
        law_favourable_step(start.run(earlier), events.last());
    }
    lemma_count_all_restored(start.run(events).outcomes);
}

/// A window that names a display which is not connected is put on the main
/// display, where there is one: the missing display does not stand in the
/// way of the window.
pub proof fn law_missing_display_falls_back_to_main(
    displays: Seq<DisplayInfoView>,
    uuid: Seq<char>,
)
    requires
        forall|i: int| 0 <= i < displays.len() ==> (#[trigger] displays[i]).uuid != uuid,
        exists|i: int| 0 <= i < displays.len() && (#[trigger] displays[i]).is_main,
    ensures
        DisplayManager::target_of(displays, uuid) is Some,
        0 <= DisplayManager::target_of(displays, uuid)->0 < displays.len(),
        displays[DisplayManager::target_of(displays, uuid)->0].is_main,
{
    lemma_position_of(displays, uuid, 0);
    lemma_main_position(displays, 0);
}

/// How many of the outcomes are `Restored`.
pub open spec fn count_restored(outcomes: Seq<RestoreOutcome>) -> nat
    decreases outcomes.len(),
{
    if outcomes.len() == 0 {
        0
    } else {
        count_restored(outcomes.drop_last()) + if outcomes.last() is Restored {
            1nat
        } else {
            0nat
        }
    }
}

/// How many of the outcomes are `NotFound`.
pub open spec fn count_not_found(outcomes: Seq<RestoreOutcome>) -> nat
    decreases outcomes.len(),
{
    if outcomes.len() == 0 {
        0
    } else {
        count_not_found(outcomes.drop_last()) + if outcomes.last() is NotFound {
            1nat
        } else {
            0nat
        }
    }
}

/// How many of the outcomes are failures, of the apply or of the launch.
pub open spec fn count_failed(outcomes: Seq<RestoreOutcome>) -> nat
    decreases outcomes.len(),
{
    if outcomes.len() == 0 {
        0
    } else {
        count_failed(outcomes.drop_last()) + if outcomes.last() is ApplyFailed
            || outcomes.last() is LaunchFailed {
            1nat
        } else {
            0nat
        }
    }
}

/// Each window is counted once: as restored, as not found or as failed.
pub proof fn lemma_counts_add_up(outcomes: Seq<RestoreOutcome>)
    ensures
        count_restored(outcomes) + count_not_found(outcomes) + count_failed(outcomes)
            == outcomes.len(),
    decreases outcomes.len(),
{
    if outcomes.len() > 0 {
        lemma_counts_add_up(outcomes.drop_last());
    }
}

/// What a restoration did: one outcome for each window of the layout, in
/// the layout's order, and how many there are of each kind.
#[derive(Debug, PartialEq, Eq)]
pub struct RestoreReport {
    pub outcomes: Vec<RestoreOutcome>,
    pub restored: usize,
    pub not_found: usize,
    pub failed: usize,
}

impl RestoreReport {
    /// The counts are those of the outcomes.
    pub open spec fn well_formed(self) -> bool {
        &&& self.restored == count_restored(self.outcomes@)
        &&& self.not_found == count_not_found(self.outcomes@)
        &&& self.failed == count_failed(self.outcomes@)
    }

    /// The report on these outcomes.
    pub fn of(outcomes: Vec<RestoreOutcome>) -> (r: RestoreReport)
        ensures
            r.outcomes == outcomes,
            r.well_formed(),
            r.restored + r.not_found + r.failed == outcomes.len(),
    {
        let mut restored: usize = 0;
        let mut not_found: usize = 0;
        let mut failed: usize = 0;
        let n = outcomes.len();
        for i in 0..n
            invariant
                n == outcomes.len(),
                restored == count_restored(outcomes@.take(i as int)),
                not_found == count_not_found(outcomes@.take(i as int)),
                failed == count_failed(outcomes@.take(i as int)),
                restored + not_found + failed == i,
        {
            proof {
                assert(outcomes@.take(i + 1).drop_last() == outcomes@.take(i as int));
                assert(outcomes@.take(i + 1).last() == outcomes[i as int]);
            }
            match &outcomes[i] {
                RestoreOutcome::Restored => {
                    restored = restored + 1;
                },
                RestoreOutcome::NotFound => {
                    not_found = not_found + 1;
                },
                RestoreOutcome::ApplyFailed(_) => {
                    failed = failed + 1;
                },
                RestoreOutcome::LaunchFailed(_) => {
                    failed = failed + 1;
                },
            }
        }
        assert(outcomes@.take(n as int) == outcomes@);
        RestoreReport { outcomes, restored, not_found, failed }
    }
}

/// The text of the error that a restoration without permission ends in.
pub open spec fn permission_message() -> Seq<char> {
    "Accessibility permission required for window restoration"@
}

/// The launch plan of `windows`.
fn plan_launches(windows: &Vec<WindowInfo>) -> (apps: Vec<usize>)
    ensures
        plan_indices(apps@) == launch_plan(window_views(windows@)),
{
    let ghost views = window_views(windows@);
    let mut apps: Vec<usize> = Vec::new();
    let n = windows.len();
    for i in 0..n
        invariant
            n == windows.len(),
            views == window_views(windows@),
            plan_indices(apps@) == launch_plan(views.take(i as int)),
    {
        let mut seen = false;
        for j in 0..i
            invariant
                i < n,
                n == windows.len(),
                views == window_views(windows@),
                seen == (exists|k: int|
                    0 <= k < j && (#[trigger] views[k]).bundle_id == views[i as int].bundle_id),
        {
            assert(views[j as int] == windows[j as int]@);
            assert(views[i as int] == windows[i as int]@);
            if same_text(windows[j].bundle_id.as_str(), windows[i].bundle_id.as_str()) {
                seen = true;
            }
        }
        proof {
            let upto = views.take(i + 1);
            assert(upto.drop_last() == views.take(i as int));
            assert(is_first_seen(upto, i as int) <==> !seen) by {
                if seen {
                    let k = choose|k: int|
                        0 <= k < i && (#[trigger] views[k]).bundle_id == views[i as int].bundle_id;
                    assert(upto[k].bundle_id == upto[i as int].bundle_id);
                } else {
                    assert forall|k: int| 0 <= k < i implies (#[trigger] upto[k]).bundle_id
                        != upto[i as int].bundle_id by {
                        assert(views[k].bundle_id != views[i as int].bundle_id);
                    }
                }
            }
        }
        if !seen {
            apps.push(i);
            assert(plan_indices(apps@) =~= launch_plan(views.take(i as int)).push(i as int));
        }
    }
    assert(views.take(n as int) == views);
    apps
}

/// The position of the first launched application at or after `from`.
fn find_launched(launches: &Vec<LaunchState>, from: usize) -> (r: usize)
    requires
        from <= launches.len(),
    ensures
        r == next_launched(launches@, from as int),
        from <= r <= launches.len(),
{
    let n = launches.len();
    let mut i: usize = from;
    while i < n
        invariant
            n == launches.len(),
            from <= i <= n,
            next_launched(launches@, from as int) == next_launched(launches@, i as int),
        decreases n - i,
    {
        match &launches[i] {
            LaunchState::Launched => {
                return i;
            },
            _ => {},
        }
        i = i + 1;
    }
    i
}

/// Gives up every application that was launched and has not been waited
/// for: it counts as timed out.
fn give_up(launches: &mut Vec<LaunchState>)
    ensures
        final(launches)@ == given_up(old(launches)@),
{
    let ghost before = launches@;
    let n = launches.len();
    let mut k: usize = 0;
    while k < n
        invariant
            n == launches.len(),
            n == before.len(),
            0 <= k <= n,
            forall|j: int| 0 <= j < k ==> launches[j] == given_up(before)[j],
            forall|j: int| k <= j < n ==> launches[j] == before[j],
        decreases n - k,
    {
        let launched = match &launches[k] {
            LaunchState::Launched => true,
            _ => false,
        };
        if launched {
            launches.set(k, LaunchState::TimedOut);
        }
        k = k + 1;
    }
    assert(launches@ =~= given_up(before));
}

/// The position in the plan of the application `id`.
fn find_app(windows: &Vec<WindowInfo>, apps: &Vec<usize>, id: &str) -> (r: usize)
    requires
        forall|k: int| 0 <= k < apps.len() ==> (#[trigger] apps[k]) < windows.len(),
    ensures
        r == app_index(window_views(windows@), plan_indices(apps@), id@, 0),
        r <= apps.len(),
{
    let ghost views = window_views(windows@);
    let ghost plan = plan_indices(apps@);
    let n = apps.len();
    let mut k: usize = 0;
    while k < n
        invariant
            n == apps.len(),
            views == window_views(windows@),
            plan == plan_indices(apps@),
            forall|k: int| 0 <= k < apps.len() ==> (#[trigger] apps[k]) < windows.len(),
            0 <= k <= n,
            app_index(views, plan, id@, 0) == app_index(views, plan, id@, k as int),
        decreases n - k,
    {
        assert(plan[k as int] == apps[k as int]);
        assert(views[apps[k as int] as int] == windows[apps[k as int] as int]@);
        if same_text(windows[apps[k]].bundle_id.as_str(), id) {
            return k;
        }
        k = k + 1;
    }
    k
}

/// The restoration orchestrator: it holds the policy, and starts
/// restorations.
pub struct WindowRestorer {
    app_launcher: AppLauncher,
    policy: RestorePolicy,
}

impl WindowRestorer {
    /// The policy under which restorations are started.
    pub closed spec fn policy(&self) -> RestorePolicy {
        self.policy
    }

    /// An orchestrator with the standard policy.
    pub fn new() -> (r: Result<Self, WindowRestoreError>)
        ensures
            r is Ok,
            r->Ok_0.policy() == RestorePolicy::standard(),
    {
        Ok(WindowRestorer { app_launcher: AppLauncher {  }, policy: RestorePolicy::default() })
    }

    /// An orchestrator with a policy of the caller's.
    pub fn with_policy(policy: RestorePolicy) -> (r: Self)
        ensures
            r.policy() == policy,
    {
        WindowRestorer { app_launcher: AppLauncher {  }, policy }
    }

    /// Starts the restoration of `layout`. Nothing has been done yet: the
    /// first thing awaited is the check of the permission.
    pub fn restore_layout(&self, layout: &Layout) -> (session: RestoreSession)
        ensures
            session@ == SessionView::start(layout@, self.policy()),
    {
        let apps = plan_launches(&layout.windows);
        let copy = layout.clone();
        let displays = DisplayManager::empty();
        assert(displays@ =~= Seq::empty());
        assert(copy@.windows == layout@.windows);
        assert(copy@.windows.len() == copy.windows.len());
        RestoreSession {
            layout: copy,
            policy: self.policy,
            launcher: self.app_launcher,
            displays,
            apps,
            phase: Phase::Permission,
            launches: Vec::new(),
            outcomes: Vec::new(),
            failure: None,
        }
    }
}

impl SessionView {
    /// A restoration of `layout` under `policy` that has just begun.
    pub open spec fn start(layout: LayoutView, policy: RestorePolicy) -> SessionView {
        SessionView {
            layout,
            policy,
            displays: Seq::empty(),
            phase: Phase::Permission,
            launches: Seq::empty(),
            outcomes: Seq::empty(),
            failure: None,
        }
    }
}

/// One restoration under way. The caller asks it for the action that is
/// awaited, performs the action, and reports what came of it, until the
/// action is `Done`.
pub struct RestoreSession {
    layout: Layout,
    policy: RestorePolicy,
    launcher: AppLauncher,
    displays: DisplayManager,
    apps: Vec<usize>,
    phase: Phase,
    launches: Vec<LaunchState>,
    outcomes: Vec<RestoreOutcome>,
    failure: Option<RestoreFailure>,
}

impl View for RestoreSession {
    type V = SessionView;

    closed spec fn view(&self) -> SessionView {
        SessionView {
            layout: self.layout@,
            policy: self.policy,
            displays: self.displays@,
            phase: self.phase,
            launches: self.launches@,
            outcomes: self.outcomes@,
            failure: self.failure,
        }
    }
}

impl RestoreSession {
    #[verifier::type_invariant]
    spec fn well_formed(self) -> bool {
        self@.inv() && plan_indices(self.apps@) == self@.plan()
    }

    /// The layout that is being restored.
    pub fn layout(&self) -> (r: &Layout)
        ensures
            r@ == self@.layout,
    {
        &self.layout
    }

    /// The displays as they were read for this restoration.
    pub fn displays(&self) -> (r: &DisplayManager)
        ensures
            r@ == self@.displays,
    {
        &self.displays
    }

    /// Whether the restoration has ended.
    pub fn is_done(&self) -> (r: bool)
        ensures
            r == self@.ended(),
    {
        match self.phase {
            Phase::Finished => true,
            Phase::Failed => true,
            _ => false,
        }
    }

    /// The action that is awaited.
    pub fn action(&self) -> (r: RestoreAction)
        ensures
            r == self@.pending(),
            self@.inv(),
    {
        proof {
            use_type_invariant(self);
            lemma_launch_plan_in_range(self@.layout.windows);
        }
        match self.phase {
            Phase::Permission => RestoreAction::CheckPermission,
            Phase::Topology => RestoreAction::RefreshDisplays,
            Phase::Probe { app } => {
                assert(self@.plan()[app as int] == self.apps[app as int]);
                RestoreAction::QueryRunning { window: self.apps[app] }
            },
            Phase::Launch { app } => {
                assert(self@.plan()[app as int] == self.apps[app as int]);
                RestoreAction::Launch { window: self.apps[app] }
            },
            Phase::Poll { app, waited_ms } => {
                assert(self@.plan()[app as int] == self.apps[app as int]);
                RestoreAction::QueryRunning { window: self.apps[app] }
            },
            Phase::PollSleep { app, waited_ms } => RestoreAction::Sleep {
                ms: self.policy.launch_poll_ms,
            },
            Phase::Settle => RestoreAction::Sleep { ms: self.policy.settle_delay_ms },
            Phase::Convert { window } => RestoreAction::Convert { window },
            Phase::Apply { window, attempt, x, y } => {
                assert(self@.layout.windows[window as int] == self.layout.windows[window as int]@);
                let display = self.displays.resolve_target(
                    self.layout.windows[window].display_uuid.as_str(),
                );
                RestoreAction::Apply { window, display, x, y }
            },
            Phase::Backoff { window, attempt, x, y } => RestoreAction::Sleep {
                ms: self.policy.retry_backoff_ms,
            },
            Phase::Pause { window } => RestoreAction::Sleep { ms: self.policy.window_pause_ms },
            Phase::Finished => RestoreAction::Done,
            Phase::Failed => RestoreAction::Done,
        }
    }

    /// Takes in what came of the awaited action, and decides what follows.
    /// An event that does not answer the awaited action changes nothing.
    pub fn advance(self, event: RestoreEvent) -> (next: RestoreSession)
        ensures
            next@ == self@.step(event),
    {
        proof {
            use_type_invariant(&self);
            lemma_step_preserves_inv(self@, event);
            lemma_launch_plan_in_range(self@.layout.windows);
        }
        let ghost before = self@;
        let RestoreSession {
            layout,
            policy,
            launcher,
            displays,
            apps,
            phase,
            launches,
            outcomes,
            failure,
        } = self;
        let mut displays = displays;
        let mut phase = phase;
        let mut launches = launches;
        let mut outcomes = outcomes;
        let mut failure = failure;
        // Where the event ends the launch phase or a wait, the position from
        // which the next launched application is looked for; where it ends a
        // window, the window that follows.
        let mut wait_from: Option<usize> = None;
        let mut next_window: Option<usize> = None;
        match (phase, event) {
            (Phase::Permission, RestoreEvent::Permission(granted)) => {
                if granted {
                    phase = Phase::Topology;
                } else {
                    phase = Phase::Failed;
                    failure = Some(RestoreFailure::PermissionDenied);
                }
            },
            (Phase::Topology, RestoreEvent::DisplaysRefreshed(reported)) => {
                let _ = displays.refresh_displays(reported);
                if apps.len() > 0 {
                    phase = Phase::Probe { app: 0 };
                } else {
                    wait_from = Some(0);
                }
            },
            (Phase::Topology, RestoreEvent::DisplaysUnavailable(reason)) => {
                phase = Phase::Failed;
                failure = Some(RestoreFailure::Topology(reason));
            },
            (Phase::Probe { app }, RestoreEvent::Running(running)) => {
                if running {
                    launches.push(LaunchState::Running);
                    if app + 1 < apps.len() {
                        phase = Phase::Probe { app: app + 1 };
                    } else {
                        wait_from = Some(0);
                    }
                } else {
                    phase = Phase::Launch { app };
                }
            },
            (Phase::Launch { app }, RestoreEvent::Launched) => {
                launches.push(LaunchState::Launched);
                if app + 1 < apps.len() {
                    phase = Phase::Probe { app: app + 1 };
                } else {
                    wait_from = Some(0);
                }
            },
            (Phase::Launch { app }, RestoreEvent::LaunchRefused(reason)) => {
                launches.push(LaunchState::Failed(reason));
                if app + 1 < apps.len() {
                    phase = Phase::Probe { app: app + 1 };
                } else {
                    wait_from = Some(0);
                }
            },
            (Phase::Poll { app, waited_ms }, RestoreEvent::Running(running)) => {
                match launcher.wait_for_app(
                    running,
                    waited_ms,
                    policy.launch_timeout_ms,
                    policy.launch_poll_ms,
                ) {
                    WaitStep::Ready => {
                        launches.set(app, LaunchState::Ready);
                        wait_from = Some(app + 1);
                    },
                    WaitStep::TimedOut => {
                        launches.set(app, LaunchState::TimedOut);
                        wait_from = Some(app + 1);
                    },
                    WaitStep::PollAgain => {
                        phase = Phase::PollSleep { app, waited_ms };
                    },
                }
            },
            (Phase::PollSleep { app, waited_ms }, RestoreEvent::Slept) => {
                let step: u64 = if policy.launch_poll_ms == 0 {
                    1
                } else {
                    policy.launch_poll_ms
                };
                phase = Phase::Poll { app, waited_ms: waited_ms + step };
            },
            (Phase::Settle, RestoreEvent::Slept) => {
                next_window = Some(0);
            },
            (Phase::Convert { window }, RestoreEvent::Converted(position)) => {
                assert(before.layout.windows[window as int] == layout.windows[window as int]@);
                match position {
                    Some((x, y)) => {
                        phase = Phase::Apply { window, attempt: 1, x, y };
                    },
                    None => {
                        phase =
                        Phase::Apply {
                            window,
                            attempt: 1,
                            x: layout.windows[window].frame.x,
                            y: layout.windows[window].frame.y,
                        };
                    },
                }
            },
            (Phase::Apply { window, attempt, x, y }, RestoreEvent::Applied(result)) => {
                match result {
                    ApplyResult::Applied => {
                        outcomes.push(RestoreOutcome::Restored);
                        phase = Phase::Pause { window };
                    },
                    ApplyResult::WindowNotFound => {
                        outcomes.push(RestoreOutcome::NotFound);
                        phase = Phase::Pause { window };
                    },
                    ApplyResult::Failed(reason) => {
                        if attempt < policy.max_attempts {
                            phase = Phase::Backoff { window, attempt, x, y };
                        } else {
                            outcomes.push(RestoreOutcome::ApplyFailed(reason));
                            phase = Phase::Pause { window };
                        }
                    },
                }
            },
            (Phase::Backoff { window, attempt, x, y }, RestoreEvent::Slept) => {
                phase = Phase::Apply { window, attempt: attempt + 1, x, y };
            },
            (Phase::Pause { window }, RestoreEvent::Slept) => {
                next_window = Some(window + 1);
            },
            _ => {},
        }
        match wait_from {
            Some(from) => {
                if !launcher.may_poll(0, policy.launch_timeout_ms) {
                    give_up(&mut launches);
                    phase = Phase::Settle;
                } else {
                    let app = find_launched(&launches, from);
                    if app < launches.len() {
                        phase = Phase::Poll { app, waited_ms: 0 };
                    } else {
                        phase = Phase::Settle;
                    }
                }
            },
            None => {},
        }
        match next_window {
            Some(window) => {
                if window >= layout.windows.len() {
                    phase = Phase::Finished;
                } else {
                    assert(before.layout.windows[window as int] == layout.windows[window as int]@);
                    assert forall|k: int| 0 <= k < apps.len() implies (#[trigger] apps[k])
                        < layout.windows.len() by {
                        assert(before.plan()[k] == apps[k]);
                    }
                    let app = find_app(
                        &layout.windows,
                        &apps,
                        layout.windows[window].bundle_id.as_str(),
                    );
                    let mut refused: Option<String> = None;
                    if app < launches.len() {
                        match &launches[app] {
                            LaunchState::Failed(reason) => {
                                refused = Some(reason.clone());
                            },
                            _ => {},
                        }
                    }
                    match refused {
                        Some(reason) => {
                            outcomes.push(RestoreOutcome::LaunchFailed(reason));
                            phase = Phase::Pause { window };
                        },
                        None => {
                            phase = Phase::Convert { window };
                        },
                    }
                }
            },
            None => {},
        }
        RestoreSession {
            layout,
            policy,
            launcher,
            displays,
            apps,
            phase,
            launches,
            outcomes,
            failure,
        }
    }

    /// The end of the restoration: the report, or the failure that ended
    /// it; `None` while it is under way.
    pub fn finish(self) -> (r: Option<Result<RestoreReport, WindowRestoreError>>)
        ensures
            r is Some <==> self@.ended(),
            r matches Some(Ok(report)) ==> self@.phase == Phase::Finished && report.outcomes@
                == self@.outcomes && report.well_formed() && report.outcomes@.len()
                == self@.layout.windows.len(),
            r matches Some(Err(e)) ==> self@.phase == Phase::Failed && match self@.failure {
                Some(RestoreFailure::PermissionDenied) => e matches WindowRestoreError::PermissionDenied(
                    m,
                ) && m@ == permission_message(),
                Some(RestoreFailure::Topology(reason)) => e == WindowRestoreError::Topology(reason),
                None => false,
            },
    {
        proof {
            use_type_invariant(&self);
        }
        let RestoreSession {
            layout,
            policy,
            launcher,
            displays,
            apps,
            phase,
            launches,
            outcomes,
            failure,
        } = self;
        match phase {
            Phase::Finished => Some(Ok(RestoreReport::of(outcomes))),
            Phase::Failed => match failure {
                Some(RestoreFailure::PermissionDenied) => Some(
                    Err(
                        WindowRestoreError::PermissionDenied(
                            String::from_str(
                                "Accessibility permission required for window restoration",
                            ),
                        ),
                    ),
                ),
                Some(RestoreFailure::Topology(reason)) => Some(
                    Err(WindowRestoreError::Topology(reason)),
                ),
                None => None,
            },
            _ => None,
        }
    }
}

/// A window that is on the screen now, as far as it is needed to find the
/// window of a snapshot again.
#[derive(Debug, PartialEq, Eq)]
pub struct LiveWindow {
    pub app_name: String,
    pub title: String,
}

/// The index of the first live window at or after `from` that has the
/// application name and the title of `window`, or the number of live
/// windows where there is none.
pub open spec fn live_match(live: Seq<LiveWindow>, window: WindowInfoView, from: int) -> int
    decreases live.len() - from,
{
    if from < 0 || from >= live.len() {
        live.len() as int
    } else if live[from].app_name@ == window.app_name && live[from].title@ == window.title {
        from
    } else {
        live_match(live, window, from + 1)
    }
}

/// The script that moves the first window of the process `app_name` to
/// `x`, `y`, and answers `OK` or the error that it met.
pub open spec fn position_script_text(app_name: Seq<char>, x: int, y: int) -> Seq<char> {
    "tell application \"System Events\"\n  tell process \""@ + escape_quotes(app_name)
        + "\"\n    try\n      set position of first window to {"@ + decimal(x) + ", "@ + decimal(y)
        + "}\n      return \"OK\"\n    on error errMsg\n      return errMsg\n    end try\n  end tell\nend tell"@
}

/// Whether `text` ends in `OK`.
pub open spec fn ends_in_ok(text: Seq<char>) -> bool {
    text.len() >= 2 && text[text.len() - 2] == 'O' && text[text.len() - 1] == 'K'
}

/// What the run of a script says of the attempt: it failed where the run
/// failed, or where what it printed, trimmed, does not end in `OK`.
pub open spec fn script_verdict(succeeded: bool, output: Seq<char>) -> bool {
    succeeded && ends_in_ok(trimmed(output))
}

/// The reason of an attempt that failed.
pub open spec fn script_failure(succeeded: bool, output: Seq<char>, errors: Seq<char>) -> Seq<char> {
    if !succeeded {
        "AppleScript execution failed: "@ + errors
    } else {
        "AppleScript returned error: "@ + trimmed(output)
    }
}

impl WindowRestorer {
    /// Finds the live window for a window of a snapshot: the first one with
    /// the same application name and the same title.
    pub fn find_live_window(live: &Vec<LiveWindow>, window: &WindowInfo) -> (r: Option<usize>)
        ensures
            r is Some <==> live_match(live@, window@, 0) < live.len(),
            r matches Some(i) ==> i == live_match(live@, window@, 0),
    {
        let n = live.len();
        let mut i: usize = 0;
        while i < n
            invariant
                n == live.len(),
                0 <= i <= n,
                live_match(live@, window@, 0) == live_match(live@, window@, i as int),
            decreases n - i,
        {
            if same_text(live[i].app_name.as_str(), window.app_name.as_str()) && same_text(
                live[i].title.as_str(),
                window.title.as_str(),
            ) {
                return Some(i);
            }
            i = i + 1;
        }
        None
    }

    /// How an attempt on a window ended: the window is not found where no
    /// live window matches it, whatever else was tried; else the attempt
    /// ended as the run of the script did.
    pub fn apply_result(found: Option<usize>, run: ApplyResult) -> (r: ApplyResult)
        ensures
            r == if found is None {
                ApplyResult::WindowNotFound
            } else {
                run
            },
    {
        match found {
            None => ApplyResult::WindowNotFound,
            Some(_) => run,
        }
    }

    /// The script that moves the first window of `app_name` to `x`, `y`.
    pub fn position_script(app_name: &str, x: i64, y: i64) -> (script: String)
        ensures
            script@ == position_script_text(app_name@, x as int, y as int),
    {
        let mut script = String::from_str(
            "tell application \"System Events\"\n  tell process \"",
        );
        script.append(escape_double_quotes(app_name).as_str());
        script.append("\"\n    try\n      set position of first window to {");
        script.append(decimal_string(x).as_str());
        script.append(", ");
        script.append(decimal_string(y).as_str());
        script.append(
            "}\n      return \"OK\"\n    on error errMsg\n      return errMsg\n    end try\n  end tell\nend tell",
        );
        script
    }

    /// Reads the run of a position script: whether the run succeeded, what
    /// it printed and what it wrote to its error output.
    pub fn script_result(succeeded: bool, output: &str, errors: &str) -> (r: ApplyResult)
        ensures
            r is Applied <==> script_verdict(succeeded, output@),
            r matches ApplyResult::Failed(reason) ==> reason@ == script_failure(
                succeeded,
                output@,
                errors@,
            ),
            !(r is WindowNotFound),
    {
        if !succeeded {
            let mut reason = String::from_str("AppleScript execution failed: ");
            reason.append(errors);
            return ApplyResult::Failed(reason);
        }
        let chars = chars_of(output);
        assert(chars@.subrange(0, chars.len() as int) == chars@);
        let (start, end) = trim_bounds(&chars, 0, chars.len());
        let ghost text = trimmed(output@);
        if end - start >= 2 && chars[end - 2] == 'O' && chars[end - 1] == 'K' {
            assert(text[text.len() - 2] == chars[end - 2]);
            assert(text[text.len() - 1] == chars[end - 1]);
            ApplyResult::Applied
        } else {
            proof {
                if end - start >= 2 {
                    assert(text[text.len() - 2] == chars[end - 2]);
                    assert(text[text.len() - 1] == chars[end - 1]);
                }
            }
            let mut reason = String::from_str("AppleScript returned error: ");
            reason.append(string_of(&chars, start, end).as_str());
            ApplyResult::Failed(reason)
        }
    }
}

} // verus!
