//! The permissions that the platform has granted.

use vstd::prelude::*;

use crate::WindowRestoreError;

verus! {

/// The permissions at one moment.
#[derive(Debug, Clone, Copy, PartialEq, Eq, Structural)]
pub struct PermissionStatus {
    pub accessibility: bool,
    pub screen_recording: bool,
    pub all_granted: bool,
}

/// Holds what the platform last reported of the two permissions. Until it
/// has reported anything, the permission to control windows counts as
/// missing and the permission to record the screen as granted.
#[derive(Debug, Clone, Copy, PartialEq, Eq, Structural)]
pub struct PermissionChecker {
    pub accessibility: bool,
    pub screen_recording: bool,
}

impl PermissionChecker {
    /// A checker to which the platform has reported nothing yet.
    pub fn new() -> (r: Result<Self, WindowRestoreError>)
        ensures
            r == Ok::<Self, WindowRestoreError>(
                PermissionChecker { accessibility: false, screen_recording: true },
            ),
    {
        Ok(PermissionChecker { accessibility: false, screen_recording: true })
    }

    /// A checker that holds what the platform reported.
    pub fn reported(accessibility: bool, screen_recording: bool) -> (r: Self)
        ensures
            r == (PermissionChecker { accessibility, screen_recording }),
    {
        PermissionChecker { accessibility, screen_recording }
    }

    /// Whether the permission to control windows is granted.
    pub fn check_accessibility_permission(&self) -> (r: bool)
        ensures
            r == self.accessibility,
    {
        self.accessibility
    }

    /// Asks for the permission to control windows. Asking changes nothing
    /// that the checker holds, and never fails: what the platform then
    /// grants reaches the checker as a new report.
    pub fn request_accessibility_permission(&self) -> (r: Result<(), WindowRestoreError>)
        ensures
            r is Ok,
    {
        Ok(())
    }

    /// Asks for the permission to record the screen, in the same way.
    pub fn request_screen_recording_permission(&self) -> (r: Result<(), WindowRestoreError>)
        ensures
            r is Ok,
    {
        Ok(())
    }

    /// Whether the permission to record the screen is granted.
    pub fn check_screen_recording_permission(&self) -> (r: bool)
        ensures
            r == self.screen_recording,
    {
        self.screen_recording
    }

    /// Both permissions, and whether both are granted.
    pub fn check_all_permissions(&self) -> (r: PermissionStatus)
        ensures
            r.accessibility == self.accessibility,
            r.screen_recording == self.screen_recording,
            r.all_granted == (self.accessibility && self.screen_recording),
    {
        let accessibility = self.check_accessibility_permission();
        let screen_recording = self.check_screen_recording_permission();
        PermissionStatus {
            accessibility,
            screen_recording,
            all_granted: accessibility && screen_recording,
        }
    }
}

/// Whether the permission to control windows is granted, as far as is known
/// before the platform has reported anything: it is not.
pub fn check_accessibility_permission() -> (r: bool)
    ensures
        !r,
{
    match PermissionChecker::new() {
        Ok(checker) => checker.check_accessibility_permission(),
        Err(_) => false,
    }
}

} // verus!
