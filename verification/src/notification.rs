//! Notifications: what they say, and the command that shows them.

use vstd::prelude::*;
use vstd::string::StringExecFns;

use crate::text::{escape_double_quotes, escape_quotes};
use crate::WindowRestoreError;

verus! {

/// The kind of a notification.
#[derive(Debug, Clone, Copy, PartialEq, Eq, Structural)]
pub enum NotificationType {
    Success,
    Error,
    Warning,
    Info,
}

/// A notification as it is kept by a caller that records what it showed.
#[derive(Debug)]
pub struct Notification {
    pub title: String,
    pub message: String,
    pub notification_type: NotificationType,
    pub timestamp: String,
}

/// The script that shows a notification: title and message stand in double
/// quotes, with each double quote of theirs escaped.
pub open spec fn notification_script(title: Seq<char>, message: Seq<char>) -> Seq<char> {
    "display notification \""@ + escape_quotes(message) + "\" with title \""@ + escape_quotes(
        title,
    ) + "\""@
}

/// `before`, then the layout name in single quotes, then `after`.
pub open spec fn about_layout(before: Seq<char>, layout_name: Seq<char>, after: Seq<char>) -> Seq<
    char,
> {
    before + layout_name + after
}

/// The text shown where a permission is missing.
pub open spec fn permission_required_message() -> Seq<char> {
    "Window Restore needs accessibility permissions to work properly. Please grant permissions in System Preferences."@
}

/// Writes the scripts that show notifications. It shows nothing itself:
/// the caller runs the script.
#[derive(Debug, Clone, Copy)]
pub struct NotificationManager {}

impl NotificationManager {
    /// A manager. It holds nothing, and making it never fails.
    pub fn new() -> (r: Result<Self, WindowRestoreError>)
        ensures
            r is Ok,
    {
        Ok(NotificationManager {  })
    }

    /// The script that shows `message` under `title`. The kind does not
    /// change what is shown.
    pub fn show_notification(
        &self,
        title: &str,
        message: &str,
        _notification_type: NotificationType,
    ) -> (script: String)
        ensures
            script@ == notification_script(title@, message@),
    {
        let mut script = String::from_str("display notification \"");
        script.append(escape_double_quotes(message).as_str());
        script.append("\" with title \"");
        script.append(escape_double_quotes(title).as_str());
        script.append("\"");
        script
    }

    /// The script that shows a success.
    pub fn show_success(&self, title: &str, message: &str) -> (script: String)
        ensures
            script@ == notification_script(title@, message@),
    {
        self.show_notification(title, message, NotificationType::Success)
    }

    /// The script that shows an error.
    pub fn show_error(&self, title: &str, message: &str) -> (script: String)
        ensures
            script@ == notification_script(title@, message@),
    {
        self.show_notification(title, message, NotificationType::Error)
    }

    /// The script that shows a warning.
    pub fn show_warning(&self, title: &str, message: &str) -> (script: String)
        ensures
            script@ == notification_script(title@, message@),
    {
        self.show_notification(title, message, NotificationType::Warning)
    }

    /// The script that shows a piece of information.
    pub fn show_info(&self, title: &str, message: &str) -> (script: String)
        ensures
            script@ == notification_script(title@, message@),
    {
        self.show_notification(title, message, NotificationType::Info)
    }

    /// The script that tells that the layout `layout_name` was saved.
    pub fn show_layout_saved(&self, layout_name: &str) -> (script: String)
        ensures
            script@ == notification_script(
                "Layout Saved"@,
                about_layout("Layout '"@, layout_name@, "' has been saved successfully"@),
            ),
    {
        let mut message = String::from_str("Layout '");
        message.append(layout_name);
        message.append("' has been saved successfully");
        self.show_success("Layout Saved", message.as_str())
    }

    /// The script that tells that the layout `layout_name` was restored.
    pub fn show_layout_restored(&self, layout_name: &str) -> (script: String)
        ensures
            script@ == notification_script(
                "Layout Restored"@,
                about_layout("Layout '"@, layout_name@, "' has been restored successfully"@),
            ),
    {
        let mut message = String::from_str("Layout '");
        message.append(layout_name);
        message.append("' has been restored successfully");
        self.show_success("Layout Restored", message.as_str())
    }

    /// The script that tells that the layout `layout_name` was deleted.
    pub fn show_layout_deleted(&self, layout_name: &str) -> (script: String)
        ensures
            script@ == notification_script(
                "Layout Deleted"@,
                about_layout("Layout '"@, layout_name@, "' has been deleted"@),
            ),
    {
        let mut message = String::from_str("Layout '");
        message.append(layout_name);
        message.append("' has been deleted");
        self.show_info("Layout Deleted", message.as_str())
    }

    /// The script that asks for the permission to control windows.
    pub fn show_permission_required(&self) -> (script: String)
        ensures
            script@ == notification_script("Permission Required"@, permission_required_message()),
    {
        self.show_warning(
            "Permission Required",
            "Window Restore needs accessibility permissions to work properly. Please grant permissions in System Preferences.",
        )
    }

    /// The script that shows an error message as it is.
    pub fn show_generic_error(&self, error_message: &str) -> (script: String)
        ensures
            script@ == notification_script("Error"@, error_message@),
    {
        self.show_error("Error", error_message)
    }
}

} // verus!
