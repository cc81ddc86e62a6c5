//! What the policy reads of the launch configuration.

use vstd::prelude::*;

verus! {

/// The platform that the shell runs on, as far as the policy tells platforms
/// apart.
#[derive(Clone, Copy, Debug, PartialEq, Eq, Structural)]
pub enum Platform {
    MacOs,
    Linux,
    Other,
}

/// The launch configuration: loaded once, before any window exists, and
/// never changed.
#[derive(Debug, PartialEq, Eq)]
pub struct LaunchConfig {
    /// The URL of the hosted page.
    pub url: String,
    /// Whether the primary window starts fullscreen.
    pub fullscreen: bool,
    /// Whether a close request hides the window instead of ending the process.
    pub hide_on_close: bool,
    /// Whether the primary window stays hidden until it is called from the tray.
    pub start_to_tray: bool,
    /// Whether the system tray is in use.
    pub show_system_tray: bool,
    /// Whether every launch runs as a process of its own.
    pub multi_instance: bool,
}

impl Clone for LaunchConfig {
    fn clone(&self) -> (copy: LaunchConfig)
        ensures
            copy == *self,
    {
        LaunchConfig {
            url: self.url.clone(),
            fullscreen: self.fullscreen,
            hide_on_close: self.hide_on_close,
            start_to_tray: self.start_to_tray,
            show_system_tray: self.show_system_tray,
            multi_instance: self.multi_instance,
        }
    }
}

impl LaunchConfig {
    /// Starting hidden in the tray takes a tray: the flag counts only where
    /// the tray is in use.
    pub open spec fn starts_in_tray_spec(&self) -> bool {
        self.start_to_tray && self.show_system_tray
    }

    /// Whether the primary window stays hidden after startup.
    #[verifier::when_used_as_spec(starts_in_tray_spec)]
    pub fn starts_in_tray(&self) -> (hidden: bool)
        ensures
            hidden == self.starts_in_tray_spec(),
    {
        self.start_to_tray && self.show_system_tray
    }

    /// Whether launches are coordinated: a second launch is then handed to
    /// the running process instead of starting one of its own.
    pub open spec fn single_instance_spec(&self) -> bool {
        !self.multi_instance
    }

    /// Whether launches are coordinated.
    #[verifier::when_used_as_spec(single_instance_spec)]
    pub fn single_instance(&self) -> (coordinated: bool)
        ensures
            coordinated == self.single_instance_spec(),
    {
        !self.multi_instance
    }
}

} // verus!
