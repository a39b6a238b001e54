//! Plain-value state for a configuration editor collaborator: which settings
//! tab is open, and which screen or interval is currently being edited.
//! Nothing here is consumed by the resolver; the types only carry values.

use vstd::prelude::*;
use crate::config::{ScreenConfig, TimeInterval};

verus! {

/// The open tab of a settings view.
#[derive(Debug, Clone, Copy, PartialEq, Eq, Structural)]
pub enum SettingsTab {
    Timers,
    System,
}

/// A screen being edited, and whether it is a new one.
#[derive(Debug, Clone)]
pub struct EditingScreen {
    pub screen: ScreenConfig,
    pub is_new: bool,
}

/// An interval being edited, and whether it is a new one.
#[derive(Debug, Clone)]
pub struct EditingInterval {
    pub interval: TimeInterval,
    pub is_new: bool,
}

} // verus!
