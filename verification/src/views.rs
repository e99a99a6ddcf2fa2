//! Small view state: the context page, the detail tab and the look of toggle buttons.
use vstd::prelude::*;

verus! {

/// The context page to display in the context drawer.
#[derive(Copy, Clone, Debug, Eq, PartialEq, Structural)]
pub enum ContextPage {
    Settings,
}

impl Default for ContextPage {
    fn default() -> (p: Self)
        ensures
            p == ContextPage::Settings,
    {
        ContextPage::Settings
    }
}

/// Which detail tab is active below the drive header.
#[derive(Debug, Clone, Copy, PartialEq, Eq, Structural)]
pub enum DetailTab {
    VolumeInfo,
    Usage,
    BtrfsManagement,
}

impl Default for DetailTab {
    fn default() -> (t: Self)
        ensures
            t == DetailTab::VolumeInfo,
    {
        DetailTab::VolumeInfo
    }
}

/// The look of a toggle button.
#[derive(Copy, Clone, Debug, PartialEq, Eq, Structural)]
pub enum ToggleState {
    Normal,
    Active,
    Disabled,
    Hovered,
    Pressed,
}

impl ToggleState {
    /// A selected button looks active; otherwise it keeps `toggle`.
    pub fn active_or(selected: &bool, toggle: ToggleState) -> (s: Self)
        ensures
            s == if *selected { ToggleState::Active } else { toggle },
    {
        if *selected {
            ToggleState::Active
        } else {
            toggle
        }
    }
}

} // verus!
