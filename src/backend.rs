use vstd::prelude::*;
use crate::window::Windows;

verus! {

/// A source of the windows that stand for the tabs of the focused tabbed or stacked
/// container, each by its most recently focused window.
pub trait GetTabs {
    fn get_tabs(&self) -> Result<Windows, String>;
}

/// A source of the windows that are on screen.
pub trait GetVisible {
    fn get_visible(&self) -> Result<Windows, String>;
}

/// A sink that moves the focus to a window.
pub trait SetFocus {
    fn set_focus(&mut self, window_id: &u64);
}

} // verus!
