//! Settings of the application window

use vstd::prelude::*;

verus! {

/// Settings
#[derive(Debug, Copy, Clone, PartialEq, Eq, Structural)]
pub struct Settings {
    /// Width of the application window
    pub width: i32,
    /// Height of the application window
    pub height: i32,
    /// Is the application window maximized?
    pub is_maximized: bool,
}

impl Settings {
    /// Settings of a window of this size
    pub fn new(width: i32, height: i32, is_maximized: bool) -> (res: Self)
        ensures
            res == (Settings { width, height, is_maximized }),
    {
        Settings { width, height, is_maximized }
    }
}

} // verus!
