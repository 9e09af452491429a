//! An earlier status bar, which holds the status it last received, if any.
use vstd::prelude::*;

verus! {

/// The status of the connection, as that bar received it.
pub struct Status {}

pub struct StatusBar {
    status: Option<Status>,
}

impl StatusBar {
    /// Whether the bar has received a status.
    pub closed spec fn has_status(&self) -> bool {
        self.status is Some
    }

    /// A bar that has received nothing.
    pub fn new() -> (res: StatusBar)
        ensures
            !res.has_status(),
    {
        StatusBar { status: None }
    }
}

} // verus!
