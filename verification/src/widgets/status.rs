//! The status pane: the state of the OBS connection.
use vstd::prelude::*;

use crate::obs::Status;

verus! {

/// The words the pane shows for each state of the connection.
pub open spec fn status_text(status: Status) -> Seq<char> {
    match status {
        Status::Offline => "OFFLINE"@,
        Status::Login => "LOGGING TO OBS..."@,
        Status::Idle => "IDLE"@,
    }
}

pub struct StatusBar {
    status: Status,
}

impl StatusBar {
    /// The state the pane shows.
    pub closed spec fn shown(&self) -> Status {
        self.status
    }

    /// A pane that shows the connection as offline.
    pub fn new() -> (res: StatusBar)
        ensures
            res.shown() == Status::Offline,
    {
        StatusBar { status: Status::Offline }
    }

    /// Takes the state the OBS client sent since the last drawing, if any.
    pub fn update(&mut self, received: Option<Status>)
        ensures
            match received {
                Some(s) => final(self).shown() == s,
                None => final(self).shown() == old(self).shown(),
            },
    {
        if let Some(s) = received {
            self.status = s;
        }
    }

    /// The state the pane shows.
    pub fn status(&self) -> (res: Status)
        ensures
            res == self.shown(),
    {
        self.status
    }

    /// The text to draw.
    pub fn text(&self) -> (res: &'static str)
        ensures
            res@ == status_text(self.shown()),
    {
        match self.status {
            Status::Offline => "OFFLINE",
            Status::Login => "LOGGING TO OBS...",
            Status::Idle => "IDLE",
        }
    }
}

} // verus!
