//! The interface's own state and what each key press does.
use vstd::prelude::*;

use crate::player::Command;

verus! {

/// What a key press asks of the caller.
#[derive(Clone, Copy, PartialEq, Eq, Debug)]
pub enum KeyAction {
    /// Leave the program.
    Quit,
    /// Send this command to the player.
    Send(Command),
    /// Nothing to do.
    Nothing,
}

/// The volume step of the `-` and `=` keys, in percent.
pub const VOLUME_STEP: i32 = 5;

/// What the key `key` asks for.
pub open spec fn key_action(key: char) -> KeyAction {
    if key == 'q' {
        KeyAction::Quit
    } else if key == '-' {
        KeyAction::Send(Command::Volume((-VOLUME_STEP) as i32))
    } else if key == '=' {
        KeyAction::Send(Command::Volume(VOLUME_STEP))
    } else if key == '>' {
        KeyAction::Send(Command::SongControl(1))
    } else if key == '<' {
        KeyAction::Send(Command::SongControl((-1) as i32))
    } else if key == ' ' {
        KeyAction::Send(Command::TogglePause)
    } else {
        KeyAction::Nothing
    }
}

/// The cursor row after the key `key`: `j` moves it down, `k` up.
pub open spec fn row_after(row: int, key: char) -> int {
    if key == 'j' {
        row + 1
    } else if key == 'k' {
        row - 1
    } else {
        row
    }
}

/// Whether the row stays within what it can hold after the key `key`.
pub open spec fn key_allowed(row: int, key: char) -> bool {
    0 <= row_after(row, key) <= u8::MAX
}

pub struct State {
    current_y: u8,
}

impl State {
    /// The cursor row.
    pub closed spec fn row(&self) -> int {
        self.current_y as int
    }

    /// The state at start: the cursor on row 1.
    pub fn new() -> (res: State)
        ensures
            res.row() == 1,
    {
        State { current_y: 1 }
    }

    /// The cursor row is a `u8`.
    pub proof fn lemma_bounds(&self)
        ensures
            0 <= self.row() <= u8::MAX,
    {
    }

    /// The cursor row.
    pub fn current_y(&self) -> (res: u8)
        ensures
            res == self.row(),
    {
        self.current_y
    }

    /// Handles a press of the key `key`.
    pub fn handle_key(&mut self, key: char) -> (res: KeyAction)
        requires
            key_allowed(old(self).row(), key),
        ensures
            res == key_action(key),
            final(self).row() == row_after(old(self).row(), key),
    {
        match key {
            'q' => KeyAction::Quit,
            'j' => {
                self.current_y = self.current_y + 1;
                KeyAction::Nothing
            },
            'k' => {
                self.current_y = self.current_y - 1;
                KeyAction::Nothing
            },
            '-' => KeyAction::Send(Command::Volume(-VOLUME_STEP)),
            '=' => KeyAction::Send(Command::Volume(VOLUME_STEP)),
            '>' => KeyAction::Send(Command::SongControl(1)),
            '<' => KeyAction::Send(Command::SongControl(-1)),
            ' ' => KeyAction::Send(Command::TogglePause),
            _ => KeyAction::Nothing,
        }
    }
}

/// Moving down and then up brings the cursor back where it was.
pub proof fn lemma_down_then_up(row: int)
    ensures
        row_after(row_after(row, 'j'), 'k') == row,
{
}

} // verus!
