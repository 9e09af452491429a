//! The commands that the interface sends to the player, and what the player
//! does on each.
use vstd::prelude::*;

use super::{clamped_volume, display_text, Player, PlayerModel};

verus! {

/// A command to the player.
#[derive(Clone, Copy, PartialEq, Eq, Debug)]
pub enum Command {
    /// Move the volume by this many percent.
    Volume(i32),
    /// Skip this many songs forward (or back, where negative); 0 does nothing.
    SongControl(i32),
    /// Pause the song, or go on playing it.
    TogglePause,
}

/// What to do to the audio sink that plays the song.
#[derive(Clone, Copy, PartialEq, Eq, Debug)]
pub enum SinkAction {
    Keep,
    /// Play at this volume, in percent.
    SetVolume(u8),
    Play,
    Pause,
}

/// What running a command asks of the caller.
pub struct Outcome {
    /// The song is over: the next one starts.
    pub stop: bool,
    /// What to do to the sink.
    pub sink: SinkAction,
    /// A new line to show, if any.
    pub display: Option<String>,
}

/// Whether the player can run `cmd`: a skip stays within the numbers that
/// the place in the playlist can take, and a skip back has a size that an
/// `i32` can hold.
pub open spec fn runnable(cmd: Command, player: PlayerModel) -> bool {
    match cmd {
        Command::SongControl(offset) => {
            &&& 0 <= player.current + offset <= usize::MAX
            &&& offset != i32::MIN
        },
        _ => true,
    }
}

impl Command {
    /// Runs the command on `player`, whose sink is paused or not.
    pub fn run(&self, player: &mut Player, paused: bool) -> (res: Outcome)
        requires
            runnable(*self, old(player)@),
        ensures
            match *self {
                Command::Volume(offset) => {
                    let v = clamped_volume(old(player)@.volume, offset as int);
                    &&& final(player)@ == (PlayerModel { volume: v, ..old(player)@ })
                    &&& !res.stop
                    &&& res.sink == SinkAction::SetVolume(v as u8)
                    &&& res.display matches Some(d) && d@ == display_text(
                        old(player)@.credits,
                        v as nat,
                    )
                },
                Command::SongControl(offset) => {
                    &&& final(player)@ == (PlayerModel {
                        current: old(player)@.current + offset,
                        ..old(player)@
                    })
                    &&& res.stop == (offset != 0)
                    &&& res.sink == SinkAction::Keep
                    &&& res.display is None
                },
                Command::TogglePause => {
                    &&& final(player)@ == old(player)@
                    &&& !res.stop
                    &&& res.sink == (if paused {
                        SinkAction::Play
                    } else {
                        SinkAction::Pause
                    })
                    &&& res.display is None
                },
            },
    {
        match *self {
            Command::Volume(offset) => {
                let line = player.set_volume(offset);
                let v = player.volume();
                Outcome { stop: false, sink: SinkAction::SetVolume(v), display: Some(line) }
            },
            Command::SongControl(offset) => {
                if offset != 0 {
                    player.move_current(offset);
                    Outcome { stop: true, sink: SinkAction::Keep, display: None }
                } else {
                    Outcome { stop: false, sink: SinkAction::Keep, display: None }
                }
            },
            Command::TogglePause => {
                if paused {
                    Outcome { stop: false, sink: SinkAction::Play, display: None }
                } else {
                    Outcome { stop: false, sink: SinkAction::Pause, display: None }
                }
            },
        }
    }
}

} // verus!
