//! A terminal jukebox: it plays the mp3 files of a directory in shuffled
//! order, shows what is playing, and reports the state of a connection to
//! OBS. This crate holds the decisions of that program; the terminal, the
//! audio device, the files and the network stay with the caller.
pub mod obs;
pub mod player;
pub mod state;
pub mod status;
pub mod text;
pub mod widgets;
