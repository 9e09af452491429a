//! The two panes of the interface: the OBS status bar and the jukebox line.
//! Each keeps what it last received; the caller draws the text it gives.
pub mod jukebox;
pub mod status;

pub use jukebox::Jukebox;
pub use status::StatusBar;
