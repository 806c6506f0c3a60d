//! The verified core of a graphical front-end for the `wf-recorder` screen
//! recorder: recording options, the command line handed to the recorder, the
//! parsers for the text that `wf-recorder`, `pactl` and `xrandr` print, the
//! saved settings and the session state machine that the interface drives.
pub mod audio;
pub mod config;
pub mod outputs;
pub mod recorder;
pub mod screen;
pub mod session;
pub mod text;
