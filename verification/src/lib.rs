//! Verified core of a terminal internet-radio player that plays through mpv.
//!
//! Everything here is computed from plain values: no process is started, no
//! connection opened and no key read. What has happened comes in as an argument;
//! what is to be done goes out as a result.
//!
//! - [`player`]: the state of the player, and what follows from each event;
//!   [`player_call_laws`] says what each call comes to, [`player_laws`] what
//!   holds over any course of events, and [`stream_laws`] what holds however the
//!   bytes from mpv arrive.
//! - [`mpv_ipc`]: the lines that mpv sends, with [`numeral`] for the numbers in
//!   them and [`text`] for searching, trimming and decoding; [`ipc_laws`] says
//!   what is made of what is on a line.
//! - [`connect`]: how long to wait for mpv, and for threads.
//! - [`shell`]: the command that captures audio.
//! - [`ui`] and [`keys`]: what a key does; [`ui_call_laws`] says what each key
//!   comes to, and [`ui_laws`] what holds whatever keys are pressed.
//! - [`frame`] and [`launch`]: the timing of a frame, and the command line.
pub mod connect;
pub mod frame;
pub mod ipc_laws;
pub mod keys;
pub mod launch;
pub mod mpv_ipc;
pub mod numeral;
pub mod player;
pub mod player_call_laws;
pub mod player_laws;
pub mod shell;
pub mod stream_laws;
pub mod text;
pub mod ui;
pub mod ui_call_laws;
pub mod ui_laws;
