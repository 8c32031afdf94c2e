//! The rules of a personal interactive shell: what its two-line prompt
//! shows, and which sound answers which event of a session.
//!
//! [`prompt`] lays the prompt out as a list of styled pieces, from plain
//! values that the caller has read from the line editor, the repository and
//! the clock. [`sfx_hooks`] caches the sounds that the files of an asset
//! directory decoded to, decides per event what to play, and queues the
//! sounds for an output device in the order in which they were asked for.
//! Reading and decoding files, opening the device and drawing on the
//! terminal are left to the program around this library.
//!
//! Volumes are whole hundredths of full scale, so 50 is half of it. A volume
//! is handed to the device as it was given: one above 100 is not cut down,
//! and one below 0 is not raised.

pub mod prompt;
pub mod sfx_hooks;
