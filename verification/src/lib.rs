//! Verified core of AI Dikte: the Gemini Live wire contract, the transcript
//! reducer, configuration rules, hotkey and recording state machines, when a
//! recording yields text, and the small text formats the dictation tool reads
//! and writes.
pub mod activity;
pub mod audio;
pub mod background;
pub mod config;
pub mod controller;
pub mod cue;
pub mod daemon;
pub mod diagnostics;
pub mod hotkey;
pub mod live;
pub mod output;
pub mod protocol;
pub mod session;
pub mod settings;
pub mod shortcut;
pub mod text;
pub mod ui;
