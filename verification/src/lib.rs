//! Patch editing and MIDI System Exclusive framing for the Boss Katana MkII
//! amplifier family: the message format, the editor state, the patch library
//! metadata and the settings file, each with its contract.

pub mod sysex;
pub mod state;
pub mod text;
pub mod json;
pub mod theme;
pub mod library;
pub mod assignments;
pub mod config;
pub mod patch;
pub mod tone;
pub mod paths;
pub mod katana;
pub mod export;
pub mod edit;
