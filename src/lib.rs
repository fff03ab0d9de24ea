//! Translation engine between a MIDI control surface with motorised faders and
//! a lighting console that speaks OSC.
//!
//! The library holds the decisions: decoding MIDI channel messages, resolving
//! them through the mapping table, flattening received OSC bundles, the touch
//! interlock that keeps motors away from a held fader, the scribble-strip
//! Sysex encoder and the heartbeat messages. Sockets, MIDI ports and the
//! binary OSC codec live with the caller.
pub mod bridge;
pub mod config;
pub mod display;
pub mod osc;
pub mod pitch_bend;
pub mod text;
pub mod touch;
