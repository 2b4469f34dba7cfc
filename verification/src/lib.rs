//! Core of a composable sample player: node identifiers, the MIDI routing table,
//! the player transport and the control models used by the user interfaces.

pub mod engine;
pub mod message;
mod wire;
pub mod queue;
pub mod midi;
pub mod utils;
pub mod modules;
pub mod decoder;
pub mod crochet_gui;
pub mod iced_gui;
