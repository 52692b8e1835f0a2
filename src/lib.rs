//! Keypad decoding, character-LCD protocol encoding and the digit-entry
//! state machine of an inch/millimetre converter.

pub mod text;
pub mod keypad;
pub mod convert;
pub mod display;
pub mod metricizer;
