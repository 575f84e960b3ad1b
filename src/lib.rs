//! An emulator for the LC-3 sixteen-bit instruction set, with every part of
//! its decoding and execution stated in contracts and proved.

pub mod args;
pub mod computer;
pub mod constants;
pub mod instruction;
pub mod machine;
pub mod reader;
