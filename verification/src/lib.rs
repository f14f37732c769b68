//! A verified streaming consumer for the `extensions` subtree of a GPX
//! track-point: it drains every event of the subtree from a pull-style XML
//! event source — including arbitrarily nested same-named elements — while
//! extracting the recognized scalar fields (power, temperature, cadence,
//! heart rate) into a record and discarding unknown vendor content.

pub mod events;
pub mod laws;
pub mod machine;
pub mod number;
pub mod parser;
pub mod reader;
pub mod record;
