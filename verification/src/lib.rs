//! Verified core of CopperCrab, a PCB isolation-milling helper: the Gerber
//! layer builder, the Excellon drill-file reader and its number grammar, the
//! decisions of a milling session, and the log buffer the user interface
//! reads.
//!
//! Gerber lengths are held as `i64` counts of millionths of the layer unit
//! (micro-millimetres or micro-inches), the representation that the Gerber
//! coordinate model itself uses. Drill-file numbers are held exactly as the
//! file writes them (see `pcb::parser::text::Number`).
pub mod pcb;
pub mod locale;
pub mod logger;
pub mod workflow;
