//! Command-line client library for a personal scheduling service.
//!
//! The verified core is the argument-to-intent grammar: a time-token parser
//! (`time`), the plan data model and its line rendering (`plan`), and the
//! command parser that turns an argument list into one structured command
//! (`command`). Decimal digit arithmetic shared by parsing and rendering
//! lives in `digits`.

pub mod command;
pub mod digits;
pub mod plan;
pub mod time;
