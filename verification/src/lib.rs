//! Reads the text export of a chat into messages, and the messages of a
//! club's chat into rows of results.
//!
//! `parser` holds the assembler, which goes through the lines that `source`
//! supplies, tells with `boundary` where a message begins, and decides with
//! `body`, `poll` and `event` what the message holds; `entity` holds what
//! comes out. `roster`, `scores` and `report` read games from the messages.
//! `pattern` and `timestamp` hold the calls into the crates for regular
//! expressions and for dates, `text` the work on characters, and `laws`
//! what holds of every export.

pub mod body;
pub mod boundary;
pub mod entity;
pub mod event;
pub mod laws;
pub mod parser;
pub mod pattern;
pub mod poll;
pub mod report;
pub mod roster;
pub mod scores;
pub mod source;
pub mod text;
pub mod timestamp;
