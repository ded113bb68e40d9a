//! Command dispatch and trusted-link ingestion for a fitness chat bot.
//!
//! A message that starts with the trigger prefix is split into a command
//! name and arguments (`tokenizer`) and routed to a handler (`router`). The
//! handler of `music add` is a state machine (`ingest`) that canonicalises
//! the submitted link (`canonical`), asks for a metadata lookup (`probe`)
//! and for the insert of the canonical URL into a table that holds no URL
//! twice (`storage`). The other handlers (`exercises`, `workouts`, `music`,
//! `squat`) say what to ask storage for and build the reply (`reply`) from
//! the rows.
//!
//! The library performs no I/O. Whatever reaches the network, the database
//! or the chat platform is done by the caller, who hands the outcome back
//! as a plain value.

pub mod canonical;
pub mod exercises;
pub mod ingest;
pub mod music;
pub mod probe;
pub mod reply;
pub mod router;
pub mod squat;
pub mod storage;
pub mod text;
pub mod tokenizer;
pub mod workouts;
