//! Verified core of a terminal assistant that relays operator input to a chat
//! model and interprets each structured reply as a shell command, a clarifying
//! question, or a direct answer.
//!
//! The library holds the conversation-turn state machine: the append-only
//! message history, the reply parser, the per-turn dispatch decisions, and the
//! configuration rules. Network access, terminal prompts and the subshell stay
//! with the surrounding program, which feeds this library plain values.

pub mod config;
pub mod dispatch;
pub mod history;
pub mod jsonval;
pub mod parse;
pub mod tomlval;
pub mod turn;
