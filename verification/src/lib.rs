//! Decision logic of a chat bot that removes messages from watched channels
//! once they are older than a per-channel delay.
//!
//! The bot keeps its state in a database and talks to a chat service; both are
//! reached from the binary around this crate. The crate holds what the bot
//! decides: which delays are accepted, which table write a command issues,
//! how long the cleaner sleeps, which recorded messages are due, how a purge
//! splits messages by age, and the cleaner's loop as a state machine.

pub mod clock;
pub mod text;
pub mod schedule;
pub mod commands;
pub mod cleaner;
pub mod events;
pub mod tables;
