//! The stateful core of a chat-platform automation agent.
//!
//! Two stores react to the events that a dispatcher delivers:
//!
//! * the [`tally`] of reaction votes, driven by the [`coordinator`], which
//!   turns vote commands and reactions into proposals, counted votes and, at
//!   the threshold, a moderation action;
//! * the [`ledger`] of time spent in voice, driven by the [`presence`]
//!   tracker and kept durable through [`storage`].
//!
//! The library never posts, moderates, reads files or takes locks. It decides;
//! the dispatcher acts and reports back. Every function states what it
//! returns and changes over a mathematical model of its data, and
//! [`ledger_laws`] and [`tally_laws`] state what holds of whole histories of
//! events.

pub mod clock;
pub mod commands;
pub mod coordinator;
pub mod decimal;
pub mod ledger;
pub mod ledger_laws;
pub mod notice;
pub mod presence;
pub mod storage;
pub mod tally;
pub mod tally_laws;
pub mod text;

pub use clock::elapsed_time;
pub use clock::timestamp_string;
pub use commands::get_commands;
pub use storage::get_users;
pub use storage::set_users;
