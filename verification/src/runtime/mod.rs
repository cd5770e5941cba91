//! Serial runtime: one owner of all state, driven by events.
pub mod ack;
pub mod answers;
pub mod chains;
pub mod changes;
pub mod completions;
pub mod control;
pub mod decisions;
pub mod done_card;
pub mod done_session;
pub mod done_task;
pub mod effects;
pub mod entries;
pub mod errands;
pub mod executions;
pub mod flow;
pub mod input;
pub mod inquiries;
pub mod laws;
pub mod limits;
pub mod maintain;
pub mod orders;
pub mod protocol;
pub mod reports;
pub mod rounds;
pub mod state;
pub mod timers;
pub mod tokens;
pub use ack::Ack;
pub use state::{Input, Runtime, RuntimeError, Settings};
