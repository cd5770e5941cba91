//! Serial task admission and interaction rules of a chat-to-agent bridge.
pub mod answering;
pub mod approval_card;
pub mod cards;
pub mod command;
pub mod delivery;
pub mod diagnostics;
pub mod directories;
pub mod events;
pub mod execution;
pub mod files;
pub mod interactions;
pub mod lists;
pub mod markdown;
pub mod messaging;
pub mod model;
pub mod outcome;
pub mod plans;
pub mod ports;
pub mod presentation;
pub mod requests;
pub mod runtime;
pub mod scheduler;
pub mod sessions;
pub mod staging;
pub mod text;
pub mod textmap;
pub mod view;
pub mod words;
pub use scheduler::{AdmissionError, AdmissionTicket, MessageJournal, Scheduler};
