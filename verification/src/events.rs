//! Agent notifications consumed without knowledge of a vendor's wire protocol.
use vstd::prelude::*;
use crate::ports::TurnRef;
use crate::requests::{AgentRequest, FileChange};

verus! {

#[derive(Debug, PartialEq, Eq)]
pub enum TurnOutcome {
    Completed,
    Failed { message: Option<String>, details: Option<String> },
    Interrupted,
}

#[derive(Debug, PartialEq, Eq)]
pub enum AgentEvent {
    Output { turn: TurnRef, item: String, delta: String },
    Plan { turn: TurnRef, item: String, text: String },
    Finished { turn: TurnRef, outcome: TurnOutcome },
    Started { turn: TurnRef },
    FileChanges { turn: TurnRef, item: String, changes: Vec<FileChange> },
    Archived { epoch: u64, thread: String },
}

/// The reply slot of a request is opaque: a number known to the transport.
pub enum Incoming {
    Notification(AgentEvent),
    Request { request: AgentRequest, reply: u64 },
}

} // verus!
