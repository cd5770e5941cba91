//! Fixed runtime bounds. Every producer applies the same limits.
use vstd::prelude::*;

verus! {

pub const BACKGROUND_JOBS: usize = 128;

pub const CONTROL_JOB_RESERVE: usize = 16;

pub const DELIVERY_QUEUE: usize = 128;

pub const DELIVERY_PROGRESS_RESERVE: usize = 8;

pub const INTERACTIONS: usize = 32;

pub const QUESTIONS_PER_REQUEST: usize = 32;

pub const FILE_CHANGE_ITEMS: usize = 32;

pub const ARCHIVED_THREADS: usize = 128;

pub const PANEL_REFRESHES: usize = 128;

pub const EARLY_PROTOCOL_EVENTS: usize = 64;

pub const SCHEDULED_TASKS: usize = 64;

pub const SEEN_COMMANDS: usize = 1000;

pub const ATTACHMENTS_PER_MESSAGE: usize = 10;

pub const INPUT_BYTES: usize = 32768;

pub const ANSWER_BYTES: usize = 16384;

pub const PATH_BYTES: usize = 4096;

pub const PAIRING_CODE_BYTES: usize = 256;

pub const PAIRING_ATTEMPTS: u32 = 10;

pub const PLAN_BYTES: usize = 16000;

pub const OUTPUT_BYTES: usize = 32768;

pub const PREVIEW_CHARS: usize = 1000;

/// Durations are in nanoseconds on the monotonic clock.
pub const SECOND: u64 = 1_000_000_000;

pub const TICK: u64 = 1_000_000_000;

pub const PROGRESS_INTERVAL: u64 = 3_000_000_000;

pub const TASK_TIMEOUT: u64 = 3_600_000_000_000;

pub const INTERACTION_TIMEOUT: u64 = 600_000_000_000;

pub const PAIRING_WINDOW: u64 = 60_000_000_000;

pub const BACKEND_REPLY_TIMEOUT: u64 = 10_000_000_000;

pub const MESSAGE_TIMEOUT: u64 = 45_000_000_000;

pub const ANSWER_DELIVERY_TIMEOUT: u64 = 180_000_000_000;

pub const FILE_PREPARE_TIMEOUT: u64 = 120_000_000_000;

pub const FILE_BIND_TIMEOUT: u64 = 60_000_000_000;

pub const FILE_FINISH_TIMEOUT: u64 = 180_000_000_000;

pub const ATTACHMENT_DOWNLOAD_TIMEOUT: u64 = 45_000_000_000;

pub const DIFF_PANEL_TIMEOUT: u64 = 15_000_000_000;

pub const UPLOAD_TIMEOUT: u64 = 30_000_000_000;

pub const SHUTDOWN_INTERRUPT_TIMEOUT: u64 = 3_000_000_000;

pub const SHUTDOWN_REPLY_TIMEOUT: u64 = 3_000_000_000;

pub const SHUTDOWN_SENDER_TIMEOUT: u64 = 5_000_000_000;

} // verus!
