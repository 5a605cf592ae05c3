//! Broadcast performance metrics for a video encoding pipeline.
//!
//! The library counts encoding outcomes per output rendition and packs the
//! counts, with timestamps, into fixed-layout SEI messages:
//!
//! - [`registry`] says how fingerprints get their stable track indices;
//! - [`counters`] says how the running totals move and what a report consumes;
//! - [`state`] holds registry and counters of one session and records events;
//! - [`timestamp`] formats instants as fixed-width RFC 3339 text;
//! - [`wire`] lays out the three messages and the combined payload;
//! - [`report`] reads the state, consumes deltas and packs messages;
//! - [`ledger`] keeps track of the buffers handed to the caller.

pub mod counters;
pub mod error;
pub mod ledger;
pub mod registry;
pub mod report;
pub mod state;
pub mod timestamp;
pub mod wire;

pub use crate::counters::{FrameEvent, SessionCounters, TrackCounters};
pub use crate::error::BpmError;
pub use crate::ledger::BufferLedger;
pub use crate::registry::MAX_TRACKS;
pub use crate::report::{
    bpm_erm, bpm_sm, bpm_ts, payload_report, render_payload, rendition_report, session_report,
    stamp_or_now, timestamp_report,
};
pub use crate::state::{
    bpm_frame_dropped, bpm_frame_encoded, bpm_frame_lagged, bpm_get_track_index, resolve_track, State,
};
pub use crate::timestamp::{format_millis, format_now, FixedWidthTimestamp, TIMESTAMP_WIDTH};
pub use crate::wire::{
    encode_payload, encode_rendition_message, encode_session_message, encode_timestamp_message,
    to_be_bytes, ERM_MESSAGE_LEN, PAYLOAD_LEN, SM_MESSAGE_LEN, TS_MESSAGE_LEN, UUID_ERM, UUID_SM,
    UUID_TS,
};
