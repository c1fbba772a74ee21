//! A segmentation-to-annotation pipeline with out-of-order reconciliation.
//!
//! A continuous input stream is segmented into units; each unit receives
//! incremental live transcription updates and, once finalized, is dispatched
//! to a slower annotation step that completes concurrently and out of order.
//! This crate holds the verified core: the reconciler that merges events into
//! an ordered history, the control-plane state machine for pause/resume and
//! typed input, the per-unit accumulation of confident transcription
//! fragments, the capture-loop decisions, and the text cleanup applied to
//! annotation results. Capture, the external engines, and rendering live
//! outside the crate and speak to it through plain values.

pub mod annotate;
pub mod capture;
pub mod control;
pub mod driver;
pub mod event;
pub mod laws;
pub mod state;
pub mod text;
