//! A chunked download manager: a large file is split into byte ranges, the ranges are
//! fetched in parallel and written at their offsets, the result is checked against its
//! digest, and a durable record of finished ranges lets a download resume after a
//! pause or a crash.
//!
//! `plan` cuts a file into ranges, `record` is the durable record, `session` is the
//! state machine of one download, `manager` holds the sessions of a process, and
//! `integrity` compares digests. The remaining modules hold the host application's
//! smaller helpers: dependency checks, tmux and event text, voice personas.
use vstd::prelude::*;

pub mod error;
pub mod events;
pub mod gastown;
pub mod integrity;
pub mod manager;
pub mod models;
pub mod plan;
pub mod record;
pub mod seqsum;
pub mod self_test;
pub mod session;
pub mod setup;
pub mod text;
pub mod vision;
pub mod voice;

verus! {

} // verus!
