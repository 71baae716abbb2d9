//! Verified core of the HEKATE runtime: worker scheduling, focus and
//! continuity decisions, judgment validation, the completion gate and the
//! event-ledger projector.

pub mod interval;
pub mod backoff;
pub mod table;
pub mod model;
pub mod ids;
pub mod format;
pub mod state;
pub mod text;
pub mod focus;
pub mod contest;
pub mod deliberation;
pub mod initiative;
pub mod initiative_worker;
pub mod sleep;
pub mod sleep_worker;
pub mod completion;
pub mod projector;
pub mod json;
pub mod response_profile;
pub mod embedding;
pub mod recall;
pub mod engine;
pub mod integration;
pub mod memory_integration;
pub mod continuity;
pub mod context;
pub mod context_builder;
pub mod agree;
pub mod recovery;
pub mod position_integration;
pub mod sleep_candidates;
pub mod context_middle;
pub mod context_recent;
pub mod context_sources;
pub mod snapshot;
pub mod context_content;
