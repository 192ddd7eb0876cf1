//! Power-optimization library for Linux laptops: hardware inspection over a
//! filesystem model, audit rules, plan building, a transactional apply/revert
//! engine with a persisted journal, and a bootloader-aware kernel-parameter
//! editor.

pub mod apply;
pub mod audit;
pub mod auto;
pub mod brightness;
pub mod config;
pub mod detect;
pub mod error;
pub mod fs;
pub mod inhibitors;
pub mod journal;
pub mod kernel_params;
pub mod monitor;
pub mod profile;
pub mod revert;
pub mod snapshot;
pub mod status;
pub mod text;
pub mod wake;
