//! Build-script directives and content-fingerprint change tracking.
//!
//! Two independent pieces. The directive emitter and its helper family
//! turn an operation and its arguments into correctly shaped
//! `cargo:<name>=<value>` lines on a sink (`emit`, `helpers`,
//! `template`, `sink`). The fingerprint cache decides, from a file's
//! hashed content and the entry stored by an earlier run, whether the
//! file is new, changed or unchanged (`cache`).

pub mod cache;
pub mod emit;
pub mod helpers;
pub mod sink;
pub mod template;

pub use cache::{CacheError, CacheUpdate, HashFileOutcome};
pub use sink::Sink;
pub use template::FmtArg;
