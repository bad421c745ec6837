//! Keeps an in-memory value in step with files on disk: each watched file is
//! observed by a small state machine that reports genuine content changes and,
//! after a bounded grace period, the file's permanent disappearance.
pub mod adapter;
pub mod event;
pub mod fingerprint;
pub mod session;
pub mod watcher;

pub use adapter::{reinit, reload, Cycle};
pub use event::{Fstate, Notice};
pub use session::Watch;
pub use watcher::{FileWatcher, Observation, Phase};
