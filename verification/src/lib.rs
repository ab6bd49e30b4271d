//! File-change detection and live notification.
//!
//! Raw filesystem notifications are noisy: one logical edit may be reported
//! several times, and a create may be reported for a file that is already
//! gone. This crate turns such notifications into a clean stream of
//! [`FileChangeEvent`]s, fans them out to any number of subscribers, and
//! holds the rules by which one observer session lives and ends.
//!
//! - [`debounce`]: the engine that filters, reconciles and deduplicates.
//! - [`hub`]: the broadcast hub and its subscribers.
//! - [`pipeline`]: the engine as the hub's sole publisher.
//! - [`session`]: the two halves of an observer session and their teardown.
//! - [`wire`]: the text in which events reach observers.
//! - [`listing`]: the sorted, filtered directory listing.

pub mod debounce;
pub mod event;
pub mod hub;
pub mod listing;
pub mod pipeline;
pub mod session;
pub mod wire;

pub use debounce::{DebounceEngine, DebounceRecord, Observation, RawNotification};
pub use event::{ChangeKind, Existence, FileChangeEvent, RawKind};
pub use hub::{Delivery, Hub, Subscriber};
pub use session::{Half, InboundRead, OutboundStep, Session, SessionAction, SessionState};
