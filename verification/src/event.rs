//! Event types: raw filesystem notifications and the normalized change event.

use vstd::prelude::*;

verus! {

/// Kind of a raw filesystem notification, as classified by the OS event
/// source. Only `DataModified` events can ever produce a change notification;
/// every other kind is filtered out by the watcher.
#[derive(Clone, Copy, PartialEq, Eq, Structural, Debug)]
pub enum RawEventKind {
    Created,
    DataModified,
    MetadataModified,
    Removed,
    Renamed,
    Other,
}

/// A raw filesystem notification: its classified kind and the paths it
/// reports as affected.
#[derive(Debug)]
pub struct RawEvent {
    pub kind: RawEventKind,
    pub paths: Vec<String>,
}

/// Kind of a normalized change event. The watcher only ever emits
/// `DataModified`: metadata-only churn never reaches subscribers.
#[derive(Clone, Copy, PartialEq, Eq, Structural, Debug)]
pub enum ChangeKind {
    DataModified,
}

/// A normalized "the watched file's content changed" event. The timestamp is
/// advisory (for logging and debugging); no ordering guarantee rests on it.
#[derive(Clone, Copy, PartialEq, Eq, Structural, Debug)]
pub struct ChangeEvent {
    pub kind: ChangeKind,
    pub occurred_at: u64,
}

} // verus!
