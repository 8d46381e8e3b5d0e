//! Core of a live-reload notifier for a single watched document.
//!
//! The library has two halves. The watcher side normalizes raw filesystem
//! events: it keeps only events that report a data modification of the
//! watched file and turns each one into a [`event::ChangeEvent`]. The hub
//! side ([`hub::BroadcastHub`]) keeps a registry of subscribers, each with a
//! bounded FIFO delivery queue, and fans every published event out to all of
//! them, dropping the event for a subscriber whose queue is full rather than
//! blocking the publisher.

pub mod errors;
pub mod event;
pub mod hub;
pub mod paths;
pub mod watcher;
