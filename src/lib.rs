//! File-system access for a notes editor: directory listings, a markdown scan,
//! and a slot holding at most one directory watch that publishes change
//! notifications.

pub mod entry;
pub mod error;
pub mod listing;
pub mod sort;
pub mod text;
pub mod watch;
