//! Synchronisation of bookmarks held by a remote bookmark service: reading and
//! filtering them, archiving each link, and removing archived bookmarks.

pub mod bookmark;
pub mod gateway;
pub mod text;
pub mod sync;
