//! Navigation-and-listing core of a small desktop file browser.
//!
//! The crate owns the browser's state: the working directory, its
//! filtered and ordered listing, the configured bookmarks and the
//! sidebar flag.  It decides what every user intent does to that state
//! and which outside effect (a directory read, a confirmation dialog, a
//! deletion, an application launch) has to be performed; the effects
//! themselves are carried out by the surrounding program, which feeds
//! their outcomes back in.

pub mod config;
pub mod listing;
pub mod navigator;
pub mod notice;
pub mod paths;
