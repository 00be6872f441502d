//! A personal command-bookmark manager: bookmarks of shell commands with
//! annotations, tags and named collections, an in-memory record store with
//! substring search, and the state machine behind the interactive terminal
//! front end (search bar, result table, action list and input dialog under a
//! single focus pointer).

pub mod bookmark;
pub mod laws;
pub mod modes;
pub mod paths;
pub mod session;
pub mod store;
pub mod text;
pub mod tldr;
pub mod util;
pub mod widget;
