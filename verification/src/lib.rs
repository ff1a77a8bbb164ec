//! Core of a feed reader: a tree of sources (feeds nested in directories)
//! kept in a generational arena, a list projection of the directory that is
//! currently open, a cache of tidings per URL, and the bookkeeping of a
//! cancellable refresh of every feed.

pub mod reference;
pub mod source;
pub mod arena;
pub mod urls;
pub mod tiding;
pub mod dictionary;
pub mod update;
pub mod content;
pub mod feeds;
pub mod dialogs;
pub mod add_feed_dialog;
pub mod add_directory_dialog;
pub mod settings;
