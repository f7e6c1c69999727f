//! Navigation cache, viewport windowing and background-job coordination
//! for a terminal file browser.
//!
//! The crate holds the decisions of the browser and proves them. Reading
//! directories, drawing and waiting for workers is left to the caller, who
//! hands in what was read or received as plain values and carries out what
//! the library decides.
//!
//! - `page_state`: the scrolling window over a listing.
//! - `path`, `path_map`: absolute paths and a map keyed by them.
//! - `fs`: what the caller read from the disk.
//! - `structs`: directory entries and listings.
//! - `history`: the stash of listings that no tab shows.
//! - `tab`: a working directory with its listing and that of its parent.
//! - `jobs`, `context`: the outstanding background jobs and the tabs they
//!   touch.
//! - `commands`, `keymap`, `textfield`: what keys do.
//! - `window`, `ui`, `theme`, `unix`, `utils`: what is drawn, and where.
//! - `width`, `text`: functions of other crates and of the standard
//!   library that the library calls and believes.

pub mod commands;
pub mod context;
pub mod fs;
pub mod history;
pub mod jobs;
pub mod keymap;
pub mod page_state;
pub mod path;
pub mod path_map;
pub mod structs;
pub mod tab;
pub mod text;
pub mod textfield;
pub mod theme;
pub mod ui;
pub mod unix;
pub mod utils;
pub mod width;
pub mod window;
