//! Watches directory trees for newly arrived documents, routes each file
//! through a classification pipeline, and relocates it between named
//! locations with crash-safe, race-free transitions.
//!
//! The filesystem operations, the notification sources and the external
//! classification and rewrite calls are performed by the surrounding
//! process; everything they decide is stated and verified here:
//!
//! - [`paths`] and [`file`] map a profile root and a location to paths;
//! - [`fs_state`] models the contents of the watched tree;
//! - [`file_object`] is the per-file location state machine, and
//!   [`util`] its two disciplines — the atomic-or-noop move and the
//!   overwrite-free name reservation;
//! - [`watcher`] merges and dispatches events and tracks a loop's life;
//! - [`handler`] is the bounded task pool and the per-file pipeline;
//! - [`profile_handler`] hot-reloads one child loop per configuration
//!   file, compared by content hash;
//! - [`document`], [`file_info`], [`chatgpt`] and [`pdf`] carry the
//!   naming scheme, the document-type and page-order rules, and the text
//!   built for the external collaborators.
#![verifier::loop_isolation(false)]

pub mod chatgpt;
pub mod document;
pub mod error;
pub mod file;
pub mod file_info;
pub mod file_object;
pub mod fs_state;
pub mod handler;
pub mod paths;
pub mod pdf;
pub mod profile;
pub mod profile_handler;
pub mod util;
pub mod watcher;
