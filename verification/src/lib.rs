//! Configuration front-end core for a line-oriented window-manager
//! configuration file.
//!
//! The crate has three verified parts:
//! - the line matchers and the override store, which keep an overlay file of
//!   single-setting lines layered over a base configuration file
//!   ([`setting`], [`setting_writer`], [`conf`]);
//! - the monitor layout model, which projects real display geometry onto a
//!   scaled canvas and back ([`monitor`], [`layout`]);
//! - the snap engine, which aligns a dragged display box to the edges of its
//!   neighbours ([`snap`]).
//!
//! All file and process I/O stays outside this crate; the library works on
//! plain values handed in by its caller.

use vstd::prelude::*;

pub mod conf;
pub mod layout;
pub mod locale;
pub mod monitor;
pub mod numfmt;
pub mod setting;
pub mod setting_writer;
pub mod snap;

verus! {

/// Failure taxonomy for the override store and its callers.
#[derive(Debug, PartialEq, Eq, Structural, Clone, Copy)]
pub enum SettingError {
    /// A required host path (the home directory) could not be resolved.
    EnvironmentError,
    /// The base configuration file is absent: the host system is not set up.
    NotConfigured,
    /// Reading or writing the overlay file failed.
    StorageError,
    /// A line could not be parsed far enough to extract required fields.
    MalformedLine,
}

} // verus!
