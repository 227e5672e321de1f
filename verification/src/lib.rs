//! Bookmarks for directories.
//!
//! A list of marked directories lives in a text file, one directory per
//! line, with a backup beside it that holds the list as it was before it
//! was last cleared. This library is everything about that list but the
//! touching of files, terminal and clipboard:
//!
//! - [`lines`] is the text format of the list file, and [`trim`] takes the
//!   white space off the ends of a text;
//! - [`paths`] finds the two files under the temp directory;
//! - [`app`] is one session over the marks that were loaded, with a
//!   function for each command;
//! - [`command`] works a command out into an exit status, what to print,
//!   and one effect that is left to do;
//! - [`show`] is what gets printed, as pieces of text that say how they are
//!   to look, and [`style`] hands them to the `colored` crate;
//! - [`store`] says what the effects do to the two files, on files held in
//!   memory;
//! - [`laws`] proves what holds of the list across invocations.
//!
//! The program around the library reads the environment and the files,
//! calls [`App::run`], prints what it is given and carries out the effect.

pub mod app;
pub mod command;
pub mod error;
pub mod laws;
pub mod lines;
pub mod paths;
pub mod show;
pub mod store;
pub mod strings;
pub mod style;
pub mod trim;

pub use app::App;
pub use command::{Effect, Outcome, Request};
pub use error::HitError;
pub use show::{Look, Piece};
pub use store::Store;
