//! The core of a log viewer for the terminal, verified with Verus.
//!
//! The crate reads no file and draws nothing. It parses the text of a log
//! into entries, keeps the state of a viewer with a file list and a log pane,
//! and lays out what the panes show. A front end reads files and keys, hands
//! them in, and paints what it gets back.
//!
//! - [`lines`] splits text into lines, and [`header`] holds the grammar of a
//!   header line `[timestamp] [LEVEL] message`.
//! - [`log_parser`] groups lines into entries: a header opens an entry, the
//!   lines behind it continue it. [`incremental`] states how the parse of a
//!   text relates to the parses of its parts, for logs that are read as they
//!   grow.
//! - [`visible`] counts the lines that the log pane shows, where some entries
//!   are expanded and others show their first line only.
//! - [`ui`] holds selections, expanded entries and the scroll offset, and
//!   [`frame`] the rows that result.
//! - [`state`] writes the viewer's rules as functions on plain values, with
//!   the properties that hold of them; [`viewer`] carries them out.

pub mod frame;
pub mod header;
pub mod incremental;
pub mod level;
pub mod lines;
pub mod log_parser;
pub mod state;
pub mod text;
pub mod ui;
pub mod viewer;
pub mod visible;
