//! Formats a project's source files, an optional directory tree, optional git
//! metadata and optional instructions into one structured, tagged text
//! document, ready to hand to a language model.
//!
//! The whole document is pinned down by spec functions: `formatter::spec_format`
//! states exactly which sections appear, in which order, and with which
//! indentation, and `ClaudeFormatter::format` is proved to return it.

pub mod formatter;
pub mod laws;
pub mod text;
