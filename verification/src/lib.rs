//! Spaced repetition over Markdown files.
//!
//! A card is a Markdown file below a folder named `cards`. Its metadata, a block
//! of YAML at the top of the file, holds the history of its reviews; its body
//! holds its sides. This library reads and rewrites such files without losing a
//! character of them, decides which cards are due, runs a review session that can
//! be undone step by step, and draws the session's status bar cell by cell.
//!
//! The library touches no file and no terminal: it works on the text of a file
//! and hands back text, cells and instructions for the caller to carry out.

pub mod algorithms;
pub mod calendar;
pub mod cards;
pub mod display;
pub mod error;
pub mod frontmatter;
pub mod notes;
pub mod paths;
pub mod progress;
pub mod session;
pub mod text;
pub mod yaml;
