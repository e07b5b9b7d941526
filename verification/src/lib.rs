//! Display transformations of a `cat`-like tool, on text held in memory.
//!
//! A [`FlaggedString`] holds a text and the settings that a set of flags
//! selects. Its `make_string` folds runs of blank lines, numbers the lines and
//! marks line ends, tabs and form feeds, in that order.

pub mod args;
pub mod chars;
pub mod decimal;
pub mod flags;
pub mod fold;
pub mod lines;
pub mod number;
pub mod render;

pub use crate::args::{file_name, flag_set, separate_args};
pub use crate::flags::{strip_carriage_returns, FlaggedString, LineNumbers, NonPrintChars};
pub use crate::fold::fold_empty_lines;
pub use crate::number::number_lines;
pub use crate::render::render_non_printing;
pub use vstd::hash_set::StringHashSet;
