//! A diagnostic scanner for binary blobs of unknown layout, and the commands
//! of the tool around it.
//!
//! A buffer is walked in 4-byte words and partitioned into maximal runs of
//! all-zero words and runs of non-zero words. For each run of non-zero words
//! the scanner proposes a primitive type together with the observed value
//! range, and says whether the run could hold floats or text.
//!
//! - [`word`]: the ways one word is decoded.
//! - [`reader`]: the words of a buffer, one after the other.
//! - [`segment`]: the runs of a buffer.
//! - [`infer`]: what one run of non-zero words could hold.
//! - [`report`]: the records of a scan, and their text.
//! - [`render`], [`text`]: numbers and strings as text.
//! - [`command`]: the commands, which decide and leave reading and writing to
//!   their caller.

pub mod command;
pub mod infer;
pub mod reader;
pub mod render;
pub mod report;
pub mod segment;
pub mod text;
pub mod word;
