//! Render delimited tabular text (CSV/TSV, optionally gzip-compressed) as a
//! bordered terminal table.
//!
//! The pipeline: classify the raw input bytes as gzip or plain and decompress
//! if needed, split the bytes into delimited records, drop records that are
//! not valid UTF-8, lay the records out as a grid (with the optional header
//! row and the optional synthetic column-index row), and hand the grid to the
//! table engine for serialization.
//!
//! The whole input is buffered in memory for the run; there is no streaming
//! render, so memory grows with the input size.

pub mod digits;
pub mod grid;
pub mod input;
pub mod records;
pub mod table;
pub mod view;

pub use input::is_gzipped;
pub use view::view_csv;
