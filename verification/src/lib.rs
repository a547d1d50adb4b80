//! A verified line filter: given a search pattern and the lines of a text
//! file, it selects exactly the lines that contain the pattern as a
//! contiguous substring, in their original order and unaltered.

pub mod laws;
pub mod matching;
pub mod output;
pub mod request;

pub use matching::contains_pattern;
pub use matching::find_matching_lines;
pub use output::BufferSink;
pub use output::Sink;
pub use output::emit_matches;
pub use output::render_lines;
pub use request::SearchError;
pub use request::SearchRequest;
