//! Rewrites sequencing-record headers by reverse-complementing the i5
//! (Index2 / P5) barcode, leaving sequence and quality lines untouched.
pub mod complement;
pub mod header;
pub mod search;
pub mod stream;

pub use complement::{complement_base, reverse_complement_in_place};
pub use header::{rewrite_header_i5, HeaderError};
pub use stream::{append_line_chunk, process_line, ChunkTake, FixError, RecordState, Step};
