pub mod schema;
pub mod tag;
pub mod tokenizer;
pub mod error_handle;
pub mod html_writer;
pub mod mapper;
pub mod parser;

use vstd::prelude::*;

verus! {

/// The byte that opens a header line.
pub const HEADER_TAG: u8 = 35;

/// The byte that opens a block quote line.
pub const BLOCK_QUOTE_TAG: u8 = 62;

} // verus!
