//! Integer core of a palette quantizer: posterization and the finished 8-bit
//! palette, the merge of fixed colors, palette ordering, the bookkeeping of
//! the palette search, and the decisions of the remapping passes.

pub mod error;
pub mod order;
pub mod palette;
pub mod remap;
pub mod search;
