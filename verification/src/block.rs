//! Block metadata.
//!
//! Every mutation is stamped with the block it came from: the
//! streaming cursor, the block number and the block timestamp as Unix
//! seconds. The request identifier tags one ingestion pass for
//! logging.

use vstd::prelude::*;

verus! {

/// The block a mutation is issued under.
#[derive(Debug)]
pub struct BlockMetadata {
    pub cursor: String,
    pub block_number: u64,
    pub timestamp: i64,
    pub request_id: String,
}

/// Mathematical image of [`BlockMetadata`].
pub ghost struct BlockMetadataView {
    pub cursor: Seq<char>,
    pub block_number: u64,
    pub timestamp: i64,
    pub request_id: Seq<char>,
}

impl View for BlockMetadata {
    type V = BlockMetadataView;

    open spec fn view(&self) -> BlockMetadataView {
        BlockMetadataView {
            cursor: self.cursor@,
            block_number: self.block_number,
            timestamp: self.timestamp,
            request_id: self.request_id@,
        }
    }
}

impl Clone for BlockMetadata {
    fn clone(&self) -> (r: Self)
        ensures
            r@ == self@,
    {
        BlockMetadata {
            cursor: self.cursor.clone(),
            block_number: self.block_number,
            timestamp: self.timestamp,
            request_id: self.request_id.clone(),
        }
    }
}

impl Default for BlockMetadata {
    fn default() -> (r: Self)
        ensures
            r@.cursor == Seq::<char>::empty(),
            r@.block_number == 0,
            r@.timestamp == 0,
            r@.request_id == Seq::<char>::empty(),
    {
        BlockMetadata {
            cursor: String::new(),
            block_number: 0,
            timestamp: 0,
            request_id: String::new(),
        }
    }
}

impl BlockMetadata {
    /// Metadata from its parts.
    pub fn new(cursor: String, block_number: u64, timestamp: i64, request_id: String) -> (r: Self)
        ensures
            r@.cursor == cursor@,
            r@.block_number == block_number,
            r@.timestamp == timestamp,
            r@.request_id == request_id@,
    {
        BlockMetadata { cursor, block_number, timestamp, request_id }
    }
}

} // verus!
