//! Data shown in the block-details panel.

use vstd::prelude::*;

verus! {

/// The details of one block, as displayed by the explorer.
#[derive(Debug)]
pub struct BlockView {
    pub block_number: u64,
    pub hash: String,
    pub timestamp: String,
    pub parent_hash: String,
    pub state_root: String,
    pub extrinsics_count: usize,
}

impl BlockView {
    /// Create a view of the given block, with every detail still loading.
    pub fn new(block_number: u64) -> (v: BlockView)
        ensures
            v.block_number == block_number,
            v.hash@ == "Loading..."@,
            v.timestamp@ == "Loading..."@,
            v.parent_hash@ == "Loading..."@,
            v.state_root@ == "Loading..."@,
            v.extrinsics_count == 0usize,
    {
        BlockView {
            block_number,
            hash: "Loading...".to_owned(),
            timestamp: "Loading...".to_owned(),
            parent_hash: "Loading...".to_owned(),
            state_root: "Loading...".to_owned(),
            extrinsics_count: 0,
        }
    }
}

} // verus!
