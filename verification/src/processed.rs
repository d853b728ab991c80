use vstd::prelude::*;

verus! {

/// What the datasets read of a processed block: its height, its day, whether
/// it is the last block of that day, the height of the day's first block,
/// and its timestamp.
#[derive(Debug, Clone, Copy, PartialEq, Eq, Structural)]
pub struct ProcessedBlockData {
    pub height: usize,
    pub date: i32,
    pub is_date_last_block: bool,
    pub date_first_height: usize,
    pub timestamp: u32,
}

/// What the day datasets read of a processed day: its number of blocks, the
/// heights of its first and last blocks, and the day itself.
#[derive(Debug, Clone, Copy, PartialEq, Eq, Structural)]
pub struct ProcessedDateData {
    pub block_count: usize,
    pub first_height: usize,
    pub height: usize,
    pub date: i32,
}

} // verus!
