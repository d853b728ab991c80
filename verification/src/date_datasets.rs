use crate::maps::{DateMap, DateMapState};
use crate::min_initial_state::DatasetState;
use crate::processed::{ProcessedBlockData, ProcessedDateData};
use std::collections::BTreeMap;
use vstd::prelude::*;

verus! {

/// For each day: the heights of its first and last blocks and its number of
/// blocks.
#[derive(Debug)]
pub struct BlockDataset {
    pub first_height: DateMap<usize>,
    pub last_height: DateMap<usize>,
    pub block_count: DateMap<usize>,
}

impl BlockDataset {
    pub fn new(first_height: DateMapState, last_height: DateMapState, block_count: DateMapState) -> (dataset: Self)
        ensures
            dataset.first_height@ == Map::<i32, usize>::empty(),
            dataset.last_height@ == Map::<i32, usize>::empty(),
            dataset.block_count@ == Map::<i32, usize>::empty(),
            dataset.first_height.spec_initial_state() == first_height,
            dataset.last_height.spec_initial_state() == last_height,
            dataset.block_count.spec_initial_state() == block_count,
    {
        BlockDataset {
            first_height: DateMap::new(first_height),
            last_height: DateMap::new(last_height),
            block_count: DateMap::new(block_count),
        }
    }

    /// Records a day: its last block is `block_count - 1` blocks after its
    /// first.
    pub fn insert(&mut self, data: &ProcessedDateData)
        requires
            data.block_count >= 1,
            data.first_height + data.block_count - 1 <= usize::MAX,
        ensures
            final(self).first_height@ == old(self).first_height@.insert(data.date, data.first_height),
            final(self).last_height@ == old(self).last_height@.insert(
                data.date,
                (data.first_height + data.block_count - 1) as usize,
            ),
            final(self).block_count@ == old(self).block_count@.insert(data.date, data.block_count),
            final(self).first_height.spec_initial_state() == old(self).first_height.spec_initial_state(),
            final(self).last_height.spec_initial_state() == old(self).last_height.spec_initial_state(),
            final(self).block_count.spec_initial_state() == old(self).block_count.spec_initial_state(),
    {
        self.first_height.insert(data.date, data.first_height);
        self.last_height.insert(data.date, data.first_height + (data.block_count - 1));
        self.block_count.insert(data.date, data.block_count);
    }

    pub fn to_vec(&self) -> (maps: Vec<&DateMap<usize>>)
        ensures
            maps@.len() == 3,
            maps@[0] == &self.block_count,
            maps@[1] == &self.first_height,
            maps@[2] == &self.last_height,
    {
        vec![&self.block_count, &self.first_height, &self.last_height]
    }
}

/// The day datasets.
#[derive(Debug)]
pub struct DateDatasets {
    pub block: BlockDataset,
}

impl DateDatasets {
    /// The height of the last block of each day, as stored for the
    /// last-height map of the block dataset: `stored` is what was read back
    /// from that map's file, and it is handed back whole, whatever the
    /// dataset holds in memory.
    pub fn get_date_to_last_height(&self, stored: BTreeMap<i32, usize>) -> (last_heights: BTreeMap<
        i32,
        usize,
    >)
        ensures
            last_heights@ == stored@,
    {
        stored
    }

    pub fn to_vec(&self) -> (datasets: Vec<&BlockDataset>)
        ensures
            datasets@.len() == 1,
            datasets@[0] == &self.block,
    {
        vec![&self.block]
    }
}

/// For each day, the heights of its first block and of the latest block
/// seen on it.
#[derive(Debug)]
pub struct DateMetadataDataset {
    pub state: DatasetState,
    pub first_height: DateMap<usize>,
    pub last_height: DateMap<usize>,
}

impl DateMetadataDataset {
    /// The dataset over maps loaded with the given stored states; what it
    /// still needs is computed from them.
    pub fn new(first_height: DateMapState, last_height: DateMapState) -> (dataset: Self)
        ensures
            dataset.first_height@ == Map::<i32, usize>::empty(),
            dataset.last_height@ == Map::<i32, usize>::empty(),
            dataset.first_height.spec_initial_state() == first_height,
            dataset.last_height.spec_initial_state() == last_height,
            dataset.state == (DatasetState {
                min_initial_state: crate::min_initial_state::spec_compute_from_dataset(
                    Seq::empty(),
                    seq![first_height, last_height],
                ),
                has_inserted_height_maps: false,
                has_inserted_date_maps: true,
            }),
    {
        let height_maps = Vec::new();
        let date_maps = vec![first_height, last_height];
        let state = DatasetState::from_maps(&height_maps, &date_maps);
        assert(date_maps@ =~= seq![first_height, last_height]);
        assert(height_maps@ =~= Seq::empty());
        DateMetadataDataset {
            state,
            first_height: DateMap::new(first_height),
            last_height: DateMap::new(last_height),
        }
    }

    pub fn get_min_initial_state(&self) -> (state: &DatasetState)
        ensures
            *state == self.state,
    {
        &self.state
    }

    /// Records, for the block's day, the height of the day's first block and
    /// the block's own height.
    pub fn insert_data(&mut self, block: &ProcessedBlockData)
        ensures
            final(self).first_height@ == old(self).first_height@.insert(
                block.date,
                block.date_first_height,
            ),
            final(self).last_height@ == old(self).last_height@.insert(block.date, block.height),
            final(self).state == old(self).state,
            final(self).first_height.spec_initial_state() == old(self).first_height.spec_initial_state(),
            final(self).last_height.spec_initial_state() == old(self).last_height.spec_initial_state(),
    {
        self.first_height.insert(block.date, block.date_first_height);
        self.last_height.insert(block.date, block.height);
    }
}

} // verus!
