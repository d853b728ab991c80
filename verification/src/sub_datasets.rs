use crate::calendar::{timestamp_to_date, SECONDS_PER_DAY, UNIX_EPOCH_DAY};
use crate::maps::{BiMap, DateMap, DateMapState, HeightMap, HeightMapState};
use crate::min_initial_state::{spec_compute_from_dataset, DatasetState};
use crate::processed::ProcessedBlockData;
use vstd::prelude::*;

verus! {

/// The number of unspent outputs of a cohort, kept up to date as outputs
/// are created and spent.
#[derive(Debug, Clone, Copy, PartialEq, Eq, Structural)]
pub struct UTXOsMetadataState {
    pub count: usize,
}

impl Default for UTXOsMetadataState {
    fn default() -> (state: Self)
        ensures
            state.count == 0,
    {
        UTXOsMetadataState { count: 0 }
    }
}

impl UTXOsMetadataState {
    pub fn increment(&mut self, utxo_count: usize)
        requires
            old(self).count + utxo_count <= usize::MAX,
        ensures
            final(self).count == old(self).count + utxo_count,
    {
        self.count = self.count + utxo_count;
    }

    pub fn decrement(&mut self, utxo_count: usize)
        requires
            utxo_count <= old(self).count,
        ensures
            final(self).count == old(self).count - utxo_count,
    {
        self.count = self.count - utxo_count;
    }
}

/// Spending outputs that were created undoes their creation: the count
/// after an increment followed by a decrement by the same number is the
/// count before, and never goes below zero on the way.
pub proof fn lemma_decrement_undoes_increment(before: UTXOsMetadataState, utxo_count: usize)
    requires
        before.count + utxo_count <= usize::MAX,
    ensures
        ({
            let after_increment = before.count + utxo_count;
            utxo_count <= after_increment && after_increment - utxo_count == before.count
        }),
{
}

/// A series recorded per block and per day after recording `value` for a
/// block: the value is stored at the block's height, and at its day too
/// when the block is the day's last.
pub open spec fn recorded_for_block<T>(before: (Map<usize, T>, Map<i32, T>), block: ProcessedBlockData, value: T) -> (Map<usize, T>, Map<i32, T>) {
    (
        before.0.insert(block.height, value),
        if block.is_date_last_block {
            before.1.insert(block.date, value)
        } else {
            before.1
        },
    )
}

/// The number of unspent outputs of a cohort, per block and per day.
#[derive(Debug)]
pub struct UTXOsMetadataSubDataset {
    pub count: BiMap<usize>,
}

impl UTXOsMetadataSubDataset {
    pub fn new(height: HeightMapState, date: DateMapState) -> (dataset: Self)
        ensures
            dataset.count.height@ == Map::<usize, usize>::empty(),
            dataset.count.date@ == Map::<i32, usize>::empty(),
            dataset.count.height.spec_initial_state() == height,
            dataset.count.date.spec_initial_state() == date,
    {
        UTXOsMetadataSubDataset { count: BiMap::new(height, date) }
    }

    pub fn insert(&mut self, block: &ProcessedBlockData, state: &UTXOsMetadataState)
        ensures
            (final(self).count.height@, final(self).count.date@) == recorded_for_block(
                (old(self).count.height@, old(self).count.date@),
                *block,
                state.count,
            ),
            final(self).count.height.spec_initial_state() == old(self).count.height.spec_initial_state(),
            final(self).count.date.spec_initial_state() == old(self).count.date.spec_initial_state(),
    {
        self.count.insert_for_block(block.height, block.date, block.is_date_last_block, state.count);
    }

    pub fn to_any_height_map_vec(&self) -> (maps: Vec<&HeightMap<usize>>)
        ensures
            maps@.len() == 1,
            maps@[0] == &self.count.height,
    {
        vec![&self.count.height]
    }

    pub fn to_any_date_map_vec(&self) -> (maps: Vec<&DateMap<usize>>)
        ensures
            maps@.len() == 1,
            maps@[0] == &self.count.date,
    {
        vec![&self.count.date]
    }

    pub fn are_date_and_height_safe(&self, date: i32, height: usize) -> (safe: bool)
        ensures
            safe == ((self.count.height.spec_initial_state().first_unsafe_height matches Some(first)
                && height < first) && (self.count.date.spec_initial_state().first_unsafe_date matches Some(
                first,
            ) && date < first)),
    {
        self.count.are_date_and_height_safe(date, height)
    }
}

/// The state computed for a dataset made of one series recorded per block
/// and per day.
pub open spec fn single_series_state(height: HeightMapState, date: DateMapState) -> DatasetState {
    DatasetState {
        min_initial_state: spec_compute_from_dataset(seq![height], seq![date]),
        has_inserted_height_maps: true,
        has_inserted_date_maps: true,
    }
}

/// The state computed for a dataset made of two series recorded per block
/// and per day.
pub open spec fn double_series_state(
    heights: (HeightMapState, HeightMapState),
    dates: (DateMapState, DateMapState),
) -> DatasetState {
    DatasetState {
        min_initial_state: spec_compute_from_dataset(
            seq![heights.0, heights.1],
            seq![dates.0, dates.1],
        ),
        has_inserted_height_maps: true,
        has_inserted_date_maps: true,
    }
}

fn single_series_state_of(height: HeightMapState, date: DateMapState) -> (state: DatasetState)
    ensures
        state == single_series_state(height, date),
{
    let heights = vec![height];
    let dates = vec![date];
    assert(heights@ =~= seq![height]);
    assert(dates@ =~= seq![date]);
    DatasetState::from_maps(&heights, &dates)
}

/// The number of unspent outputs of a cohort split, per block and per day.
#[derive(Debug)]
pub struct UTXOSubDataset {
    pub state: DatasetState,
    pub count: BiMap<usize>,
}

impl UTXOSubDataset {
    pub fn new(height: HeightMapState, date: DateMapState) -> (dataset: Self)
        ensures
            dataset.state == single_series_state(height, date),
            dataset.count.height@ == Map::<usize, usize>::empty(),
            dataset.count.date@ == Map::<i32, usize>::empty(),
            dataset.count.height.spec_initial_state() == height,
            dataset.count.date.spec_initial_state() == date,
    {
        UTXOSubDataset { state: single_series_state_of(height, date), count: BiMap::new(height, date) }
    }

    pub fn get_min_initial_state(&self) -> (state: &DatasetState)
        ensures
            *state == self.state,
    {
        &self.state
    }

    pub fn insert(&mut self, block: &ProcessedBlockData, utxo_count: usize)
        ensures
            (final(self).count.height@, final(self).count.date@) == recorded_for_block(
                (old(self).count.height@, old(self).count.date@),
                *block,
                utxo_count,
            ),
            final(self).state == old(self).state,
            final(self).count.height.spec_initial_state() == old(self).count.height.spec_initial_state(),
            final(self).count.date.spec_initial_state() == old(self).count.date.spec_initial_state(),
    {
        self.count.insert_for_block(block.height, block.date, block.is_date_last_block, utxo_count);
    }
}

/// The number of addresses of a cohort, per block and per day.
#[derive(Debug)]
pub struct MetadataDataset {
    pub state: DatasetState,
    pub address_count: BiMap<usize>,
}

impl MetadataDataset {
    pub fn new(height: HeightMapState, date: DateMapState) -> (dataset: Self)
        ensures
            dataset.state == single_series_state(height, date),
            dataset.address_count.height@ == Map::<usize, usize>::empty(),
            dataset.address_count.date@ == Map::<i32, usize>::empty(),
            dataset.address_count.height.spec_initial_state() == height,
            dataset.address_count.date.spec_initial_state() == date,
    {
        MetadataDataset { state: single_series_state_of(height, date), address_count: BiMap::new(height, date) }
    }

    pub fn get_min_initial_state(&self) -> (state: &DatasetState)
        ensures
            *state == self.state,
    {
        &self.state
    }

    pub fn insert(&mut self, block: &ProcessedBlockData, address_count: usize)
        ensures
            (final(self).address_count.height@, final(self).address_count.date@) == recorded_for_block(
                (old(self).address_count.height@, old(self).address_count.date@),
                *block,
                address_count,
            ),
            final(self).state == old(self).state,
            final(self).address_count.height.spec_initial_state() == old(self).address_count.height.spec_initial_state(),
            final(self).address_count.date.spec_initial_state() == old(self).address_count.date.spec_initial_state(),
    {
        self.address_count.insert_for_block(
            block.height,
            block.date,
            block.is_date_last_block,
            address_count,
        );
    }
}

/// The number of addresses ever created and of empty addresses, per block
/// and per day.
#[derive(Debug)]
pub struct AllAddressesMetadataDataset {
    pub state: DatasetState,
    pub total_addresses_created: BiMap<u32>,
    pub total_empty_addresses: BiMap<u32>,
}

impl AllAddressesMetadataDataset {
    pub fn new(
        created_height: HeightMapState,
        created_date: DateMapState,
        empty_height: HeightMapState,
        empty_date: DateMapState,
    ) -> (dataset: Self)
        ensures
            dataset.state == double_series_state(
                (created_height, empty_height),
                (created_date, empty_date),
            ),
            dataset.total_addresses_created.height@ == Map::<usize, u32>::empty(),
            dataset.total_addresses_created.date@ == Map::<i32, u32>::empty(),
            dataset.total_empty_addresses.height@ == Map::<usize, u32>::empty(),
            dataset.total_empty_addresses.date@ == Map::<i32, u32>::empty(),
            dataset.total_addresses_created.height.spec_initial_state() == created_height,
            dataset.total_addresses_created.date.spec_initial_state() == created_date,
            dataset.total_empty_addresses.height.spec_initial_state() == empty_height,
            dataset.total_empty_addresses.date.spec_initial_state() == empty_date,
    {
        let heights = vec![created_height, empty_height];
        let dates = vec![created_date, empty_date];
        assert(heights@ =~= seq![created_height, empty_height]);
        assert(dates@ =~= seq![created_date, empty_date]);
        AllAddressesMetadataDataset {
            state: DatasetState::from_maps(&heights, &dates),
            total_addresses_created: BiMap::new(created_height, created_date),
            total_empty_addresses: BiMap::new(empty_height, empty_date),
        }
    }

    pub fn get_min_initial_state(&self) -> (state: &DatasetState)
        ensures
            *state == self.state,
    {
        &self.state
    }

    /// Records the number of addresses created so far and of empty
    /// addresses, as counted by the address databases.
    pub fn insert_data(
        &mut self,
        block: &ProcessedBlockData,
        total_addresses_created: u32,
        total_empty_addresses: u32,
    )
        ensures
            (final(self).total_addresses_created.height@, final(self).total_addresses_created.date@)
                == recorded_for_block(
                (old(self).total_addresses_created.height@, old(self).total_addresses_created.date@),
                *block,
                total_addresses_created,
            ),
            (final(self).total_empty_addresses.height@, final(self).total_empty_addresses.date@)
                == recorded_for_block(
                (old(self).total_empty_addresses.height@, old(self).total_empty_addresses.date@),
                *block,
                total_empty_addresses,
            ),
            final(self).state == old(self).state,
            final(self).total_addresses_created.height.spec_initial_state() == old(self).total_addresses_created.height.spec_initial_state(),
            final(self).total_addresses_created.date.spec_initial_state() == old(self).total_addresses_created.date.spec_initial_state(),
            final(self).total_empty_addresses.height.spec_initial_state() == old(self).total_empty_addresses.height.spec_initial_state(),
            final(self).total_empty_addresses.date.spec_initial_state() == old(self).total_empty_addresses.date.spec_initial_state(),
    {
        self.total_addresses_created.insert_for_block(
            block.height,
            block.date,
            block.is_date_last_block,
            total_addresses_created,
        );
        self.total_empty_addresses.insert_for_block(
            block.height,
            block.date,
            block.is_date_last_block,
            total_empty_addresses,
        );
    }
}

/// The day and the timestamp of each block.
#[derive(Debug)]
pub struct BlockMetadataDataset {
    pub date: HeightMap<i32>,
    pub timestamp: HeightMap<u32>,
}

impl BlockMetadataDataset {
    pub fn new(date: HeightMapState, timestamp: HeightMapState) -> (dataset: Self)
        ensures
            dataset.date@ == Map::<usize, i32>::empty(),
            dataset.timestamp@ == Map::<usize, u32>::empty(),
            dataset.date.spec_initial_state() == date,
            dataset.timestamp.spec_initial_state() == timestamp,
    {
        BlockMetadataDataset { date: HeightMap::new(date), timestamp: HeightMap::new(timestamp) }
    }

    pub fn insert_block_data(&mut self, block: &ProcessedBlockData)
        ensures
            final(self).timestamp@ == old(self).timestamp@.insert(block.height, block.timestamp),
            final(self).date@ == old(self).date@.insert(
                block.height,
                (UNIX_EPOCH_DAY + block.timestamp / SECONDS_PER_DAY) as i32,
            ),
            final(self).date.spec_initial_state() == old(self).date.spec_initial_state(),
            final(self).timestamp.spec_initial_state() == old(self).timestamp.spec_initial_state(),
    {
        self.timestamp.insert(block.height, block.timestamp);
        let day = timestamp_to_date(block.timestamp);
        self.date.insert(block.height, day);
    }
}

} // verus!
