use crate::calendar::{timestamp_to_date, SECONDS_PER_DAY, UNIX_EPOCH_DAY};
use crate::maps::{HeightMap, HeightMapState};
use crate::processed::ProcessedBlockData;
use vstd::prelude::*;

verus! {

/// The total supply at each height.
#[derive(Debug)]
pub struct SupplyDataset {
    pub total: HeightMap<u64>,
}

impl SupplyDataset {
    pub fn new(total: HeightMapState) -> (dataset: Self)
        ensures
            dataset.total@ == Map::<usize, u64>::empty(),
            dataset.total.spec_initial_state() == total,
    {
        SupplyDataset { total: HeightMap::new(total) }
    }

    pub fn insert(&mut self, height: usize, total_supply: u64)
        ensures
            final(self).total@ == old(self).total@.insert(height, total_supply),
            final(self).total.spec_initial_state() == old(self).total.spec_initial_state(),
    {
        self.total.insert(height, total_supply);
    }

    pub fn to_vec(&self) -> (maps: Vec<&HeightMap<u64>>)
        ensures
            maps@.len() == 1,
            maps@[0] == &self.total,
    {
        vec![&self.total]
    }
}

/// The number of unspent outputs at each height.
#[derive(Debug)]
pub struct UTXOsMetadataDataset {
    pub count: HeightMap<usize>,
}

impl UTXOsMetadataDataset {
    pub fn new(count: HeightMapState) -> (dataset: Self)
        ensures
            dataset.count@ == Map::<usize, usize>::empty(),
            dataset.count.spec_initial_state() == count,
    {
        UTXOsMetadataDataset { count: HeightMap::new(count) }
    }

    pub fn insert(&mut self, height: usize, utxo_count: usize)
        ensures
            final(self).count@ == old(self).count@.insert(height, utxo_count),
            final(self).count.spec_initial_state() == old(self).count.spec_initial_state(),
    {
        self.count.insert(height, utxo_count);
    }

    pub fn to_vec(&self) -> (maps: Vec<&HeightMap<usize>>)
        ensures
            maps@.len() == 1,
            maps@[0] == &self.count,
    {
        vec![&self.count]
    }
}

/// The fees and the subsidy of each block, in sats.
#[derive(Debug)]
pub struct RewardsDataset {
    pub fees: HeightMap<u64>,
    pub subsidy: HeightMap<u64>,
}

impl RewardsDataset {
    pub fn new(fees: HeightMapState, subsidy: HeightMapState) -> (dataset: Self)
        ensures
            dataset.fees@ == Map::<usize, u64>::empty(),
            dataset.subsidy@ == Map::<usize, u64>::empty(),
            dataset.fees.spec_initial_state() == fees,
            dataset.subsidy.spec_initial_state() == subsidy,
    {
        RewardsDataset { fees: HeightMap::new(fees), subsidy: HeightMap::new(subsidy) }
    }

    /// Records a block's fees and its subsidy: what the coinbase pays beyond
    /// the fees.
    pub fn insert(&mut self, height: usize, coinbase: u64, fees: u64)
        requires
            fees <= coinbase,
        ensures
            final(self).fees@ == old(self).fees@.insert(height, fees),
            final(self).subsidy@ == old(self).subsidy@.insert(height, (coinbase - fees) as u64),
            final(self).fees.spec_initial_state() == old(self).fees.spec_initial_state(),
            final(self).subsidy.spec_initial_state() == old(self).subsidy.spec_initial_state(),
    {
        let subsidy = coinbase - fees;
        self.fees.insert(height, fees);
        self.subsidy.insert(height, subsidy);
    }

    pub fn to_any_height_map_vec(&self) -> (maps: Vec<&HeightMap<u64>>)
        ensures
            maps@.len() == 2,
            maps@[0] == &self.fees,
            maps@[1] == &self.subsidy,
    {
        vec![&self.fees, &self.subsidy]
    }
}

/// The timestamp of each block and the day it was mined on.
#[derive(Debug)]
pub struct TimeDataset {
    pub date: HeightMap<i32>,
    pub timestamp: HeightMap<u32>,
}

impl TimeDataset {
    pub fn new(date: HeightMapState, timestamp: HeightMapState) -> (dataset: Self)
        ensures
            dataset.date@ == Map::<usize, i32>::empty(),
            dataset.timestamp@ == Map::<usize, u32>::empty(),
            dataset.date.spec_initial_state() == date,
            dataset.timestamp.spec_initial_state() == timestamp,
    {
        TimeDataset { date: HeightMap::new(date), timestamp: HeightMap::new(timestamp) }
    }

    pub fn insert(&mut self, block: &ProcessedBlockData)
        ensures
            final(self).timestamp@ == old(self).timestamp@.insert(block.height, block.timestamp),
            final(self).date@ == old(self).date@.insert(
                block.height,
                (UNIX_EPOCH_DAY + block.timestamp / SECONDS_PER_DAY) as i32,
            ),
            final(self).date.spec_initial_state() == old(self).date.spec_initial_state(),
            final(self).timestamp.spec_initial_state() == old(self).timestamp.spec_initial_state(),
    {
        self.timestamp.insert(block.height, block.timestamp);
        let day = timestamp_to_date(block.timestamp);
        self.date.insert(block.height, day);
    }
}

} // verus!
