use chain_datasets::calendar::timestamp_to_date;
use chain_datasets::date_datasets::{BlockDataset, DateDatasets, DateMetadataDataset};
use chain_datasets::height_datasets::{RewardsDataset, SupplyDataset, TimeDataset, UTXOsMetadataDataset};
use chain_datasets::maps::{BiMap, DateMap, DateMapState, HeightMap, HeightMapState};
use chain_datasets::min_initial_state::{min_date, min_height, DatasetState, MinInitialState};
use chain_datasets::processed::{ProcessedBlockData, ProcessedDateData};
use chain_datasets::sub_datasets::{
    AllAddressesMetadataDataset, BlockMetadataDataset, MetadataDataset, UTXOSubDataset,
    UTXOsMetadataState, UTXOsMetadataSubDataset,
};
use chrono::{Datelike, NaiveDate};

fn height_state(last: Option<usize>, first_unsafe: Option<usize>) -> HeightMapState {
    HeightMapState { last_height: last, first_unsafe_height: first_unsafe }
}

fn date_state(last: Option<i32>, first_unsafe: Option<i32>) -> DateMapState {
    DateMapState { last_date: last, first_unsafe_date: first_unsafe }
}

fn block(height: usize, date: i32, is_date_last_block: bool) -> ProcessedBlockData {
    ProcessedBlockData { height, date, is_date_last_block, date_first_height: height, timestamp: 0 }
}

#[test]
fn height_map_read_after_write() {
    let mut map: HeightMap<u64> = HeightMap::new(height_state(None, None));
    assert_eq!(map.get(3), None);
    assert_eq!(map.insert(3, 42), 42);
    assert_eq!(map.insert(4, 7), 7);
    assert_eq!(map.get(3), Some(42));
    assert_eq!(map.insert(3, 43), 43);
    assert_eq!(map.get(3), Some(43));
    assert_eq!(map.get(4), Some(7));
    assert_eq!(map.get(5), None);
}

#[test]
fn date_map_read_after_write_and_copy() {
    let mut map: DateMap<usize> = DateMap::new(date_state(None, Some(10)));
    map.insert(9, 1);
    map.insert(12, 2);
    assert_eq!(map.get(9), Some(1));
    assert_eq!(map.get(10), None);
    let copy = map.to_btree_map();
    assert_eq!(copy.len(), 2);
    assert_eq!(copy.get(&12), Some(&2));
    assert!(map.is_date_safe(9));
    assert!(!map.is_date_safe(10));
}

#[test]
fn height_safety_needs_a_first_unsafe_height() {
    let unknown: HeightMap<u32> = HeightMap::new(height_state(None, None));
    assert!(!unknown.is_height_safe(0));
    let known: HeightMap<u32> = HeightMap::new(height_state(Some(99), Some(100)));
    assert!(known.is_height_safe(99));
    assert!(!known.is_height_safe(100));
    assert_eq!(known.get_initial_state(), height_state(Some(99), Some(100)));
}

#[test]
fn bi_map_records_the_day_on_its_last_block() {
    let mut map: BiMap<u32> = BiMap::new(height_state(None, Some(5)), date_state(None, Some(20)));
    map.insert_for_block(5, 20, false, 1);
    assert_eq!(map.height.get(5), Some(1));
    assert_eq!(map.date.get(20), None);
    map.insert_for_block(6, 20, true, 2);
    assert_eq!(map.height.get(6), Some(2));
    assert_eq!(map.date.get(20), Some(2));
    assert!(map.are_date_and_height_safe(19, 4));
    assert!(!map.are_date_and_height_safe(19, 5));
    assert!(!map.are_date_and_height_safe(20, 4));
}

#[test]
fn smallest_of_optional_values() {
    assert_eq!(min_height(&vec![]), None);
    assert_eq!(min_height(&vec![Some(5), Some(3), Some(8)]), Some(3));
    assert_eq!(min_height(&vec![Some(5), None, Some(8)]), None);
    assert_eq!(min_height(&vec![Some(7)]), Some(7));
    assert_eq!(min_date(&vec![Some(-4), Some(9)]), Some(-4));
    assert_eq!(min_date(&vec![Some(1), None]), None);
    assert_eq!(min_date(&vec![]), None);
}

#[test]
fn min_initial_state_of_a_dataset() {
    let heights = vec![height_state(Some(10), Some(11)), height_state(Some(7), Some(8))];
    let dates = vec![date_state(Some(100), Some(101)), date_state(None, None)];
    let state = MinInitialState::compute_from_dataset(&heights, &dates);
    assert_eq!(state.last_height, Some(7));
    assert_eq!(state.first_unsafe_height, Some(8));
    assert_eq!(state.last_date, None);
    assert_eq!(state.first_unsafe_date, None);
    let mut consumed = MinInitialState::default();
    assert_eq!(consumed, MinInitialState { first_unsafe_date: None, first_unsafe_height: None, last_date: None, last_height: None });
    consumed.consume(state);
    assert_eq!(consumed, state);
}

#[test]
fn min_initial_state_of_a_group() {
    let a = DatasetState::from_maps(&vec![height_state(Some(10), Some(11))], &vec![date_state(Some(5), Some(6))]);
    let b = DatasetState::from_maps(&vec![height_state(Some(3), Some(4))], &vec![]);
    let c = DatasetState::from_maps(&vec![], &vec![date_state(Some(2), Some(3))]);
    let group = MinInitialState::compute_from_datasets(&vec![a, b, c]);
    assert_eq!(group.first_unsafe_height, Some(4));
    assert_eq!(group.last_height, Some(3));
    assert_eq!(group.first_unsafe_date, Some(3));
    assert_eq!(group.last_date, Some(2));
    assert_eq!(MinInitialState::compute_from_datasets(&vec![]), MinInitialState::default());
}

#[test]
fn group_processes_what_its_members_need() {
    let a = DatasetState::from_maps(&vec![height_state(Some(10), Some(11))], &vec![]);
    let b = DatasetState::from_maps(&vec![height_state(Some(3), Some(4))], &vec![]);
    let group = MinInitialState::compute_from_datasets(&vec![a, b]);
    for height in 0..20 {
        if a.should_insert_height(height) || b.should_insert_height(height) {
            assert!(group.process_height(height));
        }
    }
}

#[test]
fn should_insert_rules() {
    let state = DatasetState::from_maps(&vec![height_state(Some(9), Some(10))], &vec![date_state(Some(4), Some(5))]);
    assert!(state.has_inserted_height_maps && state.has_inserted_date_maps);
    assert!(!state.should_insert_height(9));
    assert!(state.should_insert_height(10));
    assert!(state.should_insert_height(11));
    assert!(!state.should_insert_date(4));
    assert!(state.should_insert_date(5));
    assert!(state.should_insert(9, 5));
    assert!(!state.should_insert(9, 4));
    let fresh = DatasetState::from_maps(&vec![height_state(None, None)], &vec![date_state(None, None)]);
    assert!(fresh.should_insert_height(0));
    assert!(fresh.should_insert_date(-1_000));
    let no_maps = DatasetState::from_maps(&vec![], &vec![]);
    assert!(!no_maps.should_insert(0, 0));
    assert!(no_maps.min_initial_state.process_height(0));
    assert!(no_maps.min_initial_state.process_date(0));
}

#[test]
fn utxo_count_state_round_trip() {
    let mut state = UTXOsMetadataState::default();
    assert_eq!(state.count, 0);
    state.increment(5);
    state.increment(2);
    assert_eq!(state.count, 7);
    state.decrement(5);
    assert_eq!(state.count, 2);
    state.decrement(2);
    assert_eq!(state.count, 0);
}

#[test]
fn utxos_metadata_sub_dataset_insert() {
    let mut dataset = UTXOsMetadataSubDataset::new(height_state(None, Some(0)), date_state(None, Some(0)));
    dataset.insert(&block(1, 50, false), &UTXOsMetadataState { count: 3 });
    dataset.insert(&block(2, 50, true), &UTXOsMetadataState { count: 4 });
    assert_eq!(dataset.count.height.get(1), Some(3));
    assert_eq!(dataset.count.height.get(2), Some(4));
    assert_eq!(dataset.count.date.get(50), Some(4));
    assert_eq!(dataset.to_any_height_map_vec().len(), 1);
    assert_eq!(dataset.to_any_date_map_vec()[0].get(50), Some(4));
    assert!(!dataset.are_date_and_height_safe(50, 2));
}

#[test]
fn utxo_sub_dataset_and_metadata_datasets() {
    let mut utxo = UTXOSubDataset::new(height_state(Some(1), Some(2)), date_state(Some(10), Some(11)));
    assert_eq!(utxo.get_min_initial_state().min_initial_state.first_unsafe_height, Some(2));
    assert_eq!(utxo.get_min_initial_state().min_initial_state.first_unsafe_date, Some(11));
    utxo.insert(&block(2, 11, true), 9);
    assert_eq!(utxo.count.height.get(2), Some(9));
    assert_eq!(utxo.count.date.get(11), Some(9));

    let mut metadata = MetadataDataset::new(height_state(None, None), date_state(None, None));
    metadata.insert(&block(0, 1, false), 12);
    assert_eq!(metadata.address_count.height.get(0), Some(12));
    assert_eq!(metadata.address_count.date.get(1), None);
    assert!(metadata.get_min_initial_state().should_insert(0, 1));

    let mut all = AllAddressesMetadataDataset::new(
        height_state(Some(5), Some(6)),
        date_state(Some(1), Some(2)),
        height_state(Some(4), Some(5)),
        date_state(Some(1), Some(2)),
    );
    assert_eq!(all.get_min_initial_state().min_initial_state.first_unsafe_height, Some(5));
    all.insert_data(&block(6, 2, true), 1000, 40);
    assert_eq!(all.total_addresses_created.height.get(6), Some(1000));
    assert_eq!(all.total_empty_addresses.date.get(2), Some(40));
}

#[test]
fn height_datasets_insert() {
    let mut supply = SupplyDataset::new(height_state(None, None));
    supply.insert(10, 5_000_000_000);
    assert_eq!(supply.to_vec()[0].get(10), Some(5_000_000_000));

    let mut utxos = UTXOsMetadataDataset::new(height_state(None, None));
    utxos.insert(10, 3);
    assert_eq!(utxos.to_vec()[0].get(10), Some(3));

    let mut rewards = RewardsDataset::new(height_state(None, None), height_state(None, None));
    rewards.insert(10, 5_000_001_000, 1_000);
    assert_eq!(rewards.fees.get(10), Some(1_000));
    assert_eq!(rewards.subsidy.get(10), Some(5_000_000_000));
    assert_eq!(rewards.to_any_height_map_vec().len(), 2);
}

#[test]
fn block_times_become_days() {
    let genesis_timestamp = 1_231_006_505u32;
    let genesis_day = NaiveDate::from_ymd_opt(2009, 1, 3).unwrap().num_days_from_ce();
    assert_eq!(timestamp_to_date(genesis_timestamp), genesis_day);
    assert_eq!(timestamp_to_date(0), 719_163);
    assert_eq!(timestamp_to_date(86_399), 719_163);
    assert_eq!(timestamp_to_date(86_400), 719_164);

    let mut time = TimeDataset::new(height_state(None, None), height_state(None, None));
    let genesis = ProcessedBlockData { height: 0, date: genesis_day, is_date_last_block: false, date_first_height: 0, timestamp: genesis_timestamp };
    time.insert(&genesis);
    assert_eq!(time.timestamp.get(0), Some(genesis_timestamp));
    assert_eq!(time.date.get(0), Some(genesis_day));

    let mut metadata = BlockMetadataDataset::new(height_state(None, None), height_state(None, None));
    metadata.insert_block_data(&genesis);
    assert_eq!(metadata.date.get(0), Some(genesis_day));
    assert_eq!(metadata.timestamp.get(0), Some(genesis_timestamp));
}

#[test]
fn day_datasets_insert() {
    let empty = date_state(None, None);
    let mut blocks = BlockDataset::new(empty, empty, empty);
    blocks.insert(&ProcessedDateData { block_count: 144, first_height: 1000, height: 1143, date: 7 });
    blocks.insert(&ProcessedDateData { block_count: 1, first_height: 2000, height: 2000, date: 8 });
    assert_eq!(blocks.first_height.get(7), Some(1000));
    assert_eq!(blocks.last_height.get(7), Some(1143));
    assert_eq!(blocks.block_count.get(7), Some(144));
    assert_eq!(blocks.last_height.get(8), Some(2000));
    assert_eq!(blocks.to_vec()[0].get(7), Some(144));

    let datasets = DateDatasets { block: blocks };
    // What was stored earlier comes back, not only what this run inserted.
    let mut stored = std::collections::BTreeMap::new();
    stored.insert(5, 800);
    stored.insert(6, 999);
    stored.insert(7, 1143);
    let last_heights = datasets.get_date_to_last_height(stored);
    assert_eq!(last_heights.into_iter().collect::<Vec<_>>(), vec![(5, 800), (6, 999), (7, 1143)]);
    assert_eq!(datasets.to_vec().len(), 1);

    let mut metadata = DateMetadataDataset::new(date_state(Some(6), Some(7)), date_state(Some(6), Some(7)));
    assert_eq!(metadata.get_min_initial_state().min_initial_state.first_unsafe_date, Some(7));
    assert!(!metadata.get_min_initial_state().has_inserted_height_maps);
    metadata.insert_data(&ProcessedBlockData { height: 1010, date: 7, is_date_last_block: false, date_first_height: 1000, timestamp: 0 });
    assert_eq!(metadata.first_height.get(7), Some(1000));
    assert_eq!(metadata.last_height.get(7), Some(1010));
}
