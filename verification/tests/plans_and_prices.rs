use chain_datasets::insert_plan::{cohort_steps, utxo_cohort_steps, CohortDataset, CohortInsertStep, CohortNeeds, SubDataset};
use chain_datasets::maps::{DateMapState, HeightMapState};
use chain_datasets::min_initial_state::DatasetState;
use chain_datasets::price::{height_price_source, minute_timestamp, HeightPriceSource};
use chain_datasets::price_paid::{percentile_price, percentile_prices, supply_in_profit, PERCENTILE_SLOTS};
use chain_datasets::rewards::{blocks_mined, total_sats, total_sats_of_blocks};
use chain_datasets::selection::{datasets_for_block, datasets_for_date, datasets_to_export, datasets_to_export_after_block};
use chain_datasets::serialization::Serialization;

fn state(first_unsafe_height: Option<usize>, first_unsafe_date: Option<i32>) -> DatasetState {
    DatasetState::from_maps(
        &vec![HeightMapState { last_height: None, first_unsafe_height }],
        &vec![DateMapState { last_date: None, first_unsafe_date }],
    )
}

fn done() -> DatasetState {
    state(Some(1_000), Some(1_000))
}

fn sub(done_state: DatasetState) -> SubDataset {
    SubDataset {
        input: done_state,
        output: done_state,
        price_paid: done_state,
        realized: done_state,
        supply: done_state,
        unrealized: done_state,
        utxo: done_state,
    }
}

#[test]
fn percentile_prices_of_a_distribution() {
    // 100 sats spread over five prices.
    let entries = vec![(10u32, 5u64), (20, 15), (30, 30), (40, 40), (50, 10)];
    let prices = percentile_prices(&entries, 100);
    assert_eq!(prices.len(), PERCENTILE_SLOTS);
    assert_eq!(prices[0], Some(10)); // 5%: reached at the first entry
    assert_eq!(prices[1], Some(20)); // 10%
    assert_eq!(prices[3], Some(20)); // 20%: exactly reached at 20 sats
    assert_eq!(prices[4], Some(30)); // 25%
    assert_eq!(prices[9], Some(30)); // median: 50 sats reached at price 30
    assert_eq!(prices[10], Some(40)); // 55%
    assert_eq!(prices[17], Some(40)); // 90%
    assert_eq!(prices[18], Some(50)); // 95%
    for k in 1..PERCENTILE_SLOTS {
        assert!(prices[k - 1].unwrap() <= prices[k].unwrap());
    }
}

#[test]
fn percentiles_not_reached() {
    assert_eq!(percentile_prices(&vec![], 100), vec![None; PERCENTILE_SLOTS]);
    // The amounts hold only half of the recorded supply.
    let prices = percentile_prices(&vec![(7, 50)], 100);
    assert_eq!(prices[9], Some(7));
    assert_eq!(prices[10], None);
    assert_eq!(percentile_price(&vec![(7, 50)], 100, 95), None);
    // A zero supply is reached at once.
    assert_eq!(percentile_prices(&vec![(3, 0), (4, 1)], 0), vec![Some(3); PERCENTILE_SLOTS]);
}

#[test]
fn supply_in_profit_counts_cheaper_amounts() {
    let entries = vec![(10u32, 5u64), (20, 15), (30, 30)];
    assert_eq!(supply_in_profit(&entries, 30), 20);
    assert_eq!(supply_in_profit(&entries, 31), 50);
    assert_eq!(supply_in_profit(&entries, 10), 0);
    assert_eq!(supply_in_profit(&vec![], 10), 0);
}

#[test]
fn cohort_steps_in_order() {
    let all = CohortNeeds { metadata: true, utxo: true, supply: true, price_paid: true, realized: true, unrealized: true, input: true, output: true };
    assert_eq!(
        cohort_steps(&all, true),
        vec![
            CohortInsertStep::Metadata,
            CohortInsertStep::Utxo,
            CohortInsertStep::Supply,
            CohortInsertStep::Realized,
            CohortInsertStep::Unrealized,
            CohortInsertStep::PricePaid,
            CohortInsertStep::Input,
            CohortInsertStep::Output,
        ]
    );
    assert_eq!(cohort_steps(&all, false), vec![]);
    let only_price_paid = CohortNeeds { metadata: false, utxo: false, supply: false, price_paid: true, realized: false, unrealized: false, input: false, output: false };
    assert_eq!(cohort_steps(&only_price_paid, true), vec![CohortInsertStep::Supply, CohortInsertStep::PricePaid]);
}

#[test]
fn cohort_needs_from_dataset_states() {
    let mut liquid = sub(done());
    liquid.realized = state(Some(5), Some(1_000));
    let cohort = CohortDataset { metadata: done(), all: sub(done()), illiquid: sub(done()), liquid, highly_liquid: sub(done()) };
    let needs = cohort.needs(10, 3);
    assert!(needs.realized);
    assert!(!needs.metadata && !needs.supply && !needs.price_paid && !needs.utxo);
    assert_eq!(cohort.insert_steps(10, 3, true), vec![CohortInsertStep::Realized]);
    assert_eq!(cohort.insert_steps(4, 3, true), vec![]);
    assert_eq!(cohort.sub_datasets_vec().len(), 4);
    assert!(cohort.needs_realized_data(3, 10));
    assert!(!cohort.needs_input_data(3, 10));
    assert!(!cohort.needs_output_data(3, 10));
    assert!(!cohort.needs_unrealized_data(3, 10));
    assert!(!cohort.needs_supply_data(3, 10));
    assert!(!cohort.needs_price_paid_data(3, 10));
    assert!(!cohort.needs_utxo_data(3, 10));
    assert!(!cohort.needs_metadata(3, 10));
    assert!(cohort.needs_metadata(1_000, 0));
}

#[test]
fn utxo_cohort_steps_follow_each_dataset() {
    let mut subs = sub(done());
    subs.price_paid = state(Some(0), None);
    subs.output = state(None, Some(0));
    assert_eq!(utxo_cohort_steps(&subs, 10, 3), vec![CohortInsertStep::PricePaid, CohortInsertStep::Output]);
    assert_eq!(utxo_cohort_steps(&sub(done()), 10, 3), vec![]);
}

#[test]
fn which_datasets_take_a_block() {
    let states = vec![state(Some(5), Some(100)), state(None, None), state(Some(20), Some(10))];
    assert_eq!(datasets_for_block(&states, 10), vec![0, 1]);
    assert_eq!(datasets_for_block(&states, 20), vec![0, 1, 2]);
    assert_eq!(datasets_for_date(&states, 10), vec![1, 2]);
    assert_eq!(datasets_to_export_after_block(&states, 10, 10), vec![0, 1, 2]);
    assert_eq!(datasets_to_export_after_block(&states, 4, 9), vec![1]);
    assert_eq!(datasets_to_export(&states, None), vec![0, 1, 2]);
    assert_eq!(datasets_to_export(&states, Some((4, 9))), vec![1]);
    assert_eq!(datasets_to_export(&states, Some((6, 9))), vec![0, 1]);
}

#[test]
fn sums_of_sats() {
    assert_eq!(total_sats(&vec![]), 0);
    assert_eq!(total_sats(&vec![1, 2, 3_000_000_000]), 3_000_000_003);
    assert_eq!(total_sats_of_blocks(&vec![vec![1, 2], vec![], vec![10]]), 13);
    assert_eq!(blocks_mined(1143, 1000), 144);
    assert_eq!(blocks_mined(7, 7), 1);
}

#[test]
fn height_price_sources() {
    assert_eq!(minute_timestamp(1_231_006_505), 1_231_006_500);
    assert_eq!(minute_timestamp(120), 120);
    assert_eq!(height_price_source(3, 10, 1_000), HeightPriceSource::Stored);
    assert_eq!(height_price_source(9, 10, 1_000), HeightPriceSource::Fetch { minute_timestamp: 960 });
    assert_eq!(height_price_source(0, 1, 59), HeightPriceSource::Fetch { minute_timestamp: 0 });
}

#[test]
fn serialization_extensions() {
    assert_eq!(Serialization::Binary.to_extension(), "bin");
    assert_eq!(Serialization::Json.to_extension(), "json");
    assert_eq!(Serialization::from_extension("bin"), Serialization::Binary);
    assert_eq!(Serialization::from_extension("json"), Serialization::Json);
    assert_eq!(Serialization::Json.append_extension("datasets/close"), "datasets/close.json");
    assert_eq!(Serialization::Binary.append_extension(""), ".bin");
    for s in [Serialization::Binary, Serialization::Json] {
        assert_eq!(Serialization::from_extension(s.to_extension()), s);
    }
}
