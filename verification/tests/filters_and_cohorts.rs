use chain_datasets::calendar::{year_of, MAX_DAY, MIN_DAY};
use chain_datasets::cohort::{cohort_snapshot, spent_in_cohort, BlockRecord, DateRecord};
use chain_datasets::cohort_tables::{address_cohorts, utxo_cohorts, RawAddressSize, RawAddressSplit};
use chain_datasets::filters::{AddressFilter, RawAddressType, UTXOFilter};
use chrono::{Datelike, NaiveDate};

fn day(y: i32, m: u32, d: u32) -> i32 {
    NaiveDate::from_ymd_opt(y, m, d).unwrap().num_days_from_ce()
}

fn block(price_key: u32, amount: u64, spendable_outputs: u32) -> BlockRecord {
    BlockRecord { price_key, amount, spendable_outputs }
}

#[test]
fn address_filter_from_to_bounds() {
    let filter = AddressFilter::new_from_to(100, 1_000);
    assert_eq!(filter, AddressFilter::FromTo { from: 100, to: 1_000 });
    assert!(!filter.check(&99, &RawAddressType::P2PKH));
    assert!(filter.check(&100, &RawAddressType::P2PKH));
    assert!(filter.check(&999, &RawAddressType::P2TR));
    assert!(!filter.check(&1_000, &RawAddressType::P2PKH));
}

#[test]
fn address_filter_by_type() {
    let filter = AddressFilter::AddressType(RawAddressType::P2WPKH);
    assert!(filter.check(&0, &RawAddressType::P2WPKH));
    assert!(filter.check(&u64::MAX, &RawAddressType::P2WPKH));
    assert!(!filter.check(&5, &RawAddressType::P2SH));
}

#[test]
fn utxo_filter_checks() {
    assert_eq!(UTXOFilter::new_from_to(1, 7), UTXOFilter::FromTo { from: 1, to: 7 });
    let from_to = UTXOFilter::new_from_to(1, 7);
    assert!(!from_to.check(&0, &2020));
    assert!(from_to.check(&1, &2020));
    assert!(from_to.check(&6, &2020));
    assert!(!from_to.check(&7, &2020));
    assert!(UTXOFilter::To(7).check(&6, &2009));
    assert!(!UTXOFilter::To(7).check(&7, &2009));
    assert!(UTXOFilter::From(155).check(&155, &2009));
    assert!(!UTXOFilter::From(155).check(&154, &2009));
    assert!(UTXOFilter::Year(2012).check(&9999, &2012));
    assert!(!UTXOFilter::Year(2012).check(&0, &2013));
}

#[test]
fn utxo_filter_date_ranges() {
    assert_eq!(UTXOFilter::From(3).date_range(10), (0, 7));
    assert_eq!(UTXOFilter::From(10).date_range(10), (0, 0));
    assert_eq!(UTXOFilter::To(3).date_range(10), (7, 10));
    assert_eq!(UTXOFilter::To(30).date_range(10), (0, 10));
    assert_eq!(UTXOFilter::new_from_to(2, 5).date_range(10), (5, 8));
    assert_eq!(UTXOFilter::new_from_to(2, 50).date_range(10), (0, 8));
    assert_eq!(UTXOFilter::new_from_to(12, 50).date_range(10), (0, 0));
    assert_eq!(UTXOFilter::Year(2015).date_range(10), (0, 10));
    assert_eq!(UTXOFilter::To(0).date_range(0), (0, 0));
}

#[test]
fn date_range_agrees_with_check_on_values() {
    let len = 20usize;
    let filters = [UTXOFilter::From(4), UTXOFilter::To(6), UTXOFilter::new_from_to(3, 9), UTXOFilter::new_from_to(3, 40)];
    for filter in filters {
        let (start, end) = filter.date_range(len);
        for i in 0..len {
            let reversed = (len - 1 - i) as u16;
            assert_eq!(start <= i && i < end, filter.check(&reversed, &0), "{filter:?} at {i}");
        }
    }
}

fn sample_dates() -> Vec<DateRecord> {
    vec![
        DateRecord { date: day(2012, 12, 30), blocks: vec![block(50, 10, 1), block(10, 5, 2)] },
        DateRecord { date: day(2012, 12, 31), blocks: vec![block(30, 7, 1)] },
        DateRecord { date: day(2013, 1, 1), blocks: vec![block(20, 3, 4), block(40, 1, 1)] },
        DateRecord { date: day(2013, 1, 2), blocks: vec![] },
    ]
}

#[test]
fn cohort_snapshot_of_recent_days() {
    let dates = sample_dates();
    // reversed indices 0 and 1: the last two days.
    let snapshot = cohort_snapshot(&UTXOFilter::To(2), &dates).unwrap();
    assert_eq!(snapshot.total_supply, 4);
    assert_eq!(snapshot.utxo_count, 5);
    assert_eq!(snapshot.price_to_amount, vec![(20, 3), (40, 1)]);
}

#[test]
fn cohort_snapshot_of_all_days_is_sorted_by_price() {
    let dates = sample_dates();
    let snapshot = cohort_snapshot(&UTXOFilter::From(0), &dates).unwrap();
    assert_eq!(snapshot.total_supply, 26);
    assert_eq!(snapshot.utxo_count, 9);
    assert_eq!(snapshot.price_to_amount, vec![(10, 5), (20, 3), (30, 7), (40, 1), (50, 10)]);
}

#[test]
fn cohort_snapshot_of_a_year() {
    let dates = sample_dates();
    let snapshot = cohort_snapshot(&UTXOFilter::Year(2012), &dates).unwrap();
    assert_eq!(snapshot.total_supply, 22);
    assert_eq!(snapshot.utxo_count, 4);
    assert_eq!(snapshot.price_to_amount, vec![(10, 5), (30, 7), (50, 10)]);
    let none = cohort_snapshot(&UTXOFilter::Year(2011), &dates).unwrap();
    assert_eq!(none.total_supply, 0);
    assert!(none.price_to_amount.is_empty());
}

#[test]
fn cohort_snapshot_of_a_band_past_the_data() {
    let dates = sample_dates();
    let snapshot = cohort_snapshot(&UTXOFilter::From(10), &dates).unwrap();
    assert_eq!(snapshot.total_supply, 0);
    assert_eq!(snapshot.utxo_count, 0);
    assert!(snapshot.price_to_amount.is_empty());
    let band = cohort_snapshot(&UTXOFilter::new_from_to(1, 3), &dates).unwrap();
    assert_eq!(band.total_supply, 7 + 4);
    assert_eq!(band.price_to_amount, vec![(20, 3), (30, 7), (40, 1)]);
}

#[test]
fn cohort_snapshot_overflow_only_counts_selected_days() {
    let dates = vec![
        DateRecord { date: day(2012, 1, 1), blocks: vec![block(1, u64::MAX, 1)] },
        DateRecord { date: day(2012, 1, 2), blocks: vec![block(2, 5, 1)] },
        DateRecord { date: day(2012, 1, 3), blocks: vec![block(3, u64::MAX - 4, 1)] },
    ];
    // The last day alone fits; with the day before, the supply overflows.
    let last = cohort_snapshot(&UTXOFilter::To(1), &dates).unwrap();
    assert_eq!(last.total_supply, u64::MAX - 4);
    assert!(cohort_snapshot(&UTXOFilter::To(2), &dates).is_none());
    assert!(cohort_snapshot(&UTXOFilter::From(0), &dates).is_none());
}

#[test]
fn years_of_days() {
    assert_eq!(year_of(day(2012, 12, 31)), 2012);
    assert_eq!(year_of(day(2013, 1, 1)), 2013);
    assert_eq!(year_of(day(2000, 2, 29)), 2000);
    assert_eq!(year_of(1), 1);
    assert_eq!(year_of(0), 0);
    assert_eq!(year_of(MIN_DAY), -262143);
    assert_eq!(year_of(MAX_DAY), 262142);
}

#[test]
fn spent_outputs_by_cohort() {
    let dates = sample_dates();
    assert!(spent_in_cohort(&UTXOFilter::To(1), &dates, 3));
    assert!(!spent_in_cohort(&UTXOFilter::To(1), &dates, 2));
    assert!(spent_in_cohort(&UTXOFilter::From(3), &dates, 0));
    assert!(spent_in_cohort(&UTXOFilter::Year(2013), &dates, 2));
    assert!(!spent_in_cohort(&UTXOFilter::Year(2013), &dates, 1));
    assert_eq!(NaiveDate::from_num_days_from_ce_opt(dates[1].date).unwrap().year(), 2012);
}

#[test]
fn utxo_cohort_table() {
    let cohorts = utxo_cohorts(2024);
    assert_eq!(cohorts.len(), 28 + 16);
    assert_eq!(cohorts[0].name, "all");
    assert_eq!(cohorts[0].filter, UTXOFilter::From(0));
    assert_eq!(cohorts[4].name, "up_to_2m");
    assert_eq!(cohorts[4].filter, UTXOFilter::To(60));
    assert_eq!(cohorts[15].name, "from_1d_to_7d");
    assert_eq!(cohorts[15].filter, UTXOFilter::FromTo { from: 1, to: 7 });
    assert_eq!(cohorts[25].name, "from_10y_to_end");
    assert_eq!(cohorts[25].filter, UTXOFilter::From(3650));
    assert_eq!(cohorts[26].name, "sth");
    assert_eq!(cohorts[26].filter, UTXOFilter::To(155));
    assert_eq!(cohorts[27].name, "lth");
    assert_eq!(cohorts[27].filter, UTXOFilter::From(155));
    assert_eq!(cohorts[28].name, "2009");
    assert_eq!(cohorts[28].filter, UTXOFilter::Year(2009));
    assert_eq!(cohorts[43].name, "2024");
    assert_eq!(cohorts[43].filter, UTXOFilter::Year(2024));
}

#[test]
fn utxo_cohort_table_before_first_year() {
    assert_eq!(utxo_cohorts(2000).len(), 28);
    assert_eq!(utxo_cohorts(2009).len(), 29);
}

#[test]
fn age_bands_cover_each_age_once() {
    let cohorts = utxo_cohorts(2009);
    let bands: Vec<&UTXOFilter> = std::iter::once(&cohorts[1].filter)
        .chain(cohorts[15..26].iter().map(|c| &c.filter))
        .collect();
    assert_eq!(bands.len(), 12);
    for age in 0u16..5000 {
        let matching = bands.iter().filter(|f| f.check(&age, &2020)).count();
        assert_eq!(matching, 1, "age {age}");
        assert_ne!(cohorts[26].filter.check(&age, &2020), cohorts[27].filter.check(&age, &2020));
    }
}

#[test]
fn address_cohort_table() {
    let cohorts = address_cohorts();
    assert_eq!(cohorts.len(), 14);
    assert_eq!(cohorts[0].name, "plankton");
    assert_eq!(cohorts[0].split, RawAddressSplit::Size(RawAddressSize::Plankton));
    assert_eq!(cohorts[7].name, "megalodon");
    assert_eq!(cohorts[8].name, "p2pk");
    assert_eq!(cohorts[13].name, "p2tr");
    assert_eq!(cohorts[13].split, RawAddressSplit::Type(RawAddressType::P2TR));
}
