use crate::calendar::{is_valid_day, year_of, year_of_day};
use crate::filters::UTXOFilter;
use crate::price_paid::{
    lemma_all_percentiles_found, lemma_total_amount_last, lemma_total_amount_of_permutation,
    spec_percentile_price, total_amount,
};
use itertools::Itertools;
use vstd::prelude::*;

verus! {

/// What the age cohorts read of one block: the price at which its outputs
/// were created (as an order-preserving key), the amount still unspent, in
/// sats, and the number of its outputs that are still spendable.
#[derive(Debug, Clone, Copy, PartialEq, Eq, Structural)]
pub struct BlockRecord {
    pub price_key: u32,
    pub amount: u64,
    pub spendable_outputs: u32,
}

/// The blocks of one day, oldest block first.
#[derive(Debug)]
pub struct DateRecord {
    pub date: i32,
    pub blocks: Vec<BlockRecord>,
}

/// What an age cohort holds at one block: its unspent supply, its number of
/// spendable outputs, and its amounts sorted by the price at which they were
/// created.
#[derive(Debug)]
pub struct CohortSnapshot {
    pub total_supply: u64,
    pub utxo_count: usize,
    pub price_to_amount: Vec<(u32, u64)>,
}

pub open spec fn all_days_valid(dates: Seq<DateRecord>) -> bool {
    forall|i: int| 0 <= i < dates.len() ==> is_valid_day(#[trigger] dates[i].date as int)
}

/// Whether the cohort reads the day at position `i` of `dates`.
pub open spec fn day_selected(filter: UTXOFilter, dates: Seq<DateRecord>, i: int) -> bool {
    let range = filter.spec_date_range(dates.len() as int);
    &&& range.0 <= i < range.1
    &&& (filter matches UTXOFilter::Year(y) ==> year_of_day(dates[i].date as int) == y)
}

/// The blocks of the selected days among the first `n` days, in order.
pub open spec fn selected_blocks(filter: UTXOFilter, dates: Seq<DateRecord>, n: int) -> Seq<
    BlockRecord,
>
    decreases n,
{
    if n <= 0 {
        Seq::empty()
    } else if day_selected(filter, dates, n - 1) {
        selected_blocks(filter, dates, n - 1) + dates[n - 1].blocks@
    } else {
        selected_blocks(filter, dates, n - 1)
    }
}

pub open spec fn block_amount(b: BlockRecord) -> int {
    b.amount as int
}

pub open spec fn block_outputs(b: BlockRecord) -> int {
    b.spendable_outputs as int
}

pub open spec fn price_entry(b: BlockRecord) -> (u32, u64) {
    (b.price_key, b.amount)
}

pub open spec fn sum_of(s: Seq<BlockRecord>, f: spec_fn(BlockRecord) -> int) -> int
    decreases s.len(),
{
    if s.len() == 0 {
        0
    } else {
        sum_of(s.drop_last(), f) + f(s.last())
    }
}

/// Whether a sequence of price entries is sorted by price key.
pub open spec fn sorted_by_price(s: Seq<(u32, u64)>) -> bool {
    forall|i: int, j: int| 0 <= i < j < s.len() ==> s[i].0 <= s[j].0
}

pub proof fn lemma_sum_of_concat(a: Seq<BlockRecord>, b: Seq<BlockRecord>, f: spec_fn(BlockRecord) -> int)
    ensures
        sum_of(a + b, f) == sum_of(a, f) + sum_of(b, f),
    decreases b.len(),
{
    if b.len() == 0 {
        assert(a + b =~= a);
    } else {
        lemma_sum_of_concat(a, b.drop_last(), f);
        assert((a + b).drop_last() =~= a + b.drop_last());
    }
}

proof fn lemma_sum_of_nonneg_terms(s: Seq<BlockRecord>, f: spec_fn(BlockRecord) -> int)
    requires
        forall|b: BlockRecord| #[trigger] f(b) >= 0,
    ensures
        sum_of(s, f) >= 0,
    decreases s.len(),
{
    if s.len() > 0 {
        lemma_sum_of_nonneg_terms(s.drop_last(), f);
    }
}

proof fn lemma_selected_sum_grows(
    filter: UTXOFilter,
    dates: Seq<DateRecord>,
    n: int,
    m: int,
    f: spec_fn(BlockRecord) -> int,
)
    requires
        n <= m,
        forall|b: BlockRecord| #[trigger] f(b) >= 0,
    ensures
        sum_of(selected_blocks(filter, dates, n), f) <= sum_of(selected_blocks(filter, dates, m), f),
    decreases m - n,
{
    if n < m {
        lemma_selected_sum_grows(filter, dates, n, m - 1, f);
        if m > 0 && day_selected(filter, dates, m - 1) {
            lemma_sum_of_concat(selected_blocks(filter, dates, m - 1), dates[m - 1].blocks@, f);
            lemma_sum_of_nonneg_terms(dates[m - 1].blocks@, f);
        }
    }
}

/// Calls `Itertools::sorted_unstable_by_key` (which sorts with
/// `slice::sort_unstable_by_key`) keyed on the price, then collects.
/// Claimed: the result holds the same entries, each as often, in
/// non-decreasing order of price key. Which of two entries with the same key
/// comes first is left open.
#[verifier::external_body]
fn sort_by_price_key(entries: Vec<(u32, u64)>) -> (sorted: Vec<(u32, u64)>)
    ensures
        sorted@.to_multiset() == entries@.to_multiset(),
        sorted_by_price(sorted@),
{
    entries.into_iter().sorted_unstable_by_key(|entry| entry.0).collect()
}

/// Whether the supply and the spendable outputs of the blocks that a
/// cohort selects fit in a `u64` and a `usize`.
pub open spec fn snapshot_fits(filter: UTXOFilter, dates: Seq<DateRecord>) -> bool {
    &&& sum_of(selected_blocks(filter, dates, dates.len() as int), |b: BlockRecord| block_amount(b))
        <= u64::MAX
    &&& sum_of(selected_blocks(filter, dates, dates.len() as int), |b: BlockRecord| block_outputs(b))
        <= usize::MAX
}

/// Collects what an age cohort holds: the supply and spendable outputs of
/// the blocks of every day it selects, and their amounts sorted by creation
/// price. `None` when the supply overflows a `u64` or the number of outputs
/// a `usize`.
pub fn cohort_snapshot(filter: &UTXOFilter, dates: &Vec<DateRecord>) -> (snapshot: Option<
    CohortSnapshot,
>)
    requires
        filter.has_valid_bounds_for(dates@.len() as int),
        all_days_valid(dates@),
    ensures
        snapshot is Some <==> snapshot_fits(*filter, dates@),
        snapshot matches Some(s) ==> {
            &&& s.total_supply as int == sum_of(
                selected_blocks(*filter, dates@, dates@.len() as int),
                |b: BlockRecord| block_amount(b),
            )
            &&& s.utxo_count as int == sum_of(
                selected_blocks(*filter, dates@, dates@.len() as int),
                |b: BlockRecord| block_outputs(b),
            )
            &&& s.price_to_amount@.to_multiset() == selected_blocks(
                *filter,
                dates@,
                dates@.len() as int,
            ).map_values(|b: BlockRecord| price_entry(b)).to_multiset()
            &&& sorted_by_price(s.price_to_amount@)
        },
{
    let len = dates.len();
    let range = filter.date_range(len);
    let ghost fa = |b: BlockRecord| block_amount(b);
    let ghost fo = |b: BlockRecord| block_outputs(b);
    let mut entries: Vec<(u32, u64)> = Vec::new();
    let mut total_supply: u64 = 0;
    let mut utxo_count: usize = 0;
    let mut i: usize = 0;
    while i < len
        invariant
            len == dates@.len(),
            range.0 as int == filter.spec_date_range(len as int).0,
            range.1 as int == filter.spec_date_range(len as int).1,
            i <= len,
            all_days_valid(dates@),
            entries@ == selected_blocks(*filter, dates@, i as int).map_values(
                |b: BlockRecord| price_entry(b),
            ),
            total_supply as int == sum_of(selected_blocks(*filter, dates@, i as int), fa),
            utxo_count as int == sum_of(selected_blocks(*filter, dates@, i as int), fo),
            fa == (|b: BlockRecord| block_amount(b)),
            fo == (|b: BlockRecord| block_outputs(b)),
        decreases len - i,
    {
        let mut selected = range.0 <= i && i < range.1;
        if let UTXOFilter::Year(y) = filter {
            if selected {
                let year = year_of(dates[i].date);
                selected = year == *y as i32;
            }
        }
        assert(selected == day_selected(*filter, dates@, i as int));
        if selected {
            let blocks = &dates[i].blocks;
            let ghost before = selected_blocks(*filter, dates@, i as int);
            let mut j: usize = 0;
            proof {
                lemma_selected_sum_grows(*filter, dates@, i as int + 1, len as int, fa);
                lemma_selected_sum_grows(*filter, dates@, i as int + 1, len as int, fo);
                assert(selected_blocks(*filter, dates@, i as int + 1) == before + blocks@);
            }
            while j < blocks.len()
                invariant
                    len == dates@.len(),
                    i < len,
                    blocks == &dates@[i as int].blocks,
                    j <= blocks@.len(),
                    entries@ == (before + blocks@.take(j as int)).map_values(
                        |b: BlockRecord| price_entry(b),
                    ),
                    total_supply as int == sum_of(before + blocks@.take(j as int), fa),
                    utxo_count as int == sum_of(before + blocks@.take(j as int), fo),
                    sum_of(before + blocks@, fa) <= sum_of(
                        selected_blocks(*filter, dates@, len as int),
                        fa,
                    ),
                    sum_of(before + blocks@, fo) <= sum_of(
                        selected_blocks(*filter, dates@, len as int),
                        fo,
                    ),
                    fa == (|b: BlockRecord| block_amount(b)),
                    fo == (|b: BlockRecord| block_outputs(b)),
                decreases blocks@.len() - j,
            {
                let block = blocks[j];
                let ghost next = before + blocks@.take(j as int + 1);
                proof {
                    assert(next.drop_last() =~= before + blocks@.take(j as int));
                    assert(next.last() == block);
                    lemma_sum_of_concat(next, blocks@.skip(j as int + 1), fa);
                    lemma_sum_of_concat(next, blocks@.skip(j as int + 1), fo);
                    lemma_sum_of_nonneg_terms(blocks@.skip(j as int + 1), fa);
                    lemma_sum_of_nonneg_terms(blocks@.skip(j as int + 1), fo);
                    assert(next + blocks@.skip(j as int + 1) =~= before + blocks@);
                }
                let new_supply = total_supply.checked_add(block.amount);
                let new_count = utxo_count.checked_add(block.spendable_outputs as usize);
                match (new_supply, new_count) {
                    (Some(supply), Some(count)) => {
                        total_supply = supply;
                        utxo_count = count;
                    },
                    _ => {
                        assert(sum_of(next, fa) == total_supply + block.amount);
                        assert(sum_of(next, fo) == utxo_count + block.spendable_outputs);
                        return None;
                    },
                }
                entries.push((block.price_key, block.amount));
                j = j + 1;
                proof {
                    assert((before + blocks@.take(j as int)).map_values(
                        |b: BlockRecord| price_entry(b),
                    ) =~= entries@);
                }
            }
            proof {
                assert(blocks@.take(blocks@.len() as int) =~= blocks@);
            }
        }
        i = i + 1;
    }
    let price_to_amount = sort_by_price_key(entries);
    Some(CohortSnapshot { total_supply, utxo_count, price_to_amount })
}

/// Whether an output spent in this block, created on the day at position
/// `date_index`, belonged to the cohort: the day's reversed index (or, for a
/// yearly cohort, its year) is checked against the filter.
pub fn spent_in_cohort(filter: &UTXOFilter, dates: &Vec<DateRecord>, date_index: usize) -> (
    belongs: bool)
    requires
        date_index < dates@.len(),
        is_valid_day(dates@[date_index as int].date as int),
    ensures
        belongs == filter.accepts(
            dates@.len() - 1 - date_index,
            year_of_day(dates@[date_index as int].date as int),
        ),
{
    let reversed = dates.len() - 1 - date_index;
    match filter {
        UTXOFilter::From(from) => *from as usize <= reversed,
        UTXOFilter::To(to) => (*to as usize) > reversed,
        UTXOFilter::FromTo { from, to } => *from as usize <= reversed && (*to as usize) > reversed,
        UTXOFilter::Year(y) => year_of(dates[date_index].date) == *y as i32,
    }
}

proof fn lemma_price_entries_total(blocks: Seq<BlockRecord>)
    ensures
        total_amount(blocks.map_values(|b: BlockRecord| price_entry(b))) == sum_of(
            blocks,
            |b: BlockRecord| block_amount(b),
        ),
    decreases blocks.len(),
{
    if blocks.len() > 0 {
        let entries = blocks.map_values(|b: BlockRecord| price_entry(b));
        lemma_price_entries_total(blocks.drop_last());
        assert(entries.drop_last() =~= blocks.drop_last().map_values(|b: BlockRecord| price_entry(b)));
        lemma_total_amount_last(entries);
    }
}

/// The amounts that a cohort snapshot sorts by price add up to the supply
/// it reports, so every percentile of a cohort that holds any amount is
/// found: the price-paid statistics of a non-empty cohort are never missing.
pub proof fn lemma_snapshot_finds_every_percentile(
    blocks: Seq<BlockRecord>,
    price_to_amount: Seq<(u32, u64)>,
    total_supply: int,
    percent: int,
)
    requires
        price_to_amount.to_multiset() == blocks.map_values(|b: BlockRecord| price_entry(b)).to_multiset(),
        total_supply == sum_of(blocks, |b: BlockRecord| block_amount(b)),
        price_to_amount.len() > 0,
        0 <= percent <= 100,
    ensures
        total_amount(price_to_amount) == total_supply,
        spec_percentile_price(price_to_amount, total_supply, percent) is Some,
{
    lemma_price_entries_total(blocks);
    lemma_total_amount_of_permutation(price_to_amount, blocks.map_values(|b: BlockRecord| price_entry(b)));
    lemma_sum_of_nonneg_terms(blocks, |b: BlockRecord| block_amount(b));
    lemma_all_percentiles_found(price_to_amount, total_supply, percent);
}

} // verus!
