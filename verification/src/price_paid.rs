use crate::cohort::sorted_by_price;
use vstd::prelude::*;

verus! {

/// The percentiles of the price-paid distribution that the datasets record,
/// in percent: 5, 10, ..., 95, the 50th being the median.
pub open spec fn percentile_of_slot(k: int) -> int {
    5 * (k + 1)
}

pub const PERCENTILE_SLOTS: usize = 19;

/// The amount held by the first `n` entries.
pub open spec fn prefix_amount(entries: Seq<(u32, u64)>, n: int) -> int
    decreases n,
{
    if n <= 0 {
        0
    } else {
        prefix_amount(entries, n - 1) + entries[n - 1].1
    }
}

/// Whether the entries up to and including position `i` hold at least
/// `percent` percent of `total`.
pub open spec fn reaches(entries: Seq<(u32, u64)>, total: int, percent: int, i: int) -> bool {
    prefix_amount(entries, i + 1) * 100 >= total * percent
}

/// The first position, from `i` on, at which the entries reach `percent`
/// percent of `total`; the length of `entries` when none does.
pub open spec fn first_reaching_from(entries: Seq<(u32, u64)>, total: int, percent: int, i: nat) -> nat
    decreases entries.len() - i,
{
    if i >= entries.len() {
        entries.len()
    } else if reaches(entries, total, percent, i as int) {
        i
    } else {
        first_reaching_from(entries, total, percent, i + 1)
    }
}

/// The price of the first entry at which the running amount reaches
/// `percent` percent of `total`, if any does.
pub open spec fn spec_percentile_price(entries: Seq<(u32, u64)>, total: int, percent: int) -> Option<
    u32,
> {
    let i = first_reaching_from(entries, total, percent, 0);
    if i < entries.len() {
        Some(entries[i as int].0)
    } else {
        None
    }
}

/// The amount of the entries created at a price below `block_price_key`,
/// among the first `n` entries.
pub open spec fn amount_below(entries: Seq<(u32, u64)>, block_price_key: u32, n: int) -> int
    decreases n,
{
    if n <= 0 {
        0
    } else if entries[n - 1].0 < block_price_key {
        amount_below(entries, block_price_key, n - 1) + entries[n - 1].1
    } else {
        amount_below(entries, block_price_key, n - 1)
    }
}

proof fn lemma_first_reaching_skips(
    entries: Seq<(u32, u64)>,
    total: int,
    percent: int,
    start: nat,
    i: nat,
)
    requires
        start <= i <= entries.len(),
        forall|j: int| start <= j < i ==> !reaches(entries, total, percent, j),
    ensures
        first_reaching_from(entries, total, percent, start) == first_reaching_from(
            entries,
            total,
            percent,
            i,
        ),
    decreases i - start,
{
    if start < i {
        lemma_first_reaching_skips(entries, total, percent, (start + 1) as nat, i);
    }
}

/// What `first_reaching_from` means: a position within bounds that reaches
/// the percentile, with no earlier position from `start` on reaching it.
pub proof fn lemma_first_reaching_is_first(
    entries: Seq<(u32, u64)>,
    total: int,
    percent: int,
    start: nat,
)
    requires
        start <= entries.len(),
    ensures
        start <= first_reaching_from(entries, total, percent, start) <= entries.len(),
        first_reaching_from(entries, total, percent, start) < entries.len() ==> reaches(
            entries,
            total,
            percent,
            first_reaching_from(entries, total, percent, start) as int,
        ),
        forall|j: int|
            start <= j < first_reaching_from(entries, total, percent, start) ==> !reaches(
                entries,
                total,
                percent,
                j,
            ),
    decreases entries.len() - start,
{
    if start < entries.len() && !reaches(entries, total, percent, start as int) {
        lemma_first_reaching_is_first(entries, total, percent, (start + 1) as nat);
    }
}

proof fn lemma_prefix_bounded(entries: Seq<(u32, u64)>, n: int)
    requires
        0 <= n <= entries.len(),
    ensures
        0 <= prefix_amount(entries, n) <= n * 0xffff_ffff_ffff_ffff,
    decreases n,
{
    if n > 0 {
        lemma_prefix_bounded(entries, n - 1);
    }
}

proof fn lemma_amount_below_grows(entries: Seq<(u32, u64)>, block_price_key: u32, n: int, m: int)
    requires
        0 <= n <= m <= entries.len(),
    ensures
        amount_below(entries, block_price_key, n) <= amount_below(entries, block_price_key, m),
    decreases m - n,
{
    if n < m {
        lemma_amount_below_grows(entries, block_price_key, n, m - 1);
    }
}

/// The price at which the running amount of `entries`, taken in order,
/// first reaches `percent` percent of `total_supply`.
pub fn percentile_price(entries: &Vec<(u32, u64)>, total_supply: u64, percent: u8) -> (price:
    Option<u32>)
    ensures
        price == spec_percentile_price(entries@, total_supply as int, percent as int),
{
    let mut processed: u128 = 0;
    let mut i: usize = 0;
    assert(total_supply as u128 * percent as u128 <= 0xffff_ffff_ffff_ffff * 0xff) by (nonlinear_arith);
    let threshold: u128 = total_supply as u128 * percent as u128;
    while i < entries.len()
        invariant
            i <= entries@.len(),
            processed as int == prefix_amount(entries@, i as int),
            threshold == total_supply * percent,
            threshold <= 0xffff_ffff_ffff_ffff * 0xff,
            forall|j: int| 0 <= j < i ==> !reaches(entries@, total_supply as int, percent as int, j),
        decreases entries@.len() - i,
    {
        proof {
            lemma_prefix_bounded(entries@, i as int + 1);
            assert((i as int + 1) * 0xffff_ffff_ffff_ffff <= 0xffff_ffff_ffff_ffff * 0xffff_ffff_ffff_ffff)
                by (nonlinear_arith)
                requires
                    i < usize::MAX,
                    usize::MAX <= 0xffff_ffff_ffff_ffff,
            ;
        }
        processed = processed + entries[i].1 as u128;
        // Below the threshold, `processed * 100` fits in a u128.
        let reached = if processed >= threshold {
            true
        } else {
            processed * 100 >= threshold
        };
        if reached {
            proof {
                lemma_first_reaching_skips(entries@, total_supply as int, percent as int, 0, i as nat);
            }
            return Some(entries[i].0);
        }
        i = i + 1;
    }
    proof {
        lemma_first_reaching_skips(entries@, total_supply as int, percent as int, 0, i as nat);
    }
    None
}

/// The price of each recorded percentile (5%, 10%, ..., 95%) of a cohort's
/// supply, for amounts sorted by creation price; `None` for a percentile
/// that the amounts never reach.
pub fn percentile_prices(entries: &Vec<(u32, u64)>, total_supply: u64) -> (prices: Vec<
    Option<u32>,
>)
    ensures
        prices@.len() == PERCENTILE_SLOTS,
        forall|k: int|
            0 <= k < PERCENTILE_SLOTS ==> #[trigger] prices@[k] == spec_percentile_price(
                entries@,
                total_supply as int,
                percentile_of_slot(k),
            ),
{
    let mut prices: Vec<Option<u32>> = Vec::new();
    let mut k: usize = 0;
    while k < PERCENTILE_SLOTS
        invariant
            k <= PERCENTILE_SLOTS,
            prices@.len() == k,
            forall|l: int|
                0 <= l < k ==> #[trigger] prices@[l] == spec_percentile_price(
                    entries@,
                    total_supply as int,
                    percentile_of_slot(l),
                ),
        decreases PERCENTILE_SLOTS - k,
    {
        let percent: u8 = (5 * (k + 1)) as u8;
        prices.push(percentile_price(entries, total_supply, percent));
        k = k + 1;
    }
    prices
}

/// The amount created at a price below the current block's price: the
/// supply that would be sold at a profit.
pub fn supply_in_profit(entries: &Vec<(u32, u64)>, block_price_key: u32) -> (amount: u64)
    requires
        amount_below(entries@, block_price_key, entries@.len() as int) <= u64::MAX,
    ensures
        amount as int == amount_below(entries@, block_price_key, entries@.len() as int),
{
    let mut amount: u64 = 0;
    let mut i: usize = 0;
    while i < entries.len()
        invariant
            i <= entries@.len(),
            amount as int == amount_below(entries@, block_price_key, i as int),
            amount_below(entries@, block_price_key, entries@.len() as int) <= u64::MAX,
        decreases entries@.len() - i,
    {
        proof {
            lemma_amount_below_grows(entries@, block_price_key, i as int + 1, entries@.len() as int);
        }
        if entries[i].0 < block_price_key {
            amount = amount + entries[i].1;
        }
        i = i + 1;
    }
    amount
}

/// A higher percentile is never reached before a lower one; for amounts
/// sorted by price, the price of a higher percentile is at least that of a
/// lower one.
pub proof fn lemma_percentiles_are_ordered(
    entries: Seq<(u32, u64)>,
    total_supply: int,
    low: int,
    high: int,
)
    requires
        total_supply >= 0,
        low <= high,
    ensures
        first_reaching_from(entries, total_supply, low, 0) <= first_reaching_from(
            entries,
            total_supply,
            high,
            0,
        ),
        sorted_by_price(entries) ==> (spec_percentile_price(entries, total_supply, high) matches Some(
            ph,
        ) ==> (spec_percentile_price(entries, total_supply, low) matches Some(pl) && pl <= ph)),
{
    lemma_first_reaching_is_first(entries, total_supply, low, 0);
    lemma_first_reaching_is_first(entries, total_supply, high, 0);
    let il = first_reaching_from(entries, total_supply, low, 0);
    let ih = first_reaching_from(entries, total_supply, high, 0);
    if ih < entries.len() {
        assert(total_supply * low <= total_supply * high) by (nonlinear_arith)
            requires
                total_supply >= 0,
                low <= high,
        ;
        assert(reaches(entries, total_supply, low, ih as int));
    }
}

/// When a cohort holds at least its recorded total supply and has any
/// amount at all, every percentile up to 100% is found.
pub proof fn lemma_all_percentiles_found(
    entries: Seq<(u32, u64)>,
    total_supply: int,
    percent: int,
)
    requires
        entries.len() > 0,
        0 <= total_supply <= prefix_amount(entries, entries.len() as int),
        0 <= percent <= 100,
    ensures
        spec_percentile_price(entries, total_supply, percent) is Some,
{
    lemma_first_reaching_is_first(entries, total_supply, percent, 0);
    let last = entries.len() - 1;
    assert(total_supply * percent <= total_supply * 100) by (nonlinear_arith)
        requires
            total_supply >= 0,
            percent <= 100,
    ;
    assert(reaches(entries, total_supply, percent, last));
}

/// The amount held by all the entries.
pub open spec fn total_amount(entries: Seq<(u32, u64)>) -> int {
    prefix_amount(entries, entries.len() as int)
}

proof fn lemma_prefix_agrees(s: Seq<(u32, u64)>, t: Seq<(u32, u64)>, n: int)
    requires
        0 <= n <= s.len(),
        n <= t.len(),
        forall|i: int| 0 <= i < n ==> s[i] == t[i],
    ensures
        prefix_amount(s, n) == prefix_amount(t, n),
    decreases n,
{
    if n > 0 {
        lemma_prefix_agrees(s, t, n - 1);
    }
}

/// The amount of all the entries is that of all but the last, plus the
/// last one's.
pub proof fn lemma_total_amount_last(s: Seq<(u32, u64)>)
    requires
        s.len() > 0,
    ensures
        total_amount(s) == total_amount(s.drop_last()) + s.last().1,
{
    lemma_prefix_agrees(s, s.drop_last(), s.len() - 1);
}

proof fn lemma_total_amount_concat(a: Seq<(u32, u64)>, b: Seq<(u32, u64)>)
    ensures
        total_amount(a + b) == total_amount(a) + total_amount(b),
    decreases b.len(),
{
    if b.len() == 0 {
        assert(a + b =~= a);
    } else {
        let ab = a + b;
        let init = a + b.drop_last();
        lemma_total_amount_concat(a, b.drop_last());
        lemma_prefix_agrees(ab, init, ab.len() - 1);
        lemma_prefix_agrees(b, b.drop_last(), b.len() - 1);
    }
}

proof fn lemma_total_amount_remove(s: Seq<(u32, u64)>, k: int)
    requires
        0 <= k < s.len(),
    ensures
        total_amount(s) == total_amount(s.remove(k)) + s[k].1,
{
    let front = s.take(k);
    let back = s.skip(k + 1);
    assert(s =~= front + (seq![s[k]] + back));
    assert(s.remove(k) =~= front + back);
    lemma_total_amount_concat(front, seq![s[k]] + back);
    lemma_total_amount_concat(seq![s[k]], back);
    lemma_total_amount_concat(front, back);
    assert(total_amount(seq![s[k]]) == s[k].1) by {
        reveal_with_fuel(prefix_amount, 2);
    }
}

/// Reordering entries does not change the amount they hold.
pub proof fn lemma_total_amount_of_permutation(s1: Seq<(u32, u64)>, s2: Seq<(u32, u64)>)
    requires
        s1.to_multiset() == s2.to_multiset(),
    ensures
        total_amount(s1) == total_amount(s2),
    decreases s1.len(),
{
    broadcast use vstd::seq_lib::group_to_multiset_ensures;

    assert(s1.len() == s2.len()) by {
        s1.to_multiset_ensures();
        s2.to_multiset_ensures();
    }
    if s1.len() > 0 {
        s1.to_multiset_ensures();
        s2.to_multiset_ensures();
        let n = s1.len() - 1;
        let x = s1[n];
        assert(s1.contains(x));
        assert(s1.to_multiset().count(x) > 0);
        assert(s2.to_multiset().count(x) > 0);
        assert(s2.contains(x));
        let k = choose|k: int| 0 <= k < s2.len() && s2[k] == x;
        assert(s1.remove(n) =~= s1.drop_last());
        assert(s1.remove(n).to_multiset() =~= s1.to_multiset().remove(x));
        assert(s2.remove(k).to_multiset() =~= s2.to_multiset().remove(x));
        lemma_total_amount_of_permutation(s1.remove(n), s2.remove(k));
        lemma_total_amount_remove(s1, n);
        lemma_total_amount_remove(s2, k);
    }
}

} // verus!
