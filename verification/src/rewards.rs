use vstd::prelude::*;

verus! {

/// The sum of some amounts, in sats.
pub open spec fn total(values: Seq<u64>) -> int
    decreases values.len(),
{
    if values.len() == 0 {
        0
    } else {
        total(values.drop_last()) + values.last()
    }
}

/// The sum of the totals of each block's amounts.
pub open spec fn total_of_totals(values: Seq<Seq<u64>>) -> int
    decreases values.len(),
{
    if values.len() == 0 {
        0
    } else {
        total_of_totals(values.drop_last()) + total(values.last())
    }
}

proof fn lemma_total_nonneg(values: Seq<u64>)
    ensures
        total(values) >= 0,
    decreases values.len(),
{
    if values.len() > 0 {
        lemma_total_nonneg(values.drop_last());
    }
}

proof fn lemma_total_prefix(values: Seq<u64>, n: int)
    requires
        0 <= n <= values.len(),
    ensures
        total(values.take(n)) <= total(values),
    decreases values.len() - n,
{
    if n < values.len() {
        lemma_total_prefix(values, n + 1);
        assert(values.take(n + 1).drop_last() =~= values.take(n));
    } else {
        assert(values.take(n) =~= values);
    }
}

proof fn lemma_total_of_totals_prefix(values: Seq<Seq<u64>>, n: int)
    requires
        0 <= n <= values.len(),
    ensures
        total_of_totals(values.take(n)) <= total_of_totals(values),
    decreases values.len() - n,
{
    if n < values.len() {
        lemma_total_of_totals_prefix(values, n + 1);
        assert(values.take(n + 1).drop_last() =~= values.take(n));
        lemma_total_nonneg(values[n]);
    } else {
        assert(values.take(n) =~= values);
    }
}

/// The sum of some amounts in sats, such as the fees of a block's
/// transactions.
pub fn total_sats(values: &Vec<u64>) -> (sum: u64)
    requires
        total(values@) <= u64::MAX,
    ensures
        sum == total(values@),
{
    let mut sum: u64 = 0;
    let mut i: usize = 0;
    while i < values.len()
        invariant
            i <= values@.len(),
            sum == total(values@.take(i as int)),
            total(values@) <= u64::MAX,
        decreases values@.len() - i,
    {
        proof {
            assert(values@.take(i as int + 1).drop_last() =~= values@.take(i as int));
            lemma_total_prefix(values@, i as int + 1);
        }
        sum = sum + values[i];
        i = i + 1;
    }
    proof {
        assert(values@.take(i as int) =~= values@);
    }
    sum
}

/// The sum, over the blocks of a day, of each block's amounts in sats, such
/// as the fees paid on a day.
pub fn total_sats_of_blocks(per_block: &Vec<Vec<u64>>) -> (sum: u64)
    requires
        total_of_totals(per_block@.map_values(|v: Vec<u64>| v@)) <= u64::MAX,
    ensures
        sum == total_of_totals(per_block@.map_values(|v: Vec<u64>| v@)),
{
    let ghost views = per_block@.map_values(|v: Vec<u64>| v@);
    let mut sum: u64 = 0;
    let mut i: usize = 0;
    while i < per_block.len()
        invariant
            i <= per_block@.len(),
            views == per_block@.map_values(|v: Vec<u64>| v@),
            sum == total_of_totals(views.take(i as int)),
            total_of_totals(views) <= u64::MAX,
        decreases per_block@.len() - i,
    {
        proof {
            assert(views.take(i as int + 1).drop_last() =~= views.take(i as int));
            lemma_total_of_totals_prefix(views, i as int + 1);
            lemma_total_nonneg(views[i as int]);
            lemma_total_of_totals_prefix(views.take(i as int + 1), i as int);
            assert(views.take(i as int + 1).take(i as int) =~= views.take(i as int));
            assert(views[i as int] == per_block@[i as int]@);
        }
        let block_sum = total_sats(&per_block[i]);
        sum = sum + block_sum;
        i = i + 1;
    }
    proof {
        assert(views.take(i as int) =~= views);
    }
    sum
}

/// The number of blocks mined on a day so far: from the day's first block
/// up to and including the block at `height`.
pub fn blocks_mined(height: usize, date_first_height: usize) -> (count: usize)
    requires
        date_first_height <= height < usize::MAX,
    ensures
        count == height + 1 - date_first_height,
{
    height + 1 - date_first_height
}

} // verus!
