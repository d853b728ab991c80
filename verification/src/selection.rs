use crate::min_initial_state::{DatasetState, MinInitialState};
use vstd::prelude::*;

verus! {

/// The positions, in order, of the datasets for which `keep` holds.
pub open spec fn positions_where(states: Seq<DatasetState>, keep: spec_fn(DatasetState) -> bool) -> Seq<usize>
    decreases states.len(),
{
    if states.len() == 0 {
        Seq::empty()
    } else if keep(states.last()) {
        positions_where(states.drop_last(), keep).push((states.len() - 1) as usize)
    } else {
        positions_where(states.drop_last(), keep)
    }
}

/// Whether a dataset takes part in inserting the block at `height`.
pub open spec fn takes_block(state: DatasetState, height: int) -> bool {
    state.min_initial_state.spec_process_height(height)
}

/// Whether a dataset takes part in inserting the day `date`.
pub open spec fn takes_date(state: DatasetState, date: int) -> bool {
    state.min_initial_state.spec_process_date(date)
}

/// Whether a dataset is exported once the block at `height` on day `date`
/// has been processed: when it processes either of them.
pub open spec fn exported_after_block(state: DatasetState, height: int, date: int) -> bool {
    takes_block(state, height) || takes_date(state, date)
}

/// Whether a dataset is exported in a run of exports: every dataset when no
/// block is given, else those that still need the given block or its day.
pub open spec fn exported_in_run(state: DatasetState, height_and_date: Option<(usize, i32)>) -> bool {
    match height_and_date {
        Some((height, date)) => state.spec_should_insert_height(height as int)
            || state.spec_should_insert_date(date as int),
        None => true,
    }
}

/// The datasets, by position, that insert the block at `height`.
pub fn datasets_for_block(states: &Vec<DatasetState>, height: usize) -> (chosen: Vec<usize>)
    ensures
        chosen@ == positions_where(states@, |s: DatasetState| takes_block(s, height as int)),
{
    let ghost keep = |s: DatasetState| takes_block(s, height as int);
    let mut chosen: Vec<usize> = Vec::new();
    let mut i: usize = 0;
    while i < states.len()
        invariant
            i <= states@.len(),
            chosen@ == positions_where(states@.take(i as int), keep),
            keep == (|s: DatasetState| takes_block(s, height as int)),
        decreases states@.len() - i,
    {
        proof {
            assert(states@.take(i as int + 1).drop_last() =~= states@.take(i as int));
        }
        if states[i].min_initial_state.process_height(height) {
            chosen.push(i);
        }
        i = i + 1;
    }
    proof {
        assert(states@.take(i as int) =~= states@);
    }
    chosen
}

/// The datasets, by position, that insert the day `date`.
pub fn datasets_for_date(states: &Vec<DatasetState>, date: i32) -> (chosen: Vec<usize>)
    ensures
        chosen@ == positions_where(states@, |s: DatasetState| takes_date(s, date as int)),
{
    let ghost keep = |s: DatasetState| takes_date(s, date as int);
    let mut chosen: Vec<usize> = Vec::new();
    let mut i: usize = 0;
    while i < states.len()
        invariant
            i <= states@.len(),
            chosen@ == positions_where(states@.take(i as int), keep),
            keep == (|s: DatasetState| takes_date(s, date as int)),
        decreases states@.len() - i,
    {
        proof {
            assert(states@.take(i as int + 1).drop_last() =~= states@.take(i as int));
        }
        if states[i].min_initial_state.process_date(date) {
            chosen.push(i);
        }
        i = i + 1;
    }
    proof {
        assert(states@.take(i as int) =~= states@);
    }
    chosen
}

/// The datasets, by position, to export once the block at `height` on day
/// `date` has been processed.
pub fn datasets_to_export_after_block(states: &Vec<DatasetState>, height: usize, date: i32) -> (chosen: Vec<usize>)
    ensures
        chosen@ == positions_where(
            states@,
            |s: DatasetState| exported_after_block(s, height as int, date as int),
        ),
{
    let ghost keep = |s: DatasetState| exported_after_block(s, height as int, date as int);
    let mut chosen: Vec<usize> = Vec::new();
    let mut i: usize = 0;
    while i < states.len()
        invariant
            i <= states@.len(),
            chosen@ == positions_where(states@.take(i as int), keep),
            keep == (|s: DatasetState| exported_after_block(s, height as int, date as int)),
        decreases states@.len() - i,
    {
        proof {
            assert(states@.take(i as int + 1).drop_last() =~= states@.take(i as int));
        }
        let state: MinInitialState = states[i].min_initial_state;
        if state.process_height(height) || state.process_date(date) {
            chosen.push(i);
        }
        i = i + 1;
    }
    proof {
        assert(states@.take(i as int) =~= states@);
    }
    chosen
}

/// The datasets, by position, that a run of exports computes and writes:
/// all of them for a full export, else those that still need the given
/// block or its day.
pub fn datasets_to_export(states: &Vec<DatasetState>, height_and_date: Option<(usize, i32)>) -> (chosen: Vec<usize>)
    ensures
        chosen@ == positions_where(
            states@,
            |s: DatasetState| exported_in_run(s, height_and_date),
        ),
{
    let ghost keep = |s: DatasetState| exported_in_run(s, height_and_date);
    let mut chosen: Vec<usize> = Vec::new();
    let mut i: usize = 0;
    while i < states.len()
        invariant
            i <= states@.len(),
            chosen@ == positions_where(states@.take(i as int), keep),
            keep == (|s: DatasetState| exported_in_run(s, height_and_date)),
        decreases states@.len() - i,
    {
        proof {
            assert(states@.take(i as int + 1).drop_last() =~= states@.take(i as int));
        }
        let export = match height_and_date {
            Some((height, date)) => states[i].should_insert(height, date),
            None => true,
        };
        if export {
            chosen.push(i);
        }
        i = i + 1;
    }
    proof {
        assert(states@.take(i as int) =~= states@);
    }
    chosen
}

/// The chosen positions are exactly those of the datasets that `keep`
/// accepts, each once and in increasing order.
pub proof fn lemma_positions_where_exact(states: Seq<DatasetState>, keep: spec_fn(DatasetState) -> bool)
    requires
        states.len() <= usize::MAX,
    ensures
        forall|k: int|
            0 <= k < positions_where(states, keep).len() ==> (#[trigger] positions_where(states, keep)[k]) < states.len()
                && keep(states[positions_where(states, keep)[k] as int]),
        forall|p: int|
            0 <= p < states.len() && keep(states[p]) ==> positions_where(states, keep).contains(
                p as usize,
            ),
        forall|k: int, l: int|
            0 <= k < l < positions_where(states, keep).len() ==> positions_where(states, keep)[k]
                < positions_where(states, keep)[l],
    decreases states.len(),
{
    if states.len() > 0 {
        let init = states.drop_last();
        let n = states.len() - 1;
        lemma_positions_where_exact(init, keep);
        let before = positions_where(init, keep);
        let all = positions_where(states, keep);
        if keep(states.last()) {
            assert(all == before.push(n as usize));
        } else {
            assert(all == before);
        }
        assert forall|k: int| 0 <= k < all.len() implies (#[trigger] all[k]) < states.len() && keep(
            states[all[k] as int],
        ) by {
            if k < before.len() {
                assert(all[k] == before[k]);
                assert(init[before[k] as int] == states[before[k] as int]);
            }
        }
        assert forall|p: int| 0 <= p < states.len() && keep(states[p]) implies all.contains(
            p as usize,
        ) by {
            if p < n {
                assert(init[p] == states[p]);
                assert(before.contains(p as usize));
                let k = choose|k: int| 0 <= k < before.len() && before[k] == p as usize;
                assert(all[k] == p as usize);
            } else {
                assert(all[all.len() - 1] == p as usize);
            }
        }
        assert forall|k: int, l: int| 0 <= k < l < all.len() implies all[k] < all[l] by {
            if l < before.len() {
                assert(all[k] == before[k] && all[l] == before[l]);
            } else {
                assert(all[k] == before[k]);
            }
        }
    }
}

/// A full export writes every dataset.
pub proof fn lemma_full_export_takes_all(states: Seq<DatasetState>, p: int)
    requires
        states.len() <= usize::MAX,
        0 <= p < states.len(),
    ensures
        positions_where(states, |s: DatasetState| exported_in_run(s, None)).contains(p as usize),
{
    lemma_positions_where_exact(states, |s: DatasetState| exported_in_run(s, None));
    assert(exported_in_run(states[p], None));
}

/// Whether the dataset `s`, by its stored state alone, still needs the
/// block at `height`: it inserts into height maps and the height is at or
/// past its first unsafe height (every height is, when it has none).
pub open spec fn needs_height_by_state(s: DatasetState, height: int) -> bool {
    s.has_inserted_height_maps && (s.min_initial_state.first_unsafe_height matches Some(f) ==> f
        <= height)
}

/// Whether the dataset `s`, by its stored state alone, still needs the day
/// `date`.
pub open spec fn needs_date_by_state(s: DatasetState, date: int) -> bool {
    s.has_inserted_date_maps && (s.min_initial_state.first_unsafe_date matches Some(f) ==> f <= date)
}

/// The positions written by a run of exports.
pub open spec fn exported_positions(states: Seq<DatasetState>, height_and_date: Option<(usize, i32)>) -> Seq<usize> {
    positions_where(states, |s: DatasetState| exported_in_run(s, height_and_date))
}

/// A run of exports for a block writes exactly the datasets that still need
/// that block or its day (a dataset that only needs the day is written
/// too), and a full run writes every dataset; the positions are positions
/// of `states` and come in increasing order.
pub proof fn lemma_export_run_exact(states: Seq<DatasetState>, height_and_date: Option<(usize, i32)>, p: int)
    requires
        states.len() <= usize::MAX,
        0 <= p < states.len(),
    ensures
        exported_positions(states, height_and_date).contains(p as usize) <==> match height_and_date {
            Some((height, date)) => needs_height_by_state(states[p], height as int)
                || needs_date_by_state(states[p], date as int),
            None => true,
        },
        forall|k: int|
            0 <= k < exported_positions(states, height_and_date).len() ==> (
            #[trigger] exported_positions(states, height_and_date)[k]) < states.len(),
        forall|k: int, l: int|
            0 <= k < l < exported_positions(states, height_and_date).len() ==> exported_positions(
                states,
                height_and_date,
            )[k] < exported_positions(states, height_and_date)[l],
{
    let keep = |s: DatasetState| exported_in_run(s, height_and_date);
    lemma_positions_where_exact(states, keep);
    let chosen = positions_where(states, keep);
    assert(chosen == exported_positions(states, height_and_date));
    if chosen.contains(p as usize) {
        let k = choose|k: int| 0 <= k < chosen.len() && chosen[k] == p as usize;
        assert(keep(states[chosen[k] as int]));
        assert(states[chosen[k] as int] == states[p]);
    }
    if keep(states[p]) {
        assert(chosen.contains(p as usize));
    }
}

/// The datasets that insert a block are exactly those whose state processes
/// that height, and those that insert a day exactly those whose state
/// processes that day; after a block, exactly those that process either
/// are exported.
pub proof fn lemma_block_and_day_choices_exact(states: Seq<DatasetState>, height: int, date: int, p: int)
    requires
        states.len() <= usize::MAX,
        0 <= p < states.len(),
        height >= 0,
    ensures
        positions_where(states, |s: DatasetState| takes_block(s, height)).contains(p as usize)
            <==> (states[p].min_initial_state.first_unsafe_height matches Some(f) ==> f <= height),
        positions_where(states, |s: DatasetState| takes_date(s, date)).contains(p as usize)
            <==> (states[p].min_initial_state.first_unsafe_date matches Some(f) ==> f <= date),
        positions_where(states, |s: DatasetState| exported_after_block(s, height, date)).contains(
            p as usize,
        ) <==> ((states[p].min_initial_state.first_unsafe_height matches Some(f) ==> f <= height)
            || (states[p].min_initial_state.first_unsafe_date matches Some(f) ==> f <= date)),
{
    let kb = |s: DatasetState| takes_block(s, height);
    let kd = |s: DatasetState| takes_date(s, date);
    let ke = |s: DatasetState| exported_after_block(s, height, date);
    lemma_positions_where_exact(states, kb);
    lemma_positions_where_exact(states, kd);
    lemma_positions_where_exact(states, ke);
    let cb = positions_where(states, kb);
    let cd = positions_where(states, kd);
    let ce = positions_where(states, ke);
    if cb.contains(p as usize) {
        let k = choose|k: int| 0 <= k < cb.len() && cb[k] == p as usize;
        assert(kb(states[cb[k] as int]));
    }
    if cd.contains(p as usize) {
        let k = choose|k: int| 0 <= k < cd.len() && cd[k] == p as usize;
        assert(kd(states[cd[k] as int]));
    }
    if ce.contains(p as usize) {
        let k = choose|k: int| 0 <= k < ce.len() && ce[k] == p as usize;
        assert(ke(states[ce[k] as int]));
    }
}

} // verus!
