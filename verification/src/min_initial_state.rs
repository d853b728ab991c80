use crate::maps::{DateMapState, HeightMapState};
use vstd::prelude::*;

verus! {

/// The least of some optional values by `key`, where a missing value
/// stands below every value: `None` when there are none at all or any is
/// missing. Of two values with the same key, the earlier one is kept.
pub open spec fn spec_min_by<T>(values: Seq<Option<T>>, key: spec_fn(T) -> int) -> Option<T>
    decreases values.len(),
{
    if values.len() == 0 {
        None
    } else if values.len() == 1 {
        values[0]
    } else {
        match (spec_min_by(values.drop_last(), key), values.last()) {
            (Some(a), Some(b)) => Some(if key(b) < key(a) { b } else { a }),
            _ => None,
        }
    }
}

/// The smallest of some optional heights, where a missing height stands
/// below every height.
pub open spec fn spec_min_height(values: Seq<Option<usize>>) -> Option<usize> {
    spec_min_by(values, |h: usize| h as int)
}

/// The earliest of some optional dates, where a missing date stands before
/// every date.
pub open spec fn spec_min_date(values: Seq<Option<i32>>) -> Option<i32> {
    spec_min_by(values, |d: i32| d as int)
}

/// What the least optional value is: missing exactly when there is no
/// value or some value is missing; otherwise one of the values, and with a
/// key no greater than that of any of them.
pub proof fn lemma_min_by_characterized<T>(values: Seq<Option<T>>, key: spec_fn(T) -> int)
    ensures
        spec_min_by(values, key) is None <==> (values.len() == 0 || exists|i: int|
            0 <= i < values.len() && #[trigger] values[i] is None),
        spec_min_by(values, key) matches Some(m) ==> (exists|i: int|
            0 <= i < values.len() && #[trigger] values[i] == Some(m)),
        spec_min_by(values, key) matches Some(m) ==> forall|i: int|
            0 <= i < values.len() ==> key(m) <= key((#[trigger] values[i])->0),
    decreases values.len(),
{
    if values.len() > 1 {
        let init = values.drop_last();
        lemma_min_by_characterized(init, key);
        assert forall|i: int| 0 <= i < init.len() implies #[trigger] init[i] == values[i] by {}
        if spec_min_by(values, key) is None {
            if spec_min_by(init, key) is None {
                let i = choose|i: int| 0 <= i < init.len() && #[trigger] init[i] is None;
                assert(values[i] is None);
            } else {
                assert(values[values.len() - 1] is None);
            }
        }
        if let Some(m) = spec_min_by(values, key) {
            let a = spec_min_by(init, key)->0;
            if m == a {
                let i = choose|i: int| 0 <= i < init.len() && #[trigger] init[i] == Some(a);
                assert(values[i] == Some(m));
            } else {
                assert(values[values.len() - 1] == Some(m));
            }
            assert forall|i: int| 0 <= i < values.len() implies key(m) <= key(
                (#[trigger] values[i])->0,
            ) by {
                if i < init.len() {
                    assert(init[i] == values[i]);
                }
            }
        }
        if exists|i: int| 0 <= i < values.len() && #[trigger] values[i] is None {
            let i = choose|i: int| 0 <= i < values.len() && #[trigger] values[i] is None;
            if i < init.len() {
                assert(init[i] is None);
            }
        }
    }
}

/// The smallest of some optional heights, where a missing height stands
/// below every height.
pub fn min_height(values: &Vec<Option<usize>>) -> (min: Option<usize>)
    ensures
        min == spec_min_height(values@),
{
    let mut min: Option<usize> = None;
    let mut i: usize = 0;
    while i < values.len()
        invariant
            i <= values@.len(),
            min == spec_min_height(values@.take(i as int)),
        decreases values@.len() - i,
    {
        proof {
            assert(values@.take(i as int + 1).drop_last() =~= values@.take(i as int));
        }
        if i == 0 {
            min = values[0];
        } else {
            min = match (min, values[i]) {
                (Some(a), Some(b)) => Some(if b < a { b } else { a }),
                _ => None,
            };
        }
        i = i + 1;
    }
    proof {
        assert(values@.take(values@.len() as int) =~= values@);
    }
    min
}

/// The earliest of some optional dates, where a missing date stands before
/// every date.
pub fn min_date(values: &Vec<Option<i32>>) -> (min: Option<i32>)
    ensures
        min == spec_min_date(values@),
{
    let mut min: Option<i32> = None;
    let mut i: usize = 0;
    while i < values.len()
        invariant
            i <= values@.len(),
            min == spec_min_date(values@.take(i as int)),
        decreases values@.len() - i,
    {
        proof {
            assert(values@.take(i as int + 1).drop_last() =~= values@.take(i as int));
        }
        if i == 0 {
            min = values[0];
        } else {
            min = match (min, values[i]) {
                (Some(a), Some(b)) => Some(if b < a { b } else { a }),
                _ => None,
            };
        }
        i = i + 1;
    }
    proof {
        assert(values@.take(values@.len() as int) =~= values@);
    }
    min
}

/// The earliest height and date that the maps of a dataset, or the
/// datasets of a group, may still need, and the latest ones they had stored,
/// when they were loaded. A missing value stands below every present one.
#[derive(Debug, Clone, Copy, PartialEq, Eq, Structural)]
pub struct MinInitialState {
    pub first_unsafe_date: Option<i32>,
    pub first_unsafe_height: Option<usize>,
    pub last_date: Option<i32>,
    pub last_height: Option<usize>,
}

impl Default for MinInitialState {
    fn default() -> (state: Self)
        ensures
            state == (MinInitialState {
                first_unsafe_date: None,
                first_unsafe_height: None,
                last_date: None,
                last_height: None,
            }),
    {
        MinInitialState {
            first_unsafe_date: None,
            first_unsafe_height: None,
            last_date: None,
            last_height: None,
        }
    }
}

pub open spec fn first_unsafe_heights(maps: Seq<HeightMapState>) -> Seq<Option<usize>> {
    maps.map_values(|m: HeightMapState| m.first_unsafe_height)
}

pub open spec fn last_heights(maps: Seq<HeightMapState>) -> Seq<Option<usize>> {
    maps.map_values(|m: HeightMapState| m.last_height)
}

pub open spec fn first_unsafe_dates(maps: Seq<DateMapState>) -> Seq<Option<i32>> {
    maps.map_values(|m: DateMapState| m.first_unsafe_date)
}

pub open spec fn last_dates(maps: Seq<DateMapState>) -> Seq<Option<i32>> {
    maps.map_values(|m: DateMapState| m.last_date)
}

/// The state of a dataset, computed from the stored states of the maps it
/// inserts into.
pub open spec fn spec_compute_from_dataset(
    height_maps: Seq<HeightMapState>,
    date_maps: Seq<DateMapState>,
) -> MinInitialState {
    MinInitialState {
        first_unsafe_date: spec_min_date(first_unsafe_dates(date_maps)),
        first_unsafe_height: spec_min_height(first_unsafe_heights(height_maps)),
        last_date: spec_min_date(last_dates(date_maps)),
        last_height: spec_min_height(last_heights(height_maps)),
    }
}

/// Of the datasets that insert into height maps, in order, a height that
/// `field` picks from their state.
pub open spec fn included_heights(
    datasets: Seq<DatasetState>,
    field: spec_fn(MinInitialState) -> Option<usize>,
) -> Seq<Option<usize>>
    decreases datasets.len(),
{
    if datasets.len() == 0 {
        Seq::empty()
    } else if datasets.last().has_inserted_height_maps {
        included_heights(datasets.drop_last(), field).push(
            field(datasets.last().min_initial_state),
        )
    } else {
        included_heights(datasets.drop_last(), field)
    }
}

/// Of the datasets that insert into date maps, in order, a date that `field`
/// picks from their state.
pub open spec fn included_dates(
    datasets: Seq<DatasetState>,
    field: spec_fn(MinInitialState) -> Option<i32>,
) -> Seq<Option<i32>>
    decreases datasets.len(),
{
    if datasets.len() == 0 {
        Seq::empty()
    } else if datasets.last().has_inserted_date_maps {
        included_dates(datasets.drop_last(), field).push(field(datasets.last().min_initial_state))
    } else {
        included_dates(datasets.drop_last(), field)
    }
}

/// The state of a group of datasets: each date computed over the datasets
/// that insert into date maps, each height over those that insert into
/// height maps.
pub open spec fn spec_compute_from_datasets(datasets: Seq<DatasetState>) -> MinInitialState {
    MinInitialState {
        first_unsafe_date: spec_min_date(
            included_dates(datasets, |s: MinInitialState| s.first_unsafe_date),
        ),
        first_unsafe_height: spec_min_height(
            included_heights(datasets, |s: MinInitialState| s.first_unsafe_height),
        ),
        last_date: spec_min_date(included_dates(datasets, |s: MinInitialState| s.last_date)),
        last_height: spec_min_height(
            included_heights(datasets, |s: MinInitialState| s.last_height),
        ),
    }
}

impl MinInitialState {
    /// Whether a block at `height` is at or past the first unsafe height (a
    /// missing first unsafe height counts as 0).
    pub open spec fn spec_process_height(self, height: int) -> bool {
        match self.first_unsafe_height {
            Some(first) => first <= height,
            None => 0 <= height,
        }
    }

    /// Whether a day is at or past the first unsafe date (every day is, when
    /// there is none).
    pub open spec fn spec_process_date(self, date: int) -> bool {
        match self.first_unsafe_date {
            Some(first) => first <= date,
            None => true,
        }
    }

    /// Takes over every field of `other`.
    pub fn consume(&mut self, other: Self)
        ensures
            *final(self) == other,
    {
        self.first_unsafe_date = other.first_unsafe_date;
        self.first_unsafe_height = other.first_unsafe_height;
        self.last_date = other.last_date;
        self.last_height = other.last_height;
    }

    /// The state of a dataset, from the stored states of the height maps and
    /// date maps it inserts into.
    pub fn compute_from_dataset(height_maps: &Vec<HeightMapState>, date_maps: &Vec<DateMapState>) -> (state: Self)
        ensures
            state == spec_compute_from_dataset(height_maps@, date_maps@),
            least_height_of(
                state.first_unsafe_height,
                height_maps@.map_values(|m: HeightMapState| m.first_unsafe_height),
            ),
            least_height_of(state.last_height, height_maps@.map_values(|m: HeightMapState| m.last_height)),
            least_date_of(
                state.first_unsafe_date,
                date_maps@.map_values(|m: DateMapState| m.first_unsafe_date),
            ),
            least_date_of(state.last_date, date_maps@.map_values(|m: DateMapState| m.last_date)),
    {
        proof {
            lemma_dataset_state_is_least(height_maps@, date_maps@);
        }
        let mut unsafe_height_list: Vec<Option<usize>> = Vec::new();
        let mut last_height_list: Vec<Option<usize>> = Vec::new();
        let mut i: usize = 0;
        while i < height_maps.len()
            invariant
                i <= height_maps@.len(),
                unsafe_height_list@ == first_unsafe_heights(height_maps@.take(i as int)),
                last_height_list@ == last_heights(height_maps@.take(i as int)),
            decreases height_maps@.len() - i,
        {
            unsafe_height_list.push(height_maps[i].first_unsafe_height);
            last_height_list.push(height_maps[i].last_height);
            i = i + 1;
            proof {
                assert(unsafe_height_list@ =~= first_unsafe_heights(height_maps@.take(i as int)));
                assert(last_height_list@ =~= last_heights(height_maps@.take(i as int)));
            }
        }
        let mut unsafe_date_list: Vec<Option<i32>> = Vec::new();
        let mut last_date_list: Vec<Option<i32>> = Vec::new();
        let mut j: usize = 0;
        while j < date_maps.len()
            invariant
                j <= date_maps@.len(),
                unsafe_date_list@ == first_unsafe_dates(date_maps@.take(j as int)),
                last_date_list@ == last_dates(date_maps@.take(j as int)),
            decreases date_maps@.len() - j,
        {
            unsafe_date_list.push(date_maps[j].first_unsafe_date);
            last_date_list.push(date_maps[j].last_date);
            j = j + 1;
            proof {
                assert(unsafe_date_list@ =~= first_unsafe_dates(date_maps@.take(j as int)));
                assert(last_date_list@ =~= last_dates(date_maps@.take(j as int)));
            }
        }
        proof {
            assert(height_maps@.take(i as int) =~= height_maps@);
            assert(date_maps@.take(j as int) =~= date_maps@);
        }
        MinInitialState {
            first_unsafe_date: min_date(&unsafe_date_list),
            first_unsafe_height: min_height(&unsafe_height_list),
            last_date: min_date(&last_date_list),
            last_height: min_height(&last_height_list),
        }
    }

    /// The state of a group, from the states of its datasets.
    pub fn compute_from_datasets(datasets: &Vec<DatasetState>) -> (state: Self)
        ensures
            state == spec_compute_from_datasets(datasets@),
            least_height_over_group(
                state.first_unsafe_height,
                datasets@,
                |s: MinInitialState| s.first_unsafe_height,
            ),
            least_height_over_group(state.last_height, datasets@, |s: MinInitialState| s.last_height),
            least_date_over_group(
                state.first_unsafe_date,
                datasets@,
                |s: MinInitialState| s.first_unsafe_date,
            ),
            least_date_over_group(state.last_date, datasets@, |s: MinInitialState| s.last_date),
    {
        proof {
            lemma_group_state_is_least(datasets@);
        }
        let ghost fud = |s: MinInitialState| s.first_unsafe_date;
        let ghost fuh = |s: MinInitialState| s.first_unsafe_height;
        let ghost ld = |s: MinInitialState| s.last_date;
        let ghost lh = |s: MinInitialState| s.last_height;
        let mut first_unsafe_dates: Vec<Option<i32>> = Vec::new();
        let mut first_unsafe_heights: Vec<Option<usize>> = Vec::new();
        let mut last_dates: Vec<Option<i32>> = Vec::new();
        let mut last_heights: Vec<Option<usize>> = Vec::new();
        let mut i: usize = 0;
        while i < datasets.len()
            invariant
                i <= datasets@.len(),
                first_unsafe_dates@ == included_dates(datasets@.take(i as int), fud),
                first_unsafe_heights@ == included_heights(datasets@.take(i as int), fuh),
                last_dates@ == included_dates(datasets@.take(i as int), ld),
                last_heights@ == included_heights(datasets@.take(i as int), lh),
                fud == (|s: MinInitialState| s.first_unsafe_date),
                fuh == (|s: MinInitialState| s.first_unsafe_height),
                ld == (|s: MinInitialState| s.last_date),
                lh == (|s: MinInitialState| s.last_height),
            decreases datasets@.len() - i,
        {
            let d = datasets[i];
            proof {
                assert(datasets@.take(i as int + 1).drop_last() =~= datasets@.take(i as int));
                assert(datasets@.take(i as int + 1).last() == d);
            }
            if d.has_inserted_date_maps {
                first_unsafe_dates.push(d.min_initial_state.first_unsafe_date);
                last_dates.push(d.min_initial_state.last_date);
            }
            if d.has_inserted_height_maps {
                first_unsafe_heights.push(d.min_initial_state.first_unsafe_height);
                last_heights.push(d.min_initial_state.last_height);
            }
            i = i + 1;
        }
        proof {
            assert(datasets@.take(i as int) =~= datasets@);
        }
        MinInitialState {
            first_unsafe_date: min_date(&first_unsafe_dates),
            first_unsafe_height: min_height(&first_unsafe_heights),
            last_date: min_date(&last_dates),
            last_height: min_height(&last_heights),
        }
    }

    /// Whether a block at `height` is at or past the first unsafe height.
    pub fn process_height(&self, height: usize) -> (process: bool)
        ensures
            process == self.spec_process_height(height as int),
    {
        match self.first_unsafe_height {
            Some(first) => first <= height,
            None => true,
        }
    }

    /// Whether the day `date` is at or past the first unsafe date.
    pub fn process_date(&self, date: i32) -> (process: bool)
        ensures
            process == self.spec_process_date(date as int),
    {
        match self.first_unsafe_date {
            Some(first) => first <= date,
            None => true,
        }
    }
}

/// What decides whether a dataset still needs data: its state, and whether
/// it inserts into any height map and any date map at all.
#[derive(Debug, Clone, Copy, PartialEq, Eq, Structural)]
pub struct DatasetState {
    pub min_initial_state: MinInitialState,
    pub has_inserted_height_maps: bool,
    pub has_inserted_date_maps: bool,
}

impl DatasetState {
    pub open spec fn spec_should_insert_height(self, height: int) -> bool {
        self.has_inserted_height_maps && self.min_initial_state.spec_process_height(height)
    }

    pub open spec fn spec_should_insert_date(self, date: int) -> bool {
        self.has_inserted_date_maps && self.min_initial_state.spec_process_date(date)
    }

    /// The state of a dataset that inserts into maps with the given stored
    /// states.
    pub fn from_maps(height_maps: &Vec<HeightMapState>, date_maps: &Vec<DateMapState>) -> (state: Self)
        ensures
            state.min_initial_state == spec_compute_from_dataset(height_maps@, date_maps@),
            state.has_inserted_height_maps == (height_maps@.len() > 0),
            state.has_inserted_date_maps == (date_maps@.len() > 0),
    {
        let mut min_initial_state = MinInitialState::default();
        min_initial_state.consume(MinInitialState::compute_from_dataset(height_maps, date_maps));
        DatasetState {
            min_initial_state,
            has_inserted_height_maps: height_maps.len() > 0,
            has_inserted_date_maps: date_maps.len() > 0,
        }
    }

    /// Whether the dataset still needs the block at `height`.
    pub fn should_insert_height(&self, height: usize) -> (insert: bool)
        ensures
            insert == self.spec_should_insert_height(height as int),
    {
        self.has_inserted_height_maps && self.min_initial_state.process_height(height)
    }

    /// Whether the dataset still needs the day `date`.
    pub fn should_insert_date(&self, date: i32) -> (insert: bool)
        ensures
            insert == self.spec_should_insert_date(date as int),
    {
        self.has_inserted_date_maps && self.min_initial_state.process_date(date)
    }

    /// Whether the dataset still needs the block at `height` or its day.
    pub fn should_insert(&self, height: usize, date: i32) -> (insert: bool)
        ensures
            insert == (self.spec_should_insert_height(height as int)
                || self.spec_should_insert_date(date as int)),
    {
        self.should_insert_height(height) || self.should_insert_date(date)
    }
}

/// A dataset that needs a block also needs every later block, and a dataset
/// that needs a day also needs every later day.
pub proof fn lemma_should_insert_is_monotone(state: DatasetState, earlier: int, later: int)
    requires
        earlier <= later,
    ensures
        state.spec_should_insert_height(earlier) ==> state.spec_should_insert_height(later),
        state.spec_should_insert_date(earlier) ==> state.spec_should_insert_date(later),
{
}

proof fn lemma_included_height_present(
    datasets: Seq<DatasetState>,
    field: spec_fn(MinInitialState) -> Option<usize>,
    i: int,
)
    requires
        0 <= i < datasets.len(),
        datasets[i].has_inserted_height_maps,
    ensures
        exists|k: int|
            0 <= k < included_heights(datasets, field).len() && #[trigger] included_heights(
                datasets,
                field,
            )[k] == field(datasets[i].min_initial_state),
    decreases datasets.len(),
{
    let init = datasets.drop_last();
    if i == datasets.len() - 1 {
        let k = included_heights(init, field).len() as int;
        assert(included_heights(datasets, field)[k] == field(datasets[i].min_initial_state));
    } else {
        lemma_included_height_present(init, field, i);
        let k = choose|k: int|
            0 <= k < included_heights(init, field).len() && #[trigger] included_heights(
                init,
                field,
            )[k] == field(init[i].min_initial_state);
        assert(included_heights(datasets, field)[k] == included_heights(init, field)[k]);
    }
}

proof fn lemma_included_date_present(
    datasets: Seq<DatasetState>,
    field: spec_fn(MinInitialState) -> Option<i32>,
    i: int,
)
    requires
        0 <= i < datasets.len(),
        datasets[i].has_inserted_date_maps,
    ensures
        exists|k: int|
            0 <= k < included_dates(datasets, field).len() && #[trigger] included_dates(
                datasets,
                field,
            )[k] == field(datasets[i].min_initial_state),
    decreases datasets.len(),
{
    let init = datasets.drop_last();
    if i == datasets.len() - 1 {
        let k = included_dates(init, field).len() as int;
        assert(included_dates(datasets, field)[k] == field(datasets[i].min_initial_state));
    } else {
        lemma_included_date_present(init, field, i);
        let k = choose|k: int|
            0 <= k < included_dates(init, field).len() && #[trigger] included_dates(init, field)[k]
                == field(init[i].min_initial_state);
        assert(included_dates(datasets, field)[k] == included_dates(init, field)[k]);
    }
}

/// A group never skips what one of its datasets still needs: if a dataset
/// that inserts into height maps processes a height, so does the state
/// computed for the group, and likewise for days.
pub proof fn lemma_group_processes_what_members_need(
    datasets: Seq<DatasetState>,
    i: int,
    height: int,
    date: int,
)
    requires
        0 <= i < datasets.len(),
    ensures
        datasets[i].spec_should_insert_height(height) ==> spec_compute_from_datasets(
            datasets,
        ).spec_process_height(height),
        datasets[i].spec_should_insert_date(date) ==> spec_compute_from_datasets(
            datasets,
        ).spec_process_date(date),
{
    let fuh = |s: MinInitialState| s.first_unsafe_height;
    let fud = |s: MinInitialState| s.first_unsafe_date;
    if datasets[i].spec_should_insert_height(height) {
        lemma_included_height_present(datasets, fuh, i);
        lemma_min_by_characterized(included_heights(datasets, fuh), |h: usize| h as int);
        let k = choose|k: int|
            0 <= k < included_heights(datasets, fuh).len() && #[trigger] included_heights(
                datasets,
                fuh,
            )[k] == fuh(datasets[i].min_initial_state);
        assert(included_heights(datasets, fuh)[k] == datasets[i].min_initial_state.first_unsafe_height);
    }
    if datasets[i].spec_should_insert_date(date) {
        lemma_included_date_present(datasets, fud, i);
        lemma_min_by_characterized(included_dates(datasets, fud), |d: i32| d as int);
        let k = choose|k: int|
            0 <= k < included_dates(datasets, fud).len() && #[trigger] included_dates(
                datasets,
                fud,
            )[k] == fud(datasets[i].min_initial_state);
        assert(included_dates(datasets, fud)[k] == datasets[i].min_initial_state.first_unsafe_date);
    }
}

/// `result` is the least of `values`, where a missing value counts as
/// lower than every present one: missing exactly when there is no value or
/// some value is missing, and otherwise one of the values and no greater
/// than any of them.
pub open spec fn least_height_of(result: Option<usize>, values: Seq<Option<usize>>) -> bool {
    &&& (result is None <==> (values.len() == 0 || exists|i: int|
        0 <= i < values.len() && #[trigger] values[i] is None))
    &&& (result matches Some(m) ==> (exists|i: int|
        0 <= i < values.len() && #[trigger] values[i] == Some(m)))
    &&& (result matches Some(m) ==> forall|i: int|
        0 <= i < values.len() ==> (#[trigger] values[i] matches Some(v) && m <= v))
}

/// `result` is the earliest of `values`, where a missing value counts as
/// earlier than every present one.
pub open spec fn least_date_of(result: Option<i32>, values: Seq<Option<i32>>) -> bool {
    &&& (result is None <==> (values.len() == 0 || exists|i: int|
        0 <= i < values.len() && #[trigger] values[i] is None))
    &&& (result matches Some(m) ==> (exists|i: int|
        0 <= i < values.len() && #[trigger] values[i] == Some(m)))
    &&& (result matches Some(m) ==> forall|i: int|
        0 <= i < values.len() ==> (#[trigger] values[i] matches Some(v) && m <= v))
}

proof fn lemma_min_height_is_least(values: Seq<Option<usize>>)
    ensures
        least_height_of(spec_min_height(values), values),
{
    lemma_min_by_characterized(values, |h: usize| h as int);
    if let Some(m) = spec_min_height(values) {
        assert forall|i: int| 0 <= i < values.len() implies (#[trigger] values[i] matches Some(v)
            && m <= v) by {
            assert(!(values[i] is None));
        }
    }
}

proof fn lemma_min_date_is_least(values: Seq<Option<i32>>)
    ensures
        least_date_of(spec_min_date(values), values),
{
    lemma_min_by_characterized(values, |d: i32| d as int);
    if let Some(m) = spec_min_date(values) {
        assert forall|i: int| 0 <= i < values.len() implies (#[trigger] values[i] matches Some(v)
            && m <= v) by {
            assert(!(values[i] is None));
        }
    }
}

/// The state of a dataset takes, for each of its four fields, the least
/// value over all the maps it inserts into (a missing value counting as the
/// least): so it restarts from the earliest height and day that any of its
/// maps still needs, and no map's needs are skipped.
pub proof fn lemma_dataset_state_is_least(height_maps: Seq<HeightMapState>, date_maps: Seq<DateMapState>)
    ensures
        least_height_of(
            spec_compute_from_dataset(height_maps, date_maps).first_unsafe_height,
            height_maps.map_values(|m: HeightMapState| m.first_unsafe_height),
        ),
        least_height_of(
            spec_compute_from_dataset(height_maps, date_maps).last_height,
            height_maps.map_values(|m: HeightMapState| m.last_height),
        ),
        least_date_of(
            spec_compute_from_dataset(height_maps, date_maps).first_unsafe_date,
            date_maps.map_values(|m: DateMapState| m.first_unsafe_date),
        ),
        least_date_of(
            spec_compute_from_dataset(height_maps, date_maps).last_date,
            date_maps.map_values(|m: DateMapState| m.last_date),
        ),
{
    lemma_min_height_is_least(height_maps.map_values(|m: HeightMapState| m.first_unsafe_height));
    lemma_min_height_is_least(height_maps.map_values(|m: HeightMapState| m.last_height));
    lemma_min_date_is_least(date_maps.map_values(|m: DateMapState| m.first_unsafe_date));
    lemma_min_date_is_least(date_maps.map_values(|m: DateMapState| m.last_date));
}

/// Whether `result` is the least, over the datasets of a group that insert
/// into height maps, of the height that `field` picks from their state.
pub open spec fn least_height_over_group(
    result: Option<usize>,
    datasets: Seq<DatasetState>,
    field: spec_fn(MinInitialState) -> Option<usize>,
) -> bool {
    &&& (result is None <==> ((forall|i: int|
        0 <= i < datasets.len() ==> !(#[trigger] datasets[i]).has_inserted_height_maps) || exists|i: int|
        0 <= i < datasets.len() && (#[trigger] datasets[i]).has_inserted_height_maps && field(
            datasets[i].min_initial_state,
        ) is None))
    &&& (result matches Some(m) ==> exists|i: int|
        0 <= i < datasets.len() && (#[trigger] datasets[i]).has_inserted_height_maps && field(
            datasets[i].min_initial_state,
        ) == Some(m))
    &&& (result matches Some(m) ==> forall|i: int|
        0 <= i < datasets.len() && (#[trigger] datasets[i]).has_inserted_height_maps ==> (field(
            datasets[i].min_initial_state,
        ) matches Some(v) && m <= v))
}

/// Whether `result` is the earliest, over the datasets of a group that
/// insert into date maps, of the date that `field` picks from their state.
pub open spec fn least_date_over_group(
    result: Option<i32>,
    datasets: Seq<DatasetState>,
    field: spec_fn(MinInitialState) -> Option<i32>,
) -> bool {
    &&& (result is None <==> ((forall|i: int|
        0 <= i < datasets.len() ==> !(#[trigger] datasets[i]).has_inserted_date_maps) || exists|i: int|
        0 <= i < datasets.len() && (#[trigger] datasets[i]).has_inserted_date_maps && field(
            datasets[i].min_initial_state,
        ) is None))
    &&& (result matches Some(m) ==> exists|i: int|
        0 <= i < datasets.len() && (#[trigger] datasets[i]).has_inserted_date_maps && field(
            datasets[i].min_initial_state,
        ) == Some(m))
    &&& (result matches Some(m) ==> forall|i: int|
        0 <= i < datasets.len() && (#[trigger] datasets[i]).has_inserted_date_maps ==> (field(
            datasets[i].min_initial_state,
        ) matches Some(v) && m <= v))
}

proof fn lemma_included_heights_origin(
    datasets: Seq<DatasetState>,
    field: spec_fn(MinInitialState) -> Option<usize>,
)
    ensures
        forall|k: int|
            0 <= k < included_heights(datasets, field).len() ==> exists|i: int|
                0 <= i < datasets.len() && (#[trigger] datasets[i]).has_inserted_height_maps
                    && #[trigger] included_heights(datasets, field)[k] == field(
                    datasets[i].min_initial_state,
                ),
        included_heights(datasets, field).len() == 0 <==> forall|i: int|
            0 <= i < datasets.len() ==> !(#[trigger] datasets[i]).has_inserted_height_maps,
    decreases datasets.len(),
{
    if datasets.len() > 0 {
        let init = datasets.drop_last();
        lemma_included_heights_origin(init, field);
        let inc = included_heights(datasets, field);
        let before = included_heights(init, field);
        assert forall|k: int| 0 <= k < inc.len() implies exists|i: int|
            0 <= i < datasets.len() && (#[trigger] datasets[i]).has_inserted_height_maps
                && #[trigger] inc[k] == field(datasets[i].min_initial_state) by {
            if k < before.len() {
                assert(inc[k] == before[k]);
                let i = choose|i: int|
                    0 <= i < init.len() && (#[trigger] init[i]).has_inserted_height_maps
                        && #[trigger] before[k] == field(init[i].min_initial_state);
                assert(datasets[i] == init[i]);
            } else {
                assert(datasets[datasets.len() - 1].has_inserted_height_maps);
            }
        }
        if forall|i: int| 0 <= i < datasets.len() ==> !(#[trigger] datasets[i]).has_inserted_height_maps {
            assert forall|i: int| 0 <= i < init.len() implies !(#[trigger] init[i]).has_inserted_height_maps by {
                assert(init[i] == datasets[i]);
            }
            assert(!datasets[datasets.len() - 1].has_inserted_height_maps);
        }
        if inc.len() == 0 {
            assert forall|i: int| 0 <= i < datasets.len() implies !(#[trigger] datasets[i]).has_inserted_height_maps by {
                if i < init.len() {
                    assert(init[i] == datasets[i]);
                }
            }
        }
    }
}

proof fn lemma_included_dates_origin(
    datasets: Seq<DatasetState>,
    field: spec_fn(MinInitialState) -> Option<i32>,
)
    ensures
        forall|k: int|
            0 <= k < included_dates(datasets, field).len() ==> exists|i: int|
                0 <= i < datasets.len() && (#[trigger] datasets[i]).has_inserted_date_maps
                    && #[trigger] included_dates(datasets, field)[k] == field(
                    datasets[i].min_initial_state,
                ),
        included_dates(datasets, field).len() == 0 <==> forall|i: int|
            0 <= i < datasets.len() ==> !(#[trigger] datasets[i]).has_inserted_date_maps,
    decreases datasets.len(),
{
    if datasets.len() > 0 {
        let init = datasets.drop_last();
        lemma_included_dates_origin(init, field);
        let inc = included_dates(datasets, field);
        let before = included_dates(init, field);
        assert forall|k: int| 0 <= k < inc.len() implies exists|i: int|
            0 <= i < datasets.len() && (#[trigger] datasets[i]).has_inserted_date_maps
                && #[trigger] inc[k] == field(datasets[i].min_initial_state) by {
            if k < before.len() {
                assert(inc[k] == before[k]);
                let i = choose|i: int|
                    0 <= i < init.len() && (#[trigger] init[i]).has_inserted_date_maps
                        && #[trigger] before[k] == field(init[i].min_initial_state);
                assert(datasets[i] == init[i]);
            } else {
                assert(datasets[datasets.len() - 1].has_inserted_date_maps);
            }
        }
        if forall|i: int| 0 <= i < datasets.len() ==> !(#[trigger] datasets[i]).has_inserted_date_maps {
            assert forall|i: int| 0 <= i < init.len() implies !(#[trigger] init[i]).has_inserted_date_maps by {
                assert(init[i] == datasets[i]);
            }
            assert(!datasets[datasets.len() - 1].has_inserted_date_maps);
        }
        if inc.len() == 0 {
            assert forall|i: int| 0 <= i < datasets.len() implies !(#[trigger] datasets[i]).has_inserted_date_maps by {
                if i < init.len() {
                    assert(init[i] == datasets[i]);
                }
            }
        }
    }
}

proof fn lemma_group_height_is_least(datasets: Seq<DatasetState>, field: spec_fn(MinInitialState) -> Option<usize>)
    ensures
        least_height_over_group(spec_min_height(included_heights(datasets, field)), datasets, field),
{
    let inc = included_heights(datasets, field);
    lemma_min_height_is_least(inc);
    lemma_included_heights_origin(datasets, field);
    assert forall|i: int| 0 <= i < datasets.len() && datasets[i].has_inserted_height_maps implies exists|k: int|
        0 <= k < inc.len() && #[trigger] inc[k] == field(datasets[i].min_initial_state) by {
        lemma_included_height_present(datasets, field, i);
    }
    let r = spec_min_height(inc);
    if r is None {
        if inc.len() != 0 {
            let k = choose|k: int| 0 <= k < inc.len() && #[trigger] inc[k] is None;
            assert(inc[k] is None);
        }
    }
    if exists|i: int|
        0 <= i < datasets.len() && (#[trigger] datasets[i]).has_inserted_height_maps && field(
            datasets[i].min_initial_state,
        ) is None {
        let i = choose|i: int|
            0 <= i < datasets.len() && (#[trigger] datasets[i]).has_inserted_height_maps && field(
                datasets[i].min_initial_state,
            ) is None;
        let k = choose|k: int| 0 <= k < inc.len() && #[trigger] inc[k] == field(datasets[i].min_initial_state);
        assert(inc[k] is None);
    }
    if let Some(m) = r {
        let k = choose|k: int| 0 <= k < inc.len() && #[trigger] inc[k] == Some(m);
        assert(inc[k] == Some(m));
        assert forall|i: int|
            0 <= i < datasets.len() && (#[trigger] datasets[i]).has_inserted_height_maps implies (field(
                datasets[i].min_initial_state,
            ) matches Some(v) && m <= v) by {
            let k = choose|k: int| 0 <= k < inc.len() && #[trigger] inc[k] == field(datasets[i].min_initial_state);
            assert(inc[k] matches Some(v) && m <= v);
        }
    }
}

proof fn lemma_group_date_is_least(datasets: Seq<DatasetState>, field: spec_fn(MinInitialState) -> Option<i32>)
    ensures
        least_date_over_group(spec_min_date(included_dates(datasets, field)), datasets, field),
{
    let inc = included_dates(datasets, field);
    lemma_min_date_is_least(inc);
    lemma_included_dates_origin(datasets, field);
    assert forall|i: int| 0 <= i < datasets.len() && datasets[i].has_inserted_date_maps implies exists|k: int|
        0 <= k < inc.len() && #[trigger] inc[k] == field(datasets[i].min_initial_state) by {
        lemma_included_date_present(datasets, field, i);
    }
    let r = spec_min_date(inc);
    if r is None {
        if inc.len() != 0 {
            let k = choose|k: int| 0 <= k < inc.len() && #[trigger] inc[k] is None;
            assert(inc[k] is None);
        }
    }
    if exists|i: int|
        0 <= i < datasets.len() && (#[trigger] datasets[i]).has_inserted_date_maps && field(
            datasets[i].min_initial_state,
        ) is None {
        let i = choose|i: int|
            0 <= i < datasets.len() && (#[trigger] datasets[i]).has_inserted_date_maps && field(
                datasets[i].min_initial_state,
            ) is None;
        let k = choose|k: int| 0 <= k < inc.len() && #[trigger] inc[k] == field(datasets[i].min_initial_state);
        assert(inc[k] is None);
    }
    if let Some(m) = r {
        let k = choose|k: int| 0 <= k < inc.len() && #[trigger] inc[k] == Some(m);
        assert(inc[k] == Some(m));
        assert forall|i: int|
            0 <= i < datasets.len() && (#[trigger] datasets[i]).has_inserted_date_maps implies (field(
                datasets[i].min_initial_state,
            ) matches Some(v) && m <= v) by {
            let k = choose|k: int| 0 <= k < inc.len() && #[trigger] inc[k] == field(datasets[i].min_initial_state);
            assert(inc[k] matches Some(v) && m <= v);
        }
    }
}

/// The state of a group takes, for each of its four fields, the least value
/// over the datasets that insert into maps of that kind (heights over those
/// with height maps, days over those with date maps), a missing value
/// counting as the least.
pub proof fn lemma_group_state_is_least(datasets: Seq<DatasetState>)
    ensures
        least_height_over_group(
            spec_compute_from_datasets(datasets).first_unsafe_height,
            datasets,
            |s: MinInitialState| s.first_unsafe_height,
        ),
        least_height_over_group(
            spec_compute_from_datasets(datasets).last_height,
            datasets,
            |s: MinInitialState| s.last_height,
        ),
        least_date_over_group(
            spec_compute_from_datasets(datasets).first_unsafe_date,
            datasets,
            |s: MinInitialState| s.first_unsafe_date,
        ),
        least_date_over_group(
            spec_compute_from_datasets(datasets).last_date,
            datasets,
            |s: MinInitialState| s.last_date,
        ),
{
    lemma_group_height_is_least(datasets, |s: MinInitialState| s.first_unsafe_height);
    lemma_group_height_is_least(datasets, |s: MinInitialState| s.last_height);
    lemma_group_date_is_least(datasets, |s: MinInitialState| s.first_unsafe_date);
    lemma_group_date_is_least(datasets, |s: MinInitialState| s.last_date);
}

/// A dataset still needs a block exactly when it inserts into some height
/// map and the block is at or past its first unsafe height (every block is,
/// when it has none); likewise for a day.
pub proof fn lemma_should_insert_by_state(state: DatasetState, height: int, date: int)
    requires
        height >= 0,
    ensures
        state.spec_should_insert_height(height) == (state.has_inserted_height_maps && (
        state.min_initial_state.first_unsafe_height matches Some(f) ==> f <= height)),
        state.spec_should_insert_date(date) == (state.has_inserted_date_maps && (
        state.min_initial_state.first_unsafe_date matches Some(f) ==> f <= date)),
{
}

/// A dataset processes a block exactly when one of its height maps still
/// needs it (has no first unsafe height, or one at or before the block), or
/// when it has no height map; likewise for a day and its date maps. So no
/// map's missing blocks or days are skipped.
pub proof fn lemma_dataset_processes_what_a_map_needs(
    height_maps: Seq<HeightMapState>,
    date_maps: Seq<DateMapState>,
    height: int,
    date: int,
)
    requires
        height >= 0,
    ensures
        spec_compute_from_dataset(height_maps, date_maps).spec_process_height(height) == (
        height_maps.len() == 0 || exists|i: int|
            0 <= i < height_maps.len() && ((#[trigger] height_maps[i]).first_unsafe_height matches Some(
                f,
            ) ==> f <= height)),
        spec_compute_from_dataset(height_maps, date_maps).spec_process_date(date) == (
        date_maps.len() == 0 || exists|i: int|
            0 <= i < date_maps.len() && ((#[trigger] date_maps[i]).first_unsafe_date matches Some(f)
                ==> f <= date)),
{
    lemma_dataset_state_is_least(height_maps, date_maps);
    let hs = height_maps.map_values(|m: HeightMapState| m.first_unsafe_height);
    let ds = date_maps.map_values(|m: DateMapState| m.first_unsafe_date);
    let st = spec_compute_from_dataset(height_maps, date_maps);
    assert forall|i: int| 0 <= i < height_maps.len() implies hs[i] == (#[trigger] height_maps[i]).first_unsafe_height by {}
    assert forall|i: int| 0 <= i < date_maps.len() implies ds[i] == (#[trigger] date_maps[i]).first_unsafe_date by {}
    match st.first_unsafe_height {
        None => {
            if height_maps.len() != 0 {
                let i = choose|i: int| 0 <= i < hs.len() && #[trigger] hs[i] is None;
                assert(height_maps[i].first_unsafe_height is None);
            }
        },
        Some(m) => {
            let i = choose|i: int| 0 <= i < hs.len() && #[trigger] hs[i] == Some(m);
            assert(height_maps[i].first_unsafe_height == Some(m));
            if exists|j: int|
                0 <= j < height_maps.len() && ((#[trigger] height_maps[j]).first_unsafe_height matches Some(
                    f,
                ) ==> f <= height) {
                let j = choose|j: int|
                    0 <= j < height_maps.len() && ((#[trigger] height_maps[j]).first_unsafe_height matches Some(
                        f,
                    ) ==> f <= height);
                assert(hs[j] matches Some(v) && m <= v);
            }
        },
    }
    match st.first_unsafe_date {
        None => {
            if date_maps.len() != 0 {
                let i = choose|i: int| 0 <= i < ds.len() && #[trigger] ds[i] is None;
                assert(date_maps[i].first_unsafe_date is None);
            }
        },
        Some(m) => {
            let i = choose|i: int| 0 <= i < ds.len() && #[trigger] ds[i] == Some(m);
            assert(date_maps[i].first_unsafe_date == Some(m));
            if exists|j: int|
                0 <= j < date_maps.len() && ((#[trigger] date_maps[j]).first_unsafe_date matches Some(f)
                    ==> f <= date) {
                let j = choose|j: int|
                    0 <= j < date_maps.len() && ((#[trigger] date_maps[j]).first_unsafe_date matches Some(
                        f,
                    ) ==> f <= date);
                assert(ds[j] matches Some(v) && m <= v);
            }
        },
    }
}

} // verus!
