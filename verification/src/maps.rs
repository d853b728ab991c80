use std::collections::BTreeMap;
use vstd::prelude::*;

verus! {

broadcast use vstd::std_specs::btree::group_btree_axioms;

/// How far a height-indexed map had been stored when it was loaded: its last
/// stored height and the first height whose value is not yet safely stored.
#[derive(Debug, Clone, Copy, PartialEq, Eq, Structural)]
pub struct HeightMapState {
    pub last_height: Option<usize>,
    pub first_unsafe_height: Option<usize>,
}

/// How far a date-indexed map had been stored when it was loaded; dates are
/// day numbers (see `calendar`).
#[derive(Debug, Clone, Copy, PartialEq, Eq, Structural)]
pub struct DateMapState {
    pub last_date: Option<i32>,
    pub first_unsafe_date: Option<i32>,
}

/// Values indexed by block height.
#[derive(Debug)]
pub struct HeightMap<T> {
    values: BTreeMap<usize, T>,
    initial_state: HeightMapState,
}

/// Values indexed by day number.
#[derive(Debug)]
pub struct DateMap<T> {
    values: BTreeMap<i32, T>,
    initial_state: DateMapState,
}

/// A series recorded both per block and per day.
#[derive(Debug)]
pub struct BiMap<T> {
    pub height: HeightMap<T>,
    pub date: DateMap<T>,
}

impl<T> View for HeightMap<T> {
    type V = Map<usize, T>;

    closed spec fn view(&self) -> Map<usize, T> {
        self.values@
    }
}

impl<T> View for DateMap<T> {
    type V = Map<i32, T>;

    closed spec fn view(&self) -> Map<i32, T> {
        self.values@
    }
}

impl<T> HeightMap<T> {
    pub closed spec fn spec_initial_state(&self) -> HeightMapState {
        self.initial_state
    }

    /// A map that holds no value yet, loaded with the given stored state.
    pub fn new(initial_state: HeightMapState) -> (map: Self)
        ensures
            map@ == Map::<usize, T>::empty(),
            map.spec_initial_state() == initial_state,
    {
        HeightMap { values: BTreeMap::new(), initial_state }
    }

    /// Stores `value` at `height` and hands it back.
    pub fn insert(&mut self, height: usize, value: T) -> (stored: T)
        where T: Copy,
        ensures
            stored == value,
            final(self)@ == old(self)@.insert(height, value),
            final(self).spec_initial_state() == old(self).spec_initial_state(),
    {
        self.values.insert(height, value);
        value
    }

    /// The value stored at `height`, if any.
    pub fn get(&self, height: usize) -> (value: Option<T>)
        where T: Copy,
        ensures
            value == (if self@.contains_key(height) {
                Some(self@[height])
            } else {
                None
            }),
    {
        match self.values.get(&height) {
            Some(v) => Some(*v),
            None => None,
        }
    }

    pub fn get_initial_state(&self) -> (state: HeightMapState)
        ensures
            state == self.spec_initial_state(),
    {
        self.initial_state
    }

    /// Whether the value at `height` was already safely stored when the map
    /// was loaded.
    pub fn is_height_safe(&self, height: usize) -> (safe: bool)
        ensures
            safe == (self.spec_initial_state().first_unsafe_height matches Some(first)
                && height < first),
    {
        match self.initial_state.first_unsafe_height {
            Some(first) => height < first,
            None => false,
        }
    }
}

impl<T> DateMap<T> {
    pub closed spec fn spec_initial_state(&self) -> DateMapState {
        self.initial_state
    }

    /// A map that holds no value yet, loaded with the given stored state.
    pub fn new(initial_state: DateMapState) -> (map: Self)
        ensures
            map@ == Map::<i32, T>::empty(),
            map.spec_initial_state() == initial_state,
    {
        DateMap { values: BTreeMap::new(), initial_state }
    }

    /// Stores `value` at `date` and hands it back.
    pub fn insert(&mut self, date: i32, value: T) -> (stored: T)
        where T: Copy,
        ensures
            stored == value,
            final(self)@ == old(self)@.insert(date, value),
            final(self).spec_initial_state() == old(self).spec_initial_state(),
    {
        self.values.insert(date, value);
        value
    }

    /// The value stored at `date`, if any.
    pub fn get(&self, date: i32) -> (value: Option<T>)
        where T: Copy,
        ensures
            value == (if self@.contains_key(date) {
                Some(self@[date])
            } else {
                None
            }),
    {
        match self.values.get(&date) {
            Some(v) => Some(*v),
            None => None,
        }
    }

    pub fn get_initial_state(&self) -> (state: DateMapState)
        ensures
            state == self.spec_initial_state(),
    {
        self.initial_state
    }

    /// Whether the value at `date` was already safely stored when the map
    /// was loaded.
    pub fn is_date_safe(&self, date: i32) -> (safe: bool)
        ensures
            safe == (self.spec_initial_state().first_unsafe_date matches Some(first) && date
                < first),
    {
        match self.initial_state.first_unsafe_date {
            Some(first) => date < first,
            None => false,
        }
    }

    /// A copy of every stored value, by date.
    pub fn to_btree_map(&self) -> (values: BTreeMap<i32, T>)
        where T: Clone,
        ensures
            values@ == self@,
    {
        self.values.clone()
    }
}

impl<T> BiMap<T> {
    /// A series that holds no value yet, loaded with the given stored states.
    pub fn new(height_state: HeightMapState, date_state: DateMapState) -> (map: Self)
        ensures
            map.height@ == Map::<usize, T>::empty(),
            map.date@ == Map::<i32, T>::empty(),
            map.height.spec_initial_state() == height_state,
            map.date.spec_initial_state() == date_state,
    {
        BiMap { height: HeightMap::new(height_state), date: DateMap::new(date_state) }
    }

    /// Records `value` for the block at `height`, and for its day as well
    /// when the block is the day's last one.
    pub fn insert_for_block(&mut self, height: usize, date: i32, is_date_last_block: bool, value: T)
        where T: Copy,
        ensures
            final(self).height@ == old(self).height@.insert(height, value),
            final(self).date@ == (if is_date_last_block {
                old(self).date@.insert(date, value)
            } else {
                old(self).date@
            }),
            final(self).height.spec_initial_state() == old(self).height.spec_initial_state(),
            final(self).date.spec_initial_state() == old(self).date.spec_initial_state(),
    {
        let stored = self.height.insert(height, value);
        if is_date_last_block {
            self.date.insert(date, stored);
        }
    }

    /// Whether both the block at `height` and the day `date` were already
    /// safely stored when the series was loaded.
    pub fn are_date_and_height_safe(&self, date: i32, height: usize) -> (safe: bool)
        ensures
            safe == ((self.height.spec_initial_state().first_unsafe_height matches Some(first)
                && height < first) && (self.date.spec_initial_state().first_unsafe_date matches Some(
                first,
            ) && date < first)),
    {
        self.height.is_height_safe(height) && self.date.is_date_safe(date)
    }
}

/// Reading a key back after storing a value there gives that value, and
/// every other key keeps what it held. With `usize` keys this is the law of
/// a `HeightMap`, with `i32` keys that of a `DateMap`: their `insert` is
/// `Map::insert` on their view.
pub proof fn lemma_read_after_write<K, T>(before: Map<K, T>, key: K, value: T, other: K)
    requires
        other != key,
    ensures
        before.insert(key, value).contains_key(key),
        before.insert(key, value)[key] == value,
        before.insert(key, value).contains_key(other) == before.contains_key(other),
        before.contains_key(other) ==> before.insert(key, value)[other] == before[other],
{
}

} // verus!
