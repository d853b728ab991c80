use vstd::prelude::*;

verus! {

/// The script type of an address.
#[derive(Debug, Clone, Copy, PartialEq, Eq, Structural)]
pub enum RawAddressType {
    P2PK,
    P2PKH,
    P2SH,
    P2WPKH,
    P2WSH,
    P2TR,
}

/// Selects the addresses of a cohort, either by the amount they hold
/// (`from` inclusive, `to` exclusive) or by their script type.
#[derive(Debug, Clone, Copy, PartialEq, Eq, Structural)]
pub enum AddressFilter {
    FromTo { from: u64, to: u64 },
    AddressType(RawAddressType),
}

impl AddressFilter {
    /// Whether an address holding `amount` of type `address_type` belongs to the cohort.
    pub open spec fn accepts(self, amount: u64, address_type: RawAddressType) -> bool {
        match self {
            AddressFilter::FromTo { from, to } => from <= amount && amount < to,
            AddressFilter::AddressType(t) => t == address_type,
        }
    }

    pub fn new_from_to(from: u64, to: u64) -> (filter: Self)
        ensures
            filter == (AddressFilter::FromTo { from, to }),
    {
        AddressFilter::FromTo { from, to }
    }

    pub fn check(&self, amount: &u64, address_type: &RawAddressType) -> (accepted: bool)
        ensures
            accepted == self.accepts(*amount, *address_type),
    {
        match self {
            AddressFilter::FromTo { from, to } => *amount >= *from && *amount < *to,
            AddressFilter::AddressType(t) => *address_type == *t,
        }
    }
}

/// Selects the days of a UTXO age cohort. Days are counted backwards from
/// the most recent one (the most recent day has reversed index 0);
/// `Year` selects the days of one calendar year.
#[derive(Debug, Clone, Copy, PartialEq, Eq, Structural)]
pub enum UTXOFilter {
    To(u16),
    FromTo { from: u16, to: u16 },
    From(u16),
    Year(u16),
}

impl UTXOFilter {
    /// Whether a day with the given reversed index, in the given year, belongs to the cohort.
    pub open spec fn accepts(self, reversed_date_index: int, year: int) -> bool {
        match self {
            UTXOFilter::From(from) => from <= reversed_date_index,
            UTXOFilter::To(to) => reversed_date_index < to,
            UTXOFilter::FromTo { from, to } => from <= reversed_date_index
                && reversed_date_index < to,
            UTXOFilter::Year(y) => y == year,
        }
    }

    pub fn new_from_to(from: u16, to: u16) -> (filter: Self)
        ensures
            filter == (UTXOFilter::FromTo { from, to }),
    {
        UTXOFilter::FromTo { from, to }
    }

    pub fn check(&self, reversed_date_index: &u16, year: &u16) -> (accepted: bool)
        ensures
            accepted == self.accepts(*reversed_date_index as int, *year as int),
    {
        match self {
            UTXOFilter::From(from) => *from <= *reversed_date_index,
            UTXOFilter::To(to) => *to > *reversed_date_index,
            UTXOFilter::FromTo { from, to } => *from <= *reversed_date_index && *to
                > *reversed_date_index,
            UTXOFilter::Year(y) => *y == *year,
        }
    }
}

impl UTXOFilter {
    /// Whether slicing `len` days by this filter's bounds stays well formed:
    /// a from-to cohort whose bounds both fall inside the days must not have
    /// its upper bound below its lower one.
    pub open spec fn has_valid_bounds_for(self, len: int) -> bool {
        match self {
            UTXOFilter::FromTo { from, to } => (from < len && to <= len) ==> from <= to,
            _ => true,
        }
    }

    /// The half-open range of day positions (oldest day first, `len` days in
    /// all) that the cohort's bounds select. A `Year` cohort takes every day
    /// here and keeps those of its year afterwards.
    pub open spec fn spec_date_range(self, len: int) -> (int, int) {
        match self {
            UTXOFilter::From(from) => if from < len {
                (0, len - from)
            } else {
                (0, 0)
            },
            UTXOFilter::To(to) => if to <= len {
                (len - to, len)
            } else {
                (0, len)
            },
            UTXOFilter::FromTo { from, to } => if from < len {
                if to <= len {
                    (len - to, len - from)
                } else {
                    (0, len - from)
                }
            } else {
                (0, 0)
            },
            UTXOFilter::Year(_) => (0, len),
        }
    }

    /// The range of day positions, among `len` days, that the cohort reads.
    pub fn date_range(&self, len: usize) -> (range: (usize, usize))
        requires
            self.has_valid_bounds_for(len as int),
        ensures
            range.0 as int == self.spec_date_range(len as int).0,
            range.1 as int == self.spec_date_range(len as int).1,
            range.0 <= range.1 <= len,
    {
        match self {
            UTXOFilter::From(from) => {
                let from = *from as usize;
                if from < len {
                    (0, len - from)
                } else {
                    (0, 0)
                }
            },
            UTXOFilter::To(to) => {
                let to = *to as usize;
                if to <= len {
                    (len - to, len)
                } else {
                    (0, len)
                }
            },
            UTXOFilter::FromTo { from, to } => {
                let from = *from as usize;
                let to = *to as usize;
                if from < len {
                    if to <= len {
                        (len - to, len - from)
                    } else {
                        (0, len - from)
                    }
                } else {
                    (0, 0)
                }
            },
            UTXOFilter::Year(_) => (0, len),
        }
    }
}

/// A day falls in the range that an age cohort reads exactly when the cohort
/// accepts the day's reversed index: the slice that a cohort takes of the
/// days and the per-day check agree.
pub proof fn lemma_date_range_agrees_with_check(filter: UTXOFilter, len: int, i: int, year: int)
    requires
        0 <= i < len,
        filter.has_valid_bounds_for(len),
        !(filter is Year),
    ensures
        (filter.spec_date_range(len).0 <= i < filter.spec_date_range(len).1) <==> filter.accepts(
            len - 1 - i,
            year,
        ),
{
}

} // verus!
