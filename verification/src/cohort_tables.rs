use crate::filters::{RawAddressType, UTXOFilter};
use vstd::prelude::*;
use vstd::string::*;

verus! {

/// The size classes of addresses, from the smallest holdings up.
#[derive(Debug, Clone, Copy, PartialEq, Eq, Structural)]
pub enum RawAddressSize {
    Plankton,
    Shrimp,
    Crab,
    Fish,
    Shark,
    Whale,
    Humpback,
    Megalodon,
}

/// How an address cohort is split off: by size class or by script type.
#[derive(Debug, Clone, Copy, PartialEq, Eq, Structural)]
pub enum RawAddressSplit {
    Size(RawAddressSize),
    Type(RawAddressType),
}

/// An age cohort of unspent outputs and the folder name it is stored under.
#[derive(Debug)]
pub struct UTXOCohort {
    pub name: String,
    pub filter: UTXOFilter,
}

/// An address cohort and the folder name it is stored under.
#[derive(Debug)]
pub struct AddressCohort {
    pub name: String,
    pub split: RawAddressSplit,
}

pub open spec fn digit_char(d: int) -> char {
    if d == 0 { '0' }
    else if d == 1 { '1' }
    else if d == 2 { '2' }
    else if d == 3 { '3' }
    else if d == 4 { '4' }
    else if d == 5 { '5' }
    else if d == 6 { '6' }
    else if d == 7 { '7' }
    else if d == 8 { '8' }
    else { '9' }
}

/// The decimal digits of `n`, most significant first, with no leading zero.
pub open spec fn decimal(n: nat) -> Seq<char>
    decreases n,
{
    if n < 10 {
        seq![digit_char(n as int)]
    } else {
        decimal(n / 10).push(digit_char((n % 10) as int))
    }
}

/// The one-character text of a decimal digit.
fn digit_str(d: u16) -> (text: &'static str)
    requires
        d < 10,
    ensures
        text@ == seq![digit_char(d as int)],
{
    proof {
        reveal_strlit("0");
        reveal_strlit("1");
        reveal_strlit("2");
        reveal_strlit("3");
        reveal_strlit("4");
        reveal_strlit("5");
        reveal_strlit("6");
        reveal_strlit("7");
        reveal_strlit("8");
        reveal_strlit("9");
    }
    if d == 0 {
        "0"
    } else if d == 1 {
        "1"
    } else if d == 2 {
        "2"
    } else if d == 3 {
        "3"
    } else if d == 4 {
        "4"
    } else if d == 5 {
        "5"
    } else if d == 6 {
        "6"
    } else if d == 7 {
        "7"
    } else if d == 8 {
        "8"
    } else {
        "9"
    }
}

/// The decimal text of a year: its digits, with no sign and no padding.
fn year_name(year: u16) -> (name: String)
    ensures
        name@ == decimal(year as nat),
    decreases year,
{
    if year < 10 {
        String::from_str(digit_str(year))
    } else {
        let mut name = year_name(year / 10);
        name.append(digit_str(year % 10));
        name
    }
}

/// The age bands, youngest first: together they cover every age exactly
/// once (see `lemma_age_bands_partition`).
pub open spec fn age_bands() -> Seq<UTXOFilter> {
    seq![
        UTXOFilter::To(1),
        UTXOFilter::FromTo { from: 1, to: 7 },
        UTXOFilter::FromTo { from: 7, to: 30 },
        UTXOFilter::FromTo { from: 30, to: 90 },
        UTXOFilter::FromTo { from: 90, to: 180 },
        UTXOFilter::FromTo { from: 180, to: 365 },
        UTXOFilter::FromTo { from: 365, to: 730 },
        UTXOFilter::FromTo { from: 730, to: 1095 },
        UTXOFilter::FromTo { from: 1095, to: 1825 },
        UTXOFilter::FromTo { from: 1825, to: 2555 },
        UTXOFilter::FromTo { from: 2555, to: 3650 },
        UTXOFilter::From(3650),
    ]
}

/// The filters of the cohorts other than the yearly ones, in the order in
/// which they are listed: everything, the "up to" cohorts, the age bands,
/// then short- and long-term holders.
pub open spec fn fixed_utxo_filters() -> Seq<UTXOFilter> {
    seq![
        UTXOFilter::From(0),
        UTXOFilter::To(1),
        UTXOFilter::To(7),
        UTXOFilter::To(30),
        UTXOFilter::To(60),
        UTXOFilter::To(90),
        UTXOFilter::To(120),
        UTXOFilter::To(150),
        UTXOFilter::To(180),
        UTXOFilter::To(365),
        UTXOFilter::To(730),
        UTXOFilter::To(1095),
        UTXOFilter::To(1825),
        UTXOFilter::To(2555),
        UTXOFilter::To(3650),
    ] + age_bands().skip(1) + seq![UTXOFilter::To(155), UTXOFilter::From(155)]
}

/// The folder names of the cohorts other than the yearly ones, in the order
/// of `fixed_utxo_filters`.
pub open spec fn fixed_utxo_names() -> Seq<Seq<char>> {
    seq![
        "all"@,
        "up_to_1d"@,
        "up_to_7d"@,
        "up_to_1m"@,
        "up_to_2m"@,
        "up_to_3m"@,
        "up_to_4m"@,
        "up_to_5m"@,
        "up_to_6m"@,
        "up_to_1y"@,
        "up_to_2y"@,
        "up_to_3y"@,
        "up_to_5y"@,
        "up_to_7y"@,
        "up_to_10y"@,
        "from_1d_to_7d"@,
        "from_7d_to_1m"@,
        "from_1m_to_3m"@,
        "from_3m_to_6m"@,
        "from_6m_to_1y"@,
        "from_1y_to_2y"@,
        "from_2y_to_3y"@,
        "from_3y_to_5y"@,
        "from_5y_to_7y"@,
        "from_7y_to_10y"@,
        "from_10y_to_end"@,
        "sth"@,
        "lth"@,
    ]
}

/// The first year with blocks.
pub const FIRST_YEAR: u16 = 2009;

/// The filters of every cohort: the fixed ones, then one per year from the
/// first year with blocks up to `last_year`.
pub open spec fn spec_utxo_filters(last_year: u16) -> Seq<UTXOFilter> {
    fixed_utxo_filters() + Seq::new(
        if last_year >= FIRST_YEAR { (last_year - FIRST_YEAR + 1) as nat } else { 0 },
        |i: int| UTXOFilter::Year((FIRST_YEAR + i) as u16),
    )
}

fn push_cohort(cohorts: &mut Vec<UTXOCohort>, name: &str, filter: UTXOFilter)
    ensures
        final(cohorts)@.len() == old(cohorts)@.len() + 1,
        forall|i: int| 0 <= i < old(cohorts)@.len() ==> #[trigger] final(cohorts)@[i] == old(cohorts)@[i],
        final(cohorts)@.last().filter == filter,
        final(cohorts)@.last().name@ == name@,
{
    cohorts.push(UTXOCohort { name: String::from_str(name), filter });
}

/// The age cohorts of unspent outputs, with their folder names: every
/// output, those up to a given age, the age bands, short- and long-term
/// holders (younger or older than 155 days), and one cohort per year from
/// 2009 up to `last_year`.
pub fn utxo_cohorts(last_year: u16) -> (cohorts: Vec<UTXOCohort>)
    ensures
        cohorts@.len() == spec_utxo_filters(last_year).len(),
        forall|i: int|
            0 <= i < cohorts@.len() ==> (#[trigger] cohorts@[i]).filter == spec_utxo_filters(
                last_year,
            )[i],
        forall|i: int|
            0 <= i < fixed_utxo_filters().len() ==> (#[trigger] cohorts@[i]).name@
                == fixed_utxo_names()[i],
        forall|i: int|
            fixed_utxo_filters().len() <= i < cohorts@.len() ==> (#[trigger] cohorts@[i]).name@
                == decimal((FIRST_YEAR + i - fixed_utxo_filters().len()) as nat),
{
    let mut cohorts: Vec<UTXOCohort> = Vec::new();
    push_cohort(&mut cohorts, "all", UTXOFilter::From(0));
    push_cohort(&mut cohorts, "up_to_1d", UTXOFilter::To(1));
    push_cohort(&mut cohorts, "up_to_7d", UTXOFilter::To(7));
    push_cohort(&mut cohorts, "up_to_1m", UTXOFilter::To(30));
    push_cohort(&mut cohorts, "up_to_2m", UTXOFilter::To(2 * 30));
    push_cohort(&mut cohorts, "up_to_3m", UTXOFilter::To(3 * 30));
    push_cohort(&mut cohorts, "up_to_4m", UTXOFilter::To(4 * 30));
    push_cohort(&mut cohorts, "up_to_5m", UTXOFilter::To(5 * 30));
    push_cohort(&mut cohorts, "up_to_6m", UTXOFilter::To(6 * 30));
    push_cohort(&mut cohorts, "up_to_1y", UTXOFilter::To(365));
    push_cohort(&mut cohorts, "up_to_2y", UTXOFilter::To(2 * 365));
    push_cohort(&mut cohorts, "up_to_3y", UTXOFilter::To(3 * 365));
    push_cohort(&mut cohorts, "up_to_5y", UTXOFilter::To(5 * 365));
    push_cohort(&mut cohorts, "up_to_7y", UTXOFilter::To(7 * 365));
    push_cohort(&mut cohorts, "up_to_10y", UTXOFilter::To(10 * 365));
    push_cohort(&mut cohorts, "from_1d_to_7d", UTXOFilter::new_from_to(1, 7));
    push_cohort(&mut cohorts, "from_7d_to_1m", UTXOFilter::new_from_to(7, 30));
    push_cohort(&mut cohorts, "from_1m_to_3m", UTXOFilter::new_from_to(30, 3 * 30));
    push_cohort(&mut cohorts, "from_3m_to_6m", UTXOFilter::new_from_to(3 * 30, 6 * 30));
    push_cohort(&mut cohorts, "from_6m_to_1y", UTXOFilter::new_from_to(6 * 30, 365));
    push_cohort(&mut cohorts, "from_1y_to_2y", UTXOFilter::new_from_to(365, 2 * 365));
    push_cohort(&mut cohorts, "from_2y_to_3y", UTXOFilter::new_from_to(2 * 365, 3 * 365));
    push_cohort(&mut cohorts, "from_3y_to_5y", UTXOFilter::new_from_to(3 * 365, 5 * 365));
    push_cohort(&mut cohorts, "from_5y_to_7y", UTXOFilter::new_from_to(5 * 365, 7 * 365));
    push_cohort(&mut cohorts, "from_7y_to_10y", UTXOFilter::new_from_to(7 * 365, 10 * 365));
    push_cohort(&mut cohorts, "from_10y_to_end", UTXOFilter::From(10 * 365));
    push_cohort(&mut cohorts, "sth", UTXOFilter::To(155));
    push_cohort(&mut cohorts, "lth", UTXOFilter::From(155));
    let ghost fixed = fixed_utxo_filters();
    assert(cohorts@.len() == fixed.len());
    assert forall|i: int| 0 <= i < cohorts@.len() implies (#[trigger] cohorts@[i]).filter == fixed[i] by {
        assert(age_bands().skip(1)[0] == UTXOFilter::FromTo { from: 1, to: 7 });
    }
    let ghost names = fixed_utxo_names();
    assert forall|i: int| 0 <= i < cohorts@.len() implies (#[trigger] cohorts@[i]).name@ == names[i] by {}
    let count: u16 = if last_year >= FIRST_YEAR { last_year - FIRST_YEAR + 1 } else { 0 };
    let mut k: u16 = 0;
    while k < count
        invariant
            k <= count,
            count == (if last_year >= FIRST_YEAR { (last_year - FIRST_YEAR + 1) as u16 } else { 0u16 }),
            cohorts@.len() == fixed.len() + k,
            fixed == fixed_utxo_filters(),
            forall|i: int| 0 <= i < fixed.len() ==> (#[trigger] cohorts@[i]).filter == fixed[i],
            names == fixed_utxo_names(),
            forall|i: int| 0 <= i < fixed.len() ==> (#[trigger] cohorts@[i]).name@ == names[i],
            forall|i: int|
                fixed.len() <= i < cohorts@.len() ==> (#[trigger] cohorts@[i]).filter
                    == UTXOFilter::Year((FIRST_YEAR + i - fixed.len()) as u16),
            forall|i: int|
                fixed.len() <= i < cohorts@.len() ==> (#[trigger] cohorts@[i]).name@ == decimal(
                    (FIRST_YEAR + i - fixed.len()) as nat,
                ),
        decreases count - k,
    {
        let year = FIRST_YEAR + k;
        let name = year_name(year);
        cohorts.push(UTXOCohort { name, filter: UTXOFilter::Year(year) });
        k = k + 1;
    }
    assert(cohorts@.len() == spec_utxo_filters(last_year).len());
    cohorts
}

/// The address cohorts, with their folder names: eight size classes, then
/// six script types.
pub open spec fn spec_address_splits() -> Seq<RawAddressSplit> {
    seq![
        RawAddressSplit::Size(RawAddressSize::Plankton),
        RawAddressSplit::Size(RawAddressSize::Shrimp),
        RawAddressSplit::Size(RawAddressSize::Crab),
        RawAddressSplit::Size(RawAddressSize::Fish),
        RawAddressSplit::Size(RawAddressSize::Shark),
        RawAddressSplit::Size(RawAddressSize::Whale),
        RawAddressSplit::Size(RawAddressSize::Humpback),
        RawAddressSplit::Size(RawAddressSize::Megalodon),
        RawAddressSplit::Type(RawAddressType::P2PK),
        RawAddressSplit::Type(RawAddressType::P2PKH),
        RawAddressSplit::Type(RawAddressType::P2SH),
        RawAddressSplit::Type(RawAddressType::P2WPKH),
        RawAddressSplit::Type(RawAddressType::P2WSH),
        RawAddressSplit::Type(RawAddressType::P2TR),
    ]
}

/// The folder names of the address cohorts, in the order of
/// `spec_address_splits`.
pub open spec fn spec_address_names() -> Seq<Seq<char>> {
    seq![
        "plankton"@,
        "shrimp"@,
        "crab"@,
        "fish"@,
        "shark"@,
        "whale"@,
        "humpback"@,
        "megalodon"@,
        "p2pk"@,
        "p2pkh"@,
        "p2sh"@,
        "p2wpkh"@,
        "p2wsh"@,
        "p2tr"@,
    ]
}

fn push_address_cohort(cohorts: &mut Vec<AddressCohort>, name: &str, split: RawAddressSplit)
    ensures
        final(cohorts)@.len() == old(cohorts)@.len() + 1,
        forall|i: int| 0 <= i < old(cohorts)@.len() ==> #[trigger] final(cohorts)@[i] == old(cohorts)@[i],
        final(cohorts)@.last().split == split,
        final(cohorts)@.last().name@ == name@,
{
    cohorts.push(AddressCohort { name: String::from_str(name), split });
}

/// The address cohorts with their folder names.
pub fn address_cohorts() -> (cohorts: Vec<AddressCohort>)
    ensures
        cohorts@.len() == spec_address_splits().len(),
        forall|i: int|
            0 <= i < cohorts@.len() ==> (#[trigger] cohorts@[i]).split == spec_address_splits()[i],
        forall|i: int|
            0 <= i < cohorts@.len() ==> (#[trigger] cohorts@[i]).name@ == spec_address_names()[i],
{
    let mut cohorts: Vec<AddressCohort> = Vec::new();
    push_address_cohort(&mut cohorts, "plankton", RawAddressSplit::Size(RawAddressSize::Plankton));
    push_address_cohort(&mut cohorts, "shrimp", RawAddressSplit::Size(RawAddressSize::Shrimp));
    push_address_cohort(&mut cohorts, "crab", RawAddressSplit::Size(RawAddressSize::Crab));
    push_address_cohort(&mut cohorts, "fish", RawAddressSplit::Size(RawAddressSize::Fish));
    push_address_cohort(&mut cohorts, "shark", RawAddressSplit::Size(RawAddressSize::Shark));
    push_address_cohort(&mut cohorts, "whale", RawAddressSplit::Size(RawAddressSize::Whale));
    push_address_cohort(&mut cohorts, "humpback", RawAddressSplit::Size(RawAddressSize::Humpback));
    push_address_cohort(&mut cohorts, "megalodon", RawAddressSplit::Size(RawAddressSize::Megalodon));
    push_address_cohort(&mut cohorts, "p2pk", RawAddressSplit::Type(RawAddressType::P2PK));
    push_address_cohort(&mut cohorts, "p2pkh", RawAddressSplit::Type(RawAddressType::P2PKH));
    push_address_cohort(&mut cohorts, "p2sh", RawAddressSplit::Type(RawAddressType::P2SH));
    push_address_cohort(&mut cohorts, "p2wpkh", RawAddressSplit::Type(RawAddressType::P2WPKH));
    push_address_cohort(&mut cohorts, "p2wsh", RawAddressSplit::Type(RawAddressType::P2WSH));
    push_address_cohort(&mut cohorts, "p2tr", RawAddressSplit::Type(RawAddressType::P2TR));
    let ghost names = spec_address_names();
    assert forall|i: int| 0 <= i < cohorts@.len() implies (#[trigger] cohorts@[i]).name@ == names[i] by {}
    cohorts
}

/// The number of days in one of the time units that cohort names use:
/// `d` a day, `m` a month of 30 days, `y` a year of 365 days.
pub open spec fn unit_days(unit: char) -> int {
    if unit == 'd' {
        1
    } else if unit == 'm' {
        30
    } else if unit == 'y' {
        365
    } else {
        0
    }
}

/// `name` reads `up_to_<count><unit>` and `filter` selects the outputs
/// younger than that many days.
pub open spec fn up_to_named(name: Seq<char>, filter: UTXOFilter, count: nat, unit: char) -> bool {
    &&& name == "up_to_"@ + decimal(count) + seq![unit]
    &&& unit_days(unit) > 0
    &&& filter matches UTXOFilter::To(days) && days == count * unit_days(unit)
}

/// `name` reads `from_<a><unit>_to_<b><unit>` and `filter` selects the
/// outputs at least `a` and less than `b` of those units old.
pub open spec fn from_to_named(
    name: Seq<char>,
    filter: UTXOFilter,
    from: nat,
    from_unit: char,
    to: nat,
    to_unit: char,
) -> bool {
    &&& name == "from_"@ + decimal(from) + seq![from_unit] + "_to_"@ + decimal(to) + seq![to_unit]
    &&& unit_days(from_unit) > 0
    &&& unit_days(to_unit) > 0
    &&& filter matches UTXOFilter::FromTo { from: f, to: t } && f == from * unit_days(from_unit) && t
        == to * unit_days(to_unit)
}

/// `name` reads `from_<a><unit>_to_end` and `filter` selects the outputs at
/// least that old.
pub open spec fn from_named(name: Seq<char>, filter: UTXOFilter, from: nat, unit: char) -> bool {
    &&& name == "from_"@ + decimal(from) + seq![unit] + "_to_end"@
    &&& unit_days(unit) > 0
    &&& filter matches UTXOFilter::From(days) && days == from * unit_days(unit)
}

/// Whether a cohort's folder name says which ages its filter selects: an
/// `up_to_`, `from_.._to_..` or `from_.._to_end` name with its counts and
/// units turned into days, `all` for every age, and `sth` and `lth` for the
/// short- and long-term holders, split at 155 days.
pub open spec fn name_describes(name: Seq<char>, filter: UTXOFilter) -> bool {
    ||| exists|count: nat, unit: char| #[trigger] up_to_named(name, filter, count, unit)
    ||| exists|from: nat, from_unit: char, to: nat, to_unit: char|
        #[trigger] from_to_named(name, filter, from, from_unit, to, to_unit)
    ||| exists|from: nat, unit: char| #[trigger] from_named(name, filter, from, unit)
    ||| name == "all"@ && filter == UTXOFilter::From(0)
    ||| name == "sth"@ && filter == UTXOFilter::To(155)
    ||| name == "lth"@ && filter == UTXOFilter::From(155)
}

proof fn lemma_small_decimals()
    ensures
        decimal(1) == "1"@,
        decimal(2) == "2"@,
        decimal(3) == "3"@,
        decimal(4) == "4"@,
        decimal(5) == "5"@,
        decimal(6) == "6"@,
        decimal(7) == "7"@,
        decimal(10) == "10"@,
{
    reveal_strlit("1");
    reveal_strlit("10");
    reveal_strlit("2");
    reveal_strlit("3");
    reveal_strlit("4");
    reveal_strlit("5");
    reveal_strlit("6");
    reveal_strlit("7");
    assert(decimal(1) =~= "1"@);
    assert(decimal(2) =~= "2"@);
    assert(decimal(3) =~= "3"@);
    assert(decimal(4) =~= "4"@);
    assert(decimal(5) =~= "5"@);
    assert(decimal(6) =~= "6"@);
    assert(decimal(7) =~= "7"@);
    assert(decimal(10) =~= decimal(1).push(digit_char(0)));
    assert(decimal(10) =~= "10"@);
}

/// Every fixed age cohort's folder name says exactly which ages its filter
/// selects: `up_to_5y` is the outputs younger than 5 × 365 days, `from_1m_to_3m`
/// those from 30 to 90 days old, and so on.
pub proof fn lemma_cohort_names_describe_filters(k: int)
    requires
        0 <= k < fixed_utxo_filters().len(),
    ensures
        fixed_utxo_names().len() == fixed_utxo_filters().len(),
        name_describes(fixed_utxo_names()[k], fixed_utxo_filters()[k]),
{
    lemma_small_decimals();
    let names = fixed_utxo_names();
    let filters = fixed_utxo_filters();
    assert(age_bands().skip(1)[0] == UTXOFilter::FromTo { from: 1, to: 7 });
    reveal_strlit("up_to_");
    reveal_strlit("from_");
    reveal_strlit("_to_");
    reveal_strlit("_to_end");
    if k == 0 {
        reveal_strlit("all");
    }
    if k == 1 {
        reveal_strlit("up_to_1d");
        assert(names[1] =~= "up_to_"@ + decimal(1) + seq!['d']);
        assert(up_to_named(names[1], filters[1], 1, 'd'));
    }
    if k == 2 {
        reveal_strlit("up_to_7d");
        assert(names[2] =~= "up_to_"@ + decimal(7) + seq!['d']);
        assert(up_to_named(names[2], filters[2], 7, 'd'));
    }
    if k == 3 {
        reveal_strlit("up_to_1m");
        assert(names[3] =~= "up_to_"@ + decimal(1) + seq!['m']);
        assert(up_to_named(names[3], filters[3], 1, 'm'));
    }
    if k == 4 {
        reveal_strlit("up_to_2m");
        assert(names[4] =~= "up_to_"@ + decimal(2) + seq!['m']);
        assert(up_to_named(names[4], filters[4], 2, 'm'));
    }
    if k == 5 {
        reveal_strlit("up_to_3m");
        assert(names[5] =~= "up_to_"@ + decimal(3) + seq!['m']);
        assert(up_to_named(names[5], filters[5], 3, 'm'));
    }
    if k == 6 {
        reveal_strlit("up_to_4m");
        assert(names[6] =~= "up_to_"@ + decimal(4) + seq!['m']);
        assert(up_to_named(names[6], filters[6], 4, 'm'));
    }
    if k == 7 {
        reveal_strlit("up_to_5m");
        assert(names[7] =~= "up_to_"@ + decimal(5) + seq!['m']);
        assert(up_to_named(names[7], filters[7], 5, 'm'));
    }
    if k == 8 {
        reveal_strlit("up_to_6m");
        assert(names[8] =~= "up_to_"@ + decimal(6) + seq!['m']);
        assert(up_to_named(names[8], filters[8], 6, 'm'));
    }
    if k == 9 {
        reveal_strlit("up_to_1y");
        assert(names[9] =~= "up_to_"@ + decimal(1) + seq!['y']);
        assert(up_to_named(names[9], filters[9], 1, 'y'));
    }
    if k == 10 {
        reveal_strlit("up_to_2y");
        assert(names[10] =~= "up_to_"@ + decimal(2) + seq!['y']);
        assert(up_to_named(names[10], filters[10], 2, 'y'));
    }
    if k == 11 {
        reveal_strlit("up_to_3y");
        assert(names[11] =~= "up_to_"@ + decimal(3) + seq!['y']);
        assert(up_to_named(names[11], filters[11], 3, 'y'));
    }
    if k == 12 {
        reveal_strlit("up_to_5y");
        assert(names[12] =~= "up_to_"@ + decimal(5) + seq!['y']);
        assert(up_to_named(names[12], filters[12], 5, 'y'));
    }
    if k == 13 {
        reveal_strlit("up_to_7y");
        assert(names[13] =~= "up_to_"@ + decimal(7) + seq!['y']);
        assert(up_to_named(names[13], filters[13], 7, 'y'));
    }
    if k == 14 {
        reveal_strlit("up_to_10y");
        assert(names[14] =~= "up_to_"@ + decimal(10) + seq!['y']);
        assert(up_to_named(names[14], filters[14], 10, 'y'));
    }
    if k == 15 {
        reveal_strlit("from_1d_to_7d");
        assert(names[15] =~= "from_"@ + decimal(1) + seq!['d'] + "_to_"@ + decimal(7) + seq!['d']);
        assert(from_to_named(names[15], filters[15], 1, 'd', 7, 'd'));
    }
    if k == 16 {
        reveal_strlit("from_7d_to_1m");
        assert(names[16] =~= "from_"@ + decimal(7) + seq!['d'] + "_to_"@ + decimal(1) + seq!['m']);
        assert(from_to_named(names[16], filters[16], 7, 'd', 1, 'm'));
    }
    if k == 17 {
        reveal_strlit("from_1m_to_3m");
        assert(names[17] =~= "from_"@ + decimal(1) + seq!['m'] + "_to_"@ + decimal(3) + seq!['m']);
        assert(from_to_named(names[17], filters[17], 1, 'm', 3, 'm'));
    }
    if k == 18 {
        reveal_strlit("from_3m_to_6m");
        assert(names[18] =~= "from_"@ + decimal(3) + seq!['m'] + "_to_"@ + decimal(6) + seq!['m']);
        assert(from_to_named(names[18], filters[18], 3, 'm', 6, 'm'));
    }
    if k == 19 {
        reveal_strlit("from_6m_to_1y");
        assert(names[19] =~= "from_"@ + decimal(6) + seq!['m'] + "_to_"@ + decimal(1) + seq!['y']);
        assert(from_to_named(names[19], filters[19], 6, 'm', 1, 'y'));
    }
    if k == 20 {
        reveal_strlit("from_1y_to_2y");
        assert(names[20] =~= "from_"@ + decimal(1) + seq!['y'] + "_to_"@ + decimal(2) + seq!['y']);
        assert(from_to_named(names[20], filters[20], 1, 'y', 2, 'y'));
    }
    if k == 21 {
        reveal_strlit("from_2y_to_3y");
        assert(names[21] =~= "from_"@ + decimal(2) + seq!['y'] + "_to_"@ + decimal(3) + seq!['y']);
        assert(from_to_named(names[21], filters[21], 2, 'y', 3, 'y'));
    }
    if k == 22 {
        reveal_strlit("from_3y_to_5y");
        assert(names[22] =~= "from_"@ + decimal(3) + seq!['y'] + "_to_"@ + decimal(5) + seq!['y']);
        assert(from_to_named(names[22], filters[22], 3, 'y', 5, 'y'));
    }
    if k == 23 {
        reveal_strlit("from_5y_to_7y");
        assert(names[23] =~= "from_"@ + decimal(5) + seq!['y'] + "_to_"@ + decimal(7) + seq!['y']);
        assert(from_to_named(names[23], filters[23], 5, 'y', 7, 'y'));
    }
    if k == 24 {
        reveal_strlit("from_7y_to_10y");
        assert(names[24] =~= "from_"@ + decimal(7) + seq!['y'] + "_to_"@ + decimal(10) + seq!['y']);
        assert(from_to_named(names[24], filters[24], 7, 'y', 10, 'y'));
    }
    if k == 25 {
        reveal_strlit("from_10y_to_end");
        assert(names[25] =~= "from_"@ + decimal(10) + seq!['y'] + "_to_end"@);
        assert(from_named(names[25], filters[25], 10, 'y'));
    }
    if k == 26 {
        reveal_strlit("sth");
    }
    if k == 27 {
        reveal_strlit("lth");
    }
}

/// The "up to" cohorts are nested: each accepts every age that the one
/// before it accepts, and some more.
pub proof fn lemma_up_to_cohorts_nested(i: int, j: int, age: int, year: int)
    requires
        1 <= i < j <= 14,
    ensures
        fixed_utxo_filters()[i] is To,
        fixed_utxo_filters()[j] is To,
        fixed_utxo_filters()[i]->To_0 < fixed_utxo_filters()[j]->To_0,
        fixed_utxo_filters()[i].accepts(age, year) ==> fixed_utxo_filters()[j].accepts(age, year),
{
}

/// Every size class and every script type has exactly one address cohort.
pub proof fn lemma_address_cohorts_cover_each_split(split: RawAddressSplit)
    ensures
        exists|i: int| 0 <= i < spec_address_splits().len() && #[trigger] spec_address_splits()[i] == split,
        forall|i: int, j: int|
            0 <= i < j < spec_address_splits().len() ==> #[trigger] spec_address_splits()[i]
                != #[trigger] spec_address_splits()[j],
{
    let s = spec_address_splits();
    match split {
        RawAddressSplit::Size(RawAddressSize::Plankton) => assert(s[0] == split),
        RawAddressSplit::Size(RawAddressSize::Shrimp) => assert(s[1] == split),
        RawAddressSplit::Size(RawAddressSize::Crab) => assert(s[2] == split),
        RawAddressSplit::Size(RawAddressSize::Fish) => assert(s[3] == split),
        RawAddressSplit::Size(RawAddressSize::Shark) => assert(s[4] == split),
        RawAddressSplit::Size(RawAddressSize::Whale) => assert(s[5] == split),
        RawAddressSplit::Size(RawAddressSize::Humpback) => assert(s[6] == split),
        RawAddressSplit::Size(RawAddressSize::Megalodon) => assert(s[7] == split),
        RawAddressSplit::Type(RawAddressType::P2PK) => assert(s[8] == split),
        RawAddressSplit::Type(RawAddressType::P2PKH) => assert(s[9] == split),
        RawAddressSplit::Type(RawAddressType::P2SH) => assert(s[10] == split),
        RawAddressSplit::Type(RawAddressType::P2WPKH) => assert(s[11] == split),
        RawAddressSplit::Type(RawAddressType::P2WSH) => assert(s[12] == split),
        RawAddressSplit::Type(RawAddressType::P2TR) => assert(s[13] == split),
    }
}

/// Every age falls in exactly one age band.
pub proof fn lemma_age_bands_partition(reversed_date_index: int, year: int)
    requires
        reversed_date_index >= 0,
    ensures
        exists|i: int| 0 <= i < age_bands().len() && #[trigger] age_bands()[i].accepts(reversed_date_index, year),
        forall|i: int, j: int|
            0 <= i < j < age_bands().len() ==> !(#[trigger] age_bands()[i].accepts(reversed_date_index, year)
                && #[trigger] age_bands()[j].accepts(reversed_date_index, year)),
{
    let b = age_bands();
    let r = reversed_date_index;
    if r < 1 { assert(b[0].accepts(r, year)); }
    else if r < 7 { assert(b[1].accepts(r, year)); }
    else if r < 30 { assert(b[2].accepts(r, year)); }
    else if r < 90 { assert(b[3].accepts(r, year)); }
    else if r < 180 { assert(b[4].accepts(r, year)); }
    else if r < 365 { assert(b[5].accepts(r, year)); }
    else if r < 730 { assert(b[6].accepts(r, year)); }
    else if r < 1095 { assert(b[7].accepts(r, year)); }
    else if r < 1825 { assert(b[8].accepts(r, year)); }
    else if r < 2555 { assert(b[9].accepts(r, year)); }
    else if r < 3650 { assert(b[10].accepts(r, year)); }
    else { assert(b[11].accepts(r, year)); }
}

/// Every age is either short-term (under 155 days) or long-term, never both.
pub proof fn lemma_holders_split(reversed_date_index: int, year: int)
    ensures
        UTXOFilter::To(155).accepts(reversed_date_index, year) != UTXOFilter::From(155).accepts(
            reversed_date_index,
            year,
        ),
{
}

} // verus!
