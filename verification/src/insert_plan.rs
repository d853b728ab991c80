use crate::min_initial_state::DatasetState;
use vstd::prelude::*;

verus! {

/// One kind of data that a cohort inserts for a block.
#[derive(Debug, Clone, Copy, PartialEq, Eq, Structural)]
pub enum CohortInsertStep {
    Metadata,
    Utxo,
    Supply,
    Realized,
    Unrealized,
    PricePaid,
    Input,
    Output,
}

/// The states of the datasets of one cohort split, which decide what it
/// still needs.
#[derive(Debug, Clone, Copy, PartialEq, Eq, Structural)]
pub struct SubDataset {
    pub input: DatasetState,
    pub output: DatasetState,
    pub price_paid: DatasetState,
    pub realized: DatasetState,
    pub supply: DatasetState,
    pub unrealized: DatasetState,
    pub utxo: DatasetState,
}

/// The datasets of a cohort split.
#[derive(Debug, Clone, Copy, PartialEq, Eq, Structural)]
pub enum SubDatasetKind {
    Input,
    Output,
    PricePaid,
    Realized,
    Supply,
    Unrealized,
    Utxo,
}

impl SubDataset {
    pub open spec fn spec_state_of(self, kind: SubDatasetKind) -> DatasetState {
        match kind {
            SubDatasetKind::Input => self.input,
            SubDatasetKind::Output => self.output,
            SubDatasetKind::PricePaid => self.price_paid,
            SubDatasetKind::Realized => self.realized,
            SubDatasetKind::Supply => self.supply,
            SubDatasetKind::Unrealized => self.unrealized,
            SubDatasetKind::Utxo => self.utxo,
        }
    }

    /// The state of the split's dataset of the given kind.
    pub fn state_of(&self, kind: SubDatasetKind) -> (state: DatasetState)
        ensures
            state == self.spec_state_of(kind),
    {
        match kind {
            SubDatasetKind::Input => self.input,
            SubDatasetKind::Output => self.output,
            SubDatasetKind::PricePaid => self.price_paid,
            SubDatasetKind::Realized => self.realized,
            SubDatasetKind::Supply => self.supply,
            SubDatasetKind::Unrealized => self.unrealized,
            SubDatasetKind::Utxo => self.utxo,
        }
    }
}

/// What decides the insertions of an address cohort: the state of its
/// address-count dataset and of the datasets of each of its four liquidity
/// splits.
#[derive(Debug, Clone, Copy, PartialEq, Eq, Structural)]
pub struct CohortDataset {
    pub metadata: DatasetState,
    pub all: SubDataset,
    pub illiquid: SubDataset,
    pub liquid: SubDataset,
    pub highly_liquid: SubDataset,
}

/// What an address cohort needs for a block.
#[derive(Debug, Clone, Copy, PartialEq, Eq, Structural)]
pub struct CohortNeeds {
    pub metadata: bool,
    pub utxo: bool,
    pub supply: bool,
    pub price_paid: bool,
    pub realized: bool,
    pub unrealized: bool,
    pub input: bool,
    pub output: bool,
}

pub open spec fn step_if(needed: bool, step: CohortInsertStep) -> Seq<CohortInsertStep> {
    if needed {
        seq![step]
    } else {
        Seq::empty()
    }
}

/// The insertions of an address cohort, in the order they are made. Nothing
/// is inserted when the block holds no address state for the cohort; the
/// supply is inserted whenever the price paid is, and before it, since the
/// price paid reads the supply just stored.
pub open spec fn spec_cohort_steps(needs: CohortNeeds, has_address_state: bool) -> Seq<
    CohortInsertStep,
> {
    if !has_address_state {
        Seq::empty()
    } else {
        step_if(needs.metadata, CohortInsertStep::Metadata) + step_if(
            needs.utxo,
            CohortInsertStep::Utxo,
        ) + step_if(needs.price_paid || needs.supply, CohortInsertStep::Supply) + step_if(
            needs.realized,
            CohortInsertStep::Realized,
        ) + step_if(needs.unrealized, CohortInsertStep::Unrealized) + step_if(
            needs.price_paid,
            CohortInsertStep::PricePaid,
        ) + step_if(needs.input, CohortInsertStep::Input) + step_if(
            needs.output,
            CohortInsertStep::Output,
        )
    }
}

/// The insertions of an age cohort, in the order they are made: each of its
/// datasets that still needs the block.
pub open spec fn spec_utxo_cohort_steps(subs: SubDataset, height: int, date: int) -> Seq<
    CohortInsertStep,
> {
    step_if(needs(subs.supply, height, date), CohortInsertStep::Supply) + step_if(
        needs(subs.utxo, height, date),
        CohortInsertStep::Utxo,
    ) + step_if(needs(subs.unrealized, height, date), CohortInsertStep::Unrealized) + step_if(
        needs(subs.price_paid, height, date),
        CohortInsertStep::PricePaid,
    ) + step_if(needs(subs.realized, height, date), CohortInsertStep::Realized) + step_if(
        needs(subs.input, height, date),
        CohortInsertStep::Input,
    ) + step_if(needs(subs.output, height, date), CohortInsertStep::Output)
}

pub open spec fn needs(state: DatasetState, height: int, date: int) -> bool {
    state.spec_should_insert_height(height) || state.spec_should_insert_date(date)
}

fn push_if(steps: &mut Vec<CohortInsertStep>, needed: bool, step: CohortInsertStep)
    ensures
        final(steps)@ == old(steps)@ + step_if(needed, step),
{
    if needed {
        steps.push(step);
    }
    proof {
        if !needed {
            assert(old(steps)@ + step_if(needed, step) =~= old(steps)@);
        }
    }
}

impl CohortDataset {
    pub open spec fn splits(self) -> Seq<SubDataset> {
        seq![self.all, self.illiquid, self.liquid, self.highly_liquid]
    }

    /// Whether any liquidity split still needs the block for its dataset of
    /// the given kind.
    pub open spec fn any_split_needs(self, kind: SubDatasetKind, height: int, date: int) -> bool {
        exists|i: int| 0 <= i < 4 && needs((#[trigger] self.splits()[i]).spec_state_of(kind), height, date)
    }

    pub open spec fn spec_needs(self, height: int, date: int) -> CohortNeeds {
        CohortNeeds {
            metadata: needs(self.metadata, height, date),
            utxo: self.any_split_needs(SubDatasetKind::Utxo, height, date),
            supply: self.any_split_needs(SubDatasetKind::Supply, height, date),
            price_paid: self.any_split_needs(SubDatasetKind::PricePaid, height, date),
            realized: self.any_split_needs(SubDatasetKind::Realized, height, date),
            unrealized: self.any_split_needs(SubDatasetKind::Unrealized, height, date),
            input: self.any_split_needs(SubDatasetKind::Input, height, date),
            output: self.any_split_needs(SubDatasetKind::Output, height, date),
        }
    }

    /// The four liquidity splits: all, illiquid, liquid, highly liquid.
    pub fn sub_datasets_vec(&self) -> (subs: Vec<SubDataset>)
        ensures
            subs@ == self.splits(),
    {
        let subs = vec![self.all, self.illiquid, self.liquid, self.highly_liquid];
        assert(subs@ =~= self.splits());
        subs
    }

    pub fn needs_metadata(&self, date: i32, height: usize) -> (needed: bool)
        ensures
            needed == needs(self.metadata, height as int, date as int),
    {
        self.metadata.should_insert_date(date) || self.metadata.should_insert_height(height)
    }

    /// Whether any liquidity split still needs the block for its dataset of
    /// the given kind.
    pub fn needs_data(&self, kind: SubDatasetKind, date: i32, height: usize) -> (needed: bool)
        ensures
            needed == self.any_split_needs(kind, height as int, date as int),
    {
        let subs = self.sub_datasets_vec();
        let mut i: usize = 0;
        while i < 4
            invariant
                i <= 4,
                subs@ == self.splits(),
                forall|j: int|
                    0 <= j < i ==> !needs(
                        (#[trigger] self.splits()[j]).spec_state_of(kind),
                        height as int,
                        date as int,
                    ),
            decreases 4 - i,
        {
            if subs[i].state_of(kind).should_insert(height, date) {
                return true;
            }
            i = i + 1;
        }
        false
    }

    pub fn needs_utxo_data(&self, date: i32, height: usize) -> (needed: bool)
        ensures
            needed == self.any_split_needs(SubDatasetKind::Utxo, height as int, date as int),
    {
        self.needs_data(SubDatasetKind::Utxo, date, height)
    }

    pub fn needs_supply_data(&self, date: i32, height: usize) -> (needed: bool)
        ensures
            needed == self.any_split_needs(SubDatasetKind::Supply, height as int, date as int),
    {
        self.needs_data(SubDatasetKind::Supply, date, height)
    }

    pub fn needs_price_paid_data(&self, date: i32, height: usize) -> (needed: bool)
        ensures
            needed == self.any_split_needs(SubDatasetKind::PricePaid, height as int, date as int),
    {
        self.needs_data(SubDatasetKind::PricePaid, date, height)
    }

    pub fn needs_realized_data(&self, date: i32, height: usize) -> (needed: bool)
        ensures
            needed == self.any_split_needs(SubDatasetKind::Realized, height as int, date as int),
    {
        self.needs_data(SubDatasetKind::Realized, date, height)
    }

    pub fn needs_unrealized_data(&self, date: i32, height: usize) -> (needed: bool)
        ensures
            needed == self.any_split_needs(SubDatasetKind::Unrealized, height as int, date as int),
    {
        self.needs_data(SubDatasetKind::Unrealized, date, height)
    }

    pub fn needs_input_data(&self, date: i32, height: usize) -> (needed: bool)
        ensures
            needed == self.any_split_needs(SubDatasetKind::Input, height as int, date as int),
    {
        self.needs_data(SubDatasetKind::Input, date, height)
    }

    pub fn needs_output_data(&self, date: i32, height: usize) -> (needed: bool)
        ensures
            needed == self.any_split_needs(SubDatasetKind::Output, height as int, date as int),
    {
        self.needs_data(SubDatasetKind::Output, date, height)
    }

    /// What the cohort needs for the block at `height` on day `date`.
    pub fn needs(&self, height: usize, date: i32) -> (n: CohortNeeds)
        ensures
            n == self.spec_needs(height as int, date as int),
    {
        CohortNeeds {
            metadata: self.needs_metadata(date, height),
            utxo: self.needs_utxo_data(date, height),
            supply: self.needs_supply_data(date, height),
            price_paid: self.needs_price_paid_data(date, height),
            realized: self.needs_realized_data(date, height),
            unrealized: self.needs_unrealized_data(date, height),
            input: self.needs_input_data(date, height),
            output: self.needs_output_data(date, height),
        }
    }

    /// The insertions that the cohort makes for the block at `height` on day
    /// `date`, in order; `has_address_state` tells whether the block carries
    /// the cohort's address state at all.
    pub fn insert_steps(&self, height: usize, date: i32, has_address_state: bool) -> (steps: Vec<
        CohortInsertStep,
    >)
        ensures
            steps@ == spec_cohort_steps(self.spec_needs(height as int, date as int), has_address_state),
    {
        let n = self.needs(height, date);
        cohort_steps(&n, has_address_state)
    }
}

/// The insertions of an address cohort with the given needs, in order.
pub fn cohort_steps(needs: &CohortNeeds, has_address_state: bool) -> (steps: Vec<CohortInsertStep>)
    ensures
        steps@ == spec_cohort_steps(*needs, has_address_state),
{
    let mut steps: Vec<CohortInsertStep> = Vec::new();
    if !has_address_state {
        return steps;
    }
    push_if(&mut steps, needs.metadata, CohortInsertStep::Metadata);
    push_if(&mut steps, needs.utxo, CohortInsertStep::Utxo);
    push_if(&mut steps, needs.price_paid || needs.supply, CohortInsertStep::Supply);
    push_if(&mut steps, needs.realized, CohortInsertStep::Realized);
    push_if(&mut steps, needs.unrealized, CohortInsertStep::Unrealized);
    push_if(&mut steps, needs.price_paid, CohortInsertStep::PricePaid);
    push_if(&mut steps, needs.input, CohortInsertStep::Input);
    push_if(&mut steps, needs.output, CohortInsertStep::Output);
    assert(steps@ =~= spec_cohort_steps(*needs, has_address_state));
    steps
}

/// The insertions of an age cohort for the block at `height` on day `date`,
/// in order.
pub fn utxo_cohort_steps(subs: &SubDataset, height: usize, date: i32) -> (steps: Vec<CohortInsertStep>)
    ensures
        steps@ == spec_utxo_cohort_steps(*subs, height as int, date as int),
{
    let mut steps: Vec<CohortInsertStep> = Vec::new();
    push_if(&mut steps, subs.supply.should_insert(height, date), CohortInsertStep::Supply);
    push_if(&mut steps, subs.utxo.should_insert(height, date), CohortInsertStep::Utxo);
    push_if(&mut steps, subs.unrealized.should_insert(height, date), CohortInsertStep::Unrealized);
    push_if(&mut steps, subs.price_paid.should_insert(height, date), CohortInsertStep::PricePaid);
    push_if(&mut steps, subs.realized.should_insert(height, date), CohortInsertStep::Realized);
    push_if(&mut steps, subs.input.should_insert(height, date), CohortInsertStep::Input);
    push_if(&mut steps, subs.output.should_insert(height, date), CohortInsertStep::Output);
    assert(steps@ =~= spec_utxo_cohort_steps(*subs, height as int, date as int));
    steps
}

/// The position of each kind of insertion in the order of a cohort's steps.
pub open spec fn step_rank(step: CohortInsertStep) -> int {
    match step {
        CohortInsertStep::Metadata => 0,
        CohortInsertStep::Utxo => 1,
        CohortInsertStep::Supply => 2,
        CohortInsertStep::Realized => 3,
        CohortInsertStep::Unrealized => 4,
        CohortInsertStep::PricePaid => 5,
        CohortInsertStep::Input => 6,
        CohortInsertStep::Output => 7,
    }
}

pub open spec fn ranks_increase(steps: Seq<CohortInsertStep>) -> bool {
    forall|i: int, j: int| 0 <= i < j < steps.len() ==> step_rank(steps[i]) < step_rank(steps[j])
}

pub open spec fn ranks_below(steps: Seq<CohortInsertStep>, bound: int) -> bool {
    forall|i: int| 0 <= i < steps.len() ==> step_rank(#[trigger] steps[i]) < bound
}

proof fn lemma_extend_steps(steps: Seq<CohortInsertStep>, needed: bool, step: CohortInsertStep, bound: int)
    requires
        ranks_increase(steps),
        ranks_below(steps, bound),
        bound <= step_rank(step),
    ensures
        ranks_increase(steps + step_if(needed, step)),
        ranks_below(steps + step_if(needed, step), step_rank(step) + 1),
{
    let t = steps + step_if(needed, step);
    assert forall|i: int| 0 <= i < t.len() implies step_rank(#[trigger] t[i]) < step_rank(step) + 1 by {
        if i < steps.len() {
            assert(t[i] == steps[i]);
        }
    }
    assert forall|i: int, j: int| 0 <= i < j < t.len() implies step_rank(t[i]) < step_rank(t[j]) by {
        if j < steps.len() {
            assert(t[i] == steps[i] && t[j] == steps[j]);
        } else {
            assert(t[i] == steps[i]);
        }
    }
}

proof fn lemma_extension_index(s: Seq<CohortInsertStep>, needed: bool, step: CohortInsertStep, j: int)
    requires
        0 <= j < (s + step_if(needed, step)).len(),
    ensures
        j < s.len() ==> (s + step_if(needed, step))[j] == s[j],
        j >= s.len() ==> needed && (s + step_if(needed, step))[j] == step,
{
}

/// The steps of an address cohort come in the fixed order of their kinds,
/// so no kind is inserted twice.
pub proof fn lemma_cohort_steps_ordered(needs: CohortNeeds, has_address_state: bool)
    ensures
        ranks_increase(spec_cohort_steps(needs, has_address_state)),
{
    if has_address_state {
        let s0 = Seq::<CohortInsertStep>::empty();
        let s1 = s0 + step_if(needs.metadata, CohortInsertStep::Metadata);
        lemma_extend_steps(s0, needs.metadata, CohortInsertStep::Metadata, 0);
        let s2 = s1 + step_if(needs.utxo, CohortInsertStep::Utxo);
        lemma_extend_steps(s1, needs.utxo, CohortInsertStep::Utxo, 1);
        let s3 = s2 + step_if(needs.price_paid || needs.supply, CohortInsertStep::Supply);
        lemma_extend_steps(s2, needs.price_paid || needs.supply, CohortInsertStep::Supply, 2);
        let s4 = s3 + step_if(needs.realized, CohortInsertStep::Realized);
        lemma_extend_steps(s3, needs.realized, CohortInsertStep::Realized, 3);
        let s5 = s4 + step_if(needs.unrealized, CohortInsertStep::Unrealized);
        lemma_extend_steps(s4, needs.unrealized, CohortInsertStep::Unrealized, 4);
        let s6 = s5 + step_if(needs.price_paid, CohortInsertStep::PricePaid);
        lemma_extend_steps(s5, needs.price_paid, CohortInsertStep::PricePaid, 5);
        let s7 = s6 + step_if(needs.input, CohortInsertStep::Input);
        lemma_extend_steps(s6, needs.input, CohortInsertStep::Input, 6);
        lemma_extend_steps(s7, needs.output, CohortInsertStep::Output, 7);
        assert(s1 =~= step_if(needs.metadata, CohortInsertStep::Metadata));
    }
}

/// Whenever an address cohort inserts its price paid, it has inserted its
/// supply earlier for the same block.
pub proof fn lemma_supply_precedes_price_paid(needs: CohortNeeds, has_address_state: bool, j: int)
    requires
        0 <= j < spec_cohort_steps(needs, has_address_state).len(),
        spec_cohort_steps(needs, has_address_state)[j] == CohortInsertStep::PricePaid,
    ensures
        exists|i: int|
            0 <= i < j && #[trigger] spec_cohort_steps(needs, has_address_state)[i]
                == CohortInsertStep::Supply,
{
    let s1 = step_if(needs.metadata, CohortInsertStep::Metadata);
    let s2 = s1 + step_if(needs.utxo, CohortInsertStep::Utxo);
    let s3 = s2 + step_if(needs.price_paid || needs.supply, CohortInsertStep::Supply);
    let s4 = s3 + step_if(needs.realized, CohortInsertStep::Realized);
    let s5 = s4 + step_if(needs.unrealized, CohortInsertStep::Unrealized);
    let s6 = s5 + step_if(needs.price_paid, CohortInsertStep::PricePaid);
    let s7 = s6 + step_if(needs.input, CohortInsertStep::Input);
    let s8 = s7 + step_if(needs.output, CohortInsertStep::Output);
    assert(has_address_state);
    assert(spec_cohort_steps(needs, has_address_state) == s8);
    lemma_extension_index(s7, needs.output, CohortInsertStep::Output, j);
    lemma_extension_index(s6, needs.input, CohortInsertStep::Input, j);
    lemma_extension_index(s5, needs.price_paid, CohortInsertStep::PricePaid, j);
    assert(j >= s5.len());
    let i = s2.len() as int;
    lemma_extension_index(s2, needs.price_paid || needs.supply, CohortInsertStep::Supply, i);
    lemma_extension_index(s3, needs.realized, CohortInsertStep::Realized, i);
    lemma_extension_index(s4, needs.unrealized, CohortInsertStep::Unrealized, i);
    lemma_extension_index(s5, needs.price_paid, CohortInsertStep::PricePaid, i);
    lemma_extension_index(s6, needs.input, CohortInsertStep::Input, i);
    lemma_extension_index(s7, needs.output, CohortInsertStep::Output, i);
    assert(s8[i] == CohortInsertStep::Supply);
}

/// An address cohort needs a block for one of its kinds of data exactly
/// when one of its four liquidity splits (all, illiquid, liquid, highly
/// liquid) has a dataset of that kind that should insert the block or its
/// day; it needs its address count exactly when that dataset should.
pub proof fn lemma_cohort_needs_each_split(c: CohortDataset, height: int, date: int)
    ensures
        c.spec_needs(height, date).metadata == (c.metadata.spec_should_insert_height(height) || c.metadata.spec_should_insert_date(date)),
        c.spec_needs(height, date).utxo == ((c.all.utxo.spec_should_insert_height(height) || c.all.utxo.spec_should_insert_date(date)) || (c.illiquid.utxo.spec_should_insert_height(height) || c.illiquid.utxo.spec_should_insert_date(date))
            || (c.liquid.utxo.spec_should_insert_height(height) || c.liquid.utxo.spec_should_insert_date(date)) || (c.highly_liquid.utxo.spec_should_insert_height(height) || c.highly_liquid.utxo.spec_should_insert_date(date))),
        c.spec_needs(height, date).supply == ((c.all.supply.spec_should_insert_height(height) || c.all.supply.spec_should_insert_date(date)) || (c.illiquid.supply.spec_should_insert_height(height) || c.illiquid.supply.spec_should_insert_date(date))
            || (c.liquid.supply.spec_should_insert_height(height) || c.liquid.supply.spec_should_insert_date(date)) || (c.highly_liquid.supply.spec_should_insert_height(height) || c.highly_liquid.supply.spec_should_insert_date(date))),
        c.spec_needs(height, date).price_paid == ((c.all.price_paid.spec_should_insert_height(height) || c.all.price_paid.spec_should_insert_date(date)) || (c.illiquid.price_paid.spec_should_insert_height(height) || c.illiquid.price_paid.spec_should_insert_date(date))
            || (c.liquid.price_paid.spec_should_insert_height(height) || c.liquid.price_paid.spec_should_insert_date(date)) || (c.highly_liquid.price_paid.spec_should_insert_height(height) || c.highly_liquid.price_paid.spec_should_insert_date(date))),
        c.spec_needs(height, date).realized == ((c.all.realized.spec_should_insert_height(height) || c.all.realized.spec_should_insert_date(date)) || (c.illiquid.realized.spec_should_insert_height(height) || c.illiquid.realized.spec_should_insert_date(date))
            || (c.liquid.realized.spec_should_insert_height(height) || c.liquid.realized.spec_should_insert_date(date)) || (c.highly_liquid.realized.spec_should_insert_height(height) || c.highly_liquid.realized.spec_should_insert_date(date))),
        c.spec_needs(height, date).unrealized == ((c.all.unrealized.spec_should_insert_height(height) || c.all.unrealized.spec_should_insert_date(date)) || (c.illiquid.unrealized.spec_should_insert_height(height) || c.illiquid.unrealized.spec_should_insert_date(date))
            || (c.liquid.unrealized.spec_should_insert_height(height) || c.liquid.unrealized.spec_should_insert_date(date)) || (c.highly_liquid.unrealized.spec_should_insert_height(height) || c.highly_liquid.unrealized.spec_should_insert_date(date))),
        c.spec_needs(height, date).input == ((c.all.input.spec_should_insert_height(height) || c.all.input.spec_should_insert_date(date)) || (c.illiquid.input.spec_should_insert_height(height) || c.illiquid.input.spec_should_insert_date(date))
            || (c.liquid.input.spec_should_insert_height(height) || c.liquid.input.spec_should_insert_date(date)) || (c.highly_liquid.input.spec_should_insert_height(height) || c.highly_liquid.input.spec_should_insert_date(date))),
        c.spec_needs(height, date).output == ((c.all.output.spec_should_insert_height(height) || c.all.output.spec_should_insert_date(date)) || (c.illiquid.output.spec_should_insert_height(height) || c.illiquid.output.spec_should_insert_date(date))
            || (c.liquid.output.spec_should_insert_height(height) || c.liquid.output.spec_should_insert_date(date)) || (c.highly_liquid.output.spec_should_insert_height(height) || c.highly_liquid.output.spec_should_insert_date(date))),
{
    let sp = c.splits();
    assert(sp[0] == c.all && sp[1] == c.illiquid && sp[2] == c.liquid && sp[3] == c.highly_liquid);
}

/// The rank of each kind of insertion in the order of an age cohort's
/// steps: supply, UTXO count, unrealized, price paid, realized, inputs,
/// outputs.
pub open spec fn utxo_step_rank(step: CohortInsertStep) -> int {
    match step {
        CohortInsertStep::Supply => 0,
        CohortInsertStep::Utxo => 1,
        CohortInsertStep::Unrealized => 2,
        CohortInsertStep::PricePaid => 3,
        CohortInsertStep::Realized => 4,
        CohortInsertStep::Input => 5,
        CohortInsertStep::Output => 6,
        CohortInsertStep::Metadata => 7,
    }
}

proof fn lemma_extend_by(
    steps: Seq<CohortInsertStep>,
    needed: bool,
    step: CohortInsertStep,
    bound: int,
    rank: spec_fn(CohortInsertStep) -> int,
)
    requires
        forall|i: int, j: int| 0 <= i < j < steps.len() ==> rank(steps[i]) < rank(steps[j]),
        forall|i: int| 0 <= i < steps.len() ==> rank(#[trigger] steps[i]) < bound,
        bound <= rank(step),
    ensures
        forall|i: int, j: int|
            0 <= i < j < (steps + step_if(needed, step)).len() ==> rank(
                (steps + step_if(needed, step))[i],
            ) < rank((steps + step_if(needed, step))[j]),
        forall|i: int|
            0 <= i < (steps + step_if(needed, step)).len() ==> rank(
                #[trigger] (steps + step_if(needed, step))[i],
            ) < rank(step) + 1,
{
    let t = steps + step_if(needed, step);
    assert forall|i: int| 0 <= i < t.len() implies rank(#[trigger] t[i]) < rank(step) + 1 by {
        if i < steps.len() {
            assert(t[i] == steps[i]);
        }
    }
    assert forall|i: int, j: int| 0 <= i < j < t.len() implies rank(t[i]) < rank(t[j]) by {
        if j < steps.len() {
            assert(t[i] == steps[i] && t[j] == steps[j]);
        } else {
            assert(t[i] == steps[i]);
        }
    }
}

proof fn lemma_contains_extend(steps: Seq<CohortInsertStep>, needed: bool, step: CohortInsertStep, x: CohortInsertStep)
    ensures
        (steps + step_if(needed, step)).contains(x) == (steps.contains(x) || (needed && x == step)),
{
    let t = steps + step_if(needed, step);
    if t.contains(x) {
        let k = choose|k: int| 0 <= k < t.len() && t[k] == x;
        if k < steps.len() {
            assert(steps[k] == x);
        }
    }
    if steps.contains(x) {
        let k = choose|k: int| 0 <= k < steps.len() && steps[k] == x;
        assert(t[k] == x);
    }
    if needed && x == step {
        assert(t[steps.len() as int] == x);
    }
}

proof fn lemma_utxo_steps_contain(subs: SubDataset, height: int, date: int, x: CohortInsertStep)
    ensures
        spec_utxo_cohort_steps(subs, height, date).contains(x) == (((subs.supply.spec_should_insert_height(height) || subs.supply.spec_should_insert_date(date)) && x == CohortInsertStep::Supply) || ((subs.utxo.spec_should_insert_height(height) || subs.utxo.spec_should_insert_date(date)) && x == CohortInsertStep::Utxo) || ((subs.unrealized.spec_should_insert_height(height) || subs.unrealized.spec_should_insert_date(date)) && x == CohortInsertStep::Unrealized) || ((subs.price_paid.spec_should_insert_height(height) || subs.price_paid.spec_should_insert_date(date)) && x == CohortInsertStep::PricePaid) || ((subs.realized.spec_should_insert_height(height) || subs.realized.spec_should_insert_date(date)) && x == CohortInsertStep::Realized) || ((subs.input.spec_should_insert_height(height) || subs.input.spec_should_insert_date(date)) && x == CohortInsertStep::Input) || ((subs.output.spec_should_insert_height(height) || subs.output.spec_should_insert_date(date)) && x == CohortInsertStep::Output)),
{
    let s0 = Seq::<CohortInsertStep>::empty();
    let s1 = s0 + step_if((subs.supply.spec_should_insert_height(height) || subs.supply.spec_should_insert_date(date)), CohortInsertStep::Supply);
    let s2 = s1 + step_if((subs.utxo.spec_should_insert_height(height) || subs.utxo.spec_should_insert_date(date)), CohortInsertStep::Utxo);
    let s3 = s2 + step_if((subs.unrealized.spec_should_insert_height(height) || subs.unrealized.spec_should_insert_date(date)), CohortInsertStep::Unrealized);
    let s4 = s3 + step_if((subs.price_paid.spec_should_insert_height(height) || subs.price_paid.spec_should_insert_date(date)), CohortInsertStep::PricePaid);
    let s5 = s4 + step_if((subs.realized.spec_should_insert_height(height) || subs.realized.spec_should_insert_date(date)), CohortInsertStep::Realized);
    let s6 = s5 + step_if((subs.input.spec_should_insert_height(height) || subs.input.spec_should_insert_date(date)), CohortInsertStep::Input);
    let s7 = s6 + step_if((subs.output.spec_should_insert_height(height) || subs.output.spec_should_insert_date(date)), CohortInsertStep::Output);
    lemma_contains_extend(s0, (subs.supply.spec_should_insert_height(height) || subs.supply.spec_should_insert_date(date)), CohortInsertStep::Supply, x);
    lemma_contains_extend(s1, (subs.utxo.spec_should_insert_height(height) || subs.utxo.spec_should_insert_date(date)), CohortInsertStep::Utxo, x);
    lemma_contains_extend(s2, (subs.unrealized.spec_should_insert_height(height) || subs.unrealized.spec_should_insert_date(date)), CohortInsertStep::Unrealized, x);
    lemma_contains_extend(s3, (subs.price_paid.spec_should_insert_height(height) || subs.price_paid.spec_should_insert_date(date)), CohortInsertStep::PricePaid, x);
    lemma_contains_extend(s4, (subs.realized.spec_should_insert_height(height) || subs.realized.spec_should_insert_date(date)), CohortInsertStep::Realized, x);
    lemma_contains_extend(s5, (subs.input.spec_should_insert_height(height) || subs.input.spec_should_insert_date(date)), CohortInsertStep::Input, x);
    lemma_contains_extend(s6, (subs.output.spec_should_insert_height(height) || subs.output.spec_should_insert_date(date)), CohortInsertStep::Output, x);
    assert(spec_utxo_cohort_steps(subs, height, date) == s7);
}

proof fn lemma_utxo_steps_ordered(subs: SubDataset, height: int, date: int)
    ensures
        forall|i: int, j: int|
            0 <= i < j < spec_utxo_cohort_steps(subs, height, date).len() ==> utxo_step_rank(
                spec_utxo_cohort_steps(subs, height, date)[i],
            ) < utxo_step_rank(spec_utxo_cohort_steps(subs, height, date)[j]),
{
    let r = |x: CohortInsertStep| utxo_step_rank(x);
    let s0 = Seq::<CohortInsertStep>::empty();
    let s1 = s0 + step_if((subs.supply.spec_should_insert_height(height) || subs.supply.spec_should_insert_date(date)), CohortInsertStep::Supply);
    let s2 = s1 + step_if((subs.utxo.spec_should_insert_height(height) || subs.utxo.spec_should_insert_date(date)), CohortInsertStep::Utxo);
    let s3 = s2 + step_if((subs.unrealized.spec_should_insert_height(height) || subs.unrealized.spec_should_insert_date(date)), CohortInsertStep::Unrealized);
    let s4 = s3 + step_if((subs.price_paid.spec_should_insert_height(height) || subs.price_paid.spec_should_insert_date(date)), CohortInsertStep::PricePaid);
    let s5 = s4 + step_if((subs.realized.spec_should_insert_height(height) || subs.realized.spec_should_insert_date(date)), CohortInsertStep::Realized);
    let s6 = s5 + step_if((subs.input.spec_should_insert_height(height) || subs.input.spec_should_insert_date(date)), CohortInsertStep::Input);
    let s7 = s6 + step_if((subs.output.spec_should_insert_height(height) || subs.output.spec_should_insert_date(date)), CohortInsertStep::Output);
    lemma_extend_by(s0, (subs.supply.spec_should_insert_height(height) || subs.supply.spec_should_insert_date(date)), CohortInsertStep::Supply, 0, r);
    lemma_extend_by(s1, (subs.utxo.spec_should_insert_height(height) || subs.utxo.spec_should_insert_date(date)), CohortInsertStep::Utxo, 1, r);
    lemma_extend_by(s2, (subs.unrealized.spec_should_insert_height(height) || subs.unrealized.spec_should_insert_date(date)), CohortInsertStep::Unrealized, 2, r);
    lemma_extend_by(s3, (subs.price_paid.spec_should_insert_height(height) || subs.price_paid.spec_should_insert_date(date)), CohortInsertStep::PricePaid, 3, r);
    lemma_extend_by(s4, (subs.realized.spec_should_insert_height(height) || subs.realized.spec_should_insert_date(date)), CohortInsertStep::Realized, 4, r);
    lemma_extend_by(s5, (subs.input.spec_should_insert_height(height) || subs.input.spec_should_insert_date(date)), CohortInsertStep::Input, 5, r);
    lemma_extend_by(s6, (subs.output.spec_should_insert_height(height) || subs.output.spec_should_insert_date(date)), CohortInsertStep::Output, 6, r);
    assert(spec_utxo_cohort_steps(subs, height, date) == s7);
}

/// An age cohort inserts each of its seven datasets exactly when that
/// dataset should insert the block or its day, once, in the order supply,
/// UTXO count, unrealized, price paid, realized, inputs, outputs, and never
/// an address count.
pub proof fn lemma_utxo_cohort_steps_exact(subs: SubDataset, height: int, date: int)
    ensures
        spec_utxo_cohort_steps(subs, height, date).contains(CohortInsertStep::Supply) == (subs.supply.spec_should_insert_height(height) || subs.supply.spec_should_insert_date(date)),
        spec_utxo_cohort_steps(subs, height, date).contains(CohortInsertStep::Utxo) == (subs.utxo.spec_should_insert_height(height) || subs.utxo.spec_should_insert_date(date)),
        spec_utxo_cohort_steps(subs, height, date).contains(CohortInsertStep::Unrealized) == (subs.unrealized.spec_should_insert_height(height) || subs.unrealized.spec_should_insert_date(date)),
        spec_utxo_cohort_steps(subs, height, date).contains(CohortInsertStep::PricePaid) == (subs.price_paid.spec_should_insert_height(height) || subs.price_paid.spec_should_insert_date(date)),
        spec_utxo_cohort_steps(subs, height, date).contains(CohortInsertStep::Realized) == (subs.realized.spec_should_insert_height(height) || subs.realized.spec_should_insert_date(date)),
        spec_utxo_cohort_steps(subs, height, date).contains(CohortInsertStep::Input) == (subs.input.spec_should_insert_height(height) || subs.input.spec_should_insert_date(date)),
        spec_utxo_cohort_steps(subs, height, date).contains(CohortInsertStep::Output) == (subs.output.spec_should_insert_height(height) || subs.output.spec_should_insert_date(date)),
        !spec_utxo_cohort_steps(subs, height, date).contains(CohortInsertStep::Metadata),
        forall|i: int, j: int|
            0 <= i < j < spec_utxo_cohort_steps(subs, height, date).len() ==> utxo_step_rank(
                spec_utxo_cohort_steps(subs, height, date)[i],
            ) < utxo_step_rank(spec_utxo_cohort_steps(subs, height, date)[j]),
{
    lemma_utxo_steps_contain(subs, height, date, CohortInsertStep::Supply);
    lemma_utxo_steps_contain(subs, height, date, CohortInsertStep::Utxo);
    lemma_utxo_steps_contain(subs, height, date, CohortInsertStep::Unrealized);
    lemma_utxo_steps_contain(subs, height, date, CohortInsertStep::PricePaid);
    lemma_utxo_steps_contain(subs, height, date, CohortInsertStep::Realized);
    lemma_utxo_steps_contain(subs, height, date, CohortInsertStep::Input);
    lemma_utxo_steps_contain(subs, height, date, CohortInsertStep::Output);
    lemma_utxo_steps_contain(subs, height, date, CohortInsertStep::Metadata);
    lemma_utxo_steps_ordered(subs, height, date);
}

proof fn lemma_cohort_steps_contain(needs: CohortNeeds, x: CohortInsertStep)
    ensures
    spec_cohort_steps(needs, true).contains(x) == (((needs.metadata) && x == CohortInsertStep::Metadata) || ((needs.utxo) && x == CohortInsertStep::Utxo) || ((needs.price_paid || needs.supply) && x == CohortInsertStep::Supply) || ((needs.realized) && x == CohortInsertStep::Realized) || ((needs.unrealized) && x == CohortInsertStep::Unrealized) || ((needs.price_paid) && x == CohortInsertStep::PricePaid) || ((needs.input) && x == CohortInsertStep::Input) || ((needs.output) && x == CohortInsertStep::Output)),
{
    let s0 = Seq::<CohortInsertStep>::empty();
    let s1 = s0 + step_if(needs.metadata, CohortInsertStep::Metadata);
    let s2 = s1 + step_if(needs.utxo, CohortInsertStep::Utxo);
    let s3 = s2 + step_if(needs.price_paid || needs.supply, CohortInsertStep::Supply);
    let s4 = s3 + step_if(needs.realized, CohortInsertStep::Realized);
    let s5 = s4 + step_if(needs.unrealized, CohortInsertStep::Unrealized);
    let s6 = s5 + step_if(needs.price_paid, CohortInsertStep::PricePaid);
    let s7 = s6 + step_if(needs.input, CohortInsertStep::Input);
    let s8 = s7 + step_if(needs.output, CohortInsertStep::Output);
    lemma_contains_extend(s0, needs.metadata, CohortInsertStep::Metadata, x);
    lemma_contains_extend(s1, needs.utxo, CohortInsertStep::Utxo, x);
    lemma_contains_extend(s2, needs.price_paid || needs.supply, CohortInsertStep::Supply, x);
    lemma_contains_extend(s3, needs.realized, CohortInsertStep::Realized, x);
    lemma_contains_extend(s4, needs.unrealized, CohortInsertStep::Unrealized, x);
    lemma_contains_extend(s5, needs.price_paid, CohortInsertStep::PricePaid, x);
    lemma_contains_extend(s6, needs.input, CohortInsertStep::Input, x);
    lemma_contains_extend(s7, needs.output, CohortInsertStep::Output, x);
    assert(s1 =~= step_if(needs.metadata, CohortInsertStep::Metadata));
    assert(spec_cohort_steps(needs, true) == s8);
}

/// An address cohort whose block carries its state inserts each kind of
/// data exactly when it needs it, the supply also whenever it needs its
/// price paid; a block without its state inserts nothing.
pub proof fn lemma_cohort_steps_members(needs: CohortNeeds, has_address_state: bool)
    ensures
        spec_cohort_steps(needs, has_address_state).contains(CohortInsertStep::Metadata) == (has_address_state && needs.metadata),
        spec_cohort_steps(needs, has_address_state).contains(CohortInsertStep::Utxo) == (has_address_state && needs.utxo),
        spec_cohort_steps(needs, has_address_state).contains(CohortInsertStep::Supply) == (has_address_state && (needs.supply || needs.price_paid)),
        spec_cohort_steps(needs, has_address_state).contains(CohortInsertStep::Realized) == (has_address_state && needs.realized),
        spec_cohort_steps(needs, has_address_state).contains(CohortInsertStep::Unrealized) == (has_address_state && needs.unrealized),
        spec_cohort_steps(needs, has_address_state).contains(CohortInsertStep::PricePaid) == (has_address_state && needs.price_paid),
        spec_cohort_steps(needs, has_address_state).contains(CohortInsertStep::Input) == (has_address_state && needs.input),
        spec_cohort_steps(needs, has_address_state).contains(CohortInsertStep::Output) == (has_address_state && needs.output),
        !has_address_state ==> spec_cohort_steps(needs, has_address_state).len() == 0,
{
    if has_address_state {
        lemma_cohort_steps_contain(needs, CohortInsertStep::Metadata);
        lemma_cohort_steps_contain(needs, CohortInsertStep::Utxo);
        lemma_cohort_steps_contain(needs, CohortInsertStep::Supply);
        lemma_cohort_steps_contain(needs, CohortInsertStep::Realized);
        lemma_cohort_steps_contain(needs, CohortInsertStep::Unrealized);
        lemma_cohort_steps_contain(needs, CohortInsertStep::PricePaid);
        lemma_cohort_steps_contain(needs, CohortInsertStep::Input);
        lemma_cohort_steps_contain(needs, CohortInsertStep::Output);
    }
}

} // verus!
