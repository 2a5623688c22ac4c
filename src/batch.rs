use vstd::multiset::Multiset;
use vstd::prelude::*;

use crate::decision::DecisionSkip;
use crate::executor::EncodeError;

verus! {

broadcast use vstd::seq_lib::group_to_multiset_ensures;

/// How one unit of work ended.
#[derive(Clone, Debug)]
pub enum UnitOutcome {
    /// The decision left the file as it is.
    Skipped(DecisionSkip),
    /// The encoder wrote the converted file.
    Converted,
    /// The encoder failed.
    Failed(EncodeError),
}

/// The counts a batch reports once every unit has finished.
#[derive(Clone, Copy, Debug, PartialEq, Eq, Structural)]
pub struct BatchSummary {
    /// Units run: one for each file whose metadata could be built.
    pub iterated: usize,
    /// Units whose file was converted.
    pub converted: usize,
}

/// How many of `outcomes` are conversions.
pub open spec fn converted_count(outcomes: Seq<UnitOutcome>) -> nat {
    outcomes.to_multiset().count(UnitOutcome::Converted)
}

/// The summary of a finished batch, one outcome for each unit that ran, in any order.
pub fn summarize(outcomes: &Vec<UnitOutcome>) -> (r: BatchSummary)
    ensures
        r.iterated == outcomes.len(),
        r.converted == converted_count(outcomes@),
        r.converted <= r.iterated,
{
    let mut converted: usize = 0;
    let mut i: usize = 0;
    while i < outcomes.len()
        invariant
            i <= outcomes.len(),
            converted == converted_count(outcomes@.take(i as int)),
            converted <= i,
        decreases outcomes.len() - i,
    {
        assert(outcomes@.take(i + 1) =~= outcomes@.take(i as int).push(outcomes@[i as int]));
        match &outcomes[i] {
            UnitOutcome::Converted => {
                converted = converted + 1;
            },
            _ => {},
        }
        i = i + 1;
    }
    assert(outcomes@.take(outcomes.len() as int) =~= outcomes@);
    BatchSummary { iterated: outcomes.len(), converted }
}

/// The summary depends only on which outcomes the units had, not on the order in which they
/// finished: any two orders of the same outcomes give the same counts, and no more files are
/// converted than units ran.
pub proof fn lemma_summary_order_free(a: Seq<UnitOutcome>, b: Seq<UnitOutcome>)
    requires
        a.to_multiset() == b.to_multiset(),
    ensures
        a.len() == b.len(),
        converted_count(a) == converted_count(b),
        converted_count(a) <= a.len(),
{
    assert(a.to_multiset().len() == a.len());
    assert(b.to_multiset().len() == b.len());
    lemma_converted_count_le_len(a);
}

proof fn lemma_converted_count_le_len(s: Seq<UnitOutcome>)
    ensures
        converted_count(s) <= s.len(),
    decreases s.len(),
{
    if s.len() > 0 {
        lemma_converted_count_le_len(s.drop_last());
        assert(s =~= s.drop_last().push(s.last()));
    } else {
        assert(s.to_multiset() =~= Multiset::empty()) by {
            assert(s =~= Seq::<UnitOutcome>::empty());
        }
    }
}

} // verus!
