//! The scans over a sequence of fitnesses: the one that resolves a sample to
//! an entry, and the one that sums the fitnesses up.

use crate::pool::{
    acceptable, lemma_total_of_take_next, non_negative, reaches, remainder, selected, total_of,
    WeightError, SAMPLE_SCALE,
};
use vstd::prelude::*;

verus! {

/// Resolves a sample to the entry it selects. The target is
/// `sample * total_fitness`; the fitnesses are taken from it in storage
/// order, each scaled by `SAMPLE_SCALE`, and the first entry that brings it
/// to zero or below is selected. If none does, the last entry is selected.
pub fn select_index(fitnesses: &Vec<i64>, total_fitness: i64, sample: u32) -> (index: usize)
    requires
        fitnesses.len() > 0,
        non_negative(fitnesses@),
    ensures
        selected(fitnesses@, total_fitness as int, sample as int, index as int),
{
    let last: usize = fitnesses.len() - 1;
    proof {
        assert(-0x1_0000_0000 * 0x8000_0000_0000_0000 <= sample * total_fitness <= 0x1_0000_0000
            * 0x8000_0000_0000_0000) by (nonlinear_arith)
            requires
                0 <= sample < 0x1_0000_0000,
                -0x8000_0000_0000_0000 <= total_fitness < 0x8000_0000_0000_0000,
        ;
        assert(fitnesses@.take(0) =~= Seq::<i64>::empty());
    }
    let mut remaining: i128 = (sample as i128) * (total_fitness as i128);
    let mut index: usize = 0;
    while index < last
        invariant
            last == fitnesses.len() - 1,
            index <= last,
            non_negative(fitnesses@),
            remaining == remainder(fitnesses@, total_fitness as int, sample as int, index as int),
            index > 0 ==> remaining > 0,
            -0x1_0000_0000 * 0x8000_0000_0000_0000 <= remaining <= 0x1_0000_0000
                * 0x8000_0000_0000_0000,
            forall|j: int|
                0 <= j < index ==> !reaches(fitnesses@, total_fitness as int, sample as int, j),
        decreases last - index,
    {
        let share: i128 = (fitnesses[index] as i128) * (SAMPLE_SCALE as i128);
        proof {
            lemma_total_of_take_next(fitnesses@, index as int);
        }
        remaining = remaining - share;
        if remaining <= 0 {
            return index;
        }
        index = index + 1;
    }
    index
}

/// Sums the fitnesses up. A negative fitness is reported as `InvalidWeight`;
/// a sum beyond `i64::MAX`, where no fitness is negative, as
/// `WeightOverflow`.
pub fn checked_total(fitnesses: &Vec<i64>) -> (summed: Result<i64, WeightError>)
    ensures
        match summed {
            Ok(total) => acceptable(fitnesses@) && total == total_of(fitnesses@),
            Err(WeightError::InvalidWeight) => !non_negative(fitnesses@),
            Err(WeightError::WeightOverflow) => non_negative(fitnesses@) && total_of(fitnesses@)
                > i64::MAX,
        },
{
    let mut total: i64 = 0;
    let mut overflow = false;
    let mut index: usize = 0;
    proof {
        assert(fitnesses@.take(0) =~= Seq::<i64>::empty());
    }
    while index < fitnesses.len()
        invariant
            index <= fitnesses.len(),
            forall|i: int| 0 <= i < index ==> fitnesses[i] >= 0,
            0 <= total,
            !overflow ==> total == total_of(fitnesses@.take(index as int)),
            overflow ==> total_of(fitnesses@.take(index as int)) > i64::MAX,
        decreases fitnesses.len() - index,
    {
        let fitness = fitnesses[index];
        if fitness < 0 {
            return Err(WeightError::InvalidWeight);
        }
        proof {
            lemma_total_of_take_next(fitnesses@, index as int);
        }
        if !overflow {
            match total.checked_add(fitness) {
                Some(sum) => {
                    total = sum;
                },
                None => {
                    overflow = true;
                },
            }
        }
        index = index + 1;
    }
    proof {
        assert(fitnesses@.take(index as int) =~= fitnesses@);
    }
    if overflow {
        Err(WeightError::WeightOverflow)
    } else {
        Ok(total)
    }
}

} // verus!
