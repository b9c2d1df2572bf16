//! The model of a wheel: a sequence of fitnesses, a sequence of individuals
//! and a total, with the operations on them as spec functions.

use vstd::prelude::*;

verus! {

/// The number of distinct samples. A sample `s` stands for the fraction
/// `s / SAMPLE_SCALE` of the unit interval.
pub const SAMPLE_SCALE: u32 = 8_388_608;

/// Why a fitness was not accepted.
#[derive(Clone, Copy, Debug, PartialEq, Eq, Structural)]
pub enum WeightError {
    /// The fitness is negative.
    InvalidWeight,
    /// The fitness is fine, but the total would no longer fit in an `i64`.
    WeightOverflow,
}

/// The sum of a sequence of fitnesses.
pub open spec fn total_of(fitnesses: Seq<i64>) -> int
    decreases fitnesses.len(),
{
    if fitnesses.len() == 0 {
        0
    } else {
        total_of(fitnesses.drop_last()) + fitnesses.last()
    }
}

/// The number of `i64` that is nearest to `total`: `total` itself where it
/// fits, else the bound that it lies beyond.
pub open spec fn bounded(total: int) -> int {
    if total < i64::MIN {
        i64::MIN as int
    } else if total > i64::MAX {
        i64::MAX as int
    } else {
        total
    }
}

/// No fitness of the sequence is negative.
pub open spec fn non_negative(fitnesses: Seq<i64>) -> bool {
    forall|i: int| 0 <= i < fitnesses.len() ==> fitnesses[i] >= 0
}

/// Every fitness of the sequence is above zero.
pub open spec fn all_positive(fitnesses: Seq<i64>) -> bool {
    forall|i: int| 0 <= i < fitnesses.len() ==> fitnesses[i] > 0
}

/// Every fitness of the sequence is zero.
pub open spec fn all_zero(fitnesses: Seq<i64>) -> bool {
    forall|i: int| 0 <= i < fitnesses.len() ==> fitnesses[i] == 0
}

/// A sequence of fitnesses that can be pushed one by one: none is negative
/// and their sum fits in an `i64`.
pub open spec fn acceptable(fitnesses: Seq<i64>) -> bool {
    non_negative(fitnesses) && total_of(fitnesses) <= i64::MAX
}

/// What is left of the target `sample * total` once the first `n` fitnesses
/// have been taken from it, in units of `1 / SAMPLE_SCALE`.
pub open spec fn remainder(fitnesses: Seq<i64>, total: int, sample: int, n: int) -> int {
    sample * total - SAMPLE_SCALE * total_of(fitnesses.take(n))
}

/// The scan stops at entry `i`: taking its fitness brings the target to
/// zero or below.
pub open spec fn reaches(fitnesses: Seq<i64>, total: int, sample: int, i: int) -> bool {
    remainder(fitnesses, total, sample, i + 1) <= 0
}

/// Entry `i` is the one that the scan selects: the first at which it stops,
/// or the last entry if it stops at none.
pub open spec fn selected(fitnesses: Seq<i64>, total: int, sample: int, i: int) -> bool {
    &&& 0 <= i < fitnesses.len()
    &&& forall|j: int| 0 <= j < i ==> !reaches(fitnesses, total, sample, j)
    &&& (reaches(fitnesses, total, sample, i) || i == fitnesses.len() - 1)
}

/// The fitnesses of a sequence of pairs.
pub open spec fn fitnesses_of<T>(pairs: Seq<(i64, T)>) -> Seq<i64> {
    Seq::new(pairs.len(), |i: int| pairs[i].0)
}

/// The individuals of a sequence of pairs.
pub open spec fn population_of<T>(pairs: Seq<(i64, T)>) -> Seq<T> {
    Seq::new(pairs.len(), |i: int| pairs[i].1)
}

/// The entries of a wheel and their recorded total.
pub struct Pool<T> {
    pub total: int,
    pub fitnesses: Seq<i64>,
    pub population: Seq<T>,
}

impl<T> Pool<T> {
    /// The pool without entries.
    pub open spec fn empty() -> Self {
        Pool { total: 0, fitnesses: Seq::empty(), population: Seq::empty() }
    }

    /// The pool that holds the given pairs, in their order.
    pub open spec fn of(pairs: Seq<(i64, T)>) -> Self {
        Pool {
            total: total_of(fitnesses_of(pairs)),
            fitnesses: fitnesses_of(pairs),
            population: population_of(pairs),
        }
    }

    /// The number of entries.
    pub open spec fn len(self) -> nat {
        self.population.len()
    }

    /// Every individual has a fitness, no fitness is negative, and the total
    /// is the sum of the fitnesses and fits in an `i64`.
    pub open spec fn wf(self) -> bool {
        &&& self.fitnesses.len() == self.population.len()
        &&& non_negative(self.fitnesses)
        &&& self.total == total_of(self.fitnesses)
        &&& self.total <= i64::MAX
    }

    /// The pool with one more entry at its end.
    pub open spec fn push(self, fitness: i64, individual: T) -> Self {
        Pool {
            total: self.total + fitness,
            fitnesses: self.fitnesses.push(fitness),
            population: self.population.push(individual),
        }
    }

    /// Why the pool does not take this fitness, if it does not.
    pub open spec fn rejection(self, fitness: i64) -> Option<WeightError> {
        if fitness < 0 {
            Some(WeightError::InvalidWeight)
        } else if self.total + fitness > i64::MAX {
            Some(WeightError::WeightOverflow)
        } else {
            None
        }
    }

    /// The pool after a checked push, or the reason of the rejection.
    pub open spec fn try_push(self, fitness: i64, individual: T) -> Result<Self, WeightError> {
        match self.rejection(fitness) {
            Some(e) => Err(e),
            None => Ok(self.push(fitness, individual)),
        }
    }

    /// The pool after checked pushes of all the pairs in turn, or the reason
    /// of the first rejection.
    pub open spec fn try_push_all(self, pairs: Seq<(i64, T)>) -> Result<Self, WeightError>
        decreases pairs.len(),
    {
        if pairs.len() == 0 {
            Ok(self)
        } else {
            match self.try_push_all(pairs.drop_last()) {
                Ok(p) => p.try_push(pairs.last().0, pairs.last().1),
                Err(e) => Err(e),
            }
        }
    }

    /// Something can be drawn: there is an entry and the total is positive.
    pub open spec fn drawable(self) -> bool {
        self.fitnesses.len() > 0 && self.total > 0
    }

    /// The index of the entry that the sample selects.
    pub open spec fn selection(self, sample: int) -> int {
        choose|i: int| selected(self.fitnesses, self.total, sample, i)
    }

    /// The pool without entry `i`: the last entry takes its place, and the
    /// total goes down by its fitness.
    pub open spec fn without(self, i: int) -> Self {
        Pool {
            total: self.total - self.fitnesses[i],
            fitnesses: self.fitnesses.update(i, self.fitnesses.last()).drop_last(),
            population: self.population.update(i, self.population.last()).drop_last(),
        }
    }

    /// What a draw with this sample hands out.
    pub open spec fn draw_output(self, sample: int) -> Option<(i64, T)> {
        if self.drawable() {
            let i = self.selection(sample);
            Some((self.fitnesses[i], self.population[i]))
        } else {
            None
        }
    }

    /// The pool after a draw with this sample.
    pub open spec fn drawn(self, sample: int) -> Self {
        if self.drawable() {
            self.without(self.selection(sample))
        } else {
            self
        }
    }

    /// The pool after one draw for each sample, in their order.
    pub open spec fn drawn_all(self, samples: Seq<int>) -> Self
        decreases samples.len(),
    {
        if samples.len() == 0 {
            self
        } else {
            self.drawn_all(samples.drop_last()).drawn(samples.last())
        }
    }
}

/// Pushing a fitness adds it to the sum.
pub proof fn lemma_total_of_push(fitnesses: Seq<i64>, fitness: i64)
    ensures
        total_of(fitnesses.push(fitness)) == total_of(fitnesses) + fitness,
{
    assert(fitnesses.push(fitness).drop_last() =~= fitnesses);
}

/// One more fitness of a prefix adds that fitness to the prefix's sum.
pub proof fn lemma_total_of_take_next(fitnesses: Seq<i64>, n: int)
    requires
        0 <= n < fitnesses.len(),
    ensures
        total_of(fitnesses.take(n + 1)) == total_of(fitnesses.take(n)) + fitnesses[n],
{
    assert(fitnesses.take(n + 1).drop_last() =~= fitnesses.take(n));
}

/// Without negative fitnesses a longer prefix has no smaller sum.
pub proof fn lemma_total_of_prefixes(fitnesses: Seq<i64>, shorter: int, longer: int)
    requires
        non_negative(fitnesses),
        0 <= shorter <= longer <= fitnesses.len(),
    ensures
        0 <= total_of(fitnesses.take(shorter)) <= total_of(fitnesses.take(longer)),
    decreases longer - shorter,
{
    if shorter == longer {
        assert(non_negative(fitnesses.take(shorter)));
        lemma_total_of_non_negative(fitnesses.take(shorter));
    } else {
        lemma_total_of_prefixes(fitnesses, shorter, longer - 1);
        lemma_total_of_take_next(fitnesses, longer - 1);
    }
}

/// Without negative fitnesses the sum is not negative.
pub proof fn lemma_total_of_non_negative(fitnesses: Seq<i64>)
    requires
        non_negative(fitnesses),
    ensures
        total_of(fitnesses) >= 0,
    decreases fitnesses.len(),
{
    if fitnesses.len() > 0 {
        assert(non_negative(fitnesses.drop_last()));
        lemma_total_of_non_negative(fitnesses.drop_last());
    }
}

/// Replacing one fitness changes the sum by the difference.
pub proof fn lemma_total_of_update(fitnesses: Seq<i64>, i: int, fitness: i64)
    requires
        0 <= i < fitnesses.len(),
    ensures
        total_of(fitnesses.update(i, fitness)) == total_of(fitnesses) - fitnesses[i] + fitness,
    decreases fitnesses.len(),
{
    let updated = fitnesses.update(i, fitness);
    if i == fitnesses.len() - 1 {
        assert(updated.drop_last() =~= fitnesses.drop_last());
    } else {
        assert(updated.drop_last() =~= fitnesses.drop_last().update(i, fitness));
        lemma_total_of_update(fitnesses.drop_last(), i, fitness);
    }
}

/// Removing entry `i` by moving the last entry into its place takes its
/// fitness from the sum and keeps the other fitnesses.
pub proof fn lemma_total_of_swap_remove(fitnesses: Seq<i64>, i: int)
    requires
        0 <= i < fitnesses.len(),
    ensures
        total_of(fitnesses.update(i, fitnesses.last()).drop_last()) == total_of(fitnesses)
            - fitnesses[i],
        non_negative(fitnesses) ==> non_negative(
            fitnesses.update(i, fitnesses.last()).drop_last(),
        ),
{
    lemma_total_of_update(fitnesses, i, fitnesses.last());
}

/// At most one entry is selected.
pub proof fn lemma_selected_unique(fitnesses: Seq<i64>, total: int, sample: int, i: int, j: int)
    requires
        selected(fitnesses, total, sample, i),
        selected(fitnesses, total, sample, j),
    ensures
        i == j,
{
}

/// Among the first `n + 1` entries the scan finds its entry: the first of
/// the first `n` at which it stops, or entry `n` if it stops at none of
/// them.
pub proof fn lemma_first_reach(fitnesses: Seq<i64>, total: int, sample: int, n: int) -> (i: int)
    requires
        0 <= n < fitnesses.len(),
    ensures
        0 <= i <= n,
        forall|j: int| 0 <= j < i ==> !reaches(fitnesses, total, sample, j),
        i < n ==> reaches(fitnesses, total, sample, i),
    decreases n,
{
    if n == 0 {
        0
    } else {
        let i = lemma_first_reach(fitnesses, total, sample, n - 1);
        if i < n - 1 || reaches(fitnesses, total, sample, i) {
            i
        } else {
            n
        }
    }
}

impl<T> Pool<T> {
    /// Where there is an entry, the selection is an entry, and it is the one
    /// that the scan selects.
    pub proof fn lemma_selection_selected(self, sample: int)
        requires
            self.fitnesses.len() > 0,
        ensures
            selected(self.fitnesses, self.total, sample, self.selection(sample)),
    {
        let i = lemma_first_reach(self.fitnesses, self.total, sample, self.fitnesses.len() - 1);
        assert(selected(self.fitnesses, self.total, sample, i));
    }

    /// The selection is the one entry that is selected.
    pub proof fn lemma_selection(self, sample: int, i: int)
        requires
            selected(self.fitnesses, self.total, sample, i),
        ensures
            self.selection(sample) == i,
    {
        lemma_selected_unique(self.fitnesses, self.total, sample, i, self.selection(sample));
    }

    /// Removing an entry keeps a pool well formed.
    pub proof fn lemma_without_wf(self, i: int)
        requires
            self.wf(),
            0 <= i < self.fitnesses.len(),
        ensures
            self.without(i).wf(),
            self.without(i).len() == self.len() - 1,
    {
        lemma_total_of_swap_remove(self.fitnesses, i);
    }

    /// Once a pair has been rejected, pushing further pairs changes nothing:
    /// the error of a prefix is the error of the whole.
    pub proof fn lemma_try_push_all_err_stays(self, pairs: Seq<(i64, T)>, n: int)
        requires
            0 <= n <= pairs.len(),
            self.try_push_all(pairs.take(n)) is Err,
        ensures
            self.try_push_all(pairs) == self.try_push_all(pairs.take(n)),
        decreases pairs.len() - n,
    {
        if n == pairs.len() {
            assert(pairs.take(n) =~= pairs);
        } else {
            assert(pairs.take(n + 1).drop_last() =~= pairs.take(n));
            self.lemma_try_push_all_err_stays(pairs, n + 1);
        }
    }
}

} // verus!
