//! The wheel itself: the entries, their total, and what fills it.

use crate::laws::lemma_pushes_agree_with_bulk;
use crate::pool::{
    acceptable, bounded, fitnesses_of, lemma_total_of_push, non_negative, total_of, Pool,
    WeightError,
};
use crate::scan::checked_total;
use crate::select::{IntoSelectIter, SelectIter};
use vstd::prelude::*;

verus! {

/// A roulette-wheel container.
pub struct RouletteWheel<T> {
    pub(crate) total_fitness: i64,
    pub(crate) fitnesses: Vec<i64>,
    pub(crate) population: Vec<T>,
}

impl<T> View for RouletteWheel<T> {
    type V = Pool<T>;

    open(crate) spec fn view(&self) -> Pool<T> {
        Pool {
            total: self.total_fitness as int,
            fitnesses: self.fitnesses@,
            population: self.population@,
        }
    }
}

impl<T> RouletteWheel<T> {
    /// Every individual has a fitness, no fitness is negative, and the total
    /// is the sum of the fitnesses.
    pub open spec fn wf(&self) -> bool {
        self@.wf()
    }

    /// Creates a new empty wheel.
    pub fn new() -> (wheel: RouletteWheel<T>)
        ensures
            wheel@ == Pool::<T>::empty(),
            wheel.wf(),
    {
        RouletteWheel { total_fitness: 0, fitnesses: Vec::new(), population: Vec::new() }
    }

    /// Creates an empty wheel with space for at least `cap` entries.
    pub fn with_capacity(cap: usize) -> (wheel: RouletteWheel<T>)
        ensures
            wheel@ == Pool::<T>::empty(),
            wheel.wf(),
    {
        RouletteWheel {
            total_fitness: 0,
            fitnesses: Vec::with_capacity(cap),
            population: Vec::with_capacity(cap),
        }
    }

    /// Reserves space for at least `additional` more entries. The entries
    /// and the total stay as they are.
    pub fn reserve(&mut self, additional: usize)
        ensures
            final(self)@ == old(self)@,
    {
        self.fitnesses.reserve(additional);
        self.population.reserve(additional);
    }

    /// The number of entries.
    pub fn len(&self) -> (n: usize)
        ensures
            n == self@.len(),
    {
        self.population.len()
    }

    /// Whether the wheel has no entry.
    pub fn is_empty(&self) -> (b: bool)
        ensures
            b == (self@.len() == 0),
    {
        self.population.is_empty()
    }

    /// Removes all entries and sets the total back to zero.
    pub fn clear(&mut self)
        ensures
            final(self)@ == Pool::<T>::empty(),
            final(self).wf(),
    {
        self.fitnesses.clear();
        self.population.clear();
        self.total_fitness = 0;
    }

    /// Adds an individual with its fitness. A negative fitness is rejected
    /// as `InvalidWeight`, and one that would take the total beyond
    /// `i64::MAX` as `WeightOverflow`; a rejected push leaves the wheel as it
    /// was.
    pub fn push(&mut self, fitness: i64, individual: T) -> (pushed: Result<(), WeightError>)
        ensures
            match pushed {
                Ok(()) => old(self)@.rejection(fitness) is None && final(self)@ == old(self)@.push(
                    fitness,
                    individual,
                ),
                Err(e) => old(self)@.rejection(fitness) == Some(e) && final(self)@ == old(self)@,
            },
            old(self).wf() ==> final(self).wf(),
    {
        if fitness < 0 {
            return Err(WeightError::InvalidWeight);
        }
        match self.total_fitness.checked_add(fitness) {
            None => Err(WeightError::WeightOverflow),
            Some(_) => {
                self.unchecked_push(fitness, individual);
                Ok(())
            },
        }
    }

    /// Adds an individual with its fitness without checking either. Where
    /// `push` would have taken the pair, this does what `push` does. Where
    /// it would not, the pair is added all the same and the wheel is no
    /// longer well formed: a negative fitness stands among the fitnesses,
    /// or the total, which stops at the bounds of `i64`, is not their sum.
    pub fn unchecked_push(&mut self, fitness: i64, individual: T)
        ensures
            final(self)@.fitnesses == old(self)@.fitnesses.push(fitness),
            final(self)@.population == old(self)@.population.push(individual),
            final(self)@.total == bounded(old(self)@.total + fitness),
            old(self)@.rejection(fitness) is None ==> final(self)@ == old(self)@.push(
                fitness,
                individual,
            ),
            old(self).wf() && old(self)@.rejection(fitness) is None ==> final(self).wf(),
    {
        proof {
            lemma_total_of_push(self.fitnesses@, fitness);
        }
        self.total_fitness = match self.total_fitness.checked_add(fitness) {
            Some(total) => total,
            None => if fitness < 0 {
                i64::MIN
            } else {
                i64::MAX
            },
        };
        self.fitnesses.push(fitness);
        self.population.push(individual);
    }

    /// Starts a session of draws that leaves the wheel as it is, with the
    /// generator of the current thread as the source of its samples.
    pub fn select_iter(&self) -> (iter: SelectIter<'_, rand::ThreadRng, T>)
        requires
            self.wf(),
        ensures
            iter.wf(),
            iter.wheel() == self@,
            iter@ == self@,
    {
        SelectIter::new(self)
    }

    /// Starts a session of draws that takes the entries out of the wheel,
    /// with the generator of the current thread as the source of its
    /// samples.
    pub fn into_iter(self) -> (iter: IntoSelectIter<rand::ThreadRng, T>)
        ensures
            iter@ == self@,
    {
        IntoSelectIter::new(self)
    }

    /// The sum of all fitnesses, as the wheel has recorded it.
    pub fn total_fitness(&self) -> (total: i64)
        ensures
            total == self@.total,
    {
        self.total_fitness
    }
}

impl<T> RouletteWheel<T> {
    /// Builds a wheel from pairs of a fitness and an individual, as checked
    /// pushes of the pairs in their order would: the first pair that a push
    /// would reject ends the construction with that error. The wheel is
    /// built exactly when no fitness is negative and their sum fits in an
    /// `i64`, and then holds the pairs in their order.
    pub fn from_pairs(pairs: Vec<(i64, T)>) -> (made: Result<RouletteWheel<T>, WeightError>)
        ensures
            match made {
                Ok(wheel) => Pool::<T>::empty().try_push_all(pairs@) == Ok::<Pool<T>, WeightError>(
                    wheel@,
                ),
                Err(e) => Pool::<T>::empty().try_push_all(pairs@) == Err::<Pool<T>, WeightError>(e),
            },
            made is Ok <==> acceptable(fitnesses_of(pairs@)),
            made matches Ok(wheel) ==> wheel@ == Pool::of(pairs@) && wheel.wf(),
    {
        let ghost all = pairs@;
        let mut wheel = RouletteWheel::with_capacity(pairs.len());
        for pair in it: pairs.into_iter()
            invariant
                it.seq() == all,
                Pool::<T>::empty().try_push_all(all.take(it.index() as int)) == Ok::<
                    Pool<T>,
                    WeightError,
                >(wheel@),
                wheel.wf(),
        {
            let ghost next = it.index() + 1;
            assert(all.take(next).drop_last() =~= all.take(next - 1));
            match wheel.push(pair.0, pair.1) {
                Ok(()) => {},
                Err(e) => {
                    proof {
                        Pool::<T>::empty().lemma_try_push_all_err_stays(all, next);
                        lemma_pushes_agree_with_bulk(all);
                    }
                    return Err(e);
                },
            }
        }
        proof {
            assert(all.take(all.len() as int) =~= all);
            lemma_pushes_agree_with_bulk(all);
        }
        Ok(wheel)
    }

    /// Whether the wheel is well formed, found by a scan of the fitnesses.
    pub fn is_well_formed(&self) -> (well_formed: bool)
        ensures
            well_formed == self.wf(),
    {
        if self.fitnesses.len() != self.population.len() {
            return false;
        }
        match checked_total(&self.fitnesses) {
            Ok(total) => total == self.total_fitness,
            Err(_) => false,
        }
    }

    /// Scans the fitnesses and sets the total to their sum. A negative
    /// fitness is reported as `InvalidWeight`; a sum beyond `i64::MAX`, where
    /// no fitness is negative, as `WeightOverflow`. On an error the wheel
    /// stays as it was.
    pub fn recompute_total_fitness(&mut self) -> (done: Result<(), WeightError>)
        ensures
            final(self)@.fitnesses == old(self)@.fitnesses,
            final(self)@.population == old(self)@.population,
            done is Ok && old(self)@.fitnesses.len() == old(self)@.population.len()
                ==> final(self).wf(),
            match done {
                Ok(()) => acceptable(old(self)@.fitnesses) && final(self)@.total == total_of(
                    old(self)@.fitnesses,
                ),
                Err(WeightError::InvalidWeight) => !non_negative(old(self)@.fitnesses)
                    && final(self)@ == old(self)@,
                Err(WeightError::WeightOverflow) => non_negative(old(self)@.fitnesses) && total_of(
                    old(self)@.fitnesses,
                ) > i64::MAX && final(self)@ == old(self)@,
            },
    {
        match checked_total(&self.fitnesses) {
            Ok(total) => {
                self.total_fitness = total;
                Ok(())
            },
            Err(e) => Err(e),
        }
    }
}

impl<T: Clone> Clone for RouletteWheel<T> {
    /// The clone has the same fitnesses and total, and as individuals the
    /// clones of the individuals, in their order.
    fn clone(&self) -> (wheel: RouletteWheel<T>)
        ensures
            wheel@.total == self@.total,
            wheel@.fitnesses == self@.fitnesses,
            wheel@.population.len() == self@.population.len(),
            forall|i: int|
                0 <= i < self@.population.len() ==> cloned::<T>(
                    #[trigger] self@.population[i],
                    wheel@.population[i],
                ),
            self.wf() ==> wheel.wf(),
    {
        let fitnesses = self.fitnesses.clone();
        assert(fitnesses@ =~= self.fitnesses@);
        RouletteWheel {
            total_fitness: self.total_fitness,
            fitnesses,
            population: self.population.clone(),
        }
    }
}

} // verus!
