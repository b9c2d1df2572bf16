//! The two ways to draw from a wheel: `IntoSelectIter` takes the wheel's
//! entries and hands them out, `SelectIter` borrows the wheel and hands out
//! references.

use crate::pool::{Pool, SAMPLE_SCALE};
use crate::scan::select_index;
use crate::source::{sample_seeded, sample_thread};
use crate::wheel::RouletteWheel;
use vstd::prelude::*;

verus! {

/// A session of draws that owns the entries of a wheel. Each draw removes
/// the entry that it hands out.
pub struct IntoSelectIter<R, T> {
    rng: R,
    total_fitness: i64,
    fitnesses: Vec<i64>,
    population: Vec<T>,
}

impl<R, T> View for IntoSelectIter<R, T> {
    type V = Pool<T>;

    /// The entries that have not been drawn yet, and their total.
    closed spec fn view(&self) -> Pool<T> {
        Pool {
            total: self.total_fitness as int,
            fitnesses: self.fitnesses@,
            population: self.population@,
        }
    }
}

impl<R, T> IntoSelectIter<R, T> {
    /// The entries that are left make a well-formed pool.
    pub open spec fn wf(&self) -> bool {
        self@.wf()
    }

    /// Starts a session on the entries of the wheel, with `rng` as the source
    /// of its samples.
    pub fn from_rng(roulette_wheel: RouletteWheel<T>, rng: R) -> (iter: IntoSelectIter<R, T>)
        ensures
            iter@ == roulette_wheel@,
    {
        IntoSelectIter {
            rng,
            total_fitness: roulette_wheel.total_fitness,
            fitnesses: roulette_wheel.fitnesses,
            population: roulette_wheel.population,
        }
    }

    /// The number of entries that are left, as the lower and the upper bound
    /// of the number of draws to come.
    pub fn size_hint(&self) -> (hint: (usize, Option<usize>))
        ensures
            hint.0 == self@.len(),
            hint.1 == Some(hint.0),
    {
        (self.population.len(), Some(self.population.len()))
    }

    /// The sum of the fitnesses of the entries that are left, as the session
    /// has recorded it.
    pub fn total_fitness(&self) -> (total: i64)
        ensures
            total == self@.total,
    {
        self.total_fitness
    }

    /// Draws with the given sample. Where nothing can be drawn, because no
    /// entry is left or the total is zero, nothing changes and `None` is
    /// returned. Otherwise the entry that the sample selects is removed, the
    /// last entry taking its place, and handed out with its fitness, and the
    /// total goes down by that fitness.
    pub fn select(&mut self, sample: u32) -> (drawn: Option<(i64, T)>)
        requires
            old(self).wf(),
        ensures
            final(self).wf(),
            drawn == old(self)@.draw_output(sample as int),
            final(self)@ == old(self)@.drawn(sample as int),
    {
        if self.fitnesses.is_empty() || self.total_fitness <= 0 {
            return None;
        }
        let index = select_index(&self.fitnesses, self.total_fitness, sample);
        proof {
            self@.lemma_selection(sample as int, index as int);
            self@.lemma_without_wf(index as int);
        }
        let fitness = self.fitnesses.swap_remove(index);
        let individual = self.population.swap_remove(index);
        self.total_fitness = self.total_fitness - fitness;
        Some((fitness, individual))
    }
}

impl<T> IntoSelectIter<rand::ThreadRng, T> {
    /// Starts a session on the entries of the wheel, with the generator of
    /// the current thread as the source of its samples.
    pub fn new(roulette_wheel: RouletteWheel<T>) -> (iter: IntoSelectIter<rand::ThreadRng, T>)
        ensures
            iter@ == roulette_wheel@,
    {
        IntoSelectIter::from_rng(roulette_wheel, rand::thread_rng())
    }

    /// Draws with a sample read from the generator. A sample is read only
    /// where something can be drawn; the draw is then the one that `select`
    /// makes with that sample.
    pub fn next(&mut self) -> (drawn: Option<(i64, T)>)
        requires
            old(self).wf(),
        ensures
            final(self).wf(),
            drawn is Some <==> old(self)@.drawable(),
            exists|sample: int|
                0 <= sample < SAMPLE_SCALE && drawn == #[trigger] old(self)@.draw_output(sample)
                    && final(self)@ == old(self)@.drawn(sample),
    {
        if self.fitnesses.is_empty() || self.total_fitness <= 0 {
            assert(None::<(i64, T)> == self@.draw_output(0) && self@ == self@.drawn(0));
            return None;
        }
        let sample = sample_thread(&mut self.rng, 0, SAMPLE_SCALE);
        self.select(sample)
    }
}

impl<T> IntoSelectIter<rand::StdRng, T> {
    /// Draws with a sample read from the generator. A sample is read only
    /// where something can be drawn; the draw is then the one that `select`
    /// makes with that sample.
    pub fn next(&mut self) -> (drawn: Option<(i64, T)>)
        requires
            old(self).wf(),
        ensures
            final(self).wf(),
            drawn is Some <==> old(self)@.drawable(),
            exists|sample: int|
                0 <= sample < SAMPLE_SCALE && drawn == #[trigger] old(self)@.draw_output(sample)
                    && final(self)@ == old(self)@.drawn(sample),
    {
        if self.fitnesses.is_empty() || self.total_fitness <= 0 {
            assert(None::<(i64, T)> == self@.draw_output(0) && self@ == self@.drawn(0));
            return None;
        }
        let sample = sample_seeded(&mut self.rng, 0, SAMPLE_SCALE);
        self.select(sample)
    }
}

/// A session of draws that borrows a wheel. It keeps its own list of the
/// entries that it has not handed out yet, and its own total of them; the
/// wheel is never changed.
pub struct SelectIter<'a, R, T> {
    rng: R,
    total_fitness: i64,
    fitnesses: Vec<i64>,
    ids: Vec<usize>,
    roulette_wheel: &'a RouletteWheel<T>,
}

impl<'a, R, T> View for SelectIter<'a, R, T> {
    type V = Pool<T>;

    /// The entries that have not been drawn yet, and their total.
    closed spec fn view(&self) -> Pool<T> {
        Pool {
            total: self.total_fitness as int,
            fitnesses: self.fitnesses@,
            population: Seq::new(
                self.ids@.len(),
                |k: int| self.roulette_wheel.population@[self.ids@[k] as int],
            ),
        }
    }
}

impl<'a, R, T> SelectIter<'a, R, T> {
    /// The wheel that the session draws from.
    pub closed spec fn wheel(&self) -> Pool<T> {
        self.roulette_wheel@
    }

    /// For each entry that has not been drawn yet, its place in the wheel.
    pub closed spec fn ids(&self) -> Seq<int> {
        Seq::new(self.ids@.len(), |k: int| self.ids@[k] as int)
    }

    /// The entries that are left are entries of the wheel, each another one,
    /// and they make a well-formed pool.
    pub open spec fn wf(&self) -> bool {
        &&& self@.wf()
        &&& self.ids().len() == self@.len()
        &&& self.ids().no_duplicates()
        &&& forall|k: int|
            0 <= k < self.ids().len() ==> {
                &&& 0 <= #[trigger] self.ids()[k] < self.wheel().len()
                &&& self@.fitnesses[k] == self.wheel().fitnesses[self.ids()[k]]
                &&& self@.population[k] == self.wheel().population[self.ids()[k]]
            }
    }

    /// Starts a session on the wheel, with `rng` as the source of its
    /// samples. Every entry of the wheel can be drawn, and the total is the
    /// wheel's.
    pub fn from_rng(roulette_wheel: &'a RouletteWheel<T>, rng: R) -> (iter: SelectIter<'a, R, T>)
        requires
            roulette_wheel.wf(),
        ensures
            iter.wf(),
            iter.wheel() == roulette_wheel@,
            iter@ == roulette_wheel@,
    {
        let fitnesses = roulette_wheel.fitnesses.clone();
        assert(fitnesses@ =~= roulette_wheel.fitnesses@);
        let mut ids: Vec<usize> = Vec::with_capacity(fitnesses.len());
        let mut index: usize = 0;
        while index < fitnesses.len()
            invariant
                index <= fitnesses.len(),
                ids@.len() == index,
                forall|k: int| 0 <= k < index ==> ids@[k] == k,
            decreases fitnesses.len() - index,
        {
            ids.push(index);
            index = index + 1;
        }
        let iter = SelectIter {
            rng,
            total_fitness: roulette_wheel.total_fitness,
            fitnesses,
            ids,
            roulette_wheel,
        };
        assert(iter@.population =~= roulette_wheel@.population);
        iter
    }

    /// The number of entries that are left, as the lower and the upper bound
    /// of the number of draws to come.
    pub fn size_hint(&self) -> (hint: (usize, Option<usize>))
        ensures
            hint.0 == self@.len(),
            hint.1 == Some(hint.0),
    {
        (self.ids.len(), Some(self.ids.len()))
    }

    /// The sum of the fitnesses of the entries that are left, as the session
    /// has recorded it.
    pub fn total_fitness(&self) -> (total: i64)
        ensures
            total == self@.total,
    {
        self.total_fitness
    }

    /// Draws with the given sample. Where nothing can be drawn, because no
    /// entry is left or the total is zero, nothing changes and `None` is
    /// returned. Otherwise the entry that the sample selects leaves the
    /// session, the last entry taking its place, and a reference to the
    /// individual in the wheel is handed out with its fitness; the session's
    /// total goes down by that fitness.
    pub fn select(&mut self, sample: u32) -> (drawn: Option<(i64, &'a T)>)
        requires
            old(self).wf(),
        ensures
            final(self).wf(),
            final(self).wheel() == old(self).wheel(),
            match drawn {
                Some((fitness, individual)) => old(self)@.draw_output(sample as int) == Some(
                    (fitness, *individual),
                ),
                None => old(self)@.draw_output(sample as int) is None,
            },
            final(self)@ == old(self)@.drawn(sample as int),
    {
        if self.fitnesses.is_empty() || self.total_fitness <= 0 {
            return None;
        }
        let index = select_index(&self.fitnesses, self.total_fitness, sample);
        proof {
            self@.lemma_selection(sample as int, index as int);
            self@.lemma_without_wf(index as int);
        }
        let ghost before = *self;
        let fitness = self.fitnesses.swap_remove(index);
        let id = self.ids.swap_remove(index);
        self.total_fitness = self.total_fitness - fitness;
        proof {
            assert(id == before.ids()[index as int]);
            assert(self@.population =~= before@.without(index as int).population);
            assert(self.ids() =~= before.ids().update(index as int, before.ids().last()).drop_last());
        }
        Some((fitness, &self.roulette_wheel.population[id]))
    }
}

impl<'a, T> SelectIter<'a, rand::ThreadRng, T> {
    /// Starts a session on the wheel, with the generator of the current
    /// thread as the source of its samples.
    pub fn new(roulette_wheel: &'a RouletteWheel<T>) -> (iter: SelectIter<'a, rand::ThreadRng, T>)
        requires
            roulette_wheel.wf(),
        ensures
            iter.wf(),
            iter.wheel() == roulette_wheel@,
            iter@ == roulette_wheel@,
    {
        SelectIter::from_rng(roulette_wheel, rand::thread_rng())
    }

    /// Draws with a sample read from the generator. A sample is read only
    /// where something can be drawn; the draw is then the one that `select`
    /// makes with that sample.
    pub fn next(&mut self) -> (drawn: Option<(i64, &'a T)>)
        requires
            old(self).wf(),
        ensures
            final(self).wf(),
            final(self).wheel() == old(self).wheel(),
            drawn is Some <==> old(self)@.drawable(),
            exists|sample: int|
                0 <= sample < SAMPLE_SCALE && final(self)@ == #[trigger] old(self)@.drawn(sample)
                    && match drawn {
                    Some((fitness, individual)) => old(self)@.draw_output(sample) == Some(
                        (fitness, *individual),
                    ),
                    None => old(self)@.draw_output(sample) is None,
                },
    {
        if self.fitnesses.is_empty() || self.total_fitness <= 0 {
            assert(self@ == self@.drawn(0));
            return None;
        }
        let sample = sample_thread(&mut self.rng, 0, SAMPLE_SCALE);
        self.select(sample)
    }
}

impl<'a, T> SelectIter<'a, rand::StdRng, T> {
    /// Draws with a sample read from the generator. A sample is read only
    /// where something can be drawn; the draw is then the one that `select`
    /// makes with that sample.
    pub fn next(&mut self) -> (drawn: Option<(i64, &'a T)>)
        requires
            old(self).wf(),
        ensures
            final(self).wf(),
            final(self).wheel() == old(self).wheel(),
            drawn is Some <==> old(self)@.drawable(),
            exists|sample: int|
                0 <= sample < SAMPLE_SCALE && final(self)@ == #[trigger] old(self)@.drawn(sample)
                    && match drawn {
                    Some((fitness, individual)) => old(self)@.draw_output(sample) == Some(
                        (fitness, *individual),
                    ),
                    None => old(self)@.draw_output(sample) is None,
                },
    {
        if self.fitnesses.is_empty() || self.total_fitness <= 0 {
            assert(self@ == self@.drawn(0));
            return None;
        }
        let sample = sample_seeded(&mut self.rng, 0, SAMPLE_SCALE);
        self.select(sample)
    }
}

} // verus!
