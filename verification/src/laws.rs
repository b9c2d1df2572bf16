//! What follows from the model of a wheel, stated as proof functions.

use crate::pool::{
    acceptable, all_positive, all_zero, fitnesses_of, lemma_total_of_non_negative,
    lemma_total_of_prefixes, lemma_total_of_push, lemma_total_of_take_next, population_of,
    reaches, total_of, Pool, SAMPLE_SCALE,
};
use vstd::prelude::*;

verus! {

/// Pushing pairs one by one into an empty pool, each push checked, and
/// building the pool from the pairs at once come to the same: both succeed
/// exactly when no fitness is negative and the sum of the fitnesses fits in
/// an `i64`, and then give the same entries and the same total.
pub proof fn lemma_pushes_agree_with_bulk<T>(pairs: Seq<(i64, T)>)
    ensures
        match Pool::<T>::empty().try_push_all(pairs) {
            Ok(pool) => acceptable(fitnesses_of(pairs)) && pool == Pool::of(pairs),
            Err(_) => !acceptable(fitnesses_of(pairs)),
        },
    decreases pairs.len(),
{
    let fitnesses = fitnesses_of(pairs);
    if pairs.len() == 0 {
        assert(fitnesses =~= Seq::<i64>::empty());
        assert(population_of(pairs) =~= Seq::<T>::empty());
    } else {
        let front = pairs.drop_last();
        lemma_pushes_agree_with_bulk(front);
        assert(fitnesses.drop_last() =~= fitnesses_of(front));
        assert(fitnesses.last() == pairs.last().0);
        match Pool::<T>::empty().try_push_all(front) {
            Ok(pool) => {
                assert(fitnesses =~= fitnesses_of(front).push(pairs.last().0));
                assert(population_of(pairs) =~= population_of(front).push(pairs.last().1));
                if pairs.last().0 >= 0 {
                    assert forall|i: int| 0 <= i < fitnesses.len() implies fitnesses[i] >= 0 by {
                        if i < front.len() {
                            assert(fitnesses_of(front)[i] >= 0);
                        }
                    }
                }
            },
            Err(_) => {
                if acceptable(fitnesses) {
                    assert forall|i: int| 0 <= i < fitnesses_of(front).len() implies fitnesses_of(
                        front,
                    )[i] >= 0 by {
                        assert(fitnesses[i] >= 0);
                    }
                    assert(fitnesses.last() >= 0);
                }
            },
        }
    }
}

/// A push that is not rejected keeps a well-formed pool well formed: the
/// total is still the sum of the fitnesses.
pub proof fn lemma_push_keeps_wf<T>(pool: Pool<T>, fitness: i64, individual: T)
    requires
        pool.wf(),
        pool.rejection(fitness) is None,
    ensures
        pool.push(fitness, individual).wf(),
        pool.push(fitness, individual).len() == pool.len() + 1,
{
    lemma_total_of_push(pool.fitnesses, fitness);
}

/// Whatever pairs are pushed in turn into a well-formed pool, each push
/// checked: if none is rejected, the pool that comes out is well formed and
/// has grown by the number of pairs.
pub proof fn lemma_pushes_keep_wf<T>(pool: Pool<T>, pairs: Seq<(i64, T)>)
    requires
        pool.wf(),
    ensures
        pool.try_push_all(pairs) matches Ok(grown) ==> grown.wf() && grown.len() == pool.len()
            + pairs.len(),
    decreases pairs.len(),
{
    if pairs.len() > 0 {
        lemma_pushes_keep_wf(pool, pairs.drop_last());
        if let Ok(front) = pool.try_push_all(pairs.drop_last()) {
            if front.rejection(pairs.last().0) is None {
                lemma_push_keeps_wf(front, pairs.last().0, pairs.last().1);
            }
        }
    }
}

/// A draw keeps a well-formed pool well formed, whatever the sample: the
/// total is still the sum of the fitnesses. Where something can be drawn,
/// the pool has one entry less afterwards.
pub proof fn lemma_draw_keeps_wf<T>(pool: Pool<T>, sample: int)
    requires
        pool.wf(),
    ensures
        pool.drawn(sample).wf(),
        pool.drawable() ==> pool.drawn(sample).len() == pool.len() - 1,
        pool.drawable() <==> pool.draw_output(sample) is Some,
        !pool.drawable() ==> pool.drawn(sample) == pool,
{
    if pool.drawable() {
        pool.lemma_selection_selected(sample);
        pool.lemma_without_wf(pool.selection(sample));
    }
}

/// The entry that a draw hands out is the one on whose share the sample
/// falls. In a well-formed pool from which something can be drawn, a sample
/// below `SAMPLE_SCALE` selects entry `i` where the target
/// `sample * total`, in units of `1 / SAMPLE_SCALE`, lies above the sum of
/// the fitnesses before `i` and at or below that sum with the fitness of `i`
/// added. The scan never runs out, and an entry of fitness zero is selected
/// only as the first entry, by the sample zero.
pub proof fn lemma_selection_within_share<T>(pool: Pool<T>, sample: int)
    requires
        pool.wf(),
        pool.drawable(),
        0 <= sample < SAMPLE_SCALE,
    ensures
        0 <= pool.selection(sample) < pool.len(),
        sample * pool.total <= SAMPLE_SCALE * total_of(
            pool.fitnesses.take(pool.selection(sample) + 1),
        ),
        pool.selection(sample) > 0 ==> SAMPLE_SCALE * total_of(
            pool.fitnesses.take(pool.selection(sample)),
        ) < sample * pool.total,
        pool.fitnesses[pool.selection(sample)] > 0 || (pool.selection(sample) == 0 && sample == 0),
{
    let i = pool.selection(sample);
    pool.lemma_selection_selected(sample);
    lemma_total_of_take_next(pool.fitnesses, i);
    if !reaches(pool.fitnesses, pool.total, sample, i) {
        assert(pool.fitnesses.take(i + 1) =~= pool.fitnesses);
        assert(sample * pool.total <= SAMPLE_SCALE * pool.total) by (nonlinear_arith)
            requires
                0 <= sample < SAMPLE_SCALE,
                pool.total > 0,
        ;
    }
    if i > 0 {
        assert(!reaches(pool.fitnesses, pool.total, sample, i - 1));
    } else {
        assert(pool.fitnesses.take(0) =~= Seq::<i64>::empty());
        if pool.fitnesses[0] == 0 {
            assert(sample == 0) by (nonlinear_arith)
                requires
                    sample * pool.total <= 0,
                    0 <= sample,
                    pool.total > 0,
            ;
        }
    }
}

/// The converse: a sample whose target lies on the share of entry `i`
/// selects entry `i`. The share reaches from the sum of the fitnesses before
/// `i`, which it leaves out but for the first entry, to that sum with the
/// fitness of `i` added, which it takes in. So of the samples below
/// `SAMPLE_SCALE` an entry gets those that its fitness has in the total, to
/// the nearest sample.
pub proof fn lemma_share_selects<T>(pool: Pool<T>, sample: int, i: int)
    requires
        pool.wf(),
        0 <= i < pool.len(),
        i == 0 || SAMPLE_SCALE * total_of(pool.fitnesses.take(i)) < sample * pool.total,
        sample * pool.total <= SAMPLE_SCALE * total_of(pool.fitnesses.take(i + 1)),
    ensures
        pool.selection(sample) == i,
{
    assert forall|j: int| 0 <= j < i implies !reaches(
        pool.fitnesses,
        pool.total,
        sample,
        j,
    ) by {
        lemma_total_of_prefixes(pool.fitnesses, j + 1, i);
    }
    pool.lemma_selection(sample, i);
}

/// A well-formed pool stays well formed over any number of draws, and never
/// grows.
pub proof fn lemma_draws_keep_wf<T>(pool: Pool<T>, samples: Seq<int>)
    requires
        pool.wf(),
    ensures
        pool.drawn_all(samples).wf(),
        pool.drawn_all(samples).len() <= pool.len(),
    decreases samples.len(),
{
    if samples.len() > 0 {
        lemma_draws_keep_wf(pool, samples.drop_last());
        lemma_draw_keeps_wf(pool.drawn_all(samples.drop_last()), samples.last());
    }
}

/// As long as every draw hands out an entry, each takes one entry from the
/// pool.
pub proof fn lemma_draws_shrink<T>(pool: Pool<T>, samples: Seq<int>)
    requires
        pool.wf(),
        forall|k: int|
            0 <= k < samples.len() ==> (#[trigger] pool.drawn_all(samples.take(k))).drawable(),
    ensures
        pool.drawn_all(samples).wf(),
        pool.drawn_all(samples).len() == pool.len() - samples.len(),
    decreases samples.len(),
{
    if samples.len() > 0 {
        let front = samples.drop_last();
        assert forall|k: int| 0 <= k < front.len() implies (#[trigger] pool.drawn_all(
            front.take(k),
        )).drawable() by {
            assert(front.take(k) =~= samples.take(k));
        }
        lemma_draws_shrink(pool, front);
        assert(samples.take(front.len() as int) =~= front);
        lemma_draw_keeps_wf(pool.drawn_all(front), samples.last());
    }
}

/// A pool that has been drained is exhausted. After as many draws as a
/// well-formed pool has entries, each of which handed out an entry, no
/// entry is left, the total is zero, and any further draw hands out nothing
/// and changes nothing.
pub proof fn lemma_drained_is_exhausted<T>(pool: Pool<T>, samples: Seq<int>, further: int)
    requires
        pool.wf(),
        samples.len() == pool.len(),
        forall|k: int|
            0 <= k < samples.len() ==> (#[trigger] pool.drawn_all(samples.take(k))).drawable(),
    ensures
        pool.drawn_all(samples).len() == 0,
        pool.drawn_all(samples).total == 0,
        pool.drawn_all(samples).draw_output(further) is None,
        pool.drawn_all(samples).drawn(further) == pool.drawn_all(samples),
{
    lemma_draws_shrink(pool, samples);
}

/// Where no fitness is negative and none is zero, every draw from a pool
/// that has an entry hands one out; so such a pool can always be drained.
pub proof fn lemma_positive_is_drawable<T>(pool: Pool<T>)
    requires
        pool.wf(),
        pool.len() > 0,
        all_positive(pool.fitnesses),
    ensures
        pool.drawable(),
{
    lemma_total_of_non_negative(pool.fitnesses.drop_last());
}

/// A pool without a fitness of zero can be drained by any samples: after as
/// many draws as a well-formed pool of positive fitnesses has entries, no
/// entry is left and the total is zero.
pub proof fn lemma_positive_pool_drains<T>(pool: Pool<T>, samples: Seq<int>)
    requires
        pool.wf(),
        all_positive(pool.fitnesses),
        samples.len() <= pool.len(),
    ensures
        pool.drawn_all(samples).wf(),
        all_positive(pool.drawn_all(samples).fitnesses),
        pool.drawn_all(samples).len() == pool.len() - samples.len(),
        samples.len() == pool.len() ==> pool.drawn_all(samples).total == 0,
    decreases samples.len(),
{
    if samples.len() > 0 {
        let before = pool.drawn_all(samples.drop_last());
        lemma_positive_pool_drains(pool, samples.drop_last());
        lemma_positive_is_drawable(before);
        lemma_draw_keeps_wf(before, samples.last());
        before.lemma_selection_selected(samples.last());
    }
}

/// A well-formed pool whose fitnesses are all zero hands out nothing,
/// whatever the sample, although it has entries; and the draw leaves it as
/// it was.
pub proof fn lemma_zero_fitnesses_draw_nothing<T>(pool: Pool<T>, sample: int)
    requires
        pool.wf(),
        all_zero(pool.fitnesses),
    ensures
        !pool.drawable(),
        pool.draw_output(sample) is None,
        pool.drawn(sample) == pool,
{
    lemma_total_of_all_zero(pool.fitnesses);
}

/// The sum of fitnesses that are all zero is zero.
pub proof fn lemma_total_of_all_zero(fitnesses: Seq<i64>)
    requires
        all_zero(fitnesses),
    ensures
        total_of(fitnesses) == 0,
    decreases fitnesses.len(),
{
    if fitnesses.len() > 0 {
        assert(all_zero(fitnesses.drop_last()));
        lemma_total_of_all_zero(fitnesses.drop_last());
    }
}

/// A pool with one entry and a positive total hands out that entry,
/// whatever the sample, and is empty afterwards.
pub proof fn lemma_single_entry_is_drawn<T>(pool: Pool<T>, sample: int)
    requires
        pool.fitnesses.len() == 1,
        pool.population.len() == 1,
        pool.total > 0,
    ensures
        pool.selection(sample) == 0,
        pool.draw_output(sample) == Some((pool.fitnesses[0], pool.population[0])),
        pool.drawn(sample).len() == 0,
        pool.drawn(sample).fitnesses.len() == 0,
        pool.drawn(sample).total == pool.total - pool.fitnesses[0],
{
    pool.lemma_selection_selected(sample);
}

} // verus!
