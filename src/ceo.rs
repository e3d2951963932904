use vstd::prelude::*;
use crate::elite::{
    distinct_keys, elite_order, is_elite_order, lemma_elite_order_depends_on_key_order,
    lemma_elite_prefix_unique, same_order,
};
use crate::error::Error;
use crate::fcn::{FCN, param_count, widths_of};
use crate::scalar::Scalar;

verus! {

/// A fitness estimate for candidate parameters: the mean reward of
/// `num_episodes` rollouts of `fcn` evaluated with `params` in place of its
/// own. Rollouts may be random; an implementation must not change `fcn`.
pub trait Reward<T> {
    fn reward(&self, fcn: &FCN<T>, params: &Vec<T>, num_episodes: usize) -> T;
}

/// The settings of one optimization run.
pub struct CEO<T> {
    /// Number of generations.
    pub n_iter: usize,
    /// Candidates sampled per generation.
    pub batch_size: usize,
    /// Rollouts per reward evaluation.
    pub num_evalation_samples: usize,
    /// Fraction of each batch kept as elites, in `(0, 1]`.
    pub elite_frac: T,
    /// Standard deviation of every parameter in the first generation.
    pub initial_std: T,
    /// Scale of the exploration floor added to the standard deviation.
    pub noise_factor: T,
}

/// Whether a configuration can drive a run, given the elite count that its
/// elite fraction yields and the signs of its initial and floor noise.
pub open spec fn config_is_valid(
    n_iter: usize,
    batch_size: usize,
    num_evalation_samples: usize,
    n_elite: usize,
    initial_std_positive: bool,
    noise_factor_negative: bool,
) -> bool {
    &&& n_iter > 0
    &&& batch_size > 0
    &&& num_evalation_samples > 0
    &&& 1 <= n_elite <= batch_size
    &&& initial_std_positive
    &&& !noise_factor_negative
}

/// The elite count of a run, or `InvalidConfig` where the configuration
/// cannot drive one: no generations, an empty batch, no rollouts, no elites
/// (or more than the batch holds), an initial spread that is not positive or
/// a negative floor.
pub fn check_config(
    n_iter: usize,
    batch_size: usize,
    num_evalation_samples: usize,
    n_elite: usize,
    initial_std_positive: bool,
    noise_factor_negative: bool,
) -> (r: Result<usize, Error>)
    ensures
        r == (if config_is_valid(
            n_iter,
            batch_size,
            num_evalation_samples,
            n_elite,
            initial_std_positive,
            noise_factor_negative,
        ) {
            Ok::<usize, Error>(n_elite)
        } else {
            Err::<usize, Error>(Error::InvalidConfig)
        }),
{
    if n_iter == 0 || batch_size == 0 || num_evalation_samples == 0 {
        Err(Error::InvalidConfig)
    } else if n_elite == 0 || n_elite > batch_size {
        Err(Error::InvalidConfig)
    } else if !initial_std_positive || noise_factor_negative {
        Err(Error::InvalidConfig)
    } else {
        Ok(n_elite)
    }
}

impl<T: Scalar> Default for CEO<T> {
    fn default() -> (r: CEO<T>)
        ensures
            r.n_iter == 300,
            r.batch_size == 50,
            r.num_evalation_samples == 300,
            r.elite_frac == T::spec_from_count(1).spec_divided_by(T::spec_from_count(4)),
            r.initial_std == T::spec_from_count(2),
            r.noise_factor == T::spec_from_count(2),
    {
        CEO {
            n_iter: 300,
            batch_size: 50,
            num_evalation_samples: 300,
            elite_frac: T::from_count(1).divided_by(T::from_count(4)),
            initial_std: T::from_count(2),
            noise_factor: T::from_count(2),
        }
    }
}

impl<T: Scalar> CEO<T> {
    /// `floor(batch_size * elite_frac)`.
    pub open spec fn spec_elite_count(&self) -> usize {
        self.elite_frac.spec_fraction_of(self.batch_size)
    }

    /// Whether this configuration can drive a run.
    pub open spec fn spec_is_valid(&self) -> bool {
        config_is_valid(
            self.n_iter,
            self.batch_size,
            self.num_evalation_samples,
            self.spec_elite_count(),
            self.initial_std.spec_is_positive(),
            self.noise_factor.spec_is_negative(),
        )
    }

    /// The number of elites kept per generation, `floor(batch_size *
    /// elite_frac)`, once the whole configuration has been checked.
    pub fn elite_count(&self) -> (r: Result<usize, Error>)
        ensures
            r == (if self.spec_is_valid() {
                Ok::<usize, Error>(self.spec_elite_count())
            } else {
                Err::<usize, Error>(Error::InvalidConfig)
            }),
    {
        let n_elite = self.elite_frac.fraction_of(self.batch_size);
        check_config(
            self.n_iter,
            self.batch_size,
            self.num_evalation_samples,
            n_elite,
            self.initial_std.is_positive(),
            self.noise_factor.is_negative(),
        )
    }

    /// Starts a run on `fcn`: the search distribution is centred on the
    /// network's current parameters, with `initial_std` as the spread of
    /// every one. Refused with `InvalidConfig`, before any sampling, where
    /// the configuration cannot drive a run.
    pub fn start(&self, fcn: &FCN<T>) -> (r: Result<Search<T>, Error>)
        ensures
            r matches Ok(s) ==> {
                &&& s.spec_mean() == fcn.spec_params()
                &&& s.spec_spread().len() == fcn.spec_params().len()
                &&& forall|i: int| 0 <= i < s.spec_spread().len() ==> s.spec_spread()[i] == self.initial_std
                &&& s.spec_generation() == 0
                &&& s.spec_generations() == self.n_iter
                &&& s.spec_batch_size() == self.batch_size
                &&& s.spec_noise_factor() == self.noise_factor
                &&& s.spec_n_elite() == self.spec_elite_count()
            },
            r is Ok <==> self.spec_is_valid(),
            r matches Err(e) ==> e == Error::InvalidConfig,
    {
        let n_elite = match self.elite_count() {
            Ok(k) => k,
            Err(e) => {
                return Err(e);
            },
        };
        let params = fcn.params();
        let mut mean: Vec<T> = Vec::new();
        let mut spread: Vec<T> = Vec::new();
        for i in 0..params.len()
            invariant
                params@ == fcn.spec_params(),
                mean@ == params@.subrange(0, i as int),
                spread@.len() == i,
                forall|j: int| 0 <= j < i ==> spread@[j] == self.initial_std,
        {
            mean.push(params[i]);
            spread.push(self.initial_std);
            assert(mean@ =~= params@.subrange(0, i + 1));
        }
        assert(mean@ =~= params@);
        Ok(
            Search {
                mean,
                spread,
                generation: 0,
                generations: self.n_iter,
                batch_size: self.batch_size,
                n_elite,
                noise_factor: self.noise_factor,
            },
        )
    }
}

/// The state of a run between generations: the search distribution (a mean
/// and a spread for every parameter) and how far the run has come.
pub struct Search<T> {
    mean: Vec<T>,
    spread: Vec<T>,
    generation: usize,
    generations: usize,
    batch_size: usize,
    n_elite: usize,
    noise_factor: T,
}

impl<T> Search<T> {
    #[verifier::type_invariant]
    spec fn consistent(self) -> bool {
        &&& self.mean@.len() == self.spread@.len()
        &&& 1 <= self.n_elite <= self.batch_size
        &&& self.generation <= self.generations
    }

    /// Mean of the search distribution.
    pub closed spec fn spec_mean(&self) -> Seq<T> {
        self.mean@
    }

    /// Spread of the search distribution, one per parameter.
    pub closed spec fn spec_spread(&self) -> Seq<T> {
        self.spread@
    }

    /// Generations completed.
    pub closed spec fn spec_generation(&self) -> usize {
        self.generation
    }

    /// Generations the run is to complete.
    pub closed spec fn spec_generations(&self) -> usize {
        self.generations
    }

    /// Candidates per generation.
    pub closed spec fn spec_batch_size(&self) -> usize {
        self.batch_size
    }

    /// Elites kept per generation.
    pub closed spec fn spec_n_elite(&self) -> usize {
        self.n_elite
    }

    /// Scale of the exploration floor.
    pub closed spec fn spec_noise_factor(&self) -> T {
        self.noise_factor
    }

    /// Mean of the search distribution.
    pub fn mean(&self) -> (r: &Vec<T>)
        ensures
            r@ == self.spec_mean(),
    {
        &self.mean
    }

    /// Spread of the search distribution, one per parameter.
    pub fn spread(&self) -> (r: &Vec<T>)
        ensures
            r@ == self.spec_spread(),
            r@.len() == self.spec_mean().len(),
    {
        proof {
            use_type_invariant(self);
        }
        &self.spread
    }

    /// Generations completed.
    pub fn generation(&self) -> (r: usize)
        ensures
            r == self.spec_generation(),
    {
        self.generation
    }

    /// Elites kept per generation.
    pub fn n_elite(&self) -> (r: usize)
        ensures
            r == self.spec_n_elite(),
            1 <= r <= self.spec_batch_size(),
    {
        proof {
            use_type_invariant(self);
        }
        self.n_elite
    }

    /// Candidates per generation.
    pub fn batch_size(&self) -> (r: usize)
        ensures
            r == self.spec_batch_size(),
    {
        self.batch_size
    }

    /// Whether every generation has run.
    pub fn finished(&self) -> (r: bool)
        ensures
            r == (self.spec_generation() >= self.spec_generations()),
    {
        self.generation >= self.generations
    }
}

/// The rank key of every score: the order in which elites are picked.
pub fn rank_keys<T: Scalar>(scores: &Vec<T>) -> (r: Vec<i64>)
    ensures
        r@.len() == scores@.len(),
        forall|i: int| 0 <= i < r@.len() ==> r@[i] == scores@[i].spec_rank_key(),
{
    let mut r: Vec<i64> = Vec::new();
    for i in 0..scores.len()
        invariant
            r@.len() == i,
            forall|j: int| 0 <= j < i ==> r@[j] == scores@[j].spec_rank_key(),
    {
        r.push(scores[i].rank_key());
    }
    r
}

/// Whether every candidate of a batch has `dim` parameters.
pub open spec fn candidates_have_dim<T>(candidates: Seq<Vec<T>>, dim: nat) -> bool {
    forall|c: int| 0 <= c < candidates.len() ==> #[trigger] candidates[c]@.len() == dim
}

/// Sum, accumulated left to right from zero, of component `d` of the
/// candidates that the first `e` entries of `order` name.
pub open spec fn elite_column_sum<T: Scalar>(
    candidates: Seq<Vec<T>>,
    order: Seq<usize>,
    e: nat,
    d: int,
) -> T
    decreases e,
{
    if e == 0 {
        T::spec_zero()
    } else {
        elite_column_sum(candidates, order, (e - 1) as nat, d).spec_plus(
            candidates[order[e - 1] as int]@[d],
        )
    }
}

/// Component-wise mean of the candidates that the first `n_elite` entries
/// of `order` name.
pub open spec fn elite_mean_of<T: Scalar>(
    candidates: Seq<Vec<T>>,
    order: Seq<usize>,
    n_elite: usize,
    dim: nat,
) -> Seq<T> {
    Seq::new(
        dim,
        |d: int|
            elite_column_sum(candidates, order, n_elite as nat, d).spec_divided_by(
                T::spec_from_count(n_elite),
            ),
    )
}

/// Sum, accumulated left to right from zero, of the squared deviations from
/// `m` of component `d` of the candidates that the first `e` entries of
/// `order` name.
pub open spec fn elite_square_sum<T: Scalar>(
    candidates: Seq<Vec<T>>,
    order: Seq<usize>,
    e: nat,
    d: int,
    m: T,
) -> T
    decreases e,
{
    if e == 0 {
        T::spec_zero()
    } else {
        let dev = candidates[order[e - 1] as int]@[d].spec_minus(m);
        elite_square_sum(candidates, order, (e - 1) as nat, d, m).spec_plus(dev.spec_times(dev))
    }
}

/// Component-wise population standard deviation, about `mean`, of the
/// candidates that the first `n_elite` entries of `order` name, with `floor`
/// added to every component.
pub open spec fn elite_spread_of<T: Scalar>(
    candidates: Seq<Vec<T>>,
    order: Seq<usize>,
    n_elite: usize,
    mean: Seq<T>,
    floor: T,
) -> Seq<T> {
    Seq::new(
        mean.len(),
        |d: int|
            elite_square_sum(candidates, order, n_elite as nat, d, mean[d]).spec_divided_by(
                T::spec_from_count(n_elite),
            ).spec_square_root().spec_plus(floor),
    )
}

/// The exploration floor added to the spread after generation `generation`
/// (counted from zero): `noise_factor / (generation + 1)`.
pub open spec fn exploration_floor<T: Scalar>(noise_factor: T, generation: usize) -> T {
    noise_factor.spec_divided_by(T::spec_from_count((generation + 1) as usize))
}

/// Component-wise mean of the candidates that the first `n_elite` entries of
/// `order` name.
fn elite_mean<T: Scalar>(
    candidates: &Vec<Vec<T>>,
    order: &Vec<usize>,
    n_elite: usize,
    dim: usize,
) -> (m: Vec<T>)
    requires
        1 <= n_elite <= order@.len(),
        forall|p: int| 0 <= p < order@.len() ==> order@[p] < candidates@.len(),
        candidates_have_dim(candidates@, dim as nat),
    ensures
        m@ == elite_mean_of(candidates@, order@, n_elite, dim as nat),
{
    let ghost all = elite_mean_of(candidates@, order@, n_elite, dim as nat);
    let count = T::from_count(n_elite);
    let mut m: Vec<T> = Vec::new();
    for d in 0..dim
        invariant
            all == elite_mean_of(candidates@, order@, n_elite, dim as nat),
            count == T::spec_from_count(n_elite),
            m@ == all.subrange(0, d as int),
            1 <= n_elite <= order@.len(),
            forall|p: int| 0 <= p < order@.len() ==> order@[p] < candidates@.len(),
            candidates_have_dim(candidates@, dim as nat),
    {
        let mut sum = T::zero();
        for e in 0..n_elite
            invariant
                d < dim,
                n_elite <= order@.len(),
                forall|p: int| 0 <= p < order@.len() ==> order@[p] < candidates@.len(),
                candidates_have_dim(candidates@, dim as nat),
                sum == elite_column_sum(candidates@, order@, e as nat, d as int),
        {
            let c = order[e];
            assert(candidates@[c as int]@.len() == dim);
            sum = sum.plus(candidates[c][d]);
        }
        m.push(sum.divided_by(count));
        assert(m@ =~= all.subrange(0, d + 1));
    }
    assert(m@ =~= all);
    m
}

/// Component-wise population standard deviation, about `mean`, of the
/// candidates that the first `n_elite` entries of `order` name, with `floor`
/// added to every component.
fn elite_spread<T: Scalar>(
    candidates: &Vec<Vec<T>>,
    order: &Vec<usize>,
    n_elite: usize,
    mean: &Vec<T>,
    floor: T,
) -> (s: Vec<T>)
    requires
        1 <= n_elite <= order@.len(),
        forall|p: int| 0 <= p < order@.len() ==> order@[p] < candidates@.len(),
        candidates_have_dim(candidates@, mean@.len()),
    ensures
        s@ == elite_spread_of(candidates@, order@, n_elite, mean@, floor),
{
    let ghost all = elite_spread_of(candidates@, order@, n_elite, mean@, floor);
    let count = T::from_count(n_elite);
    let dim = mean.len();
    let mut s: Vec<T> = Vec::new();
    for d in 0..dim
        invariant
            all == elite_spread_of(candidates@, order@, n_elite, mean@, floor),
            count == T::spec_from_count(n_elite),
            s@ == all.subrange(0, d as int),
            dim == mean@.len(),
            1 <= n_elite <= order@.len(),
            forall|p: int| 0 <= p < order@.len() ==> order@[p] < candidates@.len(),
            candidates_have_dim(candidates@, dim as nat),
    {
        let mut sum = T::zero();
        for e in 0..n_elite
            invariant
                d < dim,
                dim == mean@.len(),
                n_elite <= order@.len(),
                forall|p: int| 0 <= p < order@.len() ==> order@[p] < candidates@.len(),
                candidates_have_dim(candidates@, dim as nat),
                sum == elite_square_sum(candidates@, order@, e as nat, d as int, mean@[d as int]),
        {
            let c = order[e];
            assert(candidates@[c as int]@.len() == dim);
            let dev = candidates[c][d].minus(mean[d]);
            sum = sum.plus(dev.times(dev));
        }
        s.push(sum.divided_by(count).square_root().plus(floor));
        assert(s@ =~= all.subrange(0, d + 1));
    }
    assert(s@ =~= all);
    s
}

/// A copy of a vector.
fn copy_of<T: Copy>(v: &Vec<T>) -> (r: Vec<T>)
    ensures
        r@ == v@,
{
    let mut r: Vec<T> = Vec::new();
    for i in 0..v.len()
        invariant
            r@ == v@.subrange(0, i as int),
    {
        r.push(v[i]);
        assert(r@ =~= v@.subrange(0, i + 1));
    }
    assert(r@ =~= v@);
    r
}

impl<T: Scalar> Search<T> {
    /// A candidate drawn from the search distribution: `mean + spread * noise`
    /// component-wise, where `noise` holds one standard-normal draw per
    /// parameter. Refused with `ShapeMismatch` where `noise` has the wrong
    /// length.
    pub fn candidate(&self, noise: &Vec<T>) -> (r: Result<Vec<T>, Error>)
        ensures
            r is Ok <==> noise@.len() == self.spec_mean().len(),
            r matches Ok(c) ==> c@.len() == self.spec_mean().len(),
            r matches Ok(c) ==> forall|i: int|
                0 <= i < c@.len() ==> c@[i] == self.spec_mean()[i].spec_plus(
                    self.spec_spread()[i].spec_times(noise@[i]),
                ),
            r matches Err(e) ==> e == Error::ShapeMismatch,
    {
        proof {
            use_type_invariant(self);
        }
        let dim = self.mean.len();
        if noise.len() != dim {
            return Err(Error::ShapeMismatch);
        }
        let mut c: Vec<T> = Vec::new();
        for i in 0..dim
            invariant
                c@.len() == i,
                forall|j: int|
                    0 <= j < i ==> c@[j] == self.mean@[j].spec_plus(
                        self.spread@[j].spec_times(noise@[j]),
                    ),
                dim == self.mean@.len(),
                dim == self.spread@.len(),
                dim == noise@.len(),
        {
            c.push(self.mean[i].plus(self.spread[i].times(noise[i])));
        }
        Ok(c)
    }

    /// Runs the decision part of one generation on a scored batch: ranks the
    /// candidates by key, keeps the best `n_elite`, refits the distribution
    /// to them (their component-wise mean, and their component-wise spread
    /// plus the floor `noise_factor / (generation + 1)`), and publishes the
    /// new mean as `fcn`'s parameters. Returns the ranking, elites first.
    ///
    /// Refused with `ShapeMismatch`, changing nothing, where the batch does
    /// not hold `batch_size` candidates and keys, a candidate does not have
    /// one value per parameter, or `fcn` has another parameter count.
    pub fn refit(
        &mut self,
        fcn: &mut FCN<T>,
        candidates: &Vec<Vec<T>>,
        keys: &Vec<i64>,
    ) -> (r: Result<Vec<usize>, Error>)
        requires
            old(self).spec_generation() < old(self).spec_generations(),
        ensures
            r is Ok <==> {
                &&& candidates@.len() == old(self).spec_batch_size()
                &&& keys@.len() == old(self).spec_batch_size()
                &&& candidates_have_dim(candidates@, old(self).spec_mean().len())
                &&& old(fcn).spec_params().len() == old(self).spec_mean().len()
            },
            r matches Ok(order) ==> {
                &&& is_elite_order(keys@, order@, old(self).spec_n_elite() as nat)
                &&& final(self).spec_generation() == old(self).spec_generation() + 1
                &&& final(self).spec_mean().len() == old(self).spec_mean().len()
                &&& final(self).spec_spread().len() == old(self).spec_mean().len()
                &&& final(self).spec_mean() == elite_mean_of(
                    candidates@,
                    order@,
                    old(self).spec_n_elite(),
                    old(self).spec_mean().len(),
                )
                &&& final(self).spec_spread() == elite_spread_of(
                    candidates@,
                    order@,
                    old(self).spec_n_elite(),
                    final(self).spec_mean(),
                    exploration_floor(old(self).spec_noise_factor(), old(self).spec_generation()),
                )
                &&& final(fcn).spec_params() == final(self).spec_mean()
            },
            r matches Err(e) ==> {
                &&& e == Error::ShapeMismatch
                &&& final(self).spec_generation() == old(self).spec_generation()
                &&& final(self).spec_mean() == old(self).spec_mean()
                &&& final(self).spec_spread() == old(self).spec_spread()
                &&& final(fcn).spec_params() == old(fcn).spec_params()
            },
            final(fcn).spec_layers() == old(fcn).spec_layers(),
            final(self).spec_generations() == old(self).spec_generations(),
            final(self).spec_batch_size() == old(self).spec_batch_size(),
            final(self).spec_n_elite() == old(self).spec_n_elite(),
            final(self).spec_noise_factor() == old(self).spec_noise_factor(),
    {
        proof {
            use_type_invariant(&*self);
        }
        let dim = self.mean.len();
        if candidates.len() != self.batch_size || keys.len() != self.batch_size
            || fcn.parameter_count() != dim {
            return Err(Error::ShapeMismatch);
        }
        let mut i: usize = 0;
        while i < candidates.len()
            invariant
                i <= candidates@.len(),
                dim == old(self).spec_mean().len(),
                forall|c: int| 0 <= c < i ==> #[trigger] candidates@[c]@.len() == dim,
            decreases candidates@.len() - i,
        {
            if candidates[i].len() != dim {
                assert(candidates@[i as int]@.len() != dim);
                return Err(Error::ShapeMismatch);
            }
            i = i + 1;
        }
        let order = elite_order(keys, self.n_elite);
        let mean = elite_mean(candidates, &order, self.n_elite, dim);
        let floor = self.noise_factor.divided_by(T::from_count(self.generation + 1));
        let spread = elite_spread(candidates, &order, self.n_elite, &mean, floor);
        let published = fcn.set_params(copy_of(&mean));
        assert(published is Ok);
        self.mean = mean;
        self.spread = spread;
        self.generation = self.generation + 1;
        Ok(order)
    }
}

/// The elite sums read only the first `e` entries of an order.
proof fn lemma_elite_sums_agree<T: Scalar>(
    candidates: Seq<Vec<T>>,
    o1: Seq<usize>,
    o2: Seq<usize>,
    e: nat,
    d: int,
    m: T,
)
    requires
        e <= o1.len(),
        e <= o2.len(),
        forall|i: int| 0 <= i < e ==> o1[i] == o2[i],
    ensures
        elite_column_sum(candidates, o1, e, d) == elite_column_sum(candidates, o2, e, d),
        elite_square_sum(candidates, o1, e, d, m) == elite_square_sum(candidates, o2, e, d, m),
    decreases e,
{
    if e > 0 {
        lemma_elite_sums_agree(candidates, o1, o2, (e - 1) as nat, d, m);
    }
}

/// A generation's refit depends on the scores only through their order:
/// where no two keys are equal, elite orders for two key vectors that order
/// the batch alike (a strictly increasing function of the scores, or the same
/// scores gathered in another completion order) yield the same new mean and
/// the same new spread.
pub proof fn lemma_refit_depends_on_score_order<T: Scalar>(
    candidates: Seq<Vec<T>>,
    k1: Seq<i64>,
    k2: Seq<i64>,
    o1: Seq<usize>,
    o2: Seq<usize>,
    n_elite: usize,
    dim: nat,
    floor: T,
)
    requires
        distinct_keys(k1),
        same_order(k1, k2),
        is_elite_order(k1, o1, n_elite as nat),
        is_elite_order(k2, o2, n_elite as nat),
    ensures
        elite_mean_of(candidates, o1, n_elite, dim) == elite_mean_of(candidates, o2, n_elite, dim),
        elite_spread_of(candidates, o1, n_elite, elite_mean_of(candidates, o1, n_elite, dim), floor)
            == elite_spread_of(
            candidates,
            o2,
            n_elite,
            elite_mean_of(candidates, o2, n_elite, dim),
            floor,
        ),
{
    assert(same_order(k2, k1));
    lemma_elite_order_depends_on_key_order(k2, k1, o2, n_elite as nat);
    lemma_elite_prefix_unique(k1, o1, o2, n_elite as nat);
    assert forall|i: int| 0 <= i < n_elite implies o1[i] == o2[i] by {
        assert(o1.subrange(0, n_elite as int)[i] == o2.subrange(0, n_elite as int)[i]);
    }
    let mean = elite_mean_of(candidates, o1, n_elite, dim);
    assert forall|d: int| 0 <= d < dim implies elite_column_sum(candidates, o1, n_elite as nat, d)
        == elite_column_sum(candidates, o2, n_elite as nat, d) && elite_square_sum(
        candidates,
        o1,
        n_elite as nat,
        d,
        mean[d],
    ) == elite_square_sum(candidates, o2, n_elite as nat, d, mean[d]) by {
        lemma_elite_sums_agree(candidates, o1, o2, n_elite as nat, d, mean[d]);
    }
    assert(elite_mean_of(candidates, o1, n_elite, dim) =~= elite_mean_of(
        candidates,
        o2,
        n_elite,
        dim,
    ));
    assert(elite_spread_of(candidates, o1, n_elite, mean, floor) =~= elite_spread_of(
        candidates,
        o2,
        n_elite,
        mean,
        floor,
    ));
}

} // verus!
