//! The genome and its genetic operators: encoding and decoding of
//! feature-extraction parameters, random initialisation, mutation,
//! bitmask crossover, roulette selection, and the population diversity
//! metric that drives convergence detection.

use vstd::prelude::*;
use vstd::arithmetic::div_mod::{
    lemma_basic_div, lemma_div_by_self, lemma_div_is_ordered, lemma_div_multiples_vanish,
};
use crate::config::{Config, GENE_MAX_VALUE};
use crate::error::{MyError, MyResult};
use crate::math::{sqrt_floor, isqrt_u64, FP_ONE, SIM_SCALE};
use crate::model::{FeatureParams, FEATURE_SIZE_MIN, FEATURE_SIZE_MAX};
use crate::rng::gen_range_u64;

verus! {

/// Number of raw components a genome carries.
pub const GENE_LENGTH: usize = 5;

/// Smallest value mutation and crossover leave in any component.
pub const MIN_VALUE: usize = 2;

/// A genome: five positive integers encoding, in order, the raw feature
/// size, the fast period, the distance from fast to slow period, the
/// signal period, and the volatility band period.
#[derive(Debug, PartialEq)]
pub struct Gene {
    values: Vec<usize>,
}

impl View for Gene {
    type V = Seq<usize>;

    closed spec fn view(&self) -> Seq<usize> {
        self.values@
    }
}

impl Clone for Gene {
    fn clone(&self) -> (r: Gene)
        ensures
            r@ == self@,
    {
        let values = self.values.clone();
        proof {
            assert(values@ =~= self.values@);
        }
        Gene { values }
    }
}

/// Clamp one crossed component into `[MIN_VALUE, max]`.
pub open spec fn spec_clamp(v: int, max: int) -> int {
    if v > max {
        max
    } else if v < MIN_VALUE {
        MIN_VALUE as int
    } else {
        v
    }
}

/// The component crossover leaves in the genome whose old component was
/// `a`, after swapping in the two bits of `b` selected by the mask at
/// `off`, clamped into `[MIN_VALUE, max]`.
pub open spec fn cross_value(a: usize, b: usize, off: usize, max: int) -> int {
    spec_clamp((((a & !(3usize << off)) | (b & (3usize << off)))) as int, max)
}

/// Both genomes after one crossover at component `i` with bit offset
/// `off`: the chosen component of each takes the masked mix of the two
/// old components, everything else is untouched.
pub open spec fn crossed(
    old1: Seq<usize>,
    old2: Seq<usize>,
    new1: Seq<usize>,
    new2: Seq<usize>,
    i: int,
    off: usize,
    max: int,
) -> bool {
    &&& new1 == old1.update(i, cross_value(old1[i], old2[i], off, max) as usize)
    &&& new2 == old2.update(i, cross_value(old2[i], old1[i], off, max) as usize)
}

/// Every component of `s` lies in `[MIN_VALUE, max]`.
pub open spec fn components_in_range(s: Seq<usize>, max: int) -> bool {
    forall|j: int| 0 <= j < s.len() ==> MIN_VALUE <= #[trigger] s[j] <= max
}

/// Sum of squared component differences over the first `n` components.
pub open spec fn ssd_prefix(a: Seq<usize>, b: Seq<usize>, n: int) -> int
    decreases n,
{
    if n <= 0 {
        0
    } else {
        ssd_prefix(a, b, n - 1) + (a[n - 1] - b[n - 1]) * (a[n - 1] - b[n - 1])
    }
}

/// Sum of squared component differences of two genomes.
pub open spec fn ssd(a: Seq<usize>, b: Seq<usize>) -> int {
    ssd_prefix(a, b, a.len() as int)
}

/// Euclidean distance of two genomes, in `SIM_SCALE` fixed point: the
/// floor of `SIM_SCALE` times the real distance.
pub open spec fn spec_similarity(a: Seq<usize>, b: Seq<usize>) -> int {
    sqrt_floor((ssd(a, b) * SIM_SCALE * SIM_SCALE) as nat) as int
}

/// Sum of component `i` over a population.
pub open spec fn sum_at(gs: Seq<Gene>, i: int) -> int
    decreases gs.len(),
{
    if gs.len() == 0 {
        0
    } else {
        sum_at(gs.drop_last(), i) + gs.last()@[i]
    }
}

/// The component-wise integer-truncated mean of a population.
pub open spec fn spec_average(gs: Seq<Gene>) -> Seq<usize> {
    Seq::new(GENE_LENGTH as nat, |i: int| (sum_at(gs, i) / gs.len() as int) as usize)
}

/// Sum of the fixed-point distances of each genome to `avg`.
pub open spec fn sim_total(gs: Seq<Gene>, avg: Seq<usize>) -> int
    decreases gs.len(),
{
    if gs.len() == 0 {
        0
    } else {
        sim_total(gs.drop_last(), avg) + spec_similarity(gs.last()@, avg)
    }
}

/// Mean fixed-point distance of a population to its own average; the
/// generational search stops once this falls below one whole unit.
pub open spec fn spec_diversity(gs: Seq<Gene>) -> int {
    sim_total(gs, spec_average(gs)) / gs.len() as int
}

/// Component sums of a well-formed population of `n` genomes lie in
/// `[n, n * GENE_MAX_VALUE]`.
pub proof fn lemma_sum_at_bounds(gs: Seq<Gene>, i: int)
    requires
        forall|k: int| 0 <= k < gs.len() ==> (#[trigger] gs[k]).wf(),
        0 <= i < GENE_LENGTH,
    ensures
        gs.len() <= sum_at(gs, i) <= gs.len() * (GENE_MAX_VALUE as int),
    decreases gs.len(),
{
    if gs.len() > 0 {
        assert(gs.last().wf());
        lemma_sum_at_bounds(gs.drop_last(), i);
    }
}

/// Sum of the first `n` weights.
pub open spec fn prefix_sum(ws: Seq<u64>, n: int) -> int
    decreases n,
{
    if n <= 0 {
        0
    } else {
        prefix_sum(ws, n - 1) + ws[n - 1]
    }
}

/// The normalising total of the roulette walk: the sum of `1 - w` over
/// all weights, in `FP_ONE` fixed point.  The walk itself accumulates
/// the raw weights over this total; that asymmetry is the documented
/// behaviour and is kept deliberately.
pub open spec fn roulette_total(ws: Seq<u64>) -> int {
    ws.len() * FP_ONE - prefix_sum(ws, ws.len() as int)
}

/// The walk has reached the border at index `i`: the accumulated weight
/// share up to and including `i` is at least `border / FP_ONE`.
pub open spec fn roulette_hit(ws: Seq<u64>, border: int, i: int) -> bool {
    prefix_sum(ws, i + 1) * FP_ONE >= border * roulette_total(ws)
}

/// First index at or after `i` where the walk reaches the border, or 0
/// when it never does.
pub open spec fn first_hit_from(ws: Seq<u64>, border: int, i: int) -> int
    decreases ws.len() - i,
{
    if i < 0 || i >= ws.len() {
        0
    } else if roulette_hit(ws, border, i) {
        i
    } else {
        first_hit_from(ws, border, i + 1)
    }
}

/// The index the roulette walk selects for a given border draw.  When
/// the normalising total is not positive the walk never reaches the
/// border and the first index is returned.
pub open spec fn roulette_index(ws: Seq<u64>, border: int) -> int {
    if roulette_total(ws) > 0 {
        first_hit_from(ws, border, 0)
    } else {
        0
    }
}

/// Weight prefix sums only grow.
proof fn lemma_prefix_sum_monotone(ws: Seq<u64>, i: int, n: int)
    requires
        0 <= i <= n,
    ensures
        prefix_sum(ws, i) <= prefix_sum(ws, n),
    decreases n - i,
{
    if i < n {
        lemma_prefix_sum_monotone(ws, i, n - 1);
    }
}

/// If the walk first reaches the border at `i`, the first hit from any
/// earlier start is `i`.
proof fn lemma_first_hit_here(ws: Seq<u64>, border: int, lo: int, i: int)
    requires
        0 <= lo <= i < ws.len(),
        roulette_hit(ws, border, i),
        forall|j: int| lo <= j < i ==> !roulette_hit(ws, border, j),
    ensures
        first_hit_from(ws, border, lo) == i,
    decreases i - lo,
{
    if lo < i {
        lemma_first_hit_here(ws, border, lo + 1, i);
    }
}

/// If the walk never reaches the border, the first hit defaults to 0.
proof fn lemma_first_hit_none(ws: Seq<u64>, border: int, lo: int)
    requires
        0 <= lo <= ws.len(),
        forall|j: int| lo <= j < ws.len() ==> !roulette_hit(ws, border, j),
    ensures
        first_hit_from(ws, border, lo) == 0,
    decreases ws.len() - lo,
{
    if lo < ws.len() {
        lemma_first_hit_none(ws, border, lo + 1);
    }
}

/// A parameter set that can be written back into a genome: all fields
/// positive, small enough for the genome arithmetic, and the slow
/// period strictly longer than the fast one.
pub open spec fn params_encodable(p: FeatureParams) -> bool {
    &&& 1 <= p.feature_size <= GENE_MAX_VALUE
    &&& 1 <= p.fast_period <= GENE_MAX_VALUE
    &&& p.fast_period < p.slow_period
    &&& p.slow_period - p.fast_period <= GENE_MAX_VALUE
    &&& 1 <= p.signal_period <= GENE_MAX_VALUE
    &&& 1 <= p.bb_period <= GENE_MAX_VALUE
}

/// The genome an encodable parameter set is written back as.
pub open spec fn spec_encode(p: FeatureParams) -> Seq<usize> {
    seq![
        p.feature_size,
        p.fast_period,
        (p.slow_period - p.fast_period) as usize,
        p.signal_period,
        p.bb_period,
    ]
}

/// Executable form of `params_encodable`, for callers holding
/// parameters of unknown origin.
pub fn check_params_encodable(p: &FeatureParams) -> (r: bool)
    ensures
        r == params_encodable(*p),
{
    1 <= p.feature_size && p.feature_size <= GENE_MAX_VALUE
        && 1 <= p.fast_period && p.fast_period <= GENE_MAX_VALUE
        && p.fast_period < p.slow_period
        && p.slow_period - p.fast_period <= GENE_MAX_VALUE
        && 1 <= p.signal_period && p.signal_period <= GENE_MAX_VALUE
        && 1 <= p.bb_period && p.bb_period <= GENE_MAX_VALUE
}

impl Gene {
    /// Every genome the library hands out keeps its five components in
    /// `[1, GENE_MAX_VALUE]`.
    pub open spec fn wf(self) -> bool {
        &&& self@.len() == GENE_LENGTH
        &&& forall|i: int| 0 <= i < self@.len() ==> 1 <= #[trigger] self@[i] <= GENE_MAX_VALUE
    }

    /// Encode a concrete parameter set back into genome form; used only
    /// to seed a population from a previously promoted model.
    pub fn new(p: &FeatureParams) -> (r: MyResult<Gene>)
        requires
            params_encodable(*p),
        ensures
            r matches Ok(g) && g.wf() && g@ == spec_encode(*p),
    {
        let mut values: Vec<usize> = Vec::new();
        values.push(p.feature_size);
        values.push(p.fast_period);
        values.push(p.slow_period - p.fast_period);
        values.push(p.signal_period);
        values.push(p.bb_period);
        proof {
            assert(values@ =~= seq![
                p.feature_size,
                p.fast_period,
                (p.slow_period - p.fast_period) as usize,
                p.signal_period,
                p.bb_period,
            ]);
        }
        Ok(Gene { values })
    }

    /// Fold an arbitrary raw component into the accepted feature-size
    /// window `[FEATURE_SIZE_MIN, FEATURE_SIZE_MAX)`.
    pub fn round_for_feature_size(v: usize) -> (r: usize)
        ensures
            r == v as int % (FEATURE_SIZE_MAX - FEATURE_SIZE_MIN) + FEATURE_SIZE_MIN,
            FEATURE_SIZE_MIN <= r < FEATURE_SIZE_MAX,
    {
        (v % (FEATURE_SIZE_MAX - FEATURE_SIZE_MIN)) + FEATURE_SIZE_MIN
    }

    /// One uniform draw from the configured component range
    /// `[MIN_VALUE, forecast_input_size / 3]`.
    pub fn gen_value_random(config: &Config, rng: &mut rand::rngs::StdRng) -> (r: usize)
        requires
            config.valid(),
        ensures
            MIN_VALUE <= r <= config.gene_upper(),
    {
        let upper = config.gene_value_max();
        gen_range_u64(rng, MIN_VALUE as u64, upper as u64 + 1) as usize
    }

    /// A fresh genome of five independent uniform draws from the
    /// configured component range; the feature-size component is folded
    /// into its window only at decoding.
    pub fn new_random_gene(config: &Config, rng: &mut rand::rngs::StdRng) -> (r: MyResult<Gene>)
        requires
            config.valid(),
        ensures
            r matches Ok(g) && g.wf() && forall|i: int| 0 <= i < GENE_LENGTH ==>
                MIN_VALUE <= #[trigger] g@[i] <= config.gene_upper(),
    {
        let mut values: Vec<usize> = Vec::new();
        values.push(Self::gen_value_random(config, rng));
        values.push(Self::gen_value_random(config, rng));
        values.push(Self::gen_value_random(config, rng));
        values.push(Self::gen_value_random(config, rng));
        values.push(Self::gen_value_random(config, rng));
        Ok(Gene { values })
    }

    /// The raw component vector.
    pub fn raw_values(&self) -> (r: &Vec<usize>)
        ensures
            r@ == self@,
    {
        &self.values
    }

    /// One uniform component index.
    fn gen_index_random(&self, rng: &mut rand::rngs::StdRng) -> (r: usize)
        requires
            self.wf(),
        ensures
            r < GENE_LENGTH,
    {
        gen_range_u64(rng, 0, GENE_LENGTH as u64) as usize
    }

    /// Replace one uniformly chosen component with a fresh uniform draw
    /// from the configured range; the other four components are
    /// untouched.
    pub fn mutation(&mut self, config: &Config, rng: &mut rand::rngs::StdRng) -> (r: MyResult<()>)
        requires
            old(self).wf(),
            config.valid(),
        ensures
            r matches Ok(()),
            final(self).wf(),
            exists|i: int| #![auto] 0 <= i < GENE_LENGTH
                && MIN_VALUE <= final(self)@[i] <= config.gene_upper()
                && final(self)@ == old(self)@.update(i, final(self)@[i]),
    {
        let index = self.gen_index_random(rng);
        let v = Self::gen_value_random(config, rng);
        self.values.set(index, v);
        proof {
            assert(self@ == old(self)@.update(index as int, v));
            assert(self@[index as int] == v);
            assert(self@ == old(self)@.update(index as int, self@[index as int]));
        }
        Ok(())
    }

    /// Breed two genomes in place: swap a random two-bit slice of one
    /// uniformly chosen component between the parents, then clamp the
    /// two results into `[MIN_VALUE, max]`.  Whenever both parents start
    /// with every component in `[MIN_VALUE, max]`, both offspring end
    /// with every component in `[MIN_VALUE, max]`.
    pub fn crossover(
        g1: &mut Gene,
        g2: &mut Gene,
        max: usize,
        rng: &mut rand::rngs::StdRng,
    ) -> (r: MyResult<()>)
        requires
            old(g1).wf(),
            old(g2).wf(),
            MIN_VALUE <= max <= GENE_MAX_VALUE,
        ensures
            r matches Ok(()),
            final(g1).wf(),
            final(g2).wf(),
            exists|i: int, off: usize| 0 <= i < GENE_LENGTH && off < 3
                && #[trigger] crossed(old(g1)@, old(g2)@, final(g1)@, final(g2)@, i, off, max as int),
            components_in_range(old(g1)@, max as int) && components_in_range(old(g2)@, max as int)
                ==> components_in_range(final(g1)@, max as int)
                    && components_in_range(final(g2)@, max as int),
    {
        let index = g1.gen_index_random(rng);
        let offset = gen_range_u64(rng, 0, 3) as usize;
        let mask: usize = 3usize << offset;

        let a = g1.values[index];
        let b = g2.values[index];

        let ca = Self::clamp_component((a & !mask) | (b & mask), max);
        let cb = Self::clamp_component((b & !mask) | (a & mask), max);

        g1.values.set(index, ca);
        g2.values.set(index, cb);
        proof {
            assert(crossed(old(g1)@, old(g2)@, g1@, g2@, index as int, offset, max as int));
        }
        Ok(())
    }

    /// Clamp a crossed component into `[MIN_VALUE, max]`.
    fn clamp_component(v: usize, max: usize) -> (r: usize)
        requires
            MIN_VALUE <= max,
        ensures
            r == spec_clamp(v as int, max as int),
    {
        if v > max {
            max
        } else if v < MIN_VALUE {
            MIN_VALUE
        } else {
            v
        }
    }

    /// The parameter set this genome stands for.  Every decoded set has
    /// a feature size inside `[FEATURE_SIZE_MIN, FEATURE_SIZE_MAX)` and
    /// a slow period strictly longer than its fast period.
    pub fn to_feature_params(&self) -> (r: MyResult<FeatureParams>)
        requires
            self.wf(),
        ensures
            r matches Ok(p) && p == (FeatureParams {
                feature_size: (self@[0] as int % (FEATURE_SIZE_MAX - FEATURE_SIZE_MIN)
                    + FEATURE_SIZE_MIN) as usize,
                fast_period: self@[1],
                slow_period: (self@[1] + self@[2]) as usize,
                signal_period: self@[3],
                bb_period: self@[4],
            }),
            r matches Ok(p) && FEATURE_SIZE_MIN <= p.feature_size < FEATURE_SIZE_MAX,
            r matches Ok(p) && p.fast_period < p.slow_period,
            r matches Ok(p) && params_encodable(p),
    {
        Ok(FeatureParams {
            feature_size: Self::round_for_feature_size(self.values[0]),
            fast_period: self.values[1],
            slow_period: self.values[1] + self.values[2],
            signal_period: self.values[3],
            bb_period: self.values[4],
        })
    }

    /// The fixed-point Euclidean distance between the raw component
    /// vectors of two genomes.
    pub fn calc_similarity(&self, other: &Gene) -> (r: u64)
        requires
            self.wf(),
            other.wf(),
        ensures
            r == spec_similarity(self@, other@),
    {
        let mut acc: u64 = 0;
        let mut i: usize = 0;
        while i < GENE_LENGTH
            invariant
                self.wf(),
                other.wf(),
                i <= GENE_LENGTH,
                acc == ssd_prefix(self@, other@, i as int),
                acc <= i * 1_000_000_000_000,
            decreases GENE_LENGTH - i,
        {
            let a = self.values[i];
            let b = other.values[i];
            let d: u64 = if a >= b {
                (a - b) as u64
            } else {
                (b - a) as u64
            };
            proof {
                assert((self@[i as int] - other@[i as int]) * (self@[i as int] - other@[i as int])
                    == (d as int) * (d as int)) by (nonlinear_arith)
                    requires
                        d == self@[i as int] - other@[i as int]
                            || d == other@[i as int] - self@[i as int],
                ;
                assert((d as int) * (d as int) <= 1_000_000_000_000) by (nonlinear_arith)
                    requires
                        0 <= d <= 1_000_000,
                ;
            }
            acc = acc + d * d;
            i = i + 1;
        }
        let sq: u64 = SIM_SCALE * SIM_SCALE;
        proof {
            assert(sq == 1_000_000);
            assert(acc <= 5_000_000_000_000);
            assert(acc == ssd(self@, other@));
        }
        let scaled: u64 = acc * sq;
        let r = isqrt_u64(scaled);
        proof {
            assert(scaled as int == ssd(self@, other@) * SIM_SCALE * SIM_SCALE);
        }
        r
    }

    /// The component-wise integer-truncated mean of a population.
    pub fn make_average_gene(genes: &Vec<Gene>) -> (r: MyResult<Gene>)
        requires
            forall|k: int| 0 <= k < genes@.len() ==> (#[trigger] genes@[k]).wf(),
        ensures
            genes@.len() == 0 ==> (r matches Err(e)
                && e matches MyError::ArrayIsEmpty { name } && name@ == "genes"@),
            genes@.len() > 0 ==> (r matches Ok(g) && g.wf() && g@ == spec_average(genes@)),
    {
        if genes.len() == 0 {
            return Err(MyError::ArrayIsEmpty { name: "genes".to_string() });
        }

        let n = genes.len();
        let mut t0: u128 = 0;
        let mut t1: u128 = 0;
        let mut t2: u128 = 0;
        let mut t3: u128 = 0;
        let mut t4: u128 = 0;
        let mut k: usize = 0;
        while k < n
            invariant
                forall|j: int| 0 <= j < genes@.len() ==> (#[trigger] genes@[j]).wf(),
                n == genes@.len(),
                k <= n,
                t0 == sum_at(genes@.take(k as int), 0),
                t1 == sum_at(genes@.take(k as int), 1),
                t2 == sum_at(genes@.take(k as int), 2),
                t3 == sum_at(genes@.take(k as int), 3),
                t4 == sum_at(genes@.take(k as int), 4),
                t0 <= k * (GENE_MAX_VALUE as int),
                t1 <= k * (GENE_MAX_VALUE as int),
                t2 <= k * (GENE_MAX_VALUE as int),
                t3 <= k * (GENE_MAX_VALUE as int),
                t4 <= k * (GENE_MAX_VALUE as int),
            decreases n - k,
        {
            let g = &genes[k];
            proof {
                assert(genes@.take(k as int + 1).drop_last() =~= genes@.take(k as int));
                assert(genes@.take(k as int + 1).last() == genes@[k as int]);
            }
            t0 = t0 + g.values[0] as u128;
            t1 = t1 + g.values[1] as u128;
            t2 = t2 + g.values[2] as u128;
            t3 = t3 + g.values[3] as u128;
            t4 = t4 + g.values[4] as u128;
            k = k + 1;
        }
        proof {
            assert(genes@.take(n as int) =~= genes@);
            lemma_sum_at_bounds(genes@, 0);
            lemma_sum_at_bounds(genes@, 1);
            lemma_sum_at_bounds(genes@, 2);
            lemma_sum_at_bounds(genes@, 3);
            lemma_sum_at_bounds(genes@, 4);
            lemma_average_component_bounds(genes@.len() as int, sum_at(genes@, 0));
            lemma_average_component_bounds(genes@.len() as int, sum_at(genes@, 1));
            lemma_average_component_bounds(genes@.len() as int, sum_at(genes@, 2));
            lemma_average_component_bounds(genes@.len() as int, sum_at(genes@, 3));
            lemma_average_component_bounds(genes@.len() as int, sum_at(genes@, 4));
        }
        let mut values: Vec<usize> = Vec::new();
        values.push((t0 / n as u128) as usize);
        values.push((t1 / n as u128) as usize);
        values.push((t2 / n as u128) as usize);
        values.push((t3 / n as u128) as usize);
        values.push((t4 / n as u128) as usize);
        let g = Gene { values };
        proof {
            assert(g@ =~= spec_average(genes@));
        }
        Ok(g)
    }

    /// Mean fixed-point distance of a population to its own average.
    pub fn calc_similarity_average(genes: &Vec<Gene>) -> (r: MyResult<u64>)
        requires
            forall|k: int| 0 <= k < genes@.len() ==> (#[trigger] genes@[k]).wf(),
        ensures
            genes@.len() == 0 ==> (r matches Err(e)
                && e matches MyError::ArrayIsEmpty { name } && name@ == "genes"@),
            genes@.len() > 0 ==> (r matches Ok(d) && d == spec_diversity(genes@)),
    {
        let avg = match Self::make_average_gene(genes) {
            Ok(avg) => avg,
            Err(e) => {
                return Err(e);
            },
        };
        let n = genes.len();
        let mut total: u128 = 0;
        let mut k: usize = 0;
        while k < n
            invariant
                forall|j: int| 0 <= j < genes@.len() ==> (#[trigger] genes@[j]).wf(),
                avg.wf(),
                n == genes@.len(),
                k <= n,
                total == sim_total(genes@.take(k as int), avg@),
                total <= k * (u64::MAX as int),
            decreases n - k,
        {
            let s = genes[k].calc_similarity(&avg);
            proof {
                assert(genes@.take(k as int + 1).drop_last() =~= genes@.take(k as int));
                assert(genes@.take(k as int + 1).last() == genes@[k as int]);
            }
            total = total + s as u128;
            k = k + 1;
        }
        proof {
            assert(genes@.take(n as int) =~= genes@);
            lemma_quotient_le_max(genes@.len() as int, sim_total(genes@, avg@), u64::MAX as int);
        }
        Ok((total / n as u128) as u64)
    }

    /// One uniform population index.
    pub fn select_gene_index_random(genes: &Vec<Gene>, rng: &mut rand::rngs::StdRng) -> (r: MyResult<usize>)
        requires
            genes@.len() > 0,
        ensures
            r matches Ok(i) && i < genes@.len(),
    {
        Ok(gen_range_u64(rng, 0, genes.len() as u64) as usize)
    }

    /// The roulette walk for a fixed border draw.  `weights[i]` is the
    /// fixed-point mean squared error of candidate `i`; the walk
    /// normalises by the total of `1 - w` but accumulates the raw
    /// weights, exactly as documented.
    pub fn select_index_for_border(weights: &Vec<u64>, border: u64) -> (r: usize)
        requires
            border < FP_ONE,
        ensures
            r == roulette_index(weights@, border as int),
            weights@.len() > 0 ==> r < weights@.len(),
            weights@.len() == 0 ==> r == 0,
    {
        let n = weights.len();
        let mut psum: u128 = 0;
        let mut k: usize = 0;
        while k < n
            invariant
                n == weights@.len(),
                k <= n,
                psum == prefix_sum(weights@, k as int),
                psum <= (k as int) * (u64::MAX as int),
            decreases n - k,
        {
            psum = psum + weights[k] as u128;
            k = k + 1;
        }
        let cap: u128 = (n as u128) * (FP_ONE as u128);
        if psum >= cap {
            // The normalising total is zero or negative; the walk never
            // reaches a nonnegative border.
            return 0;
        }
        let total: u128 = cap - psum;

        let mut acc: u128 = 0;
        let mut i: usize = 0;
        while i < n
            invariant
                n == weights@.len(),
                i <= n,
                acc == prefix_sum(weights@, i as int),
                psum == prefix_sum(weights@, n as int),
                border < FP_ONE,
                total == roulette_total(weights@),
                0 < total,
                total <= cap,
                cap == (n as int) * (FP_ONE as int),
                acc <= psum,
                psum < cap,
                forall|j: int| 0 <= j < i ==> !roulette_hit(weights@, border as int, j),
            decreases n - i,
        {
            proof {
                lemma_prefix_sum_monotone(weights@, i as int + 1, n as int);
            }
            acc = acc + weights[i] as u128;
            proof {
                assert(FP_ONE == 1_000_000);
                assert(cap as int <= 18446744073709551615int * 1000000int);
                assert(acc as int <= cap as int);
                assert((acc as int) * 1000000int
                    <= 18446744073709551615int * 1000000int * 1000000int) by (nonlinear_arith)
                    requires
                        0 <= acc as int <= 18446744073709551615int * 1000000int,
                ;
                assert((border as int) * (total as int) <= 1000000int * (cap as int))
                    by (nonlinear_arith)
                    requires
                        border as int <= 1000000int,
                        0 <= border as int,
                        0 <= total as int <= cap as int,
                ;
            }
            if acc * (FP_ONE as u128) >= (border as u128) * total {
                proof {
                    lemma_first_hit_here(weights@, border as int, 0, i as int);
                }
                return i;
            }
            i = i + 1;
        }
        proof {
            lemma_first_hit_none(weights@, border as int, 0);
        }
        0
    }

    /// Roulette-select an index with a fresh uniform border draw.
    pub fn select_index_roulette(weights: &Vec<u64>, rng: &mut rand::rngs::StdRng) -> (r: MyResult<usize>)
        ensures
            r matches Ok(i) && {
                &&& weights@.len() > 0 ==> i < weights@.len()
                &&& weights@.len() == 0 ==> i == 0
                &&& exists|b: int| 0 <= b < FP_ONE && i == roulette_index(weights@, b)
            },
    {
        let border = gen_range_u64(rng, 0, FP_ONE);
        let i = Self::select_index_for_border(weights, border);
        proof {
            assert(i == roulette_index(weights@, border as int));
        }
        Ok(i)
    }
}

/// Squared component differences are nonnegative, and their sum over a
/// prefix vanishes exactly when the prefixes agree.
proof fn lemma_ssd_prefix_props(a: Seq<usize>, b: Seq<usize>, n: int)
    requires
        0 <= n <= a.len(),
        a.len() == b.len(),
    ensures
        ssd_prefix(a, b, n) >= 0,
        ssd_prefix(a, b, n) == 0 <==> (forall|j: int| 0 <= j < n ==> a[j] == b[j]),
    decreases n,
{
    if n > 0 {
        lemma_ssd_prefix_props(a, b, n - 1);
        let d = a[n - 1] - b[n - 1];
        assert(d * d >= 0 && (d * d == 0 <==> d == 0)) by (nonlinear_arith);
    }
}

/// The fixed-point distance of two equally long vectors is nonnegative,
/// and zero exactly when they are equal.
proof fn lemma_similarity_zero_iff(a: Seq<usize>, b: Seq<usize>)
    requires
        a.len() == b.len(),
    ensures
        spec_similarity(a, b) >= 0,
        spec_similarity(a, b) == 0 <==> a == b,
{
    lemma_ssd_prefix_props(a, b, a.len() as int);
    let x = (ssd(a, b) * SIM_SCALE * SIM_SCALE) as nat;
    sqrt_floor_zero_helper(a, b);
    if spec_similarity(a, b) == 0 {
        crate::math::lemma_sqrt_floor_zero(x);
        assert(ssd(a, b) == 0);
        assert(a =~= b);
    } else {
        if a == b {
            assert(ssd(a, b) == 0);
            crate::math::lemma_sqrt_floor_zero(x);
        }
    }
}

/// The scaled squared distance is zero exactly when the raw one is.
proof fn sqrt_floor_zero_helper(a: Seq<usize>, b: Seq<usize>)
    requires
        ssd(a, b) >= 0,
    ensures
        (ssd(a, b) * SIM_SCALE * SIM_SCALE) as nat == 0 <==> ssd(a, b) == 0,
{
    assert(ssd(a, b) * SIM_SCALE * SIM_SCALE == ssd(a, b) * 1_000_000);
}

/// A fixed-point distance below one whole unit forces equality: any
/// single differing component already contributes a full unit.
proof fn lemma_similarity_below_scale(a: Seq<usize>, b: Seq<usize>)
    requires
        a.len() == b.len(),
        spec_similarity(a, b) < SIM_SCALE,
    ensures
        a == b,
{
    lemma_ssd_prefix_props(a, b, a.len() as int);
    let x = (ssd(a, b) * SIM_SCALE * SIM_SCALE) as nat;
    let r = sqrt_floor(x);
    crate::math::lemma_sqrt_floor_bounds(x);
    if ssd(a, b) >= 1 {
        assert(x >= 1_000_000) by {
            assert(ssd(a, b) * SIM_SCALE * SIM_SCALE == ssd(a, b) * 1_000_000);
        }
        assert((r + 1) * (r + 1) <= 1_000_000) by (nonlinear_arith)
            requires
                r + 1 <= 1000,
        ;
        assert(false);
    }
    assert(a =~= b);
}

/// The distance total of a population is nonnegative, bounds every
/// single distance, and vanishes when every distance does.
proof fn lemma_sim_total_props(gs: Seq<Gene>, avg: Seq<usize>)
    ensures
        sim_total(gs, avg) >= 0,
        forall|k: int| 0 <= k < gs.len()
            ==> spec_similarity((#[trigger] gs[k])@, avg) <= sim_total(gs, avg),
        (forall|k: int| 0 <= k < gs.len()
            ==> spec_similarity((#[trigger] gs[k])@, avg) == 0) ==> sim_total(gs, avg) == 0,
    decreases gs.len(),
{
    if gs.len() > 0 {
        let pre = gs.drop_last();
        lemma_sim_total_props(pre, avg);
        assert(forall|k: int| 0 <= k < pre.len() ==> pre[k] == #[trigger] gs[k]);
        assert(spec_similarity(gs.last()@, avg) >= 0);
    }
}

/// Every component sum of a population of identical genomes is the
/// population size times the shared component.
proof fn lemma_sum_at_const(gs: Seq<Gene>, i: int, v: usize)
    requires
        forall|k: int| 0 <= k < gs.len() ==> (#[trigger] gs[k])@[i] == v,
    ensures
        sum_at(gs, i) == gs.len() * v,
    decreases gs.len(),
{
    if gs.len() > 0 {
        let pre = gs.drop_last();
        assert(forall|k: int| 0 <= k < pre.len() ==> pre[k] == #[trigger] gs[k]);
        lemma_sum_at_const(pre, i, v);
        assert((gs.len() - 1) * v + v == gs.len() * v) by (nonlinear_arith);
    }
}

/// The average of a population of identical genomes is that genome.
pub proof fn lemma_average_of_identical(gs: Seq<Gene>)
    requires
        gs.len() > 0,
        forall|k: int| 0 <= k < gs.len() ==> (#[trigger] gs[k]).wf(),
        forall|k: int| 0 <= k < gs.len() ==> (#[trigger] gs[k])@ == gs[0]@,
    ensures
        spec_average(gs) == gs[0]@,
{
    let n = gs.len() as int;
    assert forall|i: int| 0 <= i < GENE_LENGTH implies spec_average(gs)[i] == gs[0]@[i] by {
        let v = gs[0]@[i];
        assert(forall|k: int| 0 <= k < gs.len() ==> (#[trigger] gs[k])@[i] == v);
        lemma_sum_at_const(gs, i, v);
        lemma_div_multiples_vanish(v as int, n);
        assert(gs.len() * v == n * (v as int)) by (nonlinear_arith)
            requires
                n == gs.len() as int,
        ;
        assert(gs[0].wf());
        assert(0 <= v <= GENE_MAX_VALUE);
    }
    assert(gs[0].wf());
    assert(spec_average(gs) =~= gs[0]@);
}

/// A population's diversity is zero exactly when its genomes are
/// componentwise identical.  The population must not outnumber the
/// similarity scale: in a larger one, a single stray genome's distance
/// can be lost to the truncated mean.  Every population a valid
/// configuration admits satisfies the bound (`POPULATION_MAX` equals
/// `SIM_SCALE`).
pub proof fn lemma_diversity_zero_iff_identical(gs: Seq<Gene>)
    requires
        0 < gs.len() <= SIM_SCALE,
        forall|k: int| 0 <= k < gs.len() ==> (#[trigger] gs[k]).wf(),
    ensures
        spec_diversity(gs) == 0 <==> (forall|i: int, j: int|
            0 <= i < gs.len() && 0 <= j < gs.len() ==> (#[trigger] gs[i])@ == (#[trigger] gs[j])@),
{
    let avg = spec_average(gs);
    let n = gs.len() as int;
    lemma_sim_total_props(gs, avg);
    let total = sim_total(gs, avg);

    if forall|i: int, j: int|
        0 <= i < gs.len() && 0 <= j < gs.len() ==> (#[trigger] gs[i])@ == (#[trigger] gs[j])@ {
        lemma_average_of_identical(gs);
        assert forall|k: int| 0 <= k < gs.len()
            implies spec_similarity((#[trigger] gs[k])@, avg) == 0 by {
            assert(gs[k]@ == gs[0]@);
            lemma_similarity_zero_iff(gs[k]@, avg);
        }
        assert(total == 0);
        lemma_basic_div(0, n);
        assert(spec_diversity(gs) == 0);
    } else {
        if spec_diversity(gs) == 0 {
            if total >= n {
                lemma_div_is_ordered(n, total, n);
                lemma_div_by_self(n);
                assert(false);
            }
            assert forall|i: int, j: int|
                0 <= i < gs.len() && 0 <= j < gs.len()
                implies (#[trigger] gs[i])@ == (#[trigger] gs[j])@ by {
                assert(spec_similarity(gs[i]@, avg) <= total < SIM_SCALE);
                assert(gs[i].wf() && gs[j].wf());
                lemma_similarity_below_scale(gs[i]@, avg);
                lemma_similarity_below_scale(gs[j]@, avg);
            }
            assert(false);
        }
    }
}

/// For `n > 0` and `n <= sum <= n * GENE_MAX_VALUE`, the truncated mean
/// lies in `[1, GENE_MAX_VALUE]`.
proof fn lemma_average_component_bounds(n: int, sum: int)
    requires
        n > 0,
        n <= sum <= n * (GENE_MAX_VALUE as int),
    ensures
        1 <= sum / n <= GENE_MAX_VALUE,
{
    lemma_div_is_ordered(n, sum, n);
    lemma_div_by_self(n);
    lemma_div_is_ordered(sum, n * (GENE_MAX_VALUE as int), n);
    lemma_div_multiples_vanish(GENE_MAX_VALUE as int, n);
}

/// For `n > 0` and `0 <= sum <= n * cap`, the truncated mean is at most
/// `cap`.
proof fn lemma_quotient_le_max(n: int, sum: int, cap: int)
    requires
        n > 0,
        0 <= sum <= n * cap,
        cap >= 0,
    ensures
        0 <= sum / n <= cap,
{
    lemma_div_is_ordered(0, sum, n);
    lemma_div_is_ordered(sum, n * cap, n);
    lemma_div_multiples_vanish(cap, n);
    vstd::arithmetic::div_mod::lemma_div_of0(n);
}

} // verus!
