use vstd::prelude::*;

use vstd::seq_lib::group_to_multiset_ensures;

use crate::farm::{sugar_supported, Farm};
use crate::mutate::MUTATION_DENOM;
use crate::rng::{rng_below, rng_from_seed};
use crate::score::{
    lemma_score_bounds, spec_horizontal_symmetry_score, spec_vertical_symmetry_score, sugar_count,
};

verus! {

/// Ascending order by total score.
pub open spec fn sorted_by_score(s: Seq<Farm>) -> bool {
    forall|i: int, j: int|
        0 <= i <= j < s.len() ==> (#[trigger] s[i].spec_score()) <= (#[trigger] s[j].spec_score())
}

/// Every element of `s` occurs somewhere in `t`.
pub open spec fn drawn_from(s: Seq<Farm>, t: Seq<Farm>) -> bool {
    forall|i: int| 0 <= i < s.len() ==> t.contains(#[trigger] s[i])
}

/// The first position of the sorted prefix `[0, end)` whose score exceeds
/// `key_score`; `end` when none does. Inserting at that position keeps equal
/// scores in their prior relative order.
fn insertion_point(farms: &Vec<Farm>, end: usize, key_score: usize) -> (pos: usize)
    requires
        end <= farms@.len(),
        forall|k: int| 0 <= k < farms@.len() ==> (#[trigger] farms@[k]).wf(),
    ensures
        pos <= end,
        forall|q: int| 0 <= q < pos ==> (#[trigger] farms@[q].spec_score()) <= key_score,
        pos < end ==> farms@[pos as int].spec_score() > key_score,
{
    let mut p: usize = 0;
    while p < end
        invariant
            p <= end <= farms@.len(),
            forall|k: int| 0 <= k < farms@.len() ==> (#[trigger] farms@[k]).wf(),
            forall|q: int| 0 <= q < p ==> (#[trigger] farms@[q].spec_score()) <= key_score,
        decreases end - p,
    {
        if farms[p].score() > key_score {
            return p;
        }
        p += 1;
    }
    p
}

/// Stable insertion sort by total score, ascending: the result is a
/// permutation of the input, and farms of equal score keep their prior
/// relative order because each key is inserted after all of them.
pub fn sort_by_score(farms: &mut Vec<Farm>)
    requires
        forall|i: int| 0 <= i < old(farms)@.len() ==> (#[trigger] old(farms)@[i]).wf(),
    ensures
        final(farms)@.len() == old(farms)@.len(),
        forall|i: int| 0 <= i < final(farms)@.len() ==> (#[trigger] final(farms)@[i]).wf(),
        sorted_by_score(final(farms)@),
        final(farms)@.to_multiset() == old(farms)@.to_multiset(),
        drawn_from(final(farms)@, old(farms)@),
{
    let mut i: usize = 1;
    if farms.len() <= 1 {
        proof {
            assert forall|k: int| 0 <= k < farms@.len() implies old(farms)@.contains(
                #[trigger] farms@[k],
            ) by {
                assert(old(farms)@[k] == farms@[k]);
            }
        }
        return;
    }
    while i < farms.len()
        invariant
            1 <= i <= farms@.len(),
            farms@.len() == old(farms)@.len(),
            forall|k: int| 0 <= k < farms@.len() ==> (#[trigger] farms@[k]).wf(),
            forall|a: int, b: int|
                0 <= a <= b < i ==> (#[trigger] farms@[a].spec_score()) <= (
                #[trigger] farms@[b].spec_score()),
            farms@.to_multiset() == old(farms)@.to_multiset(),
            drawn_from(farms@, old(farms)@),
        decreases farms@.len() - i,
    {
        let ghost pre = farms@;
        let key_score = farms[i].score();
        let pos = insertion_point(farms, i, key_score);
        if pos < i {
            let moved = farms.remove(i);
            farms.insert(pos, moved);
            proof {
                broadcast use group_to_multiset_ensures;

                let s = farms@;
                assert(s == pre.remove(i as int).insert(pos as int, pre[i as int]));
                assert(pre.contains(pre[i as int]));
                assert(pre.to_multiset().count(pre[i as int]) > 0);
                assert(s.to_multiset() =~= pre.to_multiset());
                assert forall|a: int| 0 <= a < s.len() implies (#[trigger] s[a]).wf() by {
                    if a < pos {
                        assert(s[a] == pre[a]);
                    } else if a == pos {
                        assert(s[a] == pre[i as int]);
                    } else if a <= i {
                        assert(s[a] == pre[a - 1]);
                    } else {
                        assert(s[a] == pre[a]);
                    }
                }
                assert forall|a: int, b: int| 0 <= a <= b < i + 1 implies (
                #[trigger] s[a].spec_score()) <= (#[trigger] s[b].spec_score()) by {
                    if b < pos {
                        assert(s[a] == pre[a] && s[b] == pre[b]);
                    } else if b == pos {
                        if a < pos {
                            assert(s[a] == pre[a] && s[b] == pre[i as int]);
                            assert(pre[a].spec_score() <= key_score);
                        }
                    } else {
                        assert(s[b] == pre[b - 1]);
                        assert(pos <= b - 1 < i);
                        if a < pos {
                            assert(s[a] == pre[a]);
                            assert(pre[a].spec_score() <= pre[b - 1].spec_score());
                        } else if a == pos {
                            assert(s[a] == pre[i as int]);
                            assert(key_score < pre[pos as int].spec_score());
                            assert(pre[pos as int].spec_score() <= pre[b - 1].spec_score());
                        } else {
                            assert(s[a] == pre[a - 1]);
                            assert(pre[a - 1].spec_score() <= pre[b - 1].spec_score());
                        }
                    }
                }
                assert forall|a: int| 0 <= a < s.len() implies old(farms)@.contains(
                    #[trigger] s[a],
                ) by {
                    let orig: int = if a < pos {
                        a
                    } else if a == pos {
                        i as int
                    } else if a <= i {
                        a - 1
                    } else {
                        a
                    };
                    assert(s[a] == pre[orig]);
                    assert(old(farms)@.contains(pre[orig]));
                }
            }
        }
        i += 1;
    }
}

/// One full generation: rank the population, keep the top third as the
/// breeding pool, and replace the whole population with freshly bred,
/// mutated and repaired children. Survivors are not carried forward
/// themselves; they only parent this generation's children.
pub fn evolve_generation(
    farms: &mut Vec<Farm>,
    population_size: usize,
    mutation_rate_ppm: usize,
    rng: &mut rand::rngs::StdRng,
)
    requires
        old(farms)@.len() == population_size,
        3 <= population_size,
        forall|i: int|
            0 <= i < old(farms)@.len() ==> (#[trigger] old(farms)@[i]).wf()
                && old(farms)@[i].size_x == old(farms)@[0].size_x
                && old(farms)@[i].size_y == old(farms)@[0].size_y,
    ensures
        final(farms)@.len() == population_size,
        forall|i: int|
            0 <= i < final(farms)@.len() ==> (#[trigger] final(farms)@[i]).wf()
                && final(farms)@[i].size_x == old(farms)@[0].size_x
                && final(farms)@[i].size_y == old(farms)@[0].size_y,
        forall|i: int|
            0 <= i < final(farms)@.len() ==> sugar_supported(
                (#[trigger] final(farms)@[i])@,
                old(farms)@[0].size_x as int,
                old(farms)@[0].size_y as int,
            ),
{
    let w0 = farms[0].size_x;
    let h0 = farms[0].size_y;
    sort_by_score(farms);
    proof {
        assert forall|i: int|
            0 <= i < farms@.len() implies (#[trigger] farms@[i]).wf() && farms@[i].size_x == w0
            && farms@[i].size_y == h0 by {
            assert(old(farms)@.contains(farms@[i]));
            let j = choose|j: int| 0 <= j < old(farms)@.len() && old(farms)@[j] == farms@[i];
            assert(old(farms)@[j].wf());
        }
    }
    let survivors = population_size / 3;
    assert(1 <= survivors);
    let keep_from = farms.len() - survivors;
    let pool = farms.split_off(keep_from);
    let mut next: Vec<Farm> = Vec::new();
    while next.len() < population_size
        invariant
            pool@.len() == survivors,
            1 <= survivors,
            forall|i: int|
                0 <= i < pool@.len() ==> (#[trigger] pool@[i]).wf() && pool@[i].size_x == w0
                    && pool@[i].size_y == h0,
            forall|i: int|
                0 <= i < next@.len() ==> (#[trigger] next@[i]).wf() && next@[i].size_x == w0
                    && next@[i].size_y == h0,
            forall|i: int|
                0 <= i < next@.len() ==> sugar_supported(
                    (#[trigger] next@[i])@,
                    w0 as int,
                    h0 as int,
                ),
            next@.len() <= population_size,
        decreases population_size - next@.len(),
    {
        let pi = rng_below(rng, survivors);
        let pj = rng_below(rng, survivors);
        let mut child = Farm::breed(&pool[pi], &pool[pj]);
        child.mutate(mutation_rate_ppm, rng);
        child.kill_sugar();
        next.push(child);
    }
    *farms = next;
}

/// The parameters of a run. `mutation_rate_ppm` is the per-cell mutation
/// probability in parts per million: 0 never mutates, `MUTATION_DENOM`
/// always does.
#[derive(Clone, Copy, Debug, PartialEq, Eq, Structural)]
pub struct Config {
    pub grid_width: usize,
    pub grid_height: usize,
    pub population_size: usize,
    pub generation_count: usize,
    pub mutation_rate_ppm: usize,
}

/// A fatal configuration fault; the run refuses to start.
#[derive(Clone, Copy, Debug, PartialEq, Eq, Structural)]
pub enum ConfigError {
    /// The grid width must be positive.
    ZeroGridWidth,
    /// The grid height must be positive.
    ZeroGridHeight,
    /// The largest possible score, `100 * cells + 100`, must fit in `usize`.
    GridTooLarge,
    /// The population must hold at least 3 farms, so that the surviving
    /// third, the breeding pool, is never empty.
    PopulationTooSmall,
    /// At least one generation must be run.
    ZeroGenerationCount,
    /// The mutation rate may not exceed `MUTATION_DENOM` parts per million.
    MutationRateTooLarge,
}

/// What a configuration must satisfy for a run to start.
pub open spec fn spec_config_valid(c: Config) -> bool {
    &&& 1 <= c.grid_width
    &&& 1 <= c.grid_height
    &&& 100 * (c.grid_width * c.grid_height) + 100 <= usize::MAX
    &&& 3 <= c.population_size
    &&& 1 <= c.generation_count
    &&& c.mutation_rate_ppm <= MUTATION_DENOM
}

/// The first configuration fault, in checking order.
pub open spec fn spec_config_error(c: Config) -> ConfigError {
    if c.grid_width == 0 {
        ConfigError::ZeroGridWidth
    } else if c.grid_height == 0 {
        ConfigError::ZeroGridHeight
    } else if 100 * (c.grid_width * c.grid_height) + 100 > usize::MAX {
        ConfigError::GridTooLarge
    } else if c.population_size < 3 {
        ConfigError::PopulationTooSmall
    } else if c.generation_count == 0 {
        ConfigError::ZeroGenerationCount
    } else {
        ConfigError::MutationRateTooLarge
    }
}

/// Runs the whole evolution: builds `population_size` farms, evolves them
/// for `generation_count` generations, and returns the best-scoring farm of
/// the final population. The random stream is a function of `seed` alone, so
/// equal configurations and seeds replay the same run. An invalid
/// configuration is rejected with the first fault found.
pub fn run(config: &Config, seed: u64) -> (r: Result<Farm, ConfigError>)
    ensures
        r is Ok <==> spec_config_valid(*config),
        !spec_config_valid(*config) ==> r == Err::<Farm, ConfigError>(spec_config_error(*config)),
        (r matches Ok(f) ==> f.wf() && f.size_x == config.grid_width && f.size_y
            == config.grid_height && sugar_supported(
            f@,
            config.grid_width as int,
            config.grid_height as int,
        )),
{
    if config.grid_width == 0 {
        return Err(ConfigError::ZeroGridWidth);
    }
    if config.grid_height == 0 {
        return Err(ConfigError::ZeroGridHeight);
    }
    let cells = match config.grid_width.checked_mul(config.grid_height) {
        Some(c) => c,
        None => {
            return Err(ConfigError::GridTooLarge);
        },
    };
    let scaled = match cells.checked_mul(100) {
        Some(m) => m,
        None => {
            return Err(ConfigError::GridTooLarge);
        },
    };
    if scaled > usize::MAX - 100 {
        return Err(ConfigError::GridTooLarge);
    }
    if config.population_size < 3 {
        return Err(ConfigError::PopulationTooSmall);
    }
    if config.generation_count == 0 {
        return Err(ConfigError::ZeroGenerationCount);
    }
    if config.mutation_rate_ppm > MUTATION_DENOM {
        return Err(ConfigError::MutationRateTooLarge);
    }
    let mut rng = rng_from_seed(seed);
    let mut farms: Vec<Farm> = Vec::new();
    let mut i: usize = 0;
    while i < config.population_size
        invariant
            i <= config.population_size,
            farms@.len() == i,
            1 <= config.grid_width,
            1 <= config.grid_height,
            100 * (config.grid_width * config.grid_height) + 100 <= usize::MAX,
            forall|k: int|
                0 <= k < farms@.len() ==> (#[trigger] farms@[k]).wf() && farms@[k].size_x
                    == config.grid_width && farms@[k].size_y == config.grid_height,
            forall|k: int|
                0 <= k < farms@.len() ==> sugar_supported(
                    (#[trigger] farms@[k])@,
                    config.grid_width as int,
                    config.grid_height as int,
                ),
        decreases config.population_size - i,
    {
        farms.push(Farm::new_rect(config.grid_width, config.grid_height));
        i += 1;
    }
    let mut g: usize = 0;
    while g < config.generation_count
        invariant
            farms@.len() == config.population_size,
            3 <= config.population_size,
            forall|k: int|
                0 <= k < farms@.len() ==> (#[trigger] farms@[k]).wf() && farms@[k].size_x
                    == config.grid_width && farms@[k].size_y == config.grid_height,
            forall|k: int|
                0 <= k < farms@.len() ==> sugar_supported(
                    (#[trigger] farms@[k])@,
                    config.grid_width as int,
                    config.grid_height as int,
                ),
        decreases config.generation_count - g,
    {
        evolve_generation(&mut farms, config.population_size, config.mutation_rate_ppm, &mut rng);
        g += 1;
    }
    let ghost pre = farms@;
    sort_by_score(&mut farms);
    proof {
        assert forall|k: int|
            0 <= k < farms@.len() implies (#[trigger] farms@[k]).wf() && farms@[k].size_x
            == config.grid_width && farms@[k].size_y == config.grid_height && sugar_supported(
            farms@[k]@,
            config.grid_width as int,
            config.grid_height as int,
        ) by {
            assert(pre.contains(farms@[k]));
            let j = choose|j: int| 0 <= j < pre.len() && pre[j] == farms@[k];
            assert(pre[j].wf());
            assert(sugar_supported(pre[j]@, config.grid_width as int, config.grid_height as int));
        }
    }
    let best = farms.pop().unwrap();
    Ok(best)
}

/// Aggregate statistics of one population, computed before selection.
#[derive(Clone, Copy, Debug, PartialEq, Eq, Structural)]
pub struct GenStats {
    pub max_score: usize,
    pub min_score: usize,
    pub avg_score: usize,
    pub avg_sugar_score: usize,
    pub avg_symmetry_score: usize,
}

/// Sum of the total scores of the first `n` farms.
pub open spec fn sum_scores_upto(s: Seq<Farm>, n: int) -> int
    decreases n,
{
    if n <= 0 {
        0
    } else {
        sum_scores_upto(s, n - 1) + s[n - 1].spec_score()
    }
}

/// Sum of the resource scores of the first `n` farms.
pub open spec fn sum_sugar_upto(s: Seq<Farm>, n: int) -> int
    decreases n,
{
    if n <= 0 {
        0
    } else {
        sum_sugar_upto(s, n - 1) + 100 * sugar_count(s[n - 1]@)
    }
}

/// Sum of the combined symmetry scores of the first `n` farms.
pub open spec fn sum_symmetry_upto(s: Seq<Farm>, n: int) -> int
    decreases n,
{
    if n <= 0 {
        0
    } else {
        sum_symmetry_upto(s, n - 1) + spec_vertical_symmetry_score(
            s[n - 1]@,
            s[n - 1].size_x as int,
            s[n - 1].size_y as int,
        ) + spec_horizontal_symmetry_score(
            s[n - 1]@,
            s[n - 1].size_x as int,
            s[n - 1].size_y as int,
        )
    }
}

/// The largest total score among the first `n` farms.
pub open spec fn max_score_upto(s: Seq<Farm>, n: int) -> int
    decreases n,
{
    if n <= 1 {
        s[0].spec_score()
    } else if s[n - 1].spec_score() > max_score_upto(s, n - 1) {
        s[n - 1].spec_score()
    } else {
        max_score_upto(s, n - 1)
    }
}

/// The smallest total score among the first `n` farms.
pub open spec fn min_score_upto(s: Seq<Farm>, n: int) -> int
    decreases n,
{
    if n <= 1 {
        s[0].spec_score()
    } else if s[n - 1].spec_score() < min_score_upto(s, n - 1) {
        s[n - 1].spec_score()
    } else {
        min_score_upto(s, n - 1)
    }
}

proof fn lemma_mul_step(a: int, n: int, k: int)
    requires
        0 <= a < n,
        0 <= k,
    ensures
        a * k + k <= n * k,
        0 <= a * k,
{
    assert(a * k + k == (a + 1) * k) by (nonlinear_arith);
    assert((a + 1) * k <= n * k) by (nonlinear_arith)
        requires
            a + 1 <= n,
            0 <= k,
    ;
    assert(0 <= a * k) by (nonlinear_arith)
        requires
            0 <= a,
            0 <= k,
    ;
}

proof fn lemma_sums_bound(s: Seq<Farm>, n: int, w: int, h: int)
    requires
        0 <= n <= s.len(),
        forall|i: int|
            0 <= i < s.len() ==> (#[trigger] s[i]).wf() && s[i].size_x == w && s[i].size_y == h,
    ensures
        0 <= sum_scores_upto(s, n) <= n * (100 * (w * h) + 100),
        0 <= sum_sugar_upto(s, n) <= n * (100 * (w * h) + 100),
        0 <= sum_symmetry_upto(s, n) <= n * (100 * (w * h) + 100),
    decreases n,
{
    if n > 0 {
        lemma_sums_bound(s, n - 1, w, h);
        lemma_score_bounds(s[n - 1]);
        assert(0 <= w * h) by (nonlinear_arith)
            requires
                1 <= w,
                1 <= h,
        ;
        lemma_mul_step(n - 1, n, 100 * (w * h) + 100);
    }
}

/// The aggregate statistics of a non-empty population of equal shapes: the
/// extreme scores, and the integer averages of the total, resource and
/// symmetry scores.
pub fn generation_stats(farms: &Vec<Farm>) -> (st: GenStats)
    requires
        1 <= farms@.len(),
        forall|i: int|
            0 <= i < farms@.len() ==> (#[trigger] farms@[i]).wf() && farms@[i].size_x
                == farms@[0].size_x && farms@[i].size_y == farms@[0].size_y,
        farms@.len() * (100 * (farms@[0].size_x * farms@[0].size_y) + 100) <= usize::MAX,
    ensures
        st.max_score == max_score_upto(farms@, farms@.len() as int),
        st.min_score == min_score_upto(farms@, farms@.len() as int),
        st.avg_score == sum_scores_upto(farms@, farms@.len() as int) / farms@.len() as int,
        st.avg_sugar_score == sum_sugar_upto(farms@, farms@.len() as int) / farms@.len() as int,
        st.avg_symmetry_score == sum_symmetry_upto(farms@, farms@.len() as int) / farms@.len()
            as int,
{
    let w = farms[0].size_x;
    let h = farms[0].size_y;
    let n = farms.len();
    proof {
        lemma_mul_step(0, n as int, 100 * ((w as int) * (h as int)) + 100);
        lemma_score_bounds(farms@[0]);
        assert(sum_scores_upto(farms@, 0) == 0);
        assert(sum_sugar_upto(farms@, 0) == 0);
        assert(sum_symmetry_upto(farms@, 0) == 0);
    }
    let first = &farms[0];
    let s0 = first.score();
    let mut max_v = s0;
    let mut min_v = s0;
    let mut total = s0;
    let mut sugar_total = first.get_sugar_score();
    let mut symm_total = first.get_vertical_symmetry_score()
        + first.get_horizontal_symmetry_score();
    let mut i: usize = 1;
    while i < n
        invariant
            1 <= i <= n,
            n == farms@.len(),
            w == farms@[0].size_x,
            h == farms@[0].size_y,
            forall|k: int|
                0 <= k < farms@.len() ==> (#[trigger] farms@[k]).wf() && farms@[k].size_x == w
                    && farms@[k].size_y == h,
            farms@.len() * (100 * ((w as int) * (h as int)) + 100) <= usize::MAX,
            max_v == max_score_upto(farms@, i as int),
            min_v == min_score_upto(farms@, i as int),
            total == sum_scores_upto(farms@, i as int),
            sugar_total == sum_sugar_upto(farms@, i as int),
            symm_total == sum_symmetry_upto(farms@, i as int),
        decreases n - i,
    {
        proof {
            lemma_sums_bound(farms@, i as int, w as int, h as int);
            lemma_score_bounds(farms@[i as int]);
            lemma_mul_step(i as int, n as int, 100 * ((w as int) * (h as int)) + 100);
        }
        let f = &farms[i];
        let sc = f.score();
        if sc > max_v {
            max_v = sc;
        }
        if sc < min_v {
            min_v = sc;
        }
        total += sc;
        sugar_total += f.get_sugar_score();
        symm_total += f.get_vertical_symmetry_score() + f.get_horizontal_symmetry_score();
        i += 1;
    }
    GenStats {
        max_score: max_v,
        min_score: min_v,
        avg_score: total / n,
        avg_sugar_score: sugar_total / n,
        avg_symmetry_score: symm_total / n,
    }
}

} // verus!
