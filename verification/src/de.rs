use vstd::prelude::*;

use crate::rng::PPM;
use crate::utility::{
    argmin, div_trunc, in_bounds, pool_view, run_loop, same_config, spec_scale,
    Algorithm, AlgorithmBase, ObjFunc, Report, Setting, UNSET_F,
};

verus! {

/// The Differential Evolution strategy.
/// Each strategy has different formula on recombination.
#[derive(Clone, Copy, Debug)]
pub enum Strategy {
    S1,
    S2,
    S3,
    S4,
    S5,
    S6,
    S7,
    S8,
    S9,
    S10,
}

/// How many distinct auxiliary indices a strategy's mutation formula reads:
/// the largest auxiliary subscript it mentions, plus one.
pub open spec fn aux_count(st: Strategy) -> int {
    match st {
        Strategy::S1 | Strategy::S3 | Strategy::S6 | Strategy::S8 => 2,
        Strategy::S2 | Strategy::S4 | Strategy::S7 | Strategy::S9 => 4,
        Strategy::S5 | Strategy::S10 => 5,
    }
}

/// The first five strategies walk with the stop-early crossover pattern;
/// the last five force the final dimension of a full walk instead.
pub open spec fn pattern_a(st: Strategy) -> bool {
    match st {
        Strategy::S1 | Strategy::S2 | Strategy::S3 | Strategy::S4 | Strategy::S5 => true,
        Strategy::S6 | Strategy::S7 | Strategy::S8 | Strategy::S9 | Strategy::S10 => false,
    }
}

/// One valid auxiliary sample for index `i`: the strategy's count of
/// indices, pairwise distinct, none the individual's own, all in range.
pub open spec fn distinct_aux(vs: Seq<usize>, i: int, pop: int, st: Strategy) -> bool {
    &&& vs.len() == aux_count(st)
    &&& (forall|j: int| 0 <= j < vs.len() ==> (#[trigger] vs[j]) < pop && vs[j] != i)
    &&& (forall|j1: int, j2: int| 0 <= j1 < j2 < vs.len() ==> vs[j1] != vs[j2])
}

/// A trial for index `i` explained by a sample `vs` and a source population
/// `src`: each component of the new row is the individual's own old
/// component or the strategy formula's value at that dimension, where every
/// source row is a population row of this generation (already-updated rows
/// for smaller indices, the old rows otherwise).
pub open spec fn de_trial_ok<F: ObjFunc>(
    pre: DE<F>,
    post_pool: Seq<Vec<i64>>,
    i: int,
    vs: Seq<usize>,
    src: Seq<Seq<i64>>,
) -> bool {
    &&& distinct_aux(vs, i, pre.base.pop_num as int, pre.strategy)
    &&& src.len() == pre.base.pool@.len()
    &&& (forall|j: int| 0 <= j < src.len() ==>
            #[trigger] src[j] == pre.base.pool@[j]@ || src[j] == post_pool[j]@)
    &&& (forall|t: int| 0 <= t < pre.base.dim ==>
            #[trigger] post_pool[i]@[t] == pre.base.pool@[i]@[t]
                || post_pool[i]@[t] as int == spec_formula(
                pre.strategy,
                pre.f,
                pre.base.best@,
                src,
                vs,
                pre.base.pool@[i]@[t] as int,
                t,
            ))
}

/// Greedy selection at index `i`: the pair is unchanged, or it was replaced
/// by a strictly better, fully in-bounds trial whose fitness is the
/// objective's value and whose components the mutation formula explains.
pub open spec fn de_select_ok<F: ObjFunc>(
    pre: DE<F>,
    post_pool: Seq<Vec<i64>>,
    post_fit: Seq<i64>,
    i: int,
) -> bool {
    ||| (post_pool[i] == pre.base.pool@[i] && post_fit[i] == pre.base.fitness@[i])
    ||| {
        &&& post_fit[i] < pre.base.fitness@[i]
        &&& in_bounds(pre.base.func.spec_lb(), pre.base.func.spec_ub(), post_pool[i]@)
        &&& post_fit[i] == pre.base.func.spec_fitness(pre.base.gen, post_pool[i]@)
        &&& (exists|vs: Seq<usize>, src: Seq<Seq<i64>>| de_trial_ok(pre, post_pool, i, vs, src))
    }
}

/// The deferred best adoption: after all individuals are processed, the
/// earliest strictly improving individual becomes the global best, else the
/// best pair is untouched.
pub open spec fn de_best_ok<F: ObjFunc>(pre: AlgorithmBase<F>, post: AlgorithmBase<F>) -> bool {
    let m = argmin(post.fitness@, post.fitness@.len() as int);
    if post.fitness@[m] < pre.best_f {
        post.best_f == post.fitness@[m] && post.best@ == post.pool@[m]@
    } else {
        post.best_f == pre.best_f && post.best == pre.best
    }
}

/// The next residue: stepping the argument steps the remainder.
pub proof fn lemma_mod_succ(a: int, x: int, d: int)
    requires
        d >= 1,
        x == a % d,
    ensures
        (x + 1) % d == (a + 1) % d,
{
    vstd::arithmetic::div_mod::lemma_fundamental_div_mod(a, d);
    vstd::arithmetic::div_mod::lemma_mod_multiples_vanish(a / d, x + 1, d);
}

/// The shared tail of the two-pair formulas: the scaled sum of the first
/// two auxiliaries less the next two.
pub open spec fn spec_f45(f: u32, pool: Seq<Seq<i64>>, v: Seq<usize>, n: int) -> int {
    spec_scale(
        f,
        pool[v[0] as int][n] + pool[v[1] as int][n] - pool[v[2] as int][n] - pool[v[3] as int][n],
    )
}

/// The mutation value of dimension `n`: one of five formulas over the best
/// vector, the individual's own component `own`, and the auxiliaries.
pub open spec fn spec_formula(
    st: Strategy,
    f: u32,
    best: Seq<i64>,
    pool: Seq<Seq<i64>>,
    v: Seq<usize>,
    own: int,
    n: int,
) -> int {
    match st {
        Strategy::S1 | Strategy::S6 => best[n] + spec_scale(
            f,
            pool[v[0] as int][n] - pool[v[1] as int][n],
        ),
        Strategy::S2 | Strategy::S7 => pool[v[0] as int][n] + spec_scale(
            f,
            pool[v[1] as int][n] - pool[v[3] as int][n],
        ),
        Strategy::S3 | Strategy::S8 => own + spec_scale(
            f,
            best[n] - own + pool[v[0] as int][n] - pool[v[1] as int][n],
        ),
        Strategy::S4 | Strategy::S9 => best[n] + spec_f45(f, pool, v, n),
        Strategy::S5 | Strategy::S10 => pool[v[4] as int][n] + spec_f45(f, pool, v, n),
    }
}

/// Whether dimension `t` lies in the wrapped walk window of length `lv`
/// starting at `n0`.
spec fn written(t: int, n0: int, lv: int, d: int) -> bool {
    exists|k: int| 0 <= k < lv && t == #[trigger] ((n0 + k) % d)
}

/// The stop-early walk's shape: the dimensions replaced are exactly one
/// contiguous wrapped window of length `w` starting at `n0`, each carrying
/// its formula value, and every other dimension is untouched.
spec fn s1_window_ok<F: ObjFunc>(pre: DE<F>, post_tmp: Seq<i128>, n0: int, w: int) -> bool {
    &&& 1 <= w <= pre.base.dim
    &&& (forall|t: int|
            0 <= t < pre.base.dim && !written(t, n0, w, pre.base.dim as int) ==>
                (#[trigger] post_tmp[t]) == pre.tmp@[t])
    &&& (forall|t: int|
            0 <= t < pre.base.dim && written(t, n0, w, pre.base.dim as int) ==>
                (#[trigger] post_tmp[t]) as int == spec_formula(
                pre.strategy,
                pre.f,
                pre.base.best@,
                pool_view(pre.base.pool@),
                arr_contents(pre.v),
                pre.tmp@[t] as int,
                t,
            ))
}

/// Two residues inside one period agree only when the values agree.
pub proof fn lemma_mod_window(a: int, b: int, d: int)
    requires
        d >= 1,
        a <= b,
        b - a < d,
        a % d == b % d,
    ensures
        a == b,
{
    vstd::arithmetic::div_mod::lemma_fundamental_div_mod(a, d);
    vstd::arithmetic::div_mod::lemma_fundamental_div_mod(b, d);
    assert(a == b) by (nonlinear_arith)
        requires
            d >= 1,
            a <= b,
            b - a < d,
            a == d * (a / d) + a % d,
            b == d * (b / d) + b % d,
            a % d == b % d,
    ;
}

/// The auxiliary-index buffer: a one-dimensional ndarray held behind an
/// opaque wrapper, read and written through the contracts below.
#[verifier::external_body]
pub struct IdxArray {
    inner: ndarray::Array1<usize>,
}

/// What an auxiliary-index array holds, in storage order.
pub uninterp spec fn arr_contents(a: IdxArray) -> Seq<usize>;

/// Relies on ndarray's Array1::zeros: an array of `n` zeros.
#[verifier::external_body]
fn arr_zeros(n: usize) -> (r: IdxArray)
    ensures
        arr_contents(r).len() == n,
        forall|k: int| 0 <= k < n ==> arr_contents(r)[k] == 0,
{
    IdxArray { inner: ndarray::Array1::zeros(n) }
}

/// Relies on ndarray's Index impl for Array1: the element at `j`.
#[verifier::external_body]
fn arr_get(a: &IdxArray, j: usize) -> (r: usize)
    requires
        j < arr_contents(*a).len(),
    ensures
        r == arr_contents(*a)[j as int],
{
    a.inner[j]
}

/// Relies on ndarray's IndexMut impl for Array1: writes the element at `j`.
#[verifier::external_body]
fn arr_set(a: &mut IdxArray, j: usize, x: usize)
    requires
        j < arr_contents(*old(a)).len(),
    ensures
        arr_contents(*final(a)) == arr_contents(*old(a)).update(j as int, x),
{
    a.inner[j] = x;
}

/// Differential Evolution settings.
pub struct DESetting {
    pub base: Setting,
    pub strategy: Strategy,
    pub f: u32,
    pub cr: u32,
}

impl DESetting {
    /// Termination condition.
    pub fn task(self, task: crate::utility::Task) -> (r: Self)
        ensures
            r == (DESetting { base: (Setting { task, ..self.base }), ..self }),
    {
        DESetting { base: self.base.task(task), ..self }
    }

    /// Population number.
    pub fn pop_num(self, pop_num: usize) -> (r: Self)
        ensures
            r == (DESetting { base: (Setting { pop_num, ..self.base }), ..self }),
    {
        DESetting { base: self.base.pop_num(pop_num), ..self }
    }

    /// The report frequency. (per generation)
    pub fn rpt(self, rpt: u64) -> (r: Self)
        ensures
            r == (DESetting { base: (Setting { rpt, ..self.base }), ..self }),
    {
        DESetting { base: self.base.rpt(rpt), ..self }
    }

    /// The seed of the random stream.
    pub fn seed(self, seed: u64) -> (r: Self)
        ensures
            r == (DESetting { base: (Setting { seed, ..self.base }), ..self }),
    {
        DESetting { base: self.base.seed(seed), ..self }
    }

    /// The strategy variant.
    pub fn strategy(self, strategy: Strategy) -> (r: Self)
        ensures
            r == (DESetting { strategy, ..self }),
    {
        DESetting { strategy, ..self }
    }

    /// The mutation scale factor, in parts per million.
    pub fn f(self, f: u32) -> (r: Self)
        ensures
            r == (DESetting { f, ..self }),
    {
        DESetting { f, ..self }
    }

    /// The crossover probability, in parts per million.
    pub fn cr(self, cr: u32) -> (r: Self)
        ensures
            r == (DESetting { cr, ..self }),
    {
        DESetting { cr, ..self }
    }
}

impl Default for DESetting {
    /// The customary configuration: four hundred individuals, strategy S1,
    /// scale factor 0.6 and crossover probability 0.9.
    fn default() -> (r: Self)
        ensures
            r.base.pop_num == 400,
            r.base.task == crate::utility::Task::MaxGen(200),
            r.base.rpt == 50,
            r.base.seed == 0,
            r.strategy is S1,
            r.f == 600_000,
            r.cr == 900_000,
    {
        DESetting {
            base: Setting::default().pop_num(400),
            strategy: Strategy::S1,
            f: 600_000,
            cr: 900_000,
        }
    }
}

/// Differential Evolution type.
pub struct DE<F: ObjFunc> {
    pub f: u32,
    pub cr: u32,
    pub strategy: Strategy,
    pub v: IdxArray,
    pub tmp: Vec<i128>,
    pub base: AlgorithmBase<F>,
}

impl<F: ObjFunc> DE<F> {
    pub fn new(func: F, settings: DESetting) -> (r: DE<F>)
        requires
            func.spec_lb().len() == func.spec_ub().len(),
        ensures
            r.base.pop_num == settings.base.pop_num,
            r.base.dim == func.spec_lb().len(),
            r.base.gen == 0,
            r.base.rpt == settings.base.rpt,
            r.base.task == settings.base.task,
            r.base.best_f == UNSET_F,
            r.base.rng.state == settings.base.seed,
            r.base.spec_reports() == Seq::<Report>::empty(),
            r.base.func == func,
            r.f == settings.f,
            r.cr == settings.cr,
            r.strategy == settings.strategy,
            arr_contents(r.v).len() == aux_count(r.strategy),
            r.tmp@.len() == r.base.dim,
    {
        let base = AlgorithmBase::new(func, settings.base);
        let num = aux_count_x(settings.strategy);
        let v = arr_zeros(num);
        let dim = base.dim;
        let mut tmp: Vec<i128> = Vec::new();
        let mut s: usize = 0;
        while s < dim
            invariant
                tmp@.len() == s,
                s <= dim,
            decreases dim - s,
        {
            tmp.push(0);
            s = s + 1;
        }
        DE { f: settings.f, cr: settings.cr, strategy: settings.strategy, v, tmp, base }
    }

    /// Auxiliary index sampling: fill the index buffer with indices that are
    /// pairwise distinct and all different from `i`, by rejection sampling
    /// with a draw budget; an exhausted budget (which a workable population
    /// never produces in practice) falls back to a deterministic valid
    /// assignment.
    fn vector(&mut self, i: usize)
        requires
            old(self).base.ready(),
            i < old(self).base.pop_num,
            arr_contents(old(self).v).len() == aux_count(old(self).strategy),
            aux_count(old(self).strategy) < old(self).base.pop_num,
        ensures
            *final(self) == (DE { v: final(self).v, base: final(self).base, ..*old(self) }),
            final(self).base == (AlgorithmBase { rng: final(self).base.rng, ..old(self).base }),
            arr_contents(final(self).v).len() == aux_count(old(self).strategy),
            forall|j: int| 0 <= j < arr_contents(final(self).v).len() ==>
                #[trigger] arr_contents(final(self).v)[j] < old(self).base.pop_num
                    && arr_contents(final(self).v)[j] != i,
            forall|j1: int, j2: int|
                0 <= j1 < j2 < arr_contents(final(self).v).len() ==>
                    arr_contents(final(self).v)[j1] != arr_contents(final(self).v)[j2],
    {
        let m = aux_count_x(self.strategy);
        let pop = self.base.pop_num;
        let mut j: usize = 0;
        while j < m
            invariant
                self.base.ready(),
                self.base.pop_num == pop,
                i < pop,
                m < pop,
                j <= m,
                m as int == aux_count(self.strategy),
                arr_contents(self.v).len() == m,
                *self == (DE { v: self.v, base: self.base, ..*old(self) }),
                self.base == (AlgorithmBase { rng: self.base.rng, ..old(self).base }),
                forall|q: int| 0 <= q < j ==>
                    #[trigger] arr_contents(self.v)[q] < pop && arr_contents(self.v)[q] != i,
                forall|q1: int, q2: int| 0 <= q1 < q2 < j ==>
                    arr_contents(self.v)[q1] != arr_contents(self.v)[q2],
            decreases m - j,
        {
            let mut attempts: usize = 0;
            let mut found = false;
            let mut cand: usize = 0;
            while attempts < 100_000 && !found
                invariant
                    self.base.ready(),
                    self.base.pop_num == pop,
                    i < pop,
                    j < m,
                    m < pop,
                    arr_contents(self.v).len() == m,
                    *self == (DE { v: self.v, base: self.base, ..*old(self) }),
                    self.base == (AlgorithmBase { rng: self.base.rng, ..old(self).base }),
                    forall|q: int| 0 <= q < j ==>
                        #[trigger] arr_contents(self.v)[q] < pop && arr_contents(self.v)[q] != i,
                    forall|q1: int, q2: int| 0 <= q1 < q2 < j ==>
                        arr_contents(self.v)[q1] != arr_contents(self.v)[q2],
                    found ==> cand < pop && cand != i
                        && (forall|q: int| 0 <= q < j ==> #[trigger] arr_contents(self.v)[q] != cand),
                decreases 100_000 - attempts,
            {
                attempts = attempts + 1;
                let c = self.base.rng.index_below(pop);
                if c != i {
                    let mut dup = false;
                    let mut l: usize = 0;
                    while l < j
                        invariant
                            l <= j,
                            j < m,
                            arr_contents(self.v).len() == m,
                            !dup ==> forall|q: int| 0 <= q < l ==>
                                #[trigger] arr_contents(self.v)[q] != c,
                        decreases j - l,
                    {
                        if arr_get(&self.v, l) == c {
                            dup = true;
                        }
                        l = l + 1;
                    }
                    if !dup {
                        cand = c;
                        found = true;
                    }
                }
            }
            if found {
                arr_set(&mut self.v, j, cand);
                j = j + 1;
            } else {
                let mut l: usize = 0;
                while l < m
                    invariant
                        self.base.pop_num == pop,
                        i < pop,
                        l <= m,
                        m < pop,
                        pop <= 0x1_0000_0000,
                        arr_contents(self.v).len() == m,
                        *self == (DE { v: self.v, base: self.base, ..*old(self) }),
                        self.base == old(self).base || self.base == (AlgorithmBase {
                            rng: self.base.rng,
                            ..old(self).base
                        }),
                        forall|q: int| 0 <= q < l ==>
                            #[trigger] arr_contents(self.v)[q] as int
                                == (i + 1 + q) % (pop as int),
                    decreases m - l,
                {
                    let val: usize = ((i as u64 + 1 + l as u64) % (pop as u64)) as usize;
                    arr_set(&mut self.v, l, val);
                    l = l + 1;
                }
                proof {
                    assert forall|q: int| 0 <= q < m implies
                        #[trigger] arr_contents(self.v)[q] < pop
                            && arr_contents(self.v)[q] != i by {
                        if arr_contents(self.v)[q] == i {
                            assert((i as int) % (pop as int) == i as int) by (nonlinear_arith)
                                requires
                                    0 <= (i as int) < (pop as int),
                            ;
                            lemma_mod_window(i as int, i + 1 + q, pop as int);
                        }
                    }
                    assert forall|q1: int, q2: int| 0 <= q1 < q2 < m implies
                        arr_contents(self.v)[q1] != arr_contents(self.v)[q2] by {
                        if arr_contents(self.v)[q1] == arr_contents(self.v)[q2] {
                            lemma_mod_window(i + 1 + q1, i + 1 + q2, pop as int);
                        }
                    }
                }
                return;
            }
        }
    }

    /// One population component widened for recombination arithmetic.
    fn pool_at(&self, idx: usize, n: usize) -> (r: i128)
        requires
            self.base.ready(),
            idx < self.base.pop_num,
            n < self.base.dim,
        ensures
            r == pool_view(self.base.pool@)[idx as int][n as int],
            -1_000_000_000_000 <= r <= 1_000_000_000_000,
    {
        proof {
            assert(in_bounds(
                self.base.func.spec_lb(),
                self.base.func.spec_ub(),
                self.base.pool@[idx as int]@,
            ));
            assert(-1_000_000_000_000 <= self.base.pool@[idx as int]@[n as int]
                <= 1_000_000_000_000);
        }
        self.base.pool[idx][n] as i128
    }

    /// A difference scaled by the factor `f`, in parts per million.
    fn scale(&self, d: i128) -> (r: i128)
        requires
            -8_000_000_000_000 <= d <= 8_000_000_000_000,
        ensures
            r == spec_scale(self.f, d as int),
            -40_000_000_000_000_000_000_000 <= r <= 40_000_000_000_000_000_000_000,
    {
        proof {
            assert(
                -40_000_000_000_000_000_000_000 <= (self.f as i128) * d
                    <= 40_000_000_000_000_000_000_000
            ) by (nonlinear_arith)
                requires
                    0 <= self.f <= 0xFFFF_FFFFu32,
                    -8_000_000_000_000 <= d <= 8_000_000_000_000,
            ;
        }
        div_trunc((self.f as i128) * d, PPM as i128)
    }

    /// The mutation formula of the configured strategy at dimension `n`.
    fn formula(&self, n: usize) -> (r: i128)
        requires
            self.base.ready(),
            n < self.base.dim,
            self.tmp@.len() == self.base.dim,
            -1_000_000_000_000 <= self.tmp@[n as int] <= 1_000_000_000_000,
            arr_contents(self.v).len() == aux_count(self.strategy),
            forall|j: int| 0 <= j < arr_contents(self.v).len() ==>
                #[trigger] arr_contents(self.v)[j] < self.base.pop_num,
        ensures
            r == spec_formula(
                self.strategy,
                self.f,
                self.base.best@,
                pool_view(self.base.pool@),
                arr_contents(self.v),
                self.tmp@[n as int] as int,
                n as int,
            ),
            -50_000_000_000_000_000_000_000 <= r <= 50_000_000_000_000_000_000_000,
    {
        proof {
            assert(-1_000_000_000_000 <= self.base.best@[n as int] <= 1_000_000_000_000);
        }
        match self.strategy {
            Strategy::S1 | Strategy::S6 => {
                let p0 = self.pool_at(arr_get(&self.v, 0), n);
                let p1 = self.pool_at(arr_get(&self.v, 1), n);
                self.base.best[n] as i128 + self.scale(p0 - p1)
            },
            Strategy::S2 | Strategy::S7 => {
                let p0 = self.pool_at(arr_get(&self.v, 0), n);
                let p1 = self.pool_at(arr_get(&self.v, 1), n);
                let p3 = self.pool_at(arr_get(&self.v, 3), n);
                p0 + self.scale(p1 - p3)
            },
            Strategy::S3 | Strategy::S8 => {
                let p0 = self.pool_at(arr_get(&self.v, 0), n);
                let p1 = self.pool_at(arr_get(&self.v, 1), n);
                let own = self.tmp[n];
                own + self.scale(self.base.best[n] as i128 - own + p0 - p1)
            },
            Strategy::S4 | Strategy::S9 => {
                let p0 = self.pool_at(arr_get(&self.v, 0), n);
                let p1 = self.pool_at(arr_get(&self.v, 1), n);
                let p2 = self.pool_at(arr_get(&self.v, 2), n);
                let p3 = self.pool_at(arr_get(&self.v, 3), n);
                self.base.best[n] as i128 + self.scale(p0 + p1 - p2 - p3)
            },
            Strategy::S5 | Strategy::S10 => {
                let p0 = self.pool_at(arr_get(&self.v, 0), n);
                let p1 = self.pool_at(arr_get(&self.v, 1), n);
                let p2 = self.pool_at(arr_get(&self.v, 2), n);
                let p3 = self.pool_at(arr_get(&self.v, 3), n);
                let p4 = self.pool_at(arr_get(&self.v, 4), n);
                p4 + self.scale(p0 + p1 - p2 - p3)
            },
        }
    }

    /// Pattern A crossover ("stop early"): from the starting dimension walk
    /// forward, overwriting each visited dimension with the mutation
    /// formula's value, and continue after each overwrite only with
    /// probability `cr`; the starting dimension is therefore always
    /// replaced, and every changed dimension carries its formula value.
    fn s1(&mut self, n0: usize)
        requires
            old(self).base.ready(),
            n0 < old(self).base.dim,
            old(self).tmp@.len() == old(self).base.dim,
            forall|t: int| 0 <= t < old(self).base.dim ==>
                -1_000_000_000_000 <= #[trigger] old(self).tmp@[t] <= 1_000_000_000_000,
            arr_contents(old(self).v).len() == aux_count(old(self).strategy),
            forall|j: int| 0 <= j < arr_contents(old(self).v).len() ==>
                #[trigger] arr_contents(old(self).v)[j] < old(self).base.pop_num,
        ensures
            *final(self) == (DE { tmp: final(self).tmp, base: final(self).base, ..*old(self) }),
            final(self).base == (AlgorithmBase { rng: final(self).base.rng, ..old(self).base }),
            final(self).tmp@.len() == old(self).base.dim,
            forall|t: int| 0 <= t < old(self).base.dim ==>
                final(self).tmp@[t] == old(self).tmp@[t] || final(self).tmp@[t] == spec_formula(
                    old(self).strategy,
                    old(self).f,
                    old(self).base.best@,
                    pool_view(old(self).base.pool@),
                    arr_contents(old(self).v),
                    old(self).tmp@[t] as int,
                    t,
                ),
            final(self).tmp@[n0 as int] == spec_formula(
                old(self).strategy,
                old(self).f,
                old(self).base.best@,
                pool_view(old(self).base.pool@),
                arr_contents(old(self).v),
                old(self).tmp@[n0 as int] as int,
                n0 as int,
            ),
            (exists|w: int| s1_window_ok(*old(self), final(self).tmp@, n0 as int, w)),
    {
        let dim = self.base.dim;
        let mut n = n0;
        let mut lv: usize = 0;
        proof {
            assert((n0 as int) % (dim as int) == n0 as int) by (nonlinear_arith)
                requires
                    0 <= (n0 as int) < (dim as int),
            ;
        }
        loop
            invariant_except_break
                lv < dim,
                n as int == (n0 + lv) % (dim as int),
            invariant
                self.base.ready(),
                *self == (DE { tmp: self.tmp, base: self.base, ..*old(self) }),
                self.base == (AlgorithmBase { rng: self.base.rng, ..old(self).base }),
                self.base.dim == dim,
                n0 < dim,
                n < dim,
                (n0 as int) % (dim as int) == n0 as int,
                self.tmp@.len() == dim,
                old(self).tmp@.len() == dim,
                forall|t: int| 0 <= t < dim ==>
                    -1_000_000_000_000 <= #[trigger] old(self).tmp@[t] <= 1_000_000_000_000,
                arr_contents(self.v).len() == aux_count(self.strategy),
                forall|j: int| 0 <= j < arr_contents(self.v).len() ==>
                    #[trigger] arr_contents(self.v)[j] < self.base.pop_num,
                forall|t: int| 0 <= t < dim && !written(t, n0 as int, lv as int, dim as int) ==>
                    self.tmp@[t] == old(self).tmp@[t],
                forall|t: int| 0 <= t < dim ==>
                    self.tmp@[t] == old(self).tmp@[t] || self.tmp@[t] == spec_formula(
                        old(self).strategy,
                        old(self).f,
                        old(self).base.best@,
                        pool_view(old(self).base.pool@),
                        arr_contents(old(self).v),
                        old(self).tmp@[t] as int,
                        t,
                    ),
                lv >= 1 ==> self.tmp@[n0 as int] == spec_formula(
                    old(self).strategy,
                    old(self).f,
                    old(self).base.best@,
                    pool_view(old(self).base.pool@),
                    arr_contents(old(self).v),
                    old(self).tmp@[n0 as int] as int,
                    n0 as int,
                ),
                forall|k2: int| 0 <= k2 < lv ==>
                    (#[trigger] self.tmp@[(n0 + k2) % (dim as int)]) == spec_formula(
                        old(self).strategy,
                        old(self).f,
                        old(self).base.best@,
                        pool_view(old(self).base.pool@),
                        arr_contents(old(self).v),
                        old(self).tmp@[(n0 + k2) % (dim as int)] as int,
                        (n0 + k2) % (dim as int),
                    ),
            ensures
                lv >= 1,
                s1_window_ok(*old(self), self.tmp@, n0 as int, lv as int),
                *self == (DE { tmp: self.tmp, base: self.base, ..*old(self) }),
                self.base == (AlgorithmBase { rng: self.base.rng, ..old(self).base }),
                self.tmp@.len() == dim,
                forall|t: int| 0 <= t < dim ==>
                    self.tmp@[t] == old(self).tmp@[t] || self.tmp@[t] == spec_formula(
                        old(self).strategy,
                        old(self).f,
                        old(self).base.best@,
                        pool_view(old(self).base.pool@),
                        arr_contents(old(self).v),
                        old(self).tmp@[t] as int,
                        t,
                    ),
                self.tmp@[n0 as int] == spec_formula(
                    old(self).strategy,
                    old(self).f,
                    old(self).base.best@,
                    pool_view(old(self).base.pool@),
                    arr_contents(old(self).v),
                    old(self).tmp@[n0 as int] as int,
                    n0 as int,
                ),
            decreases dim - lv,
        {
            proof {
                if written(n as int, n0 as int, lv as int, dim as int) {
                    let k = choose|k: int|
                        0 <= k < lv && n as int == #[trigger] ((n0 + k) % (dim as int));
                    lemma_mod_window(n0 + k, n0 + lv as int, dim as int);
                }
                assert(self.tmp@[n as int] == old(self).tmp@[n as int]);
            }
            let val = self.formula(n);
            self.tmp[n] = val;
            proof {
                assert(((n0 as int) + 0) % (dim as int) == n0 as int);
                assert(written(n0 as int, n0 as int, lv as int + 1, dim as int));
                assert(written(n as int, n0 as int, lv as int + 1, dim as int));
                if lv >= 1 {
                    assert(written(n0 as int, n0 as int, lv as int, dim as int));
                    assert(n as int != n0 as int);
                } else {
                    assert(n as int == n0 as int);
                }
                assert forall|t: int|
                    0 <= t < dim && !written(t, n0 as int, lv as int + 1, dim as int)
                        implies self.tmp@[t] == old(self).tmp@[t] by {
                    if written(t, n0 as int, lv as int, dim as int) {
                        let k = choose|k: int|
                            0 <= k < lv && t == #[trigger] ((n0 + k) % (dim as int));
                        assert(written(t, n0 as int, lv as int + 1, dim as int));
                    }
                    assert(t != n as int);
                }
            }
            lv = lv + 1;
            proof {
                assert forall|t: int|
                    0 <= t < dim && written(t, n0 as int, lv as int, dim as int)
                        implies (#[trigger] self.tmp@[t]) as int == spec_formula(
                        old(self).strategy,
                        old(self).f,
                        old(self).base.best@,
                        pool_view(old(self).base.pool@),
                        arr_contents(old(self).v),
                        old(self).tmp@[t] as int,
                        t,
                    ) by {
                    let k2 = choose|k2: int|
                        0 <= k2 < lv && t == #[trigger] ((n0 + k2) % (dim as int));
                }
                assert(s1_window_ok(*old(self), self.tmp@, n0 as int, lv as int));
            }
            let go = self.base.rng.maybe(self.cr);
            if !go || lv == dim {
                break;
            }
            proof {
                lemma_mod_succ(n0 + (lv - 1) as int, n as int, dim as int);
            }
            n = (n + 1) % dim;
        }
    }

    /// Pattern B crossover ("binomial, forced last"): walk through every
    /// dimension exactly once, overwriting a visited dimension when the
    /// Bernoulli trial fails, and overwriting the final dimension of the
    /// walk regardless; every changed dimension carries its formula value.
    fn s2(&mut self, n0: usize)
        requires
            old(self).base.ready(),
            n0 < old(self).base.dim,
            old(self).tmp@.len() == old(self).base.dim,
            forall|t: int| 0 <= t < old(self).base.dim ==>
                -1_000_000_000_000 <= #[trigger] old(self).tmp@[t] <= 1_000_000_000_000,
            arr_contents(old(self).v).len() == aux_count(old(self).strategy),
            forall|j: int| 0 <= j < arr_contents(old(self).v).len() ==>
                #[trigger] arr_contents(old(self).v)[j] < old(self).base.pop_num,
        ensures
            *final(self) == (DE { tmp: final(self).tmp, base: final(self).base, ..*old(self) }),
            final(self).base == (AlgorithmBase { rng: final(self).base.rng, ..old(self).base }),
            final(self).tmp@.len() == old(self).base.dim,
            forall|t: int| 0 <= t < old(self).base.dim ==>
                final(self).tmp@[t] == old(self).tmp@[t] || final(self).tmp@[t] == spec_formula(
                    old(self).strategy,
                    old(self).f,
                    old(self).base.best@,
                    pool_view(old(self).base.pool@),
                    arr_contents(old(self).v),
                    old(self).tmp@[t] as int,
                    t,
                ),
            final(self).tmp@[(n0 + old(self).base.dim - 1) as int % (old(self).base.dim as int)]
                == spec_formula(
                old(self).strategy,
                old(self).f,
                old(self).base.best@,
                pool_view(old(self).base.pool@),
                arr_contents(old(self).v),
                old(self).tmp@[
                    (n0 + old(self).base.dim - 1) as int % (old(self).base.dim as int)
                ] as int,
                (n0 + old(self).base.dim - 1) as int % (old(self).base.dim as int),
            ),
    {
        let dim = self.base.dim;
        let ghost last = (n0 + dim - 1) as int % (dim as int);
        let mut n = n0;
        let mut lv: usize = 0;
        proof {
            assert((n0 as int) % (dim as int) == n0 as int) by (nonlinear_arith)
                requires
                    0 <= (n0 as int) < (dim as int),
            ;
        }
        while lv < dim
            invariant
                self.base.ready(),
                *self == (DE { tmp: self.tmp, base: self.base, ..*old(self) }),
                self.base == (AlgorithmBase { rng: self.base.rng, ..old(self).base }),
                self.base.dim == dim,
                n0 < dim,
                lv <= dim,
                n < dim,
                n as int == (n0 + lv) % (dim as int),
                last == (n0 + dim - 1) as int % (dim as int),
                self.tmp@.len() == dim,
                old(self).tmp@.len() == dim,
                forall|t: int| 0 <= t < dim ==>
                    -1_000_000_000_000 <= #[trigger] old(self).tmp@[t] <= 1_000_000_000_000,
                arr_contents(self.v).len() == aux_count(self.strategy),
                forall|j: int| 0 <= j < arr_contents(self.v).len() ==>
                    #[trigger] arr_contents(self.v)[j] < self.base.pop_num,
                forall|t: int| 0 <= t < dim && !written(t, n0 as int, lv as int, dim as int) ==>
                    self.tmp@[t] == old(self).tmp@[t],
                forall|t: int| 0 <= t < dim ==>
                    self.tmp@[t] == old(self).tmp@[t] || self.tmp@[t] == spec_formula(
                        old(self).strategy,
                        old(self).f,
                        old(self).base.best@,
                        pool_view(old(self).base.pool@),
                        arr_contents(old(self).v),
                        old(self).tmp@[t] as int,
                        t,
                    ),
                lv == dim ==> self.tmp@[last] == spec_formula(
                    old(self).strategy,
                    old(self).f,
                    old(self).base.best@,
                    pool_view(old(self).base.pool@),
                    arr_contents(old(self).v),
                    old(self).tmp@[last] as int,
                    last,
                ),
            decreases dim - lv,
        {
            proof {
                if written(n as int, n0 as int, lv as int, dim as int) {
                    let k = choose|k: int|
                        0 <= k < lv && n as int == #[trigger] ((n0 + k) % (dim as int));
                    lemma_mod_window(n0 + k, n0 + lv as int, dim as int);
                }
                assert(self.tmp@[n as int] == old(self).tmp@[n as int]);
            }
            let go = self.base.rng.maybe(self.cr);
            if !go || lv == dim - 1 {
                let val = self.formula(n);
                self.tmp[n] = val;
            }
            proof {
                assert(written(n as int, n0 as int, lv as int + 1, dim as int));
                assert forall|t: int|
                    0 <= t < dim && !written(t, n0 as int, lv as int + 1, dim as int)
                        implies self.tmp@[t] == old(self).tmp@[t] by {
                    if written(t, n0 as int, lv as int, dim as int) {
                        let k = choose|k: int|
                            0 <= k < lv && t == #[trigger] ((n0 + k) % (dim as int));
                        assert(written(t, n0 as int, lv as int + 1, dim as int));
                    }
                    assert(t != n as int);
                }
                if lv == dim - 1 {
                    assert(n as int == last);
                }
                lemma_mod_succ(n0 + lv as int, n as int, dim as int);
            }
            n = (n + 1) % dim;
            lv = lv + 1;
        }
    }

    /// One recombination: copy individual `i` as the trial vector, draw a
    /// starting dimension, and apply the configured crossover pattern, so
    /// that every trial component is either the individual's own component
    /// or the mutation formula's value for that dimension.
    fn recombination(&mut self, i: usize)
        requires
            old(self).base.ready(),
            i < old(self).base.pop_num,
            old(self).tmp@.len() == old(self).base.dim,
            arr_contents(old(self).v).len() == aux_count(old(self).strategy),
            forall|j: int| 0 <= j < arr_contents(old(self).v).len() ==>
                #[trigger] arr_contents(old(self).v)[j] < old(self).base.pop_num,
        ensures
            *final(self) == (DE { tmp: final(self).tmp, base: final(self).base, ..*old(self) }),
            final(self).base == (AlgorithmBase { rng: final(self).base.rng, ..old(self).base }),
            final(self).tmp@.len() == old(self).base.dim,
            forall|t: int| 0 <= t < old(self).base.dim ==>
                final(self).tmp@[t] == pool_view(old(self).base.pool@)[i as int][t]
                    || final(self).tmp@[t] == spec_formula(
                    old(self).strategy,
                    old(self).f,
                    old(self).base.best@,
                    pool_view(old(self).base.pool@),
                    arr_contents(old(self).v),
                    pool_view(old(self).base.pool@)[i as int][t] as int,
                    t,
                ),
    {
        let dim = self.base.dim;
        let mut t_: usize = 0;
        while t_ < dim
            invariant
                self.base.ready(),
                *self == (DE { tmp: self.tmp, base: self.base, ..*old(self) }),
                self.base == old(self).base,
                self.base.dim == dim,
                i < self.base.pop_num,
                t_ <= dim,
                self.tmp@.len() == dim,
                forall|q: int| 0 <= q < t_ ==>
                    #[trigger] self.tmp@[q] == pool_view(self.base.pool@)[i as int][q]
                        && -1_000_000_000_000 <= self.tmp@[q] <= 1_000_000_000_000,
            decreases dim - t_,
        {
            let x = self.pool_at(i, t_);
            self.tmp[t_] = x;
            t_ = t_ + 1;
        }
        let n0 = self.base.rng.index_below(dim);
        if is_pattern_a(self.strategy) {
            self.s1(n0);
        } else {
            self.s2(n0);
        }
    }
}

impl<F: ObjFunc> DE<F> {
    /// Start the algorithm and return the objective's final answer.
    pub fn run(&mut self) -> (r: F::Result)
        requires
            old(self).base.wf(),
            old(self).settings_ok(),
        ensures
            final(self).base.ready(),
            final(self).base.dominated(),
            same_config(old(self).base, final(self).base),
            final(self).base.gen >= 1,
            r == final(self).base.func.spec_result(final(self).base.best@),
            crate::utility::run_reports_ok(old(self).base, final(self).base),
            crate::utility::run_task_ok(
                final(self).base.task,
                final(self).base.gen,
                final(self).base.best_f,
            ),
    {
        run_loop(self)
    }
}

impl<F: ObjFunc> Algorithm<F> for DE<F> {
    open spec fn base_view(&self) -> AlgorithmBase<F> {
        self.base
    }

    /// The index buffer matches the strategy's sample count, the trial
    /// vector matches the dimension, and the population holds at least one
    /// more individual than the sampler must pick.
    open spec fn settings_ok(&self) -> bool {
        &&& arr_contents(self.v).len() == aux_count(self.strategy)
        &&& self.tmp@.len() == self.base.dim
        &&& aux_count(self.strategy) < self.base.pop_num
    }

    /// One generation: every individual, in index order, keeps its pair or
    /// adopts a strictly better in-bounds trial explained by the mutation
    /// formula; then the global best is adopted once by the deferred
    /// first-wins scan.
    open spec fn gen_spec(pre: Self, post: Self) -> bool {
        &&& post.base.pool@.len() == pre.base.pool@.len()
        &&& post.base.fitness@.len() == pre.base.fitness@.len()
        &&& (forall|i: int| 0 <= i < pre.base.pop_num ==>
                #[trigger] de_select_ok(pre, post.base.pool@, post.base.fitness@, i))
        &&& de_best_ok(pre.base, post.base)
    }

    fn base(&self) -> (r: &AlgorithmBase<F>) {
        &self.base
    }

    fn begin(&mut self) {
        self.base.begin();
    }

    fn bump_gen(&mut self) {
        self.base.bump_gen();
    }

    fn report(&mut self) {
        self.base.report();
    }

    fn init(&mut self) {
        self.base.best_f = UNSET_F;
        self.base.init_pop();
        self.base.find_best();
        if self.base.best_f == UNSET_F {
            self.base.set_best(0);
        }
    }

    #[verifier::rlimit(60)]
    fn generation(&mut self) {
        let ghost pre0 = *self;
        let pop = self.base.pop_num;
        let dim = self.base.dim;
        let mut i: usize = 0;
        while i < pop
            invariant
                pre0 == *old(self),
                self.base.ready(),
                self.base.pop_num == pop,
                self.base.dim == dim,
                i <= pop,
                arr_contents(self.v).len() == aux_count(self.strategy),
                aux_count(self.strategy) < pop,
                self.tmp@.len() == dim,
                self.strategy == pre0.strategy,
                self.f == pre0.f,
                self.cr == pre0.cr,
                same_config(pre0.base, self.base),
                self.base.gen == pre0.base.gen,
                self.base.spec_reports() == pre0.base.spec_reports(),
                self.base.best == pre0.base.best,
                self.base.best_f == pre0.base.best_f,
                self.base.pool@.len() == pre0.base.pool@.len(),
                self.base.fitness@.len() == pre0.base.fitness@.len(),
                forall|k: int| i <= k < pop ==>
                    (#[trigger] self.base.pool@[k]) == pre0.base.pool@[k],
                forall|k: int| i <= k < pop ==>
                    (#[trigger] self.base.fitness@[k]) == pre0.base.fitness@[k],
                forall|k: int| 0 <= k < i ==>
                    #[trigger] de_select_ok(pre0, self.base.pool@, self.base.fitness@, k),
            decreases pop - i,
        {
            proof {
                assert(self.base.pool@[i as int] == pre0.base.pool@[i as int]);
                assert(self.base.fitness@[i as int] == pre0.base.fitness@[i as int]);
            }
            self.vector(i);
            let ghost rsnap = *self;
            self.recombination(i);
            let ghost gsnap = *self;
            let mut ok = true;
            let mut s: usize = 0;
            while s < dim
                invariant
                    *self == gsnap,
                    self.base.ready(),
                    self.base.dim == dim,
                    self.tmp@.len() == dim,
                    s <= dim,
                    ok ==> forall|t: int| 0 <= t < s ==>
                        self.base.func.spec_lb()[t] <= #[trigger] self.tmp@[t]
                            && self.tmp@[t] <= self.base.func.spec_ub()[t],
                decreases dim - s,
            {
                let t_val = self.tmp[s];
                let lo = self.base.lb(s);
                let hi = self.base.ub(s);
                if t_val > hi as i128 || t_val < lo as i128 {
                    ok = false;
                }
                s = s + 1;
            }
            if ok {
                let mut trial: Vec<i64> = Vec::new();
                let mut q: usize = 0;
                while q < dim
                    invariant
                        *self == gsnap,
                        self.base.ready(),
                        self.base.dim == dim,
                        self.tmp@.len() == dim,
                        q <= dim,
                        trial@.len() == q,
                        forall|t: int| 0 <= t < dim ==>
                            self.base.func.spec_lb()[t] <= #[trigger] self.tmp@[t]
                                && self.tmp@[t] <= self.base.func.spec_ub()[t],
                        forall|t: int| 0 <= t < q ==>
                            self.base.func.spec_lb()[t] <= #[trigger] trial@[t]
                                && trial@[t] <= self.base.func.spec_ub()[t],
                        forall|t: int| 0 <= t < q ==> #[trigger] trial@[t] as int == self.tmp@[t],
                    decreases dim - q,
                {
                    proof {
                        assert(-1_000_000_000_000 <= self.base.func.spec_lb()[q as int]
                            <= 1_000_000_000_000);
                        assert(-1_000_000_000_000 <= self.base.func.spec_ub()[q as int]
                            <= 1_000_000_000_000);
                    }
                    let x = self.tmp[q];
                    trial.push(x as i64);
                    q = q + 1;
                }
                let tf = self.base.func.fitness(self.base.gen, &trial);
                if tf < self.base.fitness[i] {
                    proof {
                        assert(in_bounds(
                            self.base.func.spec_lb(),
                            self.base.func.spec_ub(),
                            trial@,
                        ));
                    }
                    let ghost trialv = trial@;
                    let ghost prev = *self;
                    self.base.assign_from(i, tf, trial);
                    proof {
                        let vs = arr_contents(self.v);
                        let src = pool_view(rsnap.base.pool@);
                        assert(self.base.pool@[i as int]@ == trialv);
                        assert(de_trial_ok(pre0, self.base.pool@, i as int, vs, src)) by {
                            assert forall|j: int| 0 <= j < src.len() implies
                                #[trigger] src[j] == pre0.base.pool@[j]@
                                    || src[j] == self.base.pool@[j]@ by {
                                assert(src[j] == rsnap.base.pool@[j]@);
                                if j == i as int {
                                    assert(rsnap.base.pool@[j] == pre0.base.pool@[j]);
                                } else {
                                    assert(self.base.pool@[j] == prev.base.pool@[j]);
                                    assert(prev.base.pool@[j] == rsnap.base.pool@[j]);
                                }
                            }
                            assert forall|t: int| 0 <= t < dim implies
                                #[trigger] self.base.pool@[i as int]@[t]
                                    == pre0.base.pool@[i as int]@[t]
                                    || self.base.pool@[i as int]@[t] as int == spec_formula(
                                    pre0.strategy,
                                    pre0.f,
                                    pre0.base.best@,
                                    src,
                                    vs,
                                    pre0.base.pool@[i as int]@[t] as int,
                                    t,
                                ) by {
                                assert(self.base.pool@[i as int]@[t] == trialv[t]);
                                assert(trialv[t] as int == prev.tmp@[t]);
                                assert(pool_view(rsnap.base.pool@)[i as int][t]
                                    == rsnap.base.pool@[i as int]@[t]);
                                assert(rsnap.base.pool@[i as int] == pre0.base.pool@[i as int]);
                            }
                        }
                        assert(de_select_ok(
                            pre0,
                            self.base.pool@,
                            self.base.fitness@,
                            i as int,
                        )) by {
                            assert(self.base.fitness@[i as int] == tf);
                            assert(prev.base.fitness@[i as int]
                                == pre0.base.fitness@[i as int]);
                        }
                        assert forall|k: int| 0 <= k < i implies
                            #[trigger] de_select_ok(
                                pre0,
                                self.base.pool@,
                                self.base.fitness@,
                                k,
                            ) by {
                            assert(de_select_ok(
                                pre0,
                                prev.base.pool@,
                                prev.base.fitness@,
                                k,
                            ));
                            assert(self.base.pool@[k] == prev.base.pool@[k]);
                            assert(self.base.fitness@[k] == prev.base.fitness@[k]);
                            if !(prev.base.pool@[k] == pre0.base.pool@[k]
                                && prev.base.fitness@[k] == pre0.base.fitness@[k]) {
                                let (vs2, src2) = choose|vs2: Seq<usize>, src2: Seq<Seq<i64>>|
                                    de_trial_ok(pre0, prev.base.pool@, k, vs2, src2);
                                assert(de_trial_ok(pre0, self.base.pool@, k, vs2, src2)) by {
                                    assert forall|j: int| 0 <= j < src2.len() implies
                                        #[trigger] src2[j] == pre0.base.pool@[j]@
                                            || src2[j] == self.base.pool@[j]@ by {
                                        if j != i as int {
                                            assert(self.base.pool@[j] == prev.base.pool@[j]);
                                        } else {
                                            if src2[j] == prev.base.pool@[j]@ {
                                                assert(prev.base.pool@[i as int]
                                                    == pre0.base.pool@[i as int]);
                                            }
                                        }
                                    }
                                    assert(self.base.pool@[k] == prev.base.pool@[k]);
                                }
                            }
                        }
                        assert forall|k: int| (i as int) + 1 <= k < (pop as int) implies
                            (#[trigger] self.base.pool@[k]) == pre0.base.pool@[k]
                                && self.base.fitness@[k] == pre0.base.fitness@[k] by {
                            assert(self.base.pool@[k] == prev.base.pool@[k]);
                            assert(self.base.fitness@[k] == prev.base.fitness@[k]);
                            assert(prev.base.pool@[k] == pre0.base.pool@[k]);
                            assert(prev.base.fitness@[k] == pre0.base.fitness@[k]);
                        }
                    }
                }
            }
            proof {
                assert(de_select_ok(pre0, self.base.pool@, self.base.fitness@, i as int));
            }
            i = i + 1;
            proof {
                assert forall|k: int| (i as int) <= k < (pop as int) implies
                    (#[trigger] self.base.pool@[k]) == pre0.base.pool@[k]
                        && self.base.fitness@[k] == pre0.base.fitness@[k] by {
                    assert(rsnap.base.pool@[k] == pre0.base.pool@[k]);
                    assert(rsnap.base.fitness@[k] == pre0.base.fitness@[k]);
                    assert(self.base.pool@[k] == rsnap.base.pool@[k]);
                    assert(self.base.fitness@[k] == rsnap.base.fitness@[k]);
                }
            }
        }
        self.base.find_best();
        proof {
            assert(de_best_ok(old(self).base, self.base));
        }
    }

    fn history(&self) -> (r: Vec<Report>) {
        self.base.history()
    }

    fn result(&self) -> (r: (Vec<i64>, i64)) {
        self.base.result()
    }
}

/// A usable exec mirror of `pattern_a`.
fn is_pattern_a(st: Strategy) -> (r: bool)
    ensures
        r == pattern_a(st),
{
    match st {
        Strategy::S1 | Strategy::S2 | Strategy::S3 | Strategy::S4 | Strategy::S5 => true,
        Strategy::S6 | Strategy::S7 | Strategy::S8 | Strategy::S9 | Strategy::S10 => false,
    }
}

/// A usable exec mirror of `aux_count`.
fn aux_count_x(st: Strategy) -> (r: usize)
    ensures
        r as int == aux_count(st),
{
    match st {
        Strategy::S1 | Strategy::S3 | Strategy::S6 | Strategy::S8 => 2,
        Strategy::S2 | Strategy::S4 | Strategy::S7 | Strategy::S9 => 4,
        Strategy::S5 | Strategy::S10 => 5,
    }
}

} // verus!
