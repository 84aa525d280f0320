use vstd::prelude::*;

use crate::rng::{Rand, PPM};

verus! {

/// Largest magnitude a bound (and hence any vector component) may have;
/// keeps all recombination arithmetic inside 128 bits.
pub const LIMIT: i64 = 1_000_000_000_000;

/// Fitness value of a freshly built state, before any individual has been
/// evaluated: worse than every reachable fitness.
pub const UNSET_F: i64 = i64::MAX;

/// The terminal condition of the algorithm setting.
#[derive(Clone, Copy, Debug, PartialEq, Eq, Structural)]
pub enum Task {
    /// Max generation.
    MaxGen(u64),
    /// Minimum fitness.
    MinFit(i64),
    /// Max time in milliseconds.
    MaxTime(u64),
    /// Improvement-slowdown ratio, in parts per million.
    SlowDown(u32),
}

/// The data of generation sampling.
#[derive(Clone, Copy, Debug, PartialEq, Eq, Structural)]
pub struct Report {
    pub gen: u64,
    pub fitness: i64,
    pub time: u64,
}

#[verifier::external_type_specification]
#[verifier::external_body]
pub struct ExInstant(std::time::Instant);

/// Relies on std's Instant::now: a reading of the monotonic clock. Nothing
/// is promised of its value.
#[verifier::external_body]
fn instant_now() -> (r: std::time::Instant) {
    std::time::Instant::now()
}

/// Relies on std's Instant::elapsed: the time passed since `t`. Nothing is
/// promised of its value.
#[verifier::external_body]
fn elapsed_of(t: &std::time::Instant) -> (r: std::time::Duration) {
    t.elapsed()
}

/// Relies on std's Duration::as_millis: the duration in whole milliseconds,
/// here narrowed to 64 bits. Nothing is promised of its value.
#[verifier::external_body]
fn duration_millis(d: &std::time::Duration) -> (r: u64) {
    d.as_millis() as u64
}

/// The base of the objective function: the problem a run minimizes.
/// Implementors describe their data with the spec functions and promise that
/// the executable methods agree with them, so a fitness evaluation is a pure
/// function of the generation and the vector.
pub trait ObjFunc: Sized {
    /// The result type.
    type Result;

    /// The fitness of vector `v` at generation `gen`; the smaller the better.
    spec fn spec_fitness(&self, gen: u64, v: Seq<i64>) -> i64;

    /// The final answer derived from a vector.
    spec fn spec_result(&self, v: Seq<i64>) -> Self::Result;

    /// The lower bound of each dimension.
    spec fn spec_lb(&self) -> Seq<i64>;

    /// The upper bound of each dimension.
    spec fn spec_ub(&self) -> Seq<i64>;

    /// Return fitness; the smaller value represents a better vector.
    fn fitness(&self, gen: u64, v: &Vec<i64>) -> (r: i64)
        ensures
            r == self.spec_fitness(gen, v@),
    ;

    /// Return the final result of the problem.
    fn result(&self, v: &Vec<i64>) -> (r: Self::Result)
        ensures
            r == self.spec_result(v@),
    ;

    /// Get lower bound.
    fn lb(&self) -> (r: &Vec<i64>)
        ensures
            r@ == self.spec_lb(),
    ;

    /// Get upper bound.
    fn ub(&self) -> (r: &Vec<i64>)
        ensures
            r@ == self.spec_ub(),
    ;
}

/// A candidate vector lying inside the box constraints.
pub open spec fn in_bounds(lb: Seq<i64>, ub: Seq<i64>, v: Seq<i64>) -> bool {
    &&& v.len() == lb.len()
    &&& forall|s: int| 0 <= s < v.len() ==> lb[s] <= #[trigger] v[s] && v[s] <= ub[s]
}

/// Bounds fit for a run: equal lengths, at least one dimension, every lower
/// bound strictly below its upper bound, and magnitudes within `LIMIT`.
pub open spec fn bounds_ok(lb: Seq<i64>, ub: Seq<i64>) -> bool {
    &&& lb.len() == ub.len()
    &&& 1 <= lb.len() <= 0x1_0000_0000
    &&& forall|s: int| #![auto] 0 <= s < lb.len() ==>
            -LIMIT <= lb[s] && lb[s] < ub[s] && ub[s] <= LIMIT
}

/// Base settings.
pub struct Setting {
    pub task: Task,
    pub pop_num: usize,
    pub rpt: u64,
    pub seed: u64,
}

impl Setting {
    /// Termination condition.
    pub fn task(self, task: Task) -> (r: Self)
        ensures
            r == (Setting { task, ..self }),
    {
        Setting { task, ..self }
    }

    /// Population number.
    pub fn pop_num(self, pop_num: usize) -> (r: Self)
        ensures
            r == (Setting { pop_num, ..self }),
    {
        Setting { pop_num, ..self }
    }

    /// The report frequency. (per generation)
    pub fn rpt(self, rpt: u64) -> (r: Self)
        ensures
            r == (Setting { rpt, ..self }),
    {
        Setting { rpt, ..self }
    }

    /// The seed of the random stream.
    pub fn seed(self, seed: u64) -> (r: Self)
        ensures
            r == (Setting { seed, ..self }),
    {
        Setting { seed, ..self }
    }
}

impl Default for Setting {
    /// The customary configuration: two hundred generations of two hundred
    /// individuals, reported every fifty generations.
    fn default() -> (r: Self)
        ensures
            r.task == Task::MaxGen(200),
            r.pop_num == 200,
            r.rpt == 50,
            r.seed == 0,
    {
        Setting { task: Task::MaxGen(200), pop_num: 200, rpt: 50, seed: 0 }
    }
}

/// Truncating division: the quotient of `a` and `b` rounded toward zero.
pub open spec fn spec_div_trunc(a: int, b: int) -> int {
    if a >= 0 {
        a / b
    } else {
        -((-a) / b)
    }
}

/// Quotient of `a` and `b`, rounded toward zero as the recombination rules
/// demand.
pub fn div_trunc(a: i128, b: i128) -> (r: i128)
    requires
        b >= 1,
        a > i128::MIN,
    ensures
        r == spec_div_trunc(a as int, b as int),
        a >= 0 ==> 0 <= r <= a,
        a < 0 ==> a <= r <= 0,
{
    if a >= 0 {
        let q: u128 = (a as u128) / (b as u128);
        assert((a as u128) / (b as u128) <= a as u128) by (nonlinear_arith)
            requires b as u128 >= 1;
        q as i128
    } else {
        let m: u128 = ((-a) as u128);
        let q: u128 = m / (b as u128);
        assert(m / (b as u128) <= m) by (nonlinear_arith)
            requires b as u128 >= 1;
        -(q as i128)
    }
}

/// A value scaled by the rational `f_ppm / 1_000_000`, rounded toward zero.
pub open spec fn spec_scale(f_ppm: u32, d: int) -> int {
    spec_div_trunc(f_ppm * d, PPM as int)
}

/// The clamp of `v` into `[lo, hi]`: the bound-repair policy that pulls a
/// stray component to the nearest bound.
pub open spec fn spec_clamp(lo: i64, hi: i64, v: int) -> i64 {
    if v > hi {
        hi
    } else if v < lo {
        lo
    } else {
        v as i64
    }
}

/// Whether the task stops the run, given the updated best fitness, the
/// elapsed milliseconds and the last two improvement deltas.
pub open spec fn spec_task_hits(task: Task, gen: u64, best_f: i64, elapsed: u64, diff: int, last: int) -> bool {
    match task {
        Task::MaxGen(v) => gen >= v,
        Task::MinFit(v) => best_f <= v,
        Task::MaxTime(t) => elapsed >= t,
        Task::SlowDown(r) => last > 0 && diff * PPM >= r * last,
    }
}

/// The termination decision of one generation. `diff` is the improvement of
/// this generation, `last` the one before it; the slowdown rule trips when a
/// previous improvement exists and this one is at least `ratio` of it, so it
/// can never trip on the very first generation.
pub fn task_hits(task: &Task, gen: u64, best_f: i64, elapsed: u64, diff: i128, last: i128) -> (r: bool)
    requires
        -0x4_0000_0000_0000_0000 <= diff <= 0x4_0000_0000_0000_0000,
        -0x4_0000_0000_0000_0000 <= last <= 0x4_0000_0000_0000_0000,
    ensures
        r == spec_task_hits(*task, gen, best_f, elapsed, diff as int, last as int),
{
    match task {
        Task::MaxGen(v) => gen >= *v,
        Task::MinFit(v) => best_f <= *v,
        Task::MaxTime(t) => elapsed >= *t,
        Task::SlowDown(ratio) => {
            proof {
                assert(
                    -0x4_0000_0000_0000_0000_0000_0000 <= diff * (PPM as i128)
                        <= 0x4_0000_0000_0000_0000_0000_0000
                ) by (nonlinear_arith)
                    requires
                        -0x4_0000_0000_0000_0000 <= diff <= 0x4_0000_0000_0000_0000,
                ;
                assert(
                    -0x4_0000_0000_0000_0000_0000_0000 <= (*ratio as i128) * last
                        <= 0x4_0000_0000_0000_0000_0000_0000
                ) by (nonlinear_arith)
                    requires
                        0 <= *ratio as i128 <= 0xFFFF_FFFF,
                        -0x4_0000_0000_0000_0000 <= last <= 0x4_0000_0000_0000_0000,
                ;
            }
            last > 0 && diff * (PPM as i128) >= (*ratio as i128) * last
        },
    }
}

/// An exact copy of a vector.
pub fn copy_vec(v: &Vec<i64>) -> (r: Vec<i64>)
    ensures
        r@ == v@,
{
    let mut r: Vec<i64> = Vec::new();
    let mut k: usize = 0;
    while k < v.len()
        invariant
            k <= v.len(),
            r@ == v@.subrange(0, k as int),
        decreases v.len() - k,
    {
        r.push(v[k]);
        assert(r@ == v@.subrange(0, k as int + 1));
        k = k + 1;
    }
    assert(r@ =~= v@);
    r
}

/// The population as a sequence of component sequences.
pub open spec fn pool_view(p: Seq<Vec<i64>>) -> Seq<Seq<i64>> {
    Seq::new(p.len(), |i: int| p[i]@)
}

/// The index of the smallest value among the first `k` entries, the earliest
/// such index winning ties.
pub open spec fn argmin(f: Seq<i64>, k: int) -> int
    decreases k,
{
    if k <= 1 {
        0
    } else if f[k - 1] < f[argmin(f, k - 1)] {
        k - 1
    } else {
        argmin(f, k - 1)
    }
}

/// The first-wins minimum index lies in range and its value is least.
pub proof fn lemma_argmin(f: Seq<i64>, k: int)
    requires
        1 <= k <= f.len(),
    ensures
        0 <= argmin(f, k) < k,
        forall|i: int| 0 <= i < k ==> f[argmin(f, k)] <= #[trigger] f[i],
    decreases k,
{
    if k > 1 {
        lemma_argmin(f, k - 1);
    }
}

/// Stepping the dividend steps the quotient exactly at the multiples.
pub proof fn lemma_div_step(g: int, r: int)
    requires
        g >= 1,
        r >= 1,
    ensures
        g % r == 0 ==> g / r == (g - 1) / r + 1,
        g % r != 0 ==> g / r == (g - 1) / r,
        g % r == 0 ==> g == (g / r) * r,
{
    vstd::arithmetic::div_mod::lemma_fundamental_div_mod(g, r);
    vstd::arithmetic::div_mod::lemma_fundamental_div_mod(g - 1, r);
    vstd::arithmetic::div_mod::lemma_mod_bound(g, r);
    vstd::arithmetic::div_mod::lemma_mod_bound(g - 1, r);
    assert(g % r == 0 ==> g / r == (g - 1) / r + 1) by (nonlinear_arith)
        requires
            g >= 1,
            r >= 1,
            g == r * (g / r) + g % r,
            g - 1 == r * ((g - 1) / r) + (g - 1) % r,
            0 <= g % r < r,
            0 <= (g - 1) % r < r,
    ;
    assert(g % r != 0 ==> g / r == (g - 1) / r) by (nonlinear_arith)
        requires
            g >= 1,
            r >= 1,
            g == r * (g / r) + g % r,
            g - 1 == r * ((g - 1) / r) + (g - 1) % r,
            0 <= g % r < r,
            0 <= (g - 1) % r < r,
    ;
    assert(g % r == 0 ==> g == (g / r) * r) by (nonlinear_arith)
        requires
            g == r * (g / r) + g % r,
    ;
}

/// The base class of algorithms: the whole mutable state of one run.
pub struct AlgorithmBase<F: ObjFunc> {
    pub pop_num: usize,
    pub dim: usize,
    pub gen: u64,
    pub rpt: u64,
    pub task: Task,
    pub best_f: i64,
    pub best: Vec<i64>,
    pub fitness: Vec<i64>,
    pub pool: Vec<Vec<i64>>,
    pub rng: Rand,
    pub time_start: std::time::Instant,
    pub reports: Vec<Report>,
    pub func: F,
}

impl<F: ObjFunc> AlgorithmBase<F> {
    /// The recorded progress snapshots, in order of appending.
    pub open spec fn spec_reports(&self) -> Seq<Report> {
        self.reports@
    }

    /// Well-formed state: valid bounds and configuration, containers of the
    /// right shapes.
    pub open spec fn wf(&self) -> bool {
        &&& bounds_ok(self.func.spec_lb(), self.func.spec_ub())
        &&& self.dim == self.func.spec_lb().len()
        &&& 1 <= self.pop_num <= 0x1_0000_0000
        &&& self.rpt >= 1
        &&& self.pool@.len() == self.pop_num
        &&& forall|i: int| 0 <= i < self.pop_num ==> (#[trigger] self.pool@[i])@.len() == self.dim
        &&& self.fitness@.len() == self.pop_num
        &&& self.best@.len() == self.dim
    }

    /// A state fit for stepping generations: well formed, with every
    /// individual and the best vector inside the bounds.
    pub open spec fn ready(&self) -> bool {
        &&& self.wf()
        &&& forall|i: int| 0 <= i < self.pop_num ==>
                #[trigger] in_bounds(self.func.spec_lb(), self.func.spec_ub(), self.pool@[i]@)
        &&& in_bounds(self.func.spec_lb(), self.func.spec_ub(), self.best@)
    }

    /// The best fitness is at most every individual's fitness.
    pub open spec fn dominated(&self) -> bool {
        forall|i: int| 0 <= i < self.fitness@.len() ==> self.best_f <= #[trigger] self.fitness@[i]
    }

    pub fn new(func: F, settings: Setting) -> (r: AlgorithmBase<F>)
        requires
            func.spec_lb().len() == func.spec_ub().len(),
        ensures
            r.pop_num == settings.pop_num,
            r.dim == func.spec_lb().len(),
            r.gen == 0,
            r.rpt == settings.rpt,
            r.task == settings.task,
            r.best_f == UNSET_F,
            r.best@.len() == r.dim,
            r.fitness@.len() == r.pop_num,
            r.pool@.len() == r.pop_num,
            forall|i: int| 0 <= i < r.pop_num ==> (#[trigger] r.pool@[i])@.len() == r.dim,
            forall|s: int| 0 <= s < r.best@.len() ==> r.best@[s] == 0,
            forall|i: int| 0 <= i < r.fitness@.len() ==> r.fitness@[i] == 0,
            forall|i: int, s: int| 0 <= i < r.pool@.len() && 0 <= s < r.pool@[i]@.len() ==>
                r.pool@[i]@[s] == 0,
            r.rng.state == settings.seed,
            r.spec_reports() == Seq::<Report>::empty(),
            r.func == func,
    {
        let dim: usize = func.lb().len();
        let mut best: Vec<i64> = Vec::new();
        let mut s: usize = 0;
        while s < dim
            invariant
                best@.len() == s,
                s <= dim,
                forall|t: int| 0 <= t < s ==> best@[t] == 0,
            decreases dim - s,
        {
            best.push(0);
            s = s + 1;
        }
        let mut fitness: Vec<i64> = Vec::new();
        let mut pool: Vec<Vec<i64>> = Vec::new();
        let mut i: usize = 0;
        while i < settings.pop_num
            invariant
                i <= settings.pop_num,
                fitness@.len() == i,
                pool@.len() == i,
                forall|j: int| 0 <= j < i ==> (#[trigger] pool@[j])@.len() == dim,
                forall|j: int| 0 <= j < i ==> fitness@[j] == 0,
                forall|j: int, t: int| 0 <= j < i && 0 <= t < pool@[j]@.len() ==>
                    pool@[j]@[t] == 0,
            decreases settings.pop_num - i,
        {
            fitness.push(0);
            let mut row: Vec<i64> = Vec::new();
            let mut s2: usize = 0;
            while s2 < dim
                invariant
                    row@.len() == s2,
                    s2 <= dim,
                    forall|t: int| 0 <= t < s2 ==> row@[t] == 0,
                decreases dim - s2,
            {
                row.push(0);
                s2 = s2 + 1;
            }
            pool.push(row);
            i = i + 1;
        }
        AlgorithmBase {
            pop_num: settings.pop_num,
            dim,
            gen: 0,
            rpt: settings.rpt,
            task: settings.task,
            best_f: UNSET_F,
            best,
            fitness,
            pool,
            rng: Rand::new(settings.seed),
            time_start: instant_now(),
            reports: Vec::new(),
            func,
        }
    }

    /// Get lower bound with index.
    pub fn lb(&self, s: usize) -> (r: i64)
        requires
            self.wf(),
            s < self.dim,
        ensures
            r == self.func.spec_lb()[s as int],
    {
        self.func.lb()[s]
    }

    /// Get upper bound with index.
    pub fn ub(&self, s: usize) -> (r: i64)
        requires
            self.wf(),
            s < self.dim,
        ensures
            r == self.func.spec_ub()[s as int],
    {
        self.func.ub()[s]
    }

    /// Check the bounds: clamp `v` into dimension `s`'s interval.
    pub fn check(&self, s: usize, v: i128) -> (r: i64)
        requires
            self.wf(),
            s < self.dim,
        ensures
            r == spec_clamp(self.func.spec_lb()[s as int], self.func.spec_ub()[s as int], v as int),
            self.func.spec_lb()[s as int] <= r <= self.func.spec_ub()[s as int],
    {
        let lo = self.lb(s);
        let hi = self.ub(s);
        if v > hi as i128 {
            hi
        } else if v < lo as i128 {
            lo
        } else {
            v as i64
        }
    }

    /// Assign individual `j`'s state onto index `i`.
    pub fn assign(&mut self, i: usize, j: usize)
        requires
            old(self).wf(),
            i < old(self).pop_num,
            j < old(self).pop_num,
        ensures
            *final(self) == (AlgorithmBase {
                fitness: final(self).fitness,
                pool: final(self).pool,
                ..*old(self)
            }),
            final(self).fitness@ == old(self).fitness@.update(i as int, old(self).fitness@[j as int]),
            final(self).pool@.len() == old(self).pool@.len(),
            final(self).pool@[i as int]@ == old(self).pool@[j as int]@,
            forall|k: int| 0 <= k < old(self).pool@.len() && k != i ==>
                (#[trigger] final(self).pool@[k]) == old(self).pool@[k],
    {
        let fj = self.fitness[j];
        self.fitness[i] = fj;
        let row = copy_vec(&self.pool[j]);
        self.pool[i] = row;
    }

    /// Assign from source: overwrite individual `i` with the given vector
    /// and fitness.
    pub fn assign_from(&mut self, i: usize, f: i64, v: Vec<i64>)
        requires
            old(self).wf(),
            i < old(self).pop_num,
        ensures
            *final(self) == (AlgorithmBase {
                fitness: final(self).fitness,
                pool: final(self).pool,
                ..*old(self)
            }),
            final(self).fitness@ == old(self).fitness@.update(i as int, f),
            final(self).pool@.len() == old(self).pool@.len(),
            final(self).pool@[i as int]@ == v@,
            forall|k: int| 0 <= k < old(self).pool@.len() && k != i ==>
                (#[trigger] final(self).pool@[k]) == old(self).pool@[k],
    {
        self.fitness[i] = f;
        self.pool[i] = v;
    }

    /// Set the index to best.
    pub fn set_best(&mut self, i: usize)
        requires
            old(self).wf(),
            i < old(self).pop_num,
        ensures
            *final(self) == (AlgorithmBase {
                best_f: old(self).fitness@[i as int],
                best: final(self).best,
                ..*old(self)
            }),
            final(self).best@ == old(self).pool@[i as int]@,
    {
        let fv = self.fitness[i];
        self.best_f = fv;
        let row = copy_vec(&self.pool[i]);
        self.best = row;
    }

    /// Find the best, and set it globally: the earliest individual whose
    /// fitness is strictly below the incumbent best adopts the title.
    pub fn find_best(&mut self)
        requires
            old(self).wf(),
        ensures
            final(self).wf(),
            ({
                let m = argmin(old(self).fitness@, old(self).pop_num as int);
                if old(self).fitness@[m] < old(self).best_f {
                    *final(self) == (AlgorithmBase {
                        best_f: old(self).fitness@[m],
                        best: final(self).best,
                        ..*old(self)
                    }) && final(self).best@ == old(self).pool@[m]@
                } else {
                    *final(self) == *old(self)
                }
            }),
            final(self).dominated(),
            final(self).best_f <= old(self).best_f,
            0 <= argmin(old(self).fitness@, old(self).pop_num as int) < old(self).pop_num,
    {
        proof {
            lemma_argmin(self.fitness@, self.pop_num as int);
        }
        let mut best: usize = 0;
        let mut i: usize = 1;
        while i < self.pop_num
            invariant
                self.wf(),
                1 <= i <= self.pop_num,
                best as int == argmin(self.fitness@, i as int),
                0 <= best < i,
            decreases self.pop_num - i,
        {
            if self.fitness[i] < self.fitness[best] {
                best = i;
            }
            i = i + 1;
        }
        if self.fitness[best] < self.best_f {
            self.set_best(best);
        }
        proof {
            lemma_argmin(self.fitness@, self.pop_num as int);
        }
    }

    /// Initialize population: draw every component uniformly inside its
    /// bounds and evaluate each individual once.
    pub fn init_pop(&mut self)
        requires
            old(self).wf(),
        ensures
            final(self).wf(),
            *final(self) == (AlgorithmBase {
                fitness: final(self).fitness,
                pool: final(self).pool,
                rng: final(self).rng,
                ..*old(self)
            }),
            forall|i: int| 0 <= i < final(self).pop_num ==>
                #[trigger] in_bounds(
                    final(self).func.spec_lb(),
                    final(self).func.spec_ub(),
                    final(self).pool@[i]@,
                ),
            forall|i: int| 0 <= i < final(self).pop_num ==>
                #[trigger] final(self).fitness@[i]
                    == final(self).func.spec_fitness(final(self).gen, final(self).pool@[i]@),
    {
        let pop = self.pop_num;
        let dim = self.dim;
        let mut i: usize = 0;
        while i < pop
            invariant
                self.wf(),
                self.pop_num == pop,
                self.dim == dim,
                i <= pop,
                *self == (AlgorithmBase {
                    fitness: self.fitness,
                    pool: self.pool,
                    rng: self.rng,
                    ..*old(self)
                }),
                forall|k: int| 0 <= k < i ==>
                    #[trigger] in_bounds(self.func.spec_lb(), self.func.spec_ub(), self.pool@[k]@),
                forall|k: int| 0 <= k < i ==>
                    #[trigger] self.fitness@[k] == self.func.spec_fitness(self.gen, self.pool@[k]@),
            decreases pop - i,
        {
            let mut row: Vec<i64> = Vec::new();
            let mut s: usize = 0;
            while s < dim
                invariant
                    self.wf(),
                    self.pop_num == pop,
                    self.dim == dim,
                    i < pop,
                    s <= dim,
                    row@.len() == s,
                    *self == (AlgorithmBase {
                        fitness: self.fitness,
                        pool: self.pool,
                        rng: self.rng,
                        ..*old(self)
                    }),
                    forall|k: int| 0 <= k < i ==>
                        #[trigger] in_bounds(self.func.spec_lb(), self.func.spec_ub(), self.pool@[k]@),
                    forall|k: int| 0 <= k < i ==>
                        #[trigger] self.fitness@[k] == self.func.spec_fitness(self.gen, self.pool@[k]@),
                    forall|t: int| 0 <= t < s ==>
                        self.func.spec_lb()[t] <= #[trigger] row@[t]
                            && row@[t] <= self.func.spec_ub()[t],
                decreases dim - s,
            {
                let lo = self.lb(s);
                let hi = self.ub(s);
                let val = self.rng.range_i64(lo, hi);
                row.push(val);
                s = s + 1;
            }
            self.pool[i] = row;
            let fit = self.func.fitness(self.gen, &self.pool[i]);
            self.fitness[i] = fit;
            i = i + 1;
        }
    }

    /// Milliseconds since the run's time origin.
    pub fn elapsed_ms(&self) -> u64 {
        duration_millis(&elapsed_of(&self.time_start))
    }

    /// Reset the generation counter and the time origin.
    pub fn begin(&mut self)
        ensures
            final(self).gen == 0,
            *final(self) == (AlgorithmBase {
                gen: 0,
                time_start: final(self).time_start,
                ..*old(self)
            }),
    {
        self.gen = 0;
        self.time_start = instant_now();
    }

    /// Advance the generation counter, saturating at the largest count.
    pub fn bump_gen(&mut self)
        ensures
            *final(self) == (AlgorithmBase { gen: final(self).gen, ..*old(self) }),
            final(self).gen as int == if old(self).gen == u64::MAX { u64::MAX as int } else { old(self).gen + 1 },
    {
        if self.gen < u64::MAX {
            self.gen = self.gen + 1;
        }
    }

    /// Record the performance: append a snapshot of the current generation,
    /// best fitness and elapsed time.
    pub fn report(&mut self)
        ensures
            *final(self) == (AlgorithmBase { reports: final(self).reports, ..*old(self) }),
            final(self).spec_reports().len() == old(self).spec_reports().len() + 1,
            final(self).spec_reports().subrange(0, old(self).spec_reports().len() as int)
                == old(self).spec_reports(),
            final(self).spec_reports().last().gen == old(self).gen,
            final(self).spec_reports().last().fitness == old(self).best_f,
    {
        let t = self.elapsed_ms();
        let gen = self.gen;
        let best_f = self.best_f;
        self.reports.push(Report { gen, fitness: best_f, time: t });
        proof {
            assert(self.reports@.subrange(0, old(self).reports@.len() as int)
                =~= old(self).reports@);
        }
    }

    /// Get the history for plotting.
    pub fn history(&self) -> (r: Vec<Report>)
        ensures
            r@ == self.spec_reports(),
    {
        let mut r: Vec<Report> = Vec::new();
        let mut k: usize = 0;
        while k < self.reports.len()
            invariant
                k <= self.reports@.len(),
                r@ == self.reports@.subrange(0, k as int),
            decreases self.reports@.len() - k,
        {
            r.push(self.reports[k]);
            assert(r@ == self.reports@.subrange(0, k + 1 as int));
            k = k + 1;
        }
        assert(r@ =~= self.reports@);
        r
    }

    /// Return the x and y of function: the best vector and its fitness.
    pub fn result(&self) -> (r: (Vec<i64>, i64))
        ensures
            r.0@ == self.best@,
            r.1 == self.best_f,
    {
        (copy_vec(&self.best), self.best_f)
    }
}

/// The configuration fields no generation step may change.
pub open spec fn same_config<F: ObjFunc>(a: AlgorithmBase<F>, b: AlgorithmBase<F>) -> bool {
    &&& a.pop_num == b.pop_num
    &&& a.dim == b.dim
    &&& a.rpt == b.rpt
    &&& a.task == b.task
    &&& a.func == b.func
}

/// What a finished run promises about its report history: the old records
/// are kept, at least an initial and a final snapshot are appended, the
/// appended fitness values never increase and their generations never
/// decrease, and the last snapshot reflects the final state.
pub open spec fn run_reports_ok<F: ObjFunc>(pre: AlgorithmBase<F>, post: AlgorithmBase<F>) -> bool {
    let r0 = pre.spec_reports();
    let r1 = post.spec_reports();
    &&& r1.len() >= r0.len() + 2
    &&& r1.subrange(0, r0.len() as int) == r0
    &&& r1[r0.len() as int].gen == 0
    &&& forall|k1: int, k2: int| r0.len() <= k1 <= k2 < r1.len() ==>
            #[trigger] r1[k1].fitness >= #[trigger] r1[k2].fitness
    &&& forall|k1: int, k2: int| r0.len() <= k1 <= k2 < r1.len() ==>
            #[trigger] r1[k1].gen <= #[trigger] r1[k2].gen
    &&& r1.last().gen == post.gen
    &&& r1.last().fitness == post.best_f
    &&& (post.gen < u64::MAX ==> r1.len() == r0.len() + 1 + post.gen as int / post.rpt as int
            + if post.gen as int % post.rpt as int == 0 { 0int } else { 1int })
    &&& (forall|k: int| r0.len() <= k < r1.len() - 1 ==>
            (#[trigger] r1[k].gen) as int == (k - r0.len()) * post.rpt as int)
}

/// What a finished run promises of its termination cause. A fitness-driven
/// run stops with the demanded fitness, unless the generation counter itself
/// ran out first.
pub open spec fn run_task_ok(task: Task, gen: u64, best_f: i64) -> bool {
    &&& (task matches Task::MaxGen(v) ==> gen == if v < 1 { 1u64 } else { v })
    &&& (task matches Task::MinFit(v) ==> best_f <= v || gen == u64::MAX)
    &&& (task matches Task::SlowDown(r) ==> gen >= 2)
}

/// The methods of the meta-heuristic algorithms. A concrete engine stores an
/// `AlgorithmBase` and supplies the per-generation update; the lifecycle is
/// the shared `run_loop`.
pub trait Algorithm<F: ObjFunc>: Sized {
    /// The base state this engine drives.
    spec fn base_view(&self) -> AlgorithmBase<F>;

    /// The engine's own demands on the configuration.
    spec fn settings_ok(&self) -> bool;

    /// The engine's per-generation semantics: how one update step relates
    /// the state after to the state before. Each engine defines it as its
    /// documented update rule, and `generation` promises it.
    spec fn gen_spec(pre: Self, post: Self) -> bool;

    /// Return a base handle.
    fn base(&self) -> (r: &AlgorithmBase<F>)
        ensures
            *r == self.base_view(),
    ;

    /// Reset the generation counter and time origin.
    fn begin(&mut self)
        ensures
            final(self).base_view() == (AlgorithmBase {
                gen: 0,
                time_start: final(self).base_view().time_start,
                ..old(self).base_view()
            }),
            final(self).base_view().gen == 0,
            final(self).settings_ok() == old(self).settings_ok(),
    ;

    /// Advance the generation counter.
    fn bump_gen(&mut self)
        ensures
            final(self).base_view() == (AlgorithmBase {
                gen: final(self).base_view().gen,
                ..old(self).base_view()
            }),
            final(self).base_view().gen as int == if old(self).base_view().gen == u64::MAX {
                u64::MAX as int
            } else {
                old(self).base_view().gen + 1
            },
            final(self).settings_ok() == old(self).settings_ok(),
    ;

    /// Record the performance.
    fn report(&mut self)
        ensures
            final(self).base_view() == (AlgorithmBase {
                reports: final(self).base_view().reports,
                ..old(self).base_view()
            }),
            final(self).base_view().spec_reports().len()
                == old(self).base_view().spec_reports().len() + 1,
            final(self).base_view().spec_reports().subrange(
                0,
                old(self).base_view().spec_reports().len() as int,
            ) == old(self).base_view().spec_reports(),
            final(self).base_view().spec_reports().last().gen == old(self).base_view().gen,
            final(self).base_view().spec_reports().last().fitness == old(self).base_view().best_f,
            final(self).settings_ok() == old(self).settings_ok(),
    ;

    /// Initialization implementation.
    fn init(&mut self)
        requires
            old(self).base_view().wf(),
            old(self).settings_ok(),
        ensures
            final(self).base_view().ready(),
            final(self).base_view().dominated(),
            same_config(old(self).base_view(), final(self).base_view()),
            final(self).base_view().gen == old(self).base_view().gen,
            final(self).base_view().spec_reports() == old(self).base_view().spec_reports(),
            final(self).settings_ok(),
            forall|k: int| 0 <= k < final(self).base_view().pop_num ==>
                #[trigger] final(self).base_view().fitness@[k]
                    == final(self).base_view().func.spec_fitness(
                    final(self).base_view().gen,
                    final(self).base_view().pool@[k]@,
                ),
            exists|m: int|
                0 <= m < final(self).base_view().pop_num
                    && final(self).base_view().best_f == final(self).base_view().fitness@[m]
                    && final(self).base_view().best@ == final(self).base_view().pool@[m]@,
    ;

    /// Processing implementation of each generation.
    fn generation(&mut self)
        requires
            old(self).base_view().ready(),
            old(self).base_view().dominated(),
            old(self).settings_ok(),
        ensures
            final(self).base_view().ready(),
            final(self).base_view().dominated(),
            same_config(old(self).base_view(), final(self).base_view()),
            final(self).base_view().gen == old(self).base_view().gen,
            final(self).base_view().spec_reports() == old(self).base_view().spec_reports(),
            final(self).base_view().best_f <= old(self).base_view().best_f,
            final(self).settings_ok(),
            Self::gen_spec(*old(self), *final(self)),
    ;

    /// Get the history for plotting.
    fn history(&self) -> (r: Vec<Report>)
        ensures
            r@ == self.base_view().spec_reports(),
    ;

    /// Return the x and y of function.
    fn result(&self) -> (r: (Vec<i64>, i64))
        ensures
            r.0@ == self.base_view().best@,
            r.1 == self.base_view().best_f,
    ;
}

/// The algorithm-agnostic lifecycle: initialize, iterate generations with
/// periodic reports, stop when the task is hit, and report once more.
pub fn run_loop<F: ObjFunc, A: Algorithm<F>>(a: &mut A) -> (r: F::Result)
    requires
        old(a).base_view().wf(),
        old(a).settings_ok(),
    ensures
        final(a).base_view().ready(),
        final(a).base_view().dominated(),
        same_config(old(a).base_view(), final(a).base_view()),
        final(a).base_view().gen >= 1,
        r == final(a).base_view().func.spec_result(final(a).base_view().best@),
        run_reports_ok(old(a).base_view(), final(a).base_view()),
        run_task_ok(final(a).base_view().task, final(a).base_view().gen, final(a).base_view().best_f),
        final(a).base_view().task matches Task::MinFit(v) ==>
            (forall|k: int|
                old(a).base_view().spec_reports().len() < k
                    < final(a).base_view().spec_reports().len() - 1 ==>
                    (#[trigger] final(a).base_view().spec_reports()[k].fitness) > v),
{
    let ghost pre = old(a).base_view();
    a.begin();
    a.init();
    a.report();
    proof {
        assert(0int / (a.base_view().rpt as int) == 0) by (nonlinear_arith)
            requires
                a.base_view().rpt as int >= 1,
        ;
        assert forall|k: int|
            pre.spec_reports().len() <= k < a.base_view().spec_reports().len() implies
            (#[trigger] a.base_view().spec_reports()[k].gen) as int
                == (k - pre.spec_reports().len()) * a.base_view().rpt as int by {
            assert((k - pre.spec_reports().len()) * (a.base_view().rpt as int) == 0)
                by (nonlinear_arith)
                requires
                    k == pre.spec_reports().len() as int,
            ;
        }
    }
    let mut last_diff: i128 = 0;
    loop
        invariant_except_break
            a.base_view().gen < u64::MAX,
            a.base_view().task matches Task::MinFit(v) ==>
                (forall|k: int|
                    pre.spec_reports().len() < k < a.base_view().spec_reports().len() ==>
                        (#[trigger] a.base_view().spec_reports()[k].fitness) > v),
            a.base_view().task matches Task::MaxGen(v) ==> (v >= 1 ==> a.base_view().gen < v),
            a.base_view().task matches Task::MaxGen(v) ==> (v < 1 ==> a.base_view().gen == 0),
        invariant
            a.base_view().ready(),
            a.base_view().dominated(),
            a.settings_ok(),
            same_config(pre, a.base_view()),
            -0x4_0000_0000_0000_0000 <= last_diff <= 0x4_0000_0000_0000_0000,
            a.base_view().gen == 0 ==> last_diff == 0,
            ({
                let r0 = pre.spec_reports();
                let r1 = a.base_view().spec_reports();
                &&& r1.len() >= r0.len() + 1
                &&& r1.subrange(0, r0.len() as int) == r0
                &&& r1[r0.len() as int].gen == 0
                &&& forall|k1: int, k2: int| r0.len() <= k1 <= k2 < r1.len() ==>
                        #[trigger] r1[k1].fitness >= #[trigger] r1[k2].fitness
                &&& forall|k1: int, k2: int| r0.len() <= k1 <= k2 < r1.len() ==>
                        #[trigger] r1[k1].gen <= #[trigger] r1[k2].gen
                &&& r1.last().fitness >= a.base_view().best_f
                &&& forall|k: int| r0.len() <= k < r1.len() ==>
                        #[trigger] r1[k].gen <= a.base_view().gen
                &&& r1.len() == r0.len() + 1 + a.base_view().gen as int / a.base_view().rpt as int
                &&& (forall|k: int| r0.len() <= k < r1.len() ==>
                        (#[trigger] r1[k].gen) as int == (k - r0.len()) * a.base_view().rpt as int)
            }),
        ensures
            a.base_view().ready(),
            a.base_view().dominated(),
            a.settings_ok(),
            same_config(pre, a.base_view()),
            a.base_view().gen >= 1,
            ({
                let r0 = pre.spec_reports();
                let r1 = a.base_view().spec_reports();
                &&& r1.len() >= r0.len() + 1
                &&& r1.subrange(0, r0.len() as int) == r0
                &&& r1[r0.len() as int].gen == 0
                &&& forall|k1: int, k2: int| r0.len() <= k1 <= k2 < r1.len() ==>
                        #[trigger] r1[k1].fitness >= #[trigger] r1[k2].fitness
                &&& forall|k1: int, k2: int| r0.len() <= k1 <= k2 < r1.len() ==>
                        #[trigger] r1[k1].gen <= #[trigger] r1[k2].gen
                &&& r1.last().fitness >= a.base_view().best_f
                &&& forall|k: int| r0.len() <= k < r1.len() ==>
                        #[trigger] r1[k].gen <= a.base_view().gen
                &&& (a.base_view().gen as int % a.base_view().rpt as int == 0 ==> (
                        r1.last().gen == a.base_view().gen
                        && r1.last().fitness == a.base_view().best_f
                   ))
                &&& (a.base_view().gen < u64::MAX ==> r1.len()
                        == r0.len() + 1 + a.base_view().gen as int / a.base_view().rpt as int)
                &&& (forall|k: int| r0.len() <= k < r1.len() - 1 ==>
                        (#[trigger] r1[k].gen) as int == (k - r0.len()) * a.base_view().rpt as int)
                &&& (a.base_view().task matches Task::MinFit(v) ==>
                        (forall|k: int| r0.len() < k < r1.len() - 1 ==>
                            (#[trigger] r1[k].fitness) > v))
                &&& (a.base_view().task matches Task::MinFit(v) ==>
                        (a.base_view().gen as int % a.base_view().rpt as int != 0 ==>
                            (forall|k: int| r0.len() < k < r1.len() ==>
                                (#[trigger] r1[k].fitness) > v)))
            }),
            run_task_ok(a.base_view().task, a.base_view().gen, a.base_view().best_f),
        decreases u64::MAX - a.base_view().gen,
    {
        a.bump_gen();
        proof {
            lemma_div_step(a.base_view().gen as int, a.base_view().rpt as int);
        }
        let pre_best = a.base().best_f;
        a.generation();
        let gen_now = a.base().gen;
        let rpt = a.base().rpt;
        if gen_now % rpt == 0 {
            let ghost mid = a.base_view().spec_reports();
            a.report();
            proof {
                let r0 = pre.spec_reports();
                let cur = a.base_view().spec_reports();
                assert forall|k: int| 0 <= k < mid.len() implies cur[k] == mid[k] by {
                    assert(cur.subrange(0, mid.len() as int)[k] == cur[k]);
                }
                assert(cur.subrange(0, r0.len() as int) =~= r0);
            }
        }
        let elapsed = a.base().elapsed_ms();
        let post_best = a.base().best_f;
        let diff: i128 = pre_best as i128 - post_best as i128;
        let task = a.base().task;
        let stop = task_hits(&task, gen_now, post_best, elapsed, diff, last_diff);
        if stop {
            break;
        }
        if gen_now == u64::MAX {
            break;
        }
        last_diff = diff;
    }
    let gen_now = a.base().gen;
    let rpt = a.base().rpt;
    if gen_now % rpt != 0 {
        let ghost mid = a.base_view().spec_reports();
        a.report();
        proof {
            let r0 = pre.spec_reports();
            let cur = a.base_view().spec_reports();
            assert forall|k: int| 0 <= k < mid.len() implies cur[k] == mid[k] by {
                assert(cur.subrange(0, mid.len() as int)[k] == cur[k]);
            }
            assert(cur.subrange(0, r0.len() as int) =~= r0);
        }
    }
    let b = a.base();
    let res = b.func.result(&b.best);
    res
}

} // verus!
