use vstd::prelude::*;

use crate::rng::{Rand, PPM};
use crate::utility::{
    copy_vec, div_trunc, in_bounds, pool_view, run_loop, same_config, spec_clamp,
    spec_div_trunc, Algorithm, AlgorithmBase, ObjFunc, Report, Setting, UNSET_F,
};

verus! {

/// Teaching Learning Based Optimization settings.
/// This is a type alias of the base [`Setting`].
pub type TLBOSetting = Setting;


/// The sum of the population's components at dimension `s`, over the first
/// `j` individuals.
pub open spec fn col_sum(pool: Seq<Seq<i64>>, s: int, j: int) -> int
    decreases j,
{
    if j <= 0 {
        0
    } else {
        col_sum(pool, s, j - 1) + pool[j - 1][s]
    }
}

/// The teacher phase's population mean at dimension `s` (truncated).
pub open spec fn spec_mean(pool: Seq<Seq<i64>>, s: int, pop: int) -> int {
    spec_div_trunc(col_sum(pool, s, pop), pop)
}

/// One clamped teacher-phase proposal component: the individual's own
/// component moved by `r/1e6` of the best's distance from `tf` times the
/// population mean.
pub open spec fn teach_component<F: ObjFunc>(
    b: AlgorithmBase<F>,
    i: int,
    tf: int,
    r: int,
    s: int,
) -> i64 {
    spec_clamp(
        b.func.spec_lb()[s],
        b.func.spec_ub()[s],
        b.pool@[i]@[s] + spec_div_trunc(
            r * (b.best@[s] - tf * spec_mean(pool_view(b.pool@), s, b.pop_num as int)),
            PPM as int,
        ),
    )
}

/// One clamped learner-phase proposal component: the individual moved by
/// `r/1e6` of its difference from partner `j`, directed toward the better
/// of the pair.
pub open spec fn learn_component<F: ObjFunc>(
    b: AlgorithmBase<F>,
    i: int,
    j: int,
    r: int,
    s: int,
) -> i64 {
    let diff = if b.fitness@[j] < b.fitness@[i] {
        b.pool@[i]@[s] - b.pool@[j]@[s]
    } else {
        b.pool@[j]@[s] - b.pool@[i]@[s]
    };
    spec_clamp(
        b.func.spec_lb()[s],
        b.func.spec_ub()[s],
        b.pool@[i]@[s] + spec_div_trunc(r * diff, PPM as int),
    )
}

/// A teacher-phase proposal: a teaching factor of one or two and one
/// per-dimension draw from `[1, dim)` (in parts per million) that yield
/// every component of `prop`.
pub open spec fn teach_proposal<F: ObjFunc>(
    b: AlgorithmBase<F>,
    i: int,
    tf: int,
    r: Seq<int>,
    prop: Seq<i64>,
) -> bool {
    &&& (tf == 1 || tf == 2)
    &&& r.len() == b.dim
    &&& (forall|s: int| 0 <= s < r.len() ==>
            PPM <= #[trigger] r[s] && r[s] < (b.dim as int) * (PPM as int))
    &&& prop.len() == b.dim
    &&& (forall|s: int| 0 <= s < prop.len() ==> #[trigger] prop[s] == teach_component(b, i, tf, r[s], s))
}

/// A learner-phase proposal: a partner other than the individual itself and
/// one per-dimension draw that yield every component of `prop`.
pub open spec fn learn_proposal<F: ObjFunc>(
    b: AlgorithmBase<F>,
    i: int,
    j: int,
    r: Seq<int>,
    prop: Seq<i64>,
) -> bool {
    &&& 0 <= j < b.pop_num
    &&& j != i
    &&& r.len() == b.dim
    &&& (forall|s: int| 0 <= s < r.len() ==>
            PPM <= #[trigger] r[s] && r[s] < (b.dim as int) * (PPM as int))
    &&& prop.len() == b.dim
    &&& (forall|s: int| 0 <= s < prop.len() ==> #[trigger] prop[s] == learn_component(b, i, j, r[s], s))
}

/// The registration outcome for proposal `prop` at index `i`: adopt into
/// the population exactly when strictly better than the incumbent, and
/// adopt as the global best immediately when it also beats that.
pub open spec fn reg_ok<F: ObjFunc>(
    pre: AlgorithmBase<F>,
    post: AlgorithmBase<F>,
    i: int,
    prop: Seq<i64>,
) -> bool {
    let fnew = pre.func.spec_fitness(pre.gen, prop);
    &&& (fnew < pre.fitness@[i] ==> {
        &&& post.fitness@ == pre.fitness@.update(i, fnew)
        &&& post.pool@[i]@ == prop
        &&& (forall|k: int| 0 <= k < pre.pool@.len() && k != i ==>
                (#[trigger] post.pool@[k]) == pre.pool@[k])
    })
    &&& (!(fnew < pre.fitness@[i]) ==> post.fitness == pre.fitness && post.pool == pre.pool)
    &&& (fnew < pre.best_f ==> post.best_f == post.fitness@[i] && post.best@ == post.pool@[i]@)
    &&& (!(fnew < pre.best_f) ==> post.best_f == pre.best_f && post.best == pre.best)
}

/// The whole teacher phase at index `i`: some valid proposal became the
/// trial vector and was registered.
pub open spec fn teach_rel<F: ObjFunc>(pre: TLBO<F>, post: TLBO<F>, i: int) -> bool {
    &&& same_config(pre.base, post.base)
    &&& post.base.gen == pre.base.gen
    &&& post.base.spec_reports() == pre.base.spec_reports()
    &&& (exists|tf: int, r: Seq<int>| teach_proposal(pre.base, i, tf, r, post.tmp@))
    &&& reg_ok(pre.base, post.base, i, post.tmp@)
}

/// The whole learner phase at index `i`, likewise.
pub open spec fn learn_rel<F: ObjFunc>(pre: TLBO<F>, post: TLBO<F>, i: int) -> bool {
    &&& same_config(pre.base, post.base)
    &&& post.base.gen == pre.base.gen
    &&& post.base.spec_reports() == pre.base.spec_reports()
    &&& (exists|j: int, r: Seq<int>| learn_proposal(pre.base, i, j, r, post.tmp@))
    &&& reg_ok(pre.base, post.base, i, post.tmp@)
}

/// Teaching Learning Based Optimization type.
pub struct TLBO<F: ObjFunc> {
    pub tmp: Vec<i64>,
    pub base: AlgorithmBase<F>,
}

/// The learner phase's partner pick: one draw from a range one short of the
/// population, shifted past the acting index, so the partner can never be
/// the acting individual itself.
pub fn partner(rng: &mut Rand, i: usize, pop: usize) -> (j: usize)
    requires
        pop >= 2,
        i < pop,
    ensures
        j < pop,
        j != i,
        final(rng).state == crate::rng::spec_step(old(rng).state),
        ({
            let d = crate::rng::spec_out(final(rng).state) % ((pop - 1) as u64);
            j as int == if d >= i as u64 { d + 1int } else { d as int }
        }),
{
    let j = rng.index_below(pop - 1);
    if j >= i {
        j + 1
    } else {
        j
    }
}

impl<F: ObjFunc> TLBO<F> {
    pub fn new(func: F, settings: TLBOSetting) -> (r: TLBO<F>)
        requires
            func.spec_lb().len() == func.spec_ub().len(),
        ensures
            r.base.pop_num == settings.pop_num,
            r.base.dim == func.spec_lb().len(),
            r.base.gen == 0,
            r.base.rpt == settings.rpt,
            r.base.task == settings.task,
            r.base.best_f == UNSET_F,
            r.base.best@.len() == r.base.dim,
            r.base.fitness@.len() == r.base.pop_num,
            r.base.pool@.len() == r.base.pop_num,
            forall|i: int| 0 <= i < r.base.pop_num ==> (#[trigger] r.base.pool@[i])@.len() == r.base.dim,
            r.base.rng.state == settings.seed,
            r.base.spec_reports() == Seq::<Report>::empty(),
            r.base.func == func,
            r.tmp@.len() == r.base.dim,
    {
        let base = AlgorithmBase::new(func, settings);
        let dim = base.dim;
        let mut tmp: Vec<i64> = Vec::new();
        let mut s: usize = 0;
        while s < dim
            invariant
                tmp@.len() == s,
                s <= dim,
            decreases dim - s,
        {
            tmp.push(0);
            s = s + 1;
        }
        TLBO { tmp, base }
    }

    /// Registration, shared by both phases: evaluate the proposed vector,
    /// adopt it at index `i` when strictly better, and adopt it as the
    /// global best immediately when it beats that too.
    fn register(&mut self, i: usize)
        requires
            old(self).base.ready(),
            old(self).base.dominated(),
            i < old(self).base.pop_num,
            in_bounds(
                old(self).base.func.spec_lb(),
                old(self).base.func.spec_ub(),
                old(self).tmp@,
            ),
        ensures
            final(self).base.ready(),
            final(self).base.dominated(),
            same_config(old(self).base, final(self).base),
            final(self).base.gen == old(self).base.gen,
            final(self).base.spec_reports() == old(self).base.spec_reports(),
            final(self).base.rng == old(self).base.rng,
            final(self).base.pop_num == old(self).base.pop_num,
            final(self).base.best_f <= old(self).base.best_f,
            final(self).tmp == old(self).tmp,
            reg_ok(old(self).base, final(self).base, i as int, old(self).tmp@),
    {
        let f_new = self.base.func.fitness(self.base.gen, &self.tmp);
        if f_new < self.base.fitness[i] {
            let t = copy_vec(&self.tmp);
            self.base.assign_from(i, f_new, t);
        }
        if f_new < self.base.best_f {
            self.base.set_best(i);
        }
    }

    /// Teacher phase: move individual `i` toward the best vector, pulled
    /// away from a teaching-factor multiple of the population mean, with
    /// every component clamped back into its bounds.
    fn teaching(&mut self, i: usize)
        requires
            old(self).base.ready(),
            old(self).base.dominated(),
            i < old(self).base.pop_num,
            old(self).base.dim >= 2,
            old(self).tmp@.len() == old(self).base.dim,
        ensures
            final(self).base.ready(),
            final(self).base.dominated(),
            same_config(old(self).base, final(self).base),
            final(self).base.gen == old(self).base.gen,
            final(self).base.spec_reports() == old(self).base.spec_reports(),
            final(self).base.best_f <= old(self).base.best_f,
            final(self).tmp@.len() == final(self).base.dim,
            teach_rel(*old(self), *final(self), i as int),
    {
        let dim = self.base.dim;
        let pop = self.base.pop_num;
        let u = self.base.rng.ppm();
        let two_tf = u >= 500_000;
        let ghost tfv: int = if two_tf { 2int } else { 1int };
        let ghost mut rs: Seq<int> = Seq::empty();
        let mut trial: Vec<i64> = Vec::new();
        let mut s: usize = 0;
        while s < dim
            invariant
                self.base.ready(),
                self.base.dominated(),
                self.base.dim == dim,
                self.base.pop_num == pop,
                i < pop,
                dim >= 2,
                s <= dim,
                trial@.len() == s,
                *self == (TLBO { base: self.base, ..*old(self) }),
                self.base == (AlgorithmBase { rng: self.base.rng, ..old(self).base }),
                forall|t: int| 0 <= t < s ==>
                    self.base.func.spec_lb()[t] <= #[trigger] trial@[t]
                        && trial@[t] <= self.base.func.spec_ub()[t],
                tfv == if two_tf { 2int } else { 1int },
                rs.len() == s,
                forall|q: int| 0 <= q < s ==>
                    PPM <= #[trigger] rs[q] && rs[q] < (dim as int) * (PPM as int),
                forall|q: int| 0 <= q < s ==>
                    #[trigger] trial@[q] == teach_component(old(self).base, i as int, tfv, rs[q], q),
            decreases dim - s,
        {
            let mut sum: i128 = 0;
            let mut j: usize = 0;
            while j < pop
                invariant
                    self.base.ready(),
                    self.base.dim == dim,
                    self.base.pop_num == pop,
                    s < dim,
                    j <= pop,
                    -(j as i128) * 1_000_000_000_000i128 <= sum
                        <= (j as i128) * 1_000_000_000_000i128,
                    self.base == (AlgorithmBase { rng: self.base.rng, ..old(self).base }),
                    sum == col_sum(pool_view(old(self).base.pool@), s as int, j as int),
                decreases pop - j,
            {
                proof {
                    assert(in_bounds(
                        self.base.func.spec_lb(),
                        self.base.func.spec_ub(),
                        self.base.pool@[j as int]@,
                    ));
                    assert(-1_000_000_000_000 <= self.base.pool@[j as int]@[s as int]
                        <= 1_000_000_000_000);
                }
                sum = sum + self.base.pool[j][s] as i128;
                j = j + 1;
            }
            let mean = div_trunc(sum, pop as i128);
            proof {
                assert(-4_400_000_000_000_000_000_000 <= mean <= 4_400_000_000_000_000_000_000);
            }
            let width: u64 = (dim as u64) * PPM - PPM;
            let rf: i128 = (self.base.rng.below(width) + PPM) as i128;
            let tfm: i128 = if two_tf {
                2 * mean
            } else {
                mean
            };
            let target: i128 = self.base.best[s] as i128 - tfm;
            proof {
                assert(-crate::utility::LIMIT <= self.base.best@[s as int] <= crate::utility::LIMIT);
                assert(
                    -50_000_000_000_000_000_000_000_000_000_000_000_000 <= rf * target
                        <= 50_000_000_000_000_000_000_000_000_000_000_000_000
                ) by (nonlinear_arith)
                    requires
                        0 <= rf <= 5_000_000_000_000_000,
                        -9_000_000_000_000_000_000_000 <= target
                            <= 9_000_000_000_000_000_000_000,
                ;
            }
            let step = div_trunc(rf * target, PPM as i128);
            proof {
                assert(in_bounds(
                    self.base.func.spec_lb(),
                    self.base.func.spec_ub(),
                    self.base.pool@[i as int]@,
                ));
                assert(-crate::utility::LIMIT <= self.base.pool@[i as int]@[s as int]
                    <= crate::utility::LIMIT);
            }
            let raw = self.base.pool[i][s] as i128 + step;
            let val = self.base.check(s, raw);
            proof {
                assert(mean == spec_mean(pool_view(old(self).base.pool@), s as int, pop as int));
                assert(tfm == tfv * mean);
                assert(val == teach_component(old(self).base, i as int, tfv, rf as int, s as int));
                rs = rs.push(rf as int);
            }
            trial.push(val);
            s = s + 1;
        }
        self.tmp = trial;
        proof {
            assert(teach_proposal(old(self).base, i as int, tfv, rs, self.tmp@));
        }
        let ghost before = *self;
        self.register(i);
        proof {
            assert(reg_ok(old(self).base, self.base, i as int, self.tmp@));
            assert(exists|tf: int, r: Seq<int>|
                teach_proposal(old(self).base, i as int, tf, r, self.tmp@)) by {
                assert(teach_proposal(old(self).base, i as int, tfv, rs, self.tmp@));
            }
            assert(teach_rel(*old(self), *self, i as int));
        }
    }

    /// Learner phase: move individual `i` toward the better of itself and a
    /// random partner, with every component clamped back into its bounds.
    fn learning(&mut self, i: usize)
        requires
            old(self).base.ready(),
            old(self).base.dominated(),
            i < old(self).base.pop_num,
            old(self).base.pop_num >= 2,
            old(self).base.dim >= 2,
            old(self).tmp@.len() == old(self).base.dim,
        ensures
            final(self).base.ready(),
            final(self).base.dominated(),
            same_config(old(self).base, final(self).base),
            final(self).base.gen == old(self).base.gen,
            final(self).base.spec_reports() == old(self).base.spec_reports(),
            final(self).base.best_f <= old(self).base.best_f,
            final(self).tmp@.len() == final(self).base.dim,
            learn_rel(*old(self), *final(self), i as int),
    {
        let dim = self.base.dim;
        let pop = self.base.pop_num;
        let j = partner(&mut self.base.rng, i, pop);
        let ghost jv: int = j as int;
        let ghost mut rs: Seq<int> = Seq::empty();
        let mut trial: Vec<i64> = Vec::new();
        let mut s: usize = 0;
        while s < dim
            invariant
                self.base.ready(),
                self.base.dominated(),
                self.base.dim == dim,
                self.base.pop_num == pop,
                i < pop,
                j < pop,
                j != i,
                jv == j as int,
                dim >= 2,
                s <= dim,
                trial@.len() == s,
                *self == (TLBO { base: self.base, ..*old(self) }),
                self.base == (AlgorithmBase { rng: self.base.rng, ..old(self).base }),
                forall|t: int| 0 <= t < s ==>
                    self.base.func.spec_lb()[t] <= #[trigger] trial@[t]
                        && trial@[t] <= self.base.func.spec_ub()[t],
                rs.len() == s,
                forall|q: int| 0 <= q < s ==>
                    PPM <= #[trigger] rs[q] && rs[q] < (dim as int) * (PPM as int),
                forall|q: int| 0 <= q < s ==>
                    #[trigger] trial@[q] == learn_component(old(self).base, i as int, jv, rs[q], q),
            decreases dim - s,
        {
            proof {
                assert(in_bounds(
                    self.base.func.spec_lb(),
                    self.base.func.spec_ub(),
                    self.base.pool@[i as int]@,
                ));
                assert(in_bounds(
                    self.base.func.spec_lb(),
                    self.base.func.spec_ub(),
                    self.base.pool@[j as int]@,
                ));
                assert(-crate::utility::LIMIT <= self.base.pool@[i as int]@[s as int]
                    <= crate::utility::LIMIT);
                assert(-crate::utility::LIMIT <= self.base.pool@[j as int]@[s as int]
                    <= crate::utility::LIMIT);
            }
            let diff: i128 = if self.base.fitness[j] < self.base.fitness[i] {
                self.base.pool[i][s] as i128 - self.base.pool[j][s] as i128
            } else {
                self.base.pool[j][s] as i128 - self.base.pool[i][s] as i128
            };
            let width: u64 = (dim as u64) * PPM - PPM;
            let rf: i128 = (self.base.rng.below(width) + PPM) as i128;
            proof {
                assert(
                    -50_000_000_000_000_000_000_000_000_000_000_000_000 <= rf * diff
                        <= 50_000_000_000_000_000_000_000_000_000_000_000_000
                ) by (nonlinear_arith)
                    requires
                        0 <= rf <= 5_000_000_000_000_000,
                        -9_000_000_000_000_000_000_000 <= diff <= 9_000_000_000_000_000_000_000,
                ;
            }
            let step = div_trunc(rf * diff, PPM as i128);
            let raw = self.base.pool[i][s] as i128 + step;
            let val = self.base.check(s, raw);
            proof {
                assert(val == learn_component(old(self).base, i as int, jv, rf as int, s as int));
                rs = rs.push(rf as int);
            }
            trial.push(val);
            s = s + 1;
        }
        self.tmp = trial;
        proof {
            assert(learn_proposal(old(self).base, i as int, jv, rs, self.tmp@));
        }
        let ghost before = *self;
        self.register(i);
        proof {
            assert(reg_ok(old(self).base, self.base, i as int, self.tmp@));
            assert(exists|j2: int, r: Seq<int>|
                learn_proposal(old(self).base, i as int, j2, r, self.tmp@)) by {
                assert(learn_proposal(old(self).base, i as int, jv, rs, self.tmp@));
            }
            assert(learn_rel(*old(self), *self, i as int));
        }
    }
}

impl<F: ObjFunc> TLBO<F> {
    /// Start the algorithm and return the objective's final answer.
    pub fn run(&mut self) -> (r: F::Result)
        requires
            old(self).base.wf(),
            old(self).settings_ok(),
        ensures
            final(self).base.ready(),
            final(self).base.dominated(),
            same_config(old(self).base, final(self).base),
            final(self).base.gen >= 1,
            r == final(self).base.func.spec_result(final(self).base.best@),
            crate::utility::run_reports_ok(old(self).base, final(self).base),
            crate::utility::run_task_ok(
                final(self).base.task,
                final(self).base.gen,
                final(self).base.best_f,
            ),
    {
        run_loop(self)
    }
}

impl<F: ObjFunc> Algorithm<F> for TLBO<F> {
    open spec fn base_view(&self) -> AlgorithmBase<F> {
        self.base
    }

    /// The learner phase needs a second individual and the per-dimension
    /// draw a range of at least one step, so two individuals and two
    /// dimensions are the least workable configuration.
    open spec fn settings_ok(&self) -> bool {
        &&& self.base.pop_num >= 2
        &&& self.base.dim >= 2
        &&& self.tmp@.len() == self.base.dim
    }

    /// One generation is the teacher then learner phase of every individual
    /// in index order, each phase reading the state its predecessors left:
    /// a chain of intermediate states joined by the two phase relations.
    open spec fn gen_spec(pre: Self, post: Self) -> bool {
        exists|chain: Seq<TLBO<F>>| #![auto] {
            &&& chain.len() == 2 * pre.base.pop_num + 1
            &&& chain[0] == pre
            &&& chain[chain.len() - 1] == post
            &&& (forall|k: int| 0 <= k < pre.base.pop_num ==>
                    #[trigger] teach_rel(chain[2 * k], chain[2 * k + 1], k))
            &&& (forall|k: int| 0 <= k < pre.base.pop_num ==>
                    #[trigger] learn_rel(chain[2 * k + 1], chain[2 * k + 2], k))
        }
    }

    fn base(&self) -> (r: &AlgorithmBase<F>) {
        &self.base
    }

    fn begin(&mut self) {
        self.base.begin();
    }

    fn bump_gen(&mut self) {
        self.base.bump_gen();
    }

    fn report(&mut self) {
        self.base.report();
    }

    fn init(&mut self) {
        self.base.best_f = UNSET_F;
        self.base.init_pop();
        self.base.find_best();
        if self.base.best_f == UNSET_F {
            self.base.set_best(0);
        }
    }

    fn generation(&mut self) {
        let pop = self.base.pop_num;
        let ghost mut chain: Seq<TLBO<F>> = seq![*self];
        let mut i: usize = 0;
        while i < pop
            invariant
                self.base.ready(),
                self.base.dominated(),
                self.base.pop_num == pop,
                pop >= 2,
                self.base.dim >= 2,
                self.tmp@.len() == self.base.dim,
                i <= pop,
                same_config(old(self).base, self.base),
                self.base.gen == old(self).base.gen,
                self.base.spec_reports() == old(self).base.spec_reports(),
                self.base.best_f <= old(self).base.best_f,
                chain.len() == 2 * i + 1,
                chain[0] == *old(self),
                chain[chain.len() - 1] == *self,
                forall|k: int| 0 <= k < i ==>
                    #[trigger] teach_rel(chain[2 * k], chain[2 * k + 1], k),
                forall|k: int| 0 <= k < i ==>
                    #[trigger] learn_rel(chain[2 * k + 1], chain[2 * k + 2], k),
            decreases pop - i,
        {
            let ghost t0 = *self;
            self.teaching(i);
            proof {
                chain = chain.push(*self);
                assert(teach_rel(t0, *self, i as int));
            }
            let ghost t1 = *self;
            self.learning(i);
            proof {
                chain = chain.push(*self);
                assert(learn_rel(t1, *self, i as int));
            }
            i = i + 1;
        }
        proof {
            assert(Self::gen_spec(*old(self), *self)) by {
                assert(chain.len() == 2 * old(self).base.pop_num + 1);
                assert(chain[0] == *old(self));
                assert(chain[chain.len() - 1] == *self);
            }
        }
    }

    fn history(&self) -> (r: Vec<Report>) {
        self.base.history()
    }

    fn result(&self) -> (r: (Vec<i64>, i64)) {
        self.base.result()
    }
}

} // verus!
