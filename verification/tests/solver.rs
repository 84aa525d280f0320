use metaheuristics::{
    partner, Algorithm, AlgorithmBase, DESetting, ObjFunc, Rand, Setting, Strategy, Task, TestObj,
    TLBOSetting, DE, TLBO,
};

fn de_setting(seed: u64) -> DESetting {
    DESetting::default().pop_num(50).f(600_000).cr(900_000).seed(seed)
}

#[test]
fn tlbo() {
    let mut a = TLBO::new(
        TestObj::new(),
        TLBOSetting::default().task(Task::MinFit(0)).seed(11),
    );
    let ans = a.run();
    assert_eq!(ans, 0);
    let (x, y) = a.result();
    assert_eq!(y, 0);
    assert_eq!(x, vec![0, 0]);
}

#[test]
fn de_s1_converges() {
    let mut a = DE::new(
        TestObj::new(),
        de_setting(3).task(Task::MinFit(0)).strategy(Strategy::S1),
    );
    let ans = a.run();
    assert_eq!(ans, 0);
    let hist = a.history();
    let last = hist.last().unwrap();
    assert!(last.gen < 5000, "took {} generations", last.gen);
    let (x, y) = a.result();
    assert_eq!(y, 0);
    assert_eq!(x, vec![0, 0]);
}

#[test]
fn tlbo_improves_over_500_generations() {
    let mut a = TLBO::new(
        TestObj::new(),
        TLBOSetting::default().pop_num(50).task(Task::MaxGen(500)).rpt(500).seed(5),
    );
    a.run();
    let hist = a.history();
    assert_eq!(hist[0].gen, 0);
    assert_eq!(hist.last().unwrap().gen, 500);
    assert!(hist.last().unwrap().fitness < hist[0].fitness);
}

#[test]
fn maxgen_report_count() {
    let mut a = TLBO::new(
        TestObj::new(),
        TLBOSetting::default().pop_num(10).task(Task::MaxGen(5)).rpt(1).seed(1),
    );
    a.run();
    let hist = a.history();
    assert_eq!(hist.len(), 6);
    for (k, r) in hist.iter().enumerate() {
        assert_eq!(r.gen, k as u64);
    }
}

#[test]
fn minfit_halts_on_first_satisfying_generation() {
    let mut a = DE::new(
        TestObj::new(),
        de_setting(2).task(Task::MinFit(1_000_000_000)),
    );
    a.run();
    let hist = a.history();
    // every fitness on this problem is far below the threshold, so the very
    // first post-update check stops the run
    assert_eq!(hist.last().unwrap().gen, 1);
    assert!(hist.last().unwrap().fitness <= 1_000_000_000);
}

#[test]
fn slowdown_never_trips_on_first_generation() {
    let mut a = TLBO::new(
        TestObj::new(),
        TLBOSetting::default().pop_num(20).task(Task::SlowDown(0)).seed(9),
    );
    a.run();
    let hist = a.history();
    assert!(hist.last().unwrap().gen >= 2);
}

#[test]
fn identical_seeds_give_identical_runs() {
    let mut a = DE::new(TestObj::new(), de_setting(77).task(Task::MaxGen(50)).rpt(5));
    let ra = a.run();
    let mut b = DE::new(TestObj::new(), de_setting(77).task(Task::MaxGen(50)).rpt(5));
    let rb = b.run();
    assert_eq!(ra, rb);
    let ha = a.history();
    let hb = b.history();
    assert_eq!(ha.len(), hb.len());
    for (x, y) in ha.iter().zip(hb.iter()) {
        assert_eq!(x.gen, y.gen);
        assert_eq!(x.fitness, y.fitness);
    }
    assert_eq!(a.result(), b.result());

    let mut c = TLBO::new(
        TestObj::new(),
        TLBOSetting::default().pop_num(30).task(Task::MaxGen(40)).seed(13),
    );
    let rc = c.run();
    let mut d = TLBO::new(
        TestObj::new(),
        TLBOSetting::default().pop_num(30).task(Task::MaxGen(40)).seed(13),
    );
    let rd = d.run();
    assert_eq!(rc, rd);
    let hc = c.history();
    let hd = d.history();
    assert_eq!(hc.len(), hd.len());
    for (x, y) in hc.iter().zip(hd.iter()) {
        assert_eq!(x.gen, y.gen);
        assert_eq!(x.fitness, y.fitness);
    }
}

#[test]
fn bounds_hold_under_extreme_parameters() {
    // a scale factor of five and certain crossover stress the repair policies
    let mut a = DE::new(
        TestObj::new(),
        de_setting(21).f(5_000_000).cr(1_000_000).task(Task::MaxGen(30)),
    );
    a.run();
    for row in a.base.pool.iter() {
        for (s, &val) in row.iter().enumerate() {
            assert!(val >= a.base.func.lb()[s] && val <= a.base.func.ub()[s]);
        }
    }
    let mut b = TLBO::new(
        TestObj::new(),
        TLBOSetting::default().pop_num(20).task(Task::MaxGen(30)).seed(22),
    );
    b.run();
    for row in b.base.pool.iter() {
        for (s, &val) in row.iter().enumerate() {
            assert!(val >= b.base.func.lb()[s] && val <= b.base.func.ub()[s]);
        }
    }
}

#[test]
fn every_strategy_keeps_reports_monotone() {
    let strategies = vec![
        Strategy::S1,
        Strategy::S2,
        Strategy::S3,
        Strategy::S4,
        Strategy::S5,
        Strategy::S6,
        Strategy::S7,
        Strategy::S8,
        Strategy::S9,
        Strategy::S10,
    ];
    for st in strategies {
        let mut a = DE::new(
            TestObj::new(),
            de_setting(31).strategy(st).task(Task::MaxGen(12)).rpt(1),
        );
        a.run();
        let hist = a.history();
        assert_eq!(hist.len(), 13);
        for w in hist.windows(2) {
            assert!(w[0].fitness >= w[1].fitness);
            assert!(w[0].gen <= w[1].gen);
        }
    }
}

#[test]
fn report_cadence_counts() {
    let mut a = TLBO::new(
        TestObj::new(),
        TLBOSetting::default().pop_num(10).task(Task::MaxGen(60)).rpt(7).seed(4),
    );
    a.run();
    let hist = a.history();
    // one initial snapshot, eight cadence snapshots, one terminal snapshot
    assert_eq!(hist.len(), 10);
    assert_eq!(hist[0].gen, 0);
    assert_eq!(hist.last().unwrap().gen, 60);
    // every cadence snapshot carries its own multiple of the interval
    for (k, r) in hist.iter().take(hist.len() - 1).enumerate() {
        assert_eq!(r.gen, (k as u64) * 7);
    }
    for w in hist.windows(2) {
        assert!(w[0].fitness >= w[1].fitness);
    }
}

#[test]
fn partner_never_picks_self() {
    let mut rng = Rand::new(99);
    for i in 0..10usize {
        for _ in 0..50 {
            let j = partner(&mut rng, i, 10);
            assert!(j < 10);
            assert_ne!(j, i);
        }
    }
}

#[test]
fn clamp_pulls_to_nearest_bound() {
    let b = AlgorithmBase::new(TestObj::new(), Setting::default());
    assert_eq!(b.check(0, 100), 50);
    assert_eq!(b.check(0, -5), 0);
    assert_eq!(b.check(1, 30), 30);
    assert_eq!(b.check(1, 51), 50);
}

#[test]
fn default_settings_match_the_customary_values() {
    let s = Setting::default();
    assert_eq!(s.pop_num, 200);
    assert_eq!(s.rpt, 50);
    assert_eq!(s.task, Task::MaxGen(200));
    let d = DESetting::default();
    assert_eq!(d.base.pop_num, 400);
    assert_eq!(d.f, 600_000);
    assert_eq!(d.cr, 900_000);
    let chained = Setting::default().pop_num(33).rpt(3).seed(8).task(Task::MinFit(1));
    assert_eq!(chained.pop_num, 33);
    assert_eq!(chained.rpt, 3);
    assert_eq!(chained.seed, 8);
    assert_eq!(chained.task, Task::MinFit(1));
}

#[test]
fn entropy_seeded_run_completes() {
    let r = Rand::new(Rand::from_entropy().state);
    let mut a = TLBO::new(
        TestObj::new(),
        TLBOSetting::default().pop_num(10).task(Task::MaxGen(3)).seed(r.state),
    );
    a.run();
    assert!(a.history().len() >= 2);
}

#[test]
fn fixed_seed_stream_is_reproducible() {
    let mut a = Rand::new(42);
    let mut b = Rand::new(42);
    for _ in 0..100 {
        assert_eq!(a.next_u64(), b.next_u64());
    }
    let mut c = Rand::new(7);
    for n in 1..50u64 {
        assert!(c.below(n) < n);
        let v = c.range_i64(-5, 5);
        assert!(v >= -5 && v < 5);
    }
}
