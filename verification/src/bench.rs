use vstd::prelude::*;

use crate::utility::ObjFunc;

verus! {

/// The saturation of an unbounded value into the 64-bit range.
pub open spec fn sat64(x: int) -> i64 {
    if x > i64::MAX {
        i64::MAX
    } else if x < i64::MIN {
        i64::MIN
    } else {
        x as i64
    }
}

/// A small benchmark problem on two dimensions inside `[0, 50]` each:
/// the fitness of `v` is `v[0]^2 + 8 * v[1]`, least at the origin.
pub struct TestObj {
    lo: Vec<i64>,
    hi: Vec<i64>,
}

impl TestObj {
    pub fn new() -> (r: TestObj)
        ensures
            r.spec_lb() == seq![0i64, 0i64],
            r.spec_ub() == seq![50i64, 50i64],
    {
        let mut lo: Vec<i64> = Vec::new();
        lo.push(0);
        lo.push(0);
        let mut hi: Vec<i64> = Vec::new();
        hi.push(50);
        hi.push(50);
        let r = TestObj { lo, hi };
        proof {
            assert(r.spec_lb() =~= seq![0i64, 0i64]);
            assert(r.spec_ub() =~= seq![50i64, 50i64]);
        }
        r
    }
}

impl ObjFunc for TestObj {
    type Result = i64;

    open spec fn spec_fitness(&self, gen: u64, v: Seq<i64>) -> i64 {
        if v.len() >= 2 {
            sat64(v[0] * v[0] + 8 * v[1])
        } else {
            0
        }
    }

    open spec fn spec_result(&self, v: Seq<i64>) -> i64 {
        self.spec_fitness(0, v)
    }

    closed spec fn spec_lb(&self) -> Seq<i64> {
        self.lo@
    }

    closed spec fn spec_ub(&self) -> Seq<i64> {
        self.hi@
    }

    fn fitness(&self, gen: u64, v: &Vec<i64>) -> (r: i64) {
        if v.len() >= 2 {
            let a = v[0] as i128;
            let b = v[1] as i128;
            proof {
                assert(
                    0 <= a * a <= 0x4000_0000_0000_0000_0000_0000_0000_0000
                ) by (nonlinear_arith)
                    requires
                        -0x8000_0000_0000_0000 <= a <= 0x7FFF_FFFF_FFFF_FFFF,
                ;
            }
            let x = a * a + 8 * b;
            if x > i64::MAX as i128 {
                i64::MAX
            } else if x < i64::MIN as i128 {
                i64::MIN
            } else {
                x as i64
            }
        } else {
            0
        }
    }

    fn result(&self, v: &Vec<i64>) -> (r: i64) {
        self.fitness(0, v)
    }

    fn lb(&self) -> (r: &Vec<i64>) {
        &self.lo
    }

    fn ub(&self) -> (r: &Vec<i64>) {
        &self.hi
    }
}

} // verus!
