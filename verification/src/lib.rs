//! Population-based stochastic optimizers for box-constrained minimization
//! over integer-valued parameter vectors.
//!
//! The crate provides the shared optimization lifecycle (population state,
//! termination policies, progress reports and the run loop) together with two
//! search strategies: Differential Evolution and Teaching-Learning-Based
//! Optimization. Scale factors and probabilities are rational parameters
//! given in parts per million, and every randomized decision is drawn from an
//! explicitly seeded stream, so a run is reproducible from its seed.

mod bench;
mod de;
mod rng;
mod tlbo;
mod utility;

pub use crate::bench::TestObj;
pub use crate::de::{DESetting, Strategy, DE};
pub use crate::rng::{Rand, PPM};
pub use crate::tlbo::{partner, TLBO, TLBOSetting};
pub use crate::utility::{
    Algorithm, AlgorithmBase, ObjFunc, Report, Setting, Task, LIMIT, UNSET_F,
};
