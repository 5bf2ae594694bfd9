//! Property-based testing: random argument generation, a driver loop that
//! counts passing and discarded cases, shrink-search toward a minimal failing
//! witness, differential testing of several implementations, and the wire
//! contract of execution on a remote worker.

pub mod composite;
pub mod config;
pub mod gen;
pub mod remote;
pub mod search;
pub mod tester;
pub mod verdict;

pub use crate::composite::CompositeProperty;
pub use crate::gen::{Arbitrary, Gen};
pub use crate::tester::{quickcheck, QuickCheck, Report, Testable};
pub use crate::verdict::{Status, TestFailure, TestResult};
