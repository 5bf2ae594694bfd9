//! The driver loop and shrink-search.

use vstd::prelude::*;

use crate::gen::{Arbitrary, Gen};
use crate::search::{search, verdict_step, SearchEnd};
use crate::verdict::{regime_of_view, report_text, unvalued, Regime, Status, TestResult, VerdictView};

verus! {

/// A property under test: given one argument value, it yields a verdict. It
/// may run locally, call a remote worker, or compare several implementations.
pub trait Testable {
    type Args: Arbitrary + core::fmt::Debug;

    /// The verdict on `args`, apart from its printed witness. Generic code
    /// knows only what `result` ensures of it; an implementation whose
    /// `result` is verified defines it.
    closed spec fn verdict_of(&self, args: Self::Args) -> VerdictView {
        arbitrary()
    }

    /// One execution on `args`, without shrinking.
    fn result(&self, args: &Self::Args) -> (r: TestResult)
        ensures
            r@ == self.verdict_of(*args),
    ;
}

/// The shrink relation of an argument type.
pub open spec fn shrinks_of<A: Arbitrary>() -> spec_fn(A) -> Seq<A> {
    |x: A| x.shrink_spec()
}

/// The verdicts of a property.
pub open spec fn verdicts_of<T: Testable>(t: &T) -> spec_fn(T::Args) -> VerdictView {
    |x: T::Args| t.verdict_of(x)
}

/// Shrink-search of `t` from `seed`, within `limit` expansions.
pub open spec fn search_of<T: Testable>(t: &T, seed: T::Args, limit: nat) -> SearchEnd<T::Args> {
    search(seed, shrinks_of(), verdict_step(regime_of_view(t.verdict_of(seed).failure), verdicts_of(t)), limit)
}

/// Relies on `format!("{:?}", ..)`: the printable rendering of a witness.
#[verifier::external_body]
pub(crate) fn describe<A: core::fmt::Debug>(a: &A) -> String {
    format!("{:?}", a)
}

/// `r` with `args` as its printable witness and no return value.
pub fn witnessed<A: core::fmt::Debug>(r: TestResult, args: &A) -> (w: TestResult)
    ensures
        w@ == unvalued(r@),
        w.arguments@.len() == 1,
{
    TestResult { status: r.status, arguments: vec![describe(args)], failure: r.failure, return_value: None }
}

/// What shrink-search does with one candidate's verdict.
#[derive(Clone, Copy, Debug, PartialEq, Eq, Structural)]
pub enum ShrinkStep {
    /// The candidate does not fail: try the next one.
    Skip,
    /// The candidate fails the way the seed did: minimize it in turn.
    Descend,
    /// The candidate fails another way: report it as it stands.
    Stop,
}

pub open spec fn shrink_step_spec(seed: Regime, candidate: VerdictView) -> ShrinkStep {
    if candidate.status != Status::Fail {
        ShrinkStep::Skip
    } else if regime_of_view(candidate.failure) == seed {
        ShrinkStep::Descend
    } else {
        ShrinkStep::Stop
    }
}

/// Decides what to do with a candidate's verdict when minimizing a failure
/// of classification `seed`.
pub fn shrink_step(seed: Regime, candidate: &TestResult) -> (r: ShrinkStep)
    ensures
        r == shrink_step_spec(seed, candidate@),
{
    if !candidate.is_failure() {
        ShrinkStep::Skip
    } else if candidate.regime() == seed {
        ShrinkStep::Descend
    } else {
        ShrinkStep::Stop
    }
}

/// The move shrink-search makes on one candidate's verdict.
#[derive(Clone, Debug, PartialEq)]
pub enum ShrinkMove {
    /// Try the next candidate.
    Next,
    /// Minimize this candidate, whose verdict is given, in turn.
    Descend(TestResult),
    /// End the search with this verdict.
    Report(TestResult),
}

/// The move for candidate verdict `candidate`, rendered as `witness`, when
/// minimizing a failure of classification `seed`: skip a pass or discard,
/// descend into a failure of the same kind, and report any other failure
/// with the candidate as its witness.
pub fn shrink_next(seed: Regime, candidate: TestResult, witness: String) -> (r: ShrinkMove)
    ensures
        match shrink_step_spec(seed, candidate@) {
            ShrinkStep::Skip => r == ShrinkMove::Next,
            ShrinkStep::Descend => r == ShrinkMove::Descend(candidate),
            ShrinkStep::Stop => r matches ShrinkMove::Report(w) && {
                &&& w@ == unvalued(candidate@)
                &&& w.arguments@ == seq![witness]
            },
        },
{
    match shrink_step(seed, &candidate) {
        ShrinkStep::Skip => ShrinkMove::Next,
        ShrinkStep::Descend => ShrinkMove::Descend(candidate),
        ShrinkStep::Stop => {
            let arguments = vec![witness];
            assert(arguments@ =~= seq![witness]);
            ShrinkMove::Report(
                TestResult { status: candidate.status, arguments, failure: candidate.failure, return_value: None },
            )
        },
    }
}

/// Depth-first minimization of a failing instance `seed` whose verdict is
/// `seed_result`: the first candidate, in shrink order, that fails the way
/// the seed did replaces the current value; a candidate that fails another
/// way ends the search and is reported. At most `limit` values are
/// expanded. Gives the witness and its verdict, without return value.
pub fn shrink_failure<T: Testable>(prop: &T, seed: T::Args, seed_result: TestResult, limit: u64) -> (r: (
    T::Args,
    TestResult,
))
    requires
        seed_result.status == Status::Fail,
        seed_result@ == prop.verdict_of(seed),
    ensures
        r.0 == search_of(prop, seed, limit as nat).witness(),
        r.1@ == unvalued(prop.verdict_of(r.0)),
        r.1.status == Status::Fail,
        r.1.arguments@.len() == 1,
{
    let ghost shrink = shrinks_of::<T::Args>();
    let ghost step = verdict_step(regime_of_view(prop.verdict_of(seed).failure), verdicts_of(prop));
    let ghost seed_g = seed;
    let ghost end = search_of(prop, seed, limit as nat);
    let regime = seed_result.regime();
    let mut current = seed;
    let mut current_result = seed_result;
    let mut left = limit;
    while left > 0
        invariant
            seed_g == seed,
            end == search_of(prop, seed_g, limit as nat),
            end == search(current, shrink, step, left as nat),
            shrink == shrinks_of::<T::Args>(),
            step == verdict_step(regime, verdicts_of(prop)),
            current_result@ == prop.verdict_of(current),
            current_result.status == Status::Fail,
        decreases left,
    {
        let ghost fuel = left as nat;
        left = left - 1;
        let mut candidates = current.shrink();
        let mut descend: Option<(usize, TestResult)> = None;
        let mut i: usize = 0;
        while i < candidates.len()
            invariant
                0 <= i <= candidates@.len(),
                fuel > 0,
                left == fuel - 1,
                seed_g == seed,
                end == search_of(prop, seed_g, limit as nat),
                end == search(current, shrink, step, fuel),
                candidates@ == shrink(current),
                step == verdict_step(regime, verdicts_of(prop)),
                forall|j: int| 0 <= j < i ==> step(#[trigger] candidates@[j]) == ShrinkStep::Skip,
                match descend {
                    None => true,
                    Some((k, v)) => {
                        &&& k == i
                        &&& k < candidates@.len()
                        &&& v@ == prop.verdict_of(candidates@[k as int])
                        &&& v.status == Status::Fail
                        &&& step(candidates@[k as int]) == ShrinkStep::Descend
                    },
                },
            ensures
                descend is None ==> i == candidates@.len(),
            decreases candidates@.len() - i,
        {
            let r = prop.result(&candidates[i]);
            assert(step(candidates@[i as int]) == shrink_step_spec(regime, r@));
            match shrink_next(regime, r, describe(&candidates[i])) {
                ShrinkMove::Next => {
                    i = i + 1;
                },
                ShrinkMove::Descend(v) => {
                    descend = Some((i, v));
                    break;
                },
                ShrinkMove::Report(w) => {
                    proof {
                        crate::search::lemma_first_active_at(candidates@, step, i as int);
                        assert(step(candidates@[i as int]) == ShrinkStep::Stop);
                        assert(search(current, shrink, step, fuel) == SearchEnd::Stopped(candidates@[i as int]));
                    }
                    let found = candidates.remove(i);
                    return (found, w);
                },
            }
        }
        match descend {
            Some((k, v)) => {
                proof {
                    crate::search::lemma_first_active_at(candidates@, step, k as int);
                }
                current = candidates.remove(k);
                current_result = v;
            },
            None => {
                proof {
                    crate::search::lemma_first_active_at(candidates@, step, i as int);
                    assert(search(current, shrink, step, fuel) == SearchEnd::Minimal(current));
                }
                let w = witnessed(current_result, &current);
                return (current, w);
            },
        }
    }
    let w = witnessed(current_result, &current);
    (current, w)
}

/// How the driver loop proceeds after one verdict.
#[derive(Clone, Copy, Debug, PartialEq, Eq, Structural)]
pub enum Decision {
    /// Go on with this many passed instances.
    Continue(u64),
    /// Stop and minimize the failing instance.
    Shrink,
}

pub open spec fn decide_spec(passed: u64, s: Status) -> Decision {
    match s {
        Status::Pass => Decision::Continue((passed + 1) as u64),
        Status::Discard => Decision::Continue(passed),
        Status::Fail => Decision::Shrink,
    }
}

/// Counts a pass, ignores a discard, and stops on a failure.
pub fn decide(passed: u64, s: Status) -> (r: Decision)
    requires
        passed < u64::MAX,
    ensures
        r == decide_spec(passed, s),
{
    match s {
        Status::Pass => Decision::Continue(passed + 1),
        Status::Discard => Decision::Continue(passed),
        Status::Fail => Decision::Shrink,
    }
}

/// The number of passes in a run of verdicts.
pub open spec fn count_passes(seen: Seq<Status>) -> nat
    decreases seen.len(),
{
    if seen.len() == 0 {
        0
    } else {
        count_passes(seen.drop_last()) + if seen.last() == Status::Pass {
            1nat
        } else {
            0nat
        }
    }
}

/// A discarded instance is never counted as a pass and never seeds
/// shrink-search: only a failure does.
pub proof fn lemma_discard_ignored(passed: u64, seen: Seq<Status>)
    ensures
        decide_spec(passed, Status::Discard) == Decision::Continue(passed),
        forall|s: Status| decide_spec(passed, s) == Decision::Shrink <==> s == Status::Fail,
        count_passes(seen.push(Status::Discard)) == count_passes(seen),
{
    assert(seen.push(Status::Discard).drop_last() =~= seen);
}

/// The statuses of a property's verdicts on a run of instances.
pub open spec fn statuses<T: Testable>(f: &T, xs: Seq<T::Args>) -> Seq<Status> {
    xs.map_values(|a: T::Args| f.verdict_of(a).status)
}

/// A session over the generated instances `xs` ended with `r`: a count of
/// the passes among their verdicts, none failing, reached the target or
/// used every attempt; or the last one failed first, and `r` is the verdict
/// of the witness that shrink-search reaches from it.
pub open spec fn session<T: Testable>(
    f: &T,
    tests: u64,
    max_tests: u64,
    max_shrinks: u64,
    xs: Seq<T::Args>,
    r: Result<u64, TestResult>,
) -> bool {
    let seen = statuses(f, xs);
    &&& xs.len() <= max_tests
    &&& match r {
        Ok(n) => {
            &&& n == count_passes(seen)
            &&& n <= tests
            &&& !seen.contains(Status::Fail)
            &&& n < tests ==> xs.len() == max_tests
        },
        Err(v) => {
            &&& xs.len() > 0
            &&& seen.last() == Status::Fail
            &&& !seen.drop_last().contains(Status::Fail)
            &&& v@ == unvalued(f.verdict_of(search_of(f, xs.last(), max_shrinks as nat).witness()))
            &&& v.status == Status::Fail
            &&& v.arguments@.len() == 1
        },
    }
}

/// A run of passes counts each one.
pub proof fn lemma_count_all_pass(seen: Seq<Status>)
    requires
        forall|j: int| 0 <= j < seen.len() ==> seen[j] == Status::Pass,
    ensures
        count_passes(seen) == seen.len(),
    decreases seen.len(),
{
    if seen.len() > 0 {
        lemma_count_all_pass(seen.drop_last());
    }
}

proof fn lemma_count_bounded(seen: Seq<Status>)
    ensures
        count_passes(seen) <= seen.len(),
    decreases seen.len(),
{
    if seen.len() > 0 {
        lemma_count_bounded(seen.drop_last());
    }
}

/// A property that passes on every instance gives a session of exactly
/// `tests` passes, whenever `max_tests` allows that many attempts.
pub proof fn lemma_session_all_pass<T: Testable>(
    f: &T,
    tests: u64,
    max_tests: u64,
    max_shrinks: u64,
    xs: Seq<T::Args>,
    r: Result<u64, TestResult>,
)
    requires
        session(f, tests, max_tests, max_shrinks, xs, r),
        forall|a: T::Args| #[trigger] f.verdict_of(a).status == Status::Pass,
        tests <= max_tests,
    ensures
        r == Ok::<u64, TestResult>(tests),
{
    let seen = statuses(f, xs);
    assert forall|j: int| 0 <= j < seen.len() implies seen[j] == Status::Pass by {
        assert(seen[j] == f.verdict_of(xs[j]).status);
    }
    lemma_count_all_pass(seen);
    if let Err(v) = r {
        assert(seen[seen.len() - 1] == Status::Pass);
    }
}

/// A property that never fails (it passes or discards) never ends a session
/// with a failure, and the count never exceeds the instances tried.
pub proof fn lemma_session_no_failure<T: Testable>(
    f: &T,
    tests: u64,
    max_tests: u64,
    max_shrinks: u64,
    xs: Seq<T::Args>,
    r: Result<u64, TestResult>,
)
    requires
        session(f, tests, max_tests, max_shrinks, xs, r),
        forall|a: T::Args| #[trigger] f.verdict_of(a).status != Status::Fail,
    ensures
        r is Ok,
        r matches Ok(n) ==> n <= xs.len(),
{
    let seen = statuses(f, xs);
    lemma_count_bounded(seen);
    if let Err(v) = r {
        assert(seen[seen.len() - 1] == f.verdict_of(xs[seen.len() - 1]).status);
    }
}

/// `r` reports the session outcome `o`: a success needs the pass target
/// and the minimum reached; a failure carries its report text.
pub open spec fn concludes(tests: u64, min_tests_passed: u64, o: Result<u64, TestResult>, r: Report) -> bool {
    match (o, r) {
        (Ok(n), Report::Passed(m)) => n >= tests && n >= min_tests_passed && m == n,
        (Ok(n), Report::Insufficient(m)) => (n < tests || n < min_tests_passed) && m == n,
        (Err(v), Report::Crashed(m)) => v.is_error_spec() && m@ == report_text(v),
        (Err(v), Report::Failed(m)) => !v.is_error_spec() && m@ == report_text(v),
        _ => false,
    }
}

/// The configuration and random state of a testing session.
pub struct QuickCheck {
    /// The number of passed instances that ends a session with success.
    pub tests: u64,
    /// The number of instances generated at most, discarded ones included.
    pub max_tests: u64,
    /// The fewest passed instances for which a session counts as a success.
    pub min_tests_passed: u64,
    /// The number of values that shrink-search expands at most.
    pub max_shrinks: u64,
    /// The random source of generated instances.
    pub rng: Gen,
}

/// How a session ended.
#[derive(Clone, Debug, PartialEq)]
pub enum Report {
    /// Enough instances passed.
    Passed(u64),
    /// Too few instances passed before the attempt budget ran out.
    Insufficient(u64),
    /// The code under test is wrong: the report of the minimized witness.
    Failed(String),
    /// The harness itself broke: the report of the witness.
    Crashed(String),
}

impl QuickCheck {
    pub closed spec fn gen_size(&self) -> nat {
        self.rng.spec_size()
    }

    /// A session of 100 passes out of at most 10000 attempts, with
    /// generator size 100 and no minimum.
    pub fn new() -> (r: QuickCheck)
        ensures
            r.tests == 100,
            r.max_tests == 10000,
            r.min_tests_passed == 0,
            r.max_shrinks == u64::MAX,
            r.gen_size() == 100,
    {
        QuickCheck { tests: 100, max_tests: 10000, min_tests_passed: 0, max_shrinks: u64::MAX, rng: Gen::new(100) }
    }

    /// A session with the given settings.
    pub fn with_config(tests: u64, max_tests: u64, gen_size: usize, min_tests_passed: u64) -> (r:
        QuickCheck)
        ensures
            r.tests == tests,
            r.max_tests == max_tests,
            r.min_tests_passed == min_tests_passed,
            r.max_shrinks == u64::MAX,
            r.gen_size() == gen_size,
    {
        QuickCheck { tests, max_tests, min_tests_passed, max_shrinks: u64::MAX, rng: Gen::new(gen_size) }
    }

    /// Replaces the random source.
    pub fn gen(self, rng: Gen) -> (r: QuickCheck)
        ensures
            r.tests == self.tests,
            r.max_tests == self.max_tests,
            r.min_tests_passed == self.min_tests_passed,
            r.max_shrinks == self.max_shrinks,
            r.gen_size() == rng.spec_size(),
    {
        QuickCheck { rng, ..self }
    }

    /// Generates instances until `tests` of them pass, one fails, or
    /// `max_tests` have been tried. Gives the number of passes, or the
    /// minimized failure.
    pub fn quicktest<T: Testable>(&mut self, f: &T) -> (r: Result<u64, TestResult>)
        ensures
            final(self).tests == old(self).tests,
            final(self).max_tests == old(self).max_tests,
            final(self).min_tests_passed == old(self).min_tests_passed,
            final(self).max_shrinks == old(self).max_shrinks,
            final(self).gen_size() == old(self).gen_size(),
            old(self).tests == 0 || old(self).max_tests == 0 ==> r == Ok::<u64, TestResult>(0),
            exists|xs: Seq<T::Args>|
                #[trigger] session(f, old(self).tests, old(self).max_tests, old(self).max_shrinks, xs, r),
    {
        let mut passed: u64 = 0;
        let mut attempts: u64 = 0;
        let ghost mut xs: Seq<T::Args> = Seq::empty();
        while attempts < self.max_tests && passed < self.tests
            invariant
                self.tests == old(self).tests,
                self.max_tests == old(self).max_tests,
                self.min_tests_passed == old(self).min_tests_passed,
                self.max_shrinks == old(self).max_shrinks,
                self.gen_size() == old(self).gen_size(),
                attempts <= self.max_tests,
                passed <= self.tests,
                xs.len() == attempts,
                passed == count_passes(statuses(f, xs)),
                !statuses(f, xs).contains(Status::Fail),
            decreases self.max_tests - attempts,
        {
            let args = T::Args::arbitrary(&mut self.rng);
            let r = f.result(&args);
            let ghost before = xs;
            proof {
                xs = xs.push(args);
                assert(statuses(f, xs) =~= statuses(f, before).push(r.status));
                assert(statuses(f, xs).drop_last() =~= statuses(f, before));
            }
            attempts = attempts + 1;
            match decide(passed, r.status) {
                Decision::Continue(n) => {
                    passed = n;
                    assert(!statuses(f, xs).contains(Status::Fail)) by {
                        assert forall|j: int| 0 <= j < xs.len() implies statuses(f, xs)[j] != Status::Fail by {
                            if j < before.len() {
                                assert(statuses(f, xs)[j] == statuses(f, before)[j]);
                            }
                        }
                    }
                },
                Decision::Shrink => {
                    let limit = self.max_shrinks;
                    let (_witness, w) = shrink_failure(f, args, r, limit);
                    assert(session(f, self.tests, self.max_tests, self.max_shrinks, xs, Err(w)));
                    return Err(w);
                },
            }
        }
        assert(session(f, self.tests, self.max_tests, self.max_shrinks, xs, Ok(passed)));
        Ok(passed)
    }

    /// The outcome of a session, as reported to the user: a success needs
    /// the pass target reached and at least the minimum of passes; a session
    /// that ran out of attempts before that has too few valid cases.
    pub fn conclude(&self, outcome: Result<u64, TestResult>) -> (r: Report)
        ensures
            concludes(self.tests, self.min_tests_passed, outcome, r),
    {
        match outcome {
            Ok(n) => if n >= self.tests && n >= self.min_tests_passed {
                Report::Passed(n)
            } else {
                Report::Insufficient(n)
            },
            Err(v) => if v.is_error() {
                Report::Crashed(v.failed_msg())
            } else {
                Report::Failed(v.failed_msg())
            },
        }
    }

    /// Runs a session and reports how it ended.
    pub fn quickcheck<T: Testable>(&mut self, f: &T) -> (r: Report)
        ensures
            exists|xs: Seq<T::Args>, o: Result<u64, TestResult>|
                #[trigger] session(f, old(self).tests, old(self).max_tests, old(self).max_shrinks, xs, o)
                    && concludes(old(self).tests, old(self).min_tests_passed, o, r),
            old(self).tests == 0 ==> r == (if old(self).min_tests_passed == 0 {
                Report::Passed(0)
            } else {
                Report::Insufficient(0)
            }),
            old(self).tests > 0 && old(self).max_tests == 0 ==> r == Report::Insufficient(0),
            match r {
                Report::Passed(n) => n == old(self).tests && old(self).min_tests_passed <= n,
                Report::Insufficient(n) => n <= old(self).tests && (n < old(self).tests || n
                    < old(self).min_tests_passed),
                Report::Failed(m) => exists|v: TestResult|
                    v.status == Status::Fail && !v.is_error_spec() && m@ == report_text(v),
                Report::Crashed(m) => exists|v: TestResult|
                    v.status == Status::Fail && v.is_error_spec() && m@ == report_text(v),
            },
    {
        let outcome = self.quicktest(f);
        let ghost o = outcome;
        let r = self.conclude(outcome);
        proof {
            if let Err(v) = o {
                assert(v.status == Status::Fail);
            }
        }
        r
    }
}

impl Default for QuickCheck {
    fn default() -> (r: QuickCheck)
        ensures
            r.tests == 100,
            r.max_tests == 10000,
            r.min_tests_passed == 0,
            r.max_shrinks == u64::MAX,
            r.gen_size() == 100,
    {
        QuickCheck::new()
    }
}

/// Runs a session with the default settings.
pub fn quickcheck<T: Testable>(f: &T) -> (r: Report)
    ensures
        exists|xs: Seq<T::Args>, o: Result<u64, TestResult>|
            #[trigger] session(f, 100, 10000, u64::MAX, xs, o) && concludes(100, 0, o, r),
        match r {
            Report::Passed(n) => n == 100,
            Report::Insufficient(n) => n < 100,
            Report::Failed(m) => exists|v: TestResult|
                v.status == Status::Fail && !v.is_error_spec() && m@ == report_text(v),
            Report::Crashed(m) => exists|v: TestResult|
                v.status == Status::Fail && v.is_error_spec() && m@ == report_text(v),
        },
{
    let mut qc = QuickCheck::new();
    qc.quickcheck(f)
}

} // verus!
