//! Shrink-search as a function of the shrink relation, the step taken on
//! each candidate, and the number of values it may expand; and its laws.
//!
//! `shrink(x)` is the ordered candidate list of `x`; `step(x)` is what the
//! search does with candidate `x` (for a property, `shrink_step_spec` of the
//! seed's classification and `x`'s verdict).

use vstd::prelude::*;

use crate::tester::{shrink_step_spec, ShrinkStep};
use crate::verdict::{regime_of_view, Regime, Status, VerdictView};

verus! {

/// How shrink-search ends, and on which value.
pub enum SearchEnd<A> {
    /// No candidate of the value fails the way the seed did.
    Minimal(A),
    /// A candidate failed another way.
    Stopped(A),
    /// The expansion budget ran out at the value.
    Exhausted(A),
}

impl<A> SearchEnd<A> {
    pub open spec fn witness(self) -> A {
        match self {
            SearchEnd::Minimal(w) => w,
            SearchEnd::Stopped(w) => w,
            SearchEnd::Exhausted(w) => w,
        }
    }
}

/// Every candidate is strictly smaller than its parent under `measure`.
pub open spec fn shrinks_strictly<A>(shrink: spec_fn(A) -> Seq<A>, measure: spec_fn(A) -> nat) -> bool {
    forall|x: A, i: int| 0 <= i < shrink(x).len() ==> measure(#[trigger] shrink(x)[i]) < measure(x)
}

/// The index of the first candidate that is not skipped, or the length.
pub open spec fn first_active<A>(cands: Seq<A>, step: spec_fn(A) -> ShrinkStep) -> int
    decreases cands.len(),
{
    if cands.len() == 0 {
        0
    } else if step(cands[0]) != ShrinkStep::Skip {
        0
    } else {
        1 + first_active(cands.drop_first(), step)
    }
}

/// Depth-first shrink-search from `a`, expanding at most `fuel` values: the
/// first candidate in order that is not skipped either ends the search
/// (`Stop`) or replaces the current value (`Descend`).
pub open spec fn search<A>(
    a: A,
    shrink: spec_fn(A) -> Seq<A>,
    step: spec_fn(A) -> ShrinkStep,
    fuel: nat,
) -> SearchEnd<A>
    decreases fuel,
{
    if fuel == 0 {
        SearchEnd::Exhausted(a)
    } else {
        let cands = shrink(a);
        let k = first_active(cands, step);
        if 0 <= k < cands.len() {
            if step(cands[k]) == ShrinkStep::Stop {
                SearchEnd::Stopped(cands[k])
            } else {
                search(cands[k], shrink, step, (fuel - 1) as nat)
            }
        } else {
            SearchEnd::Minimal(a)
        }
    }
}

/// No candidate of `a` would be tried further.
pub open spec fn locally_minimal<A>(a: A, shrink: spec_fn(A) -> Seq<A>, step: spec_fn(A) -> ShrinkStep) -> bool {
    forall|i: int| 0 <= i < shrink(a).len() ==> step(#[trigger] shrink(a)[i]) == ShrinkStep::Skip
}

pub proof fn lemma_first_active<A>(cands: Seq<A>, step: spec_fn(A) -> ShrinkStep)
    ensures
        0 <= first_active(cands, step) <= cands.len(),
        first_active(cands, step) < cands.len() ==> step(cands[first_active(cands, step)])
            != ShrinkStep::Skip,
        forall|j: int| 0 <= j < first_active(cands, step) ==> step(#[trigger] cands[j]) == ShrinkStep::Skip,
    decreases cands.len(),
{
    if cands.len() > 0 && step(cands[0]) == ShrinkStep::Skip {
        let rest = cands.drop_first();
        lemma_first_active(rest, step);
        assert forall|j: int| 0 <= j < first_active(cands, step) implies step(#[trigger] cands[j])
            == ShrinkStep::Skip by {
            if j > 0 {
                assert(cands[j] == rest[j - 1]);
            }
        }
    }
}

/// The first candidate that is not skipped is the one at `i` when all
/// before it are skipped; when all are skipped, there is none.
pub proof fn lemma_first_active_at<A>(cands: Seq<A>, step: spec_fn(A) -> ShrinkStep, i: int)
    requires
        0 <= i <= cands.len(),
        forall|j: int| 0 <= j < i ==> step(#[trigger] cands[j]) == ShrinkStep::Skip,
        i < cands.len() ==> step(cands[i]) != ShrinkStep::Skip,
    ensures
        first_active(cands, step) == i,
{
    lemma_first_active(cands, step);
    let k = first_active(cands, step);
    if k < i {
        assert(step(cands[k]) == ShrinkStep::Skip);
    }
    if k > i {
        assert(step(cands[i]) == ShrinkStep::Skip);
    }
}

/// The witness that shrink-search reports either failed another way
/// (`Stopped`), or is the start value or a candidate that failed the same
/// way, with no candidate of its own to try further (`Minimal`).
pub proof fn lemma_search_locally_minimal<A>(
    a: A,
    shrink: spec_fn(A) -> Seq<A>,
    step: spec_fn(A) -> ShrinkStep,
    fuel: nat,
)
    ensures
        match search(a, shrink, step, fuel) {
            SearchEnd::Minimal(w) => locally_minimal(w, shrink, step) && (w == a || step(w)
                == ShrinkStep::Descend),
            SearchEnd::Stopped(w) => step(w) == ShrinkStep::Stop,
            SearchEnd::Exhausted(w) => w == a || step(w) == ShrinkStep::Descend,
        },
    decreases fuel,
{
    if fuel > 0 {
        let cands = shrink(a);
        lemma_first_active(cands, step);
        let k = first_active(cands, step);
        if k < cands.len() {
            if step(cands[k]) != ShrinkStep::Stop {
                lemma_search_locally_minimal(cands[k], shrink, step, (fuel - 1) as nat);
            }
        } else {
            assert forall|i: int| 0 <= i < shrink(a).len() implies step(#[trigger] shrink(a)[i])
                == ShrinkStep::Skip by {
                assert(shrink(a)[i] == cands[i]);
            }
        }
    }
}

/// With a strictly shrinking relation, a budget above the start value's
/// measure is never exhausted: shrink-search ends by itself.
pub proof fn lemma_search_terminates<A>(
    a: A,
    shrink: spec_fn(A) -> Seq<A>,
    step: spec_fn(A) -> ShrinkStep,
    measure: spec_fn(A) -> nat,
    fuel: nat,
)
    requires
        shrinks_strictly(shrink, measure),
        fuel > measure(a),
    ensures
        !(search(a, shrink, step, fuel) is Exhausted),
    decreases fuel,
{
    let cands = shrink(a);
    lemma_first_active(cands, step);
    let k = first_active(cands, step);
    if k < cands.len() && step(cands[k]) != ShrinkStep::Stop {
        assert(measure(shrink(a)[k]) < measure(a));
        lemma_search_terminates(cands[k], shrink, step, measure, (fuel - 1) as nat);
    }
}

/// Restarting shrink-search from a witness it reported as minimal reports
/// that same witness.
pub proof fn lemma_search_idempotent<A>(
    a: A,
    shrink: spec_fn(A) -> Seq<A>,
    step: spec_fn(A) -> ShrinkStep,
    fuel: nat,
    again: nat,
)
    requires
        search(a, shrink, step, fuel) is Minimal,
        again > 0,
    ensures
        search(search(a, shrink, step, fuel).witness(), shrink, step, again) == search(a, shrink, step, fuel),
{
    lemma_search_locally_minimal(a, shrink, step, fuel);
    let w = search(a, shrink, step, fuel).witness();
    let wc = shrink(w);
    lemma_first_active(wc, step);
    if first_active(wc, step) < wc.len() {
        let k = first_active(wc, step);
        assert(step(shrink(w)[k]) == ShrinkStep::Skip);
    }
}

/// Depth first: when the first candidate not skipped is one to descend
/// into, the search goes on from it, and no later candidate is looked at.
pub proof fn lemma_first_failing_candidate_wins<A>(
    a: A,
    shrink: spec_fn(A) -> Seq<A>,
    step: spec_fn(A) -> ShrinkStep,
    fuel: nat,
    i: int,
)
    requires
        fuel > 0,
        0 <= i < shrink(a).len(),
        forall|j: int| 0 <= j < i ==> step(#[trigger] shrink(a)[j]) == ShrinkStep::Skip,
        step(shrink(a)[i]) == ShrinkStep::Descend,
    ensures
        search(a, shrink, step, fuel) == search(shrink(a)[i], shrink, step, (fuel - 1) as nat),
{
    lemma_first_active_at(shrink(a), step, i);
}

/// The step shrink-search takes on each value when minimizing a failure of
/// classification `seed`, given each value's verdict.
pub open spec fn verdict_step<A>(seed: Regime, verdict: spec_fn(A) -> VerdictView) -> spec_fn(A) -> ShrinkStep {
    |x: A| shrink_step_spec(seed, verdict(x))
}

/// Local minimality in terms of verdicts: a witness reported as minimal is
/// the start value or failed the way it did, and none of its candidates
/// fails that way; one reported as stopped failed another way.
pub proof fn lemma_property_search_minimal<A>(
    a: A,
    shrink: spec_fn(A) -> Seq<A>,
    verdict: spec_fn(A) -> VerdictView,
    seed: Regime,
    fuel: nat,
)
    ensures
        ({
            let end = search(a, shrink, verdict_step(seed, verdict), fuel);
            let w = end.witness();
            &&& end is Stopped ==> verdict(w).status == Status::Fail && regime_of_view(verdict(w).failure) != seed
            &&& !(end is Stopped) ==> (w == a || (verdict(w).status == Status::Fail && regime_of_view(
                verdict(w).failure,
            ) == seed))
            &&& end is Minimal ==> forall|i: int|
                0 <= i < shrink(w).len() ==> !(verdict(#[trigger] shrink(w)[i]).status == Status::Fail
                    && regime_of_view(verdict(shrink(w)[i]).failure) == seed)
        }),
{
    let step = verdict_step(seed, verdict);
    lemma_search_locally_minimal(a, shrink, step, fuel);
    let end = search(a, shrink, step, fuel);
    let w = end.witness();
    if end is Minimal {
        assert forall|i: int| 0 <= i < shrink(w).len() implies !(verdict(#[trigger] shrink(w)[i]).status
            == Status::Fail && regime_of_view(verdict(shrink(w)[i]).failure) == seed) by {
            assert(step(shrink(w)[i]) == ShrinkStep::Skip);
        }
    }
}

} // verus!
