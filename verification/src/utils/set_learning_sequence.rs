//! The learning-sequence interleaver.
//!
//! Starting from the standard schedule, both sequences are filtered by a
//! set of predictor-input ids.  Walking the filtered update sequence, a
//! learning step is queued for each prediction-error step; the queue is
//! flushed immediately before the next posterior step, and any remainder is
//! flushed at the end of the list.

use vstd::prelude::*;

use crate::model::{contains_id, seq_steps_ok, step_ok, StateV};
use crate::utils::function_pointer::{is_learning_of, is_posterior_of, is_prediction_error_of, FnType};

verus! {

/// The first `k` steps whose target is not excluded.
pub open spec fn filtered_steps(
    steps: Seq<(usize, FnType)>,
    excluded: Seq<usize>,
    k: int,
) -> Seq<(usize, FnType)>
    decreases k,
{
    if k <= 0 {
        Seq::empty()
    } else {
        filtered_steps(steps, excluded, k - 1) + (if excluded.contains(steps[k - 1].0) {
            Seq::empty()
        } else {
            seq![steps[k - 1]]
        })
    }
}

/// The learning steps of a pending queue, one per queued node.
pub open spec fn learn_steps(pending: Seq<usize>, learning_fn: FnType) -> Seq<(usize, FnType)> {
    Seq::new(pending.len(), |t: int| (pending[t], learning_fn))
}

/// The interleaved result and the still-pending learning queue after the
/// first `k` filtered steps: a prediction-error step queues a learning step
/// for its node; a posterior step flushes the queue in front of itself.
pub open spec fn interleave_rec(
    steps: Seq<(usize, FnType)>,
    learning_fn: FnType,
    k: int,
) -> (Seq<(usize, FnType)>, Seq<usize>)
    decreases k,
{
    if k <= 0 {
        (Seq::empty(), Seq::empty())
    } else {
        let (res, pending) = interleave_rec(steps, learning_fn, k - 1);
        let step = steps[k - 1];
        let pending1 = if is_prediction_error_of(step.1) {
            pending.push(step.0)
        } else {
            pending
        };
        if is_posterior_of(step.1) && pending1.len() > 0 {
            ((res + learn_steps(pending1, learning_fn)).push(step), Seq::empty())
        } else {
            (res.push(step), pending1)
        }
    }
}

/// The fully interleaved update sequence: the walk's result with any
/// remaining learning steps flushed at the end.
pub open spec fn interleaved_of(steps: Seq<(usize, FnType)>, learning_fn: FnType) -> Seq<
    (usize, FnType),
> {
    let (res, pending) = interleave_rec(steps, learning_fn, steps.len() as int);
    res + learn_steps(pending, learning_fn)
}

/// Filtering keeps every step valid.
pub proof fn lemma_filtered_ok(
    s: StateV,
    steps: Seq<(usize, FnType)>,
    excluded: Seq<usize>,
    k: int,
)
    requires
        0 <= k <= steps.len(),
        seq_steps_ok(s, steps),
    ensures
        seq_steps_ok(s, filtered_steps(steps, excluded, k)),
    decreases k,
{
    if k > 0 {
        lemma_filtered_ok(s, steps, excluded, k - 1);
        let whole = filtered_steps(steps, excluded, k);
        let prefix = filtered_steps(steps, excluded, k - 1);
        assert forall|t: int| 0 <= t < whole.len() implies step_ok(s, #[trigger] whole[t]) by {
            if t < prefix.len() {
                assert(whole[t] == prefix[t]);
            } else {
                assert(whole[t] == steps[k - 1]);
                assert(step_ok(s, steps[k - 1]));
            }
        }
    }
}

/// Interleaving learning steps keeps every step valid: a learning step
/// only needs its target to exist, and each queued target came from a
/// valid prediction-error step.
pub proof fn lemma_interleave_ok(
    s: StateV,
    steps: Seq<(usize, FnType)>,
    learning_fn: FnType,
    k: int,
)
    requires
        0 <= k <= steps.len(),
        seq_steps_ok(s, steps),
        is_learning_of(learning_fn),
    ensures
        seq_steps_ok(s, interleave_rec(steps, learning_fn, k).0),
        forall|t: int|
            0 <= t < interleave_rec(steps, learning_fn, k).1.len() ==> (#[trigger] interleave_rec(
                steps,
                learning_fn,
                k,
            ).1[t] as int) < s.len(),
    decreases k,
{
    if k > 0 {
        lemma_interleave_ok(s, steps, learning_fn, k - 1);
        let (res, pending) = interleave_rec(steps, learning_fn, k - 1);
        let step = steps[k - 1];
        assert(step_ok(s, steps[k - 1]));
        let pending1 = if is_prediction_error_of(step.1) {
            pending.push(step.0)
        } else {
            pending
        };
        assert forall|t: int| 0 <= t < pending1.len() implies (#[trigger] pending1[t] as int)
            < s.len() by {
            if is_prediction_error_of(step.1) && t == pending.len() {
                assert(pending1[t] == step.0);
            } else {
                assert(pending1[t] == pending[t]);
            }
        }
        let (res1, pend1) = interleave_rec(steps, learning_fn, k);
        assert forall|t: int| 0 <= t < res1.len() implies step_ok(s, #[trigger] res1[t]) by {
            if is_posterior_of(step.1) && pending1.len() > 0 {
                let flushed = res + learn_steps(pending1, learning_fn);
                if t < res.len() {
                    assert(res1[t] == res[t]);
                } else if t < flushed.len() {
                    assert(res1[t] == learn_steps(pending1, learning_fn)[t - res.len()]);
                    assert(res1[t].0 == pending1[t - res.len()]);
                } else {
                    assert(res1[t] == step);
                }
            } else {
                if t < res.len() {
                    assert(res1[t] == res[t]);
                } else {
                    assert(res1[t] == step);
                }
            }
        }
    }
}

/// The fully interleaved sequence of a valid sequence is valid.
pub proof fn lemma_interleaved_ok(s: StateV, steps: Seq<(usize, FnType)>, learning_fn: FnType)
    requires
        seq_steps_ok(s, steps),
        is_learning_of(learning_fn),
    ensures
        seq_steps_ok(s, interleaved_of(steps, learning_fn)),
{
    lemma_interleave_ok(s, steps, learning_fn, steps.len() as int);
    let (res, pending) = interleave_rec(steps, learning_fn, steps.len() as int);
    let whole = interleaved_of(steps, learning_fn);
    assert forall|t: int| 0 <= t < whole.len() implies step_ok(s, #[trigger] whole[t]) by {
        if t < res.len() {
            assert(whole[t] == res[t]);
        } else {
            assert(whole[t] == learn_steps(pending, learning_fn)[t - res.len()]);
            assert(whole[t].0 == pending[t - res.len()]);
        }
    }
}

/// Keep the steps whose target is not excluded.
fn filter_steps_exec(steps: &Vec<(usize, FnType)>, excluded: &Vec<usize>) -> (r: Vec<
    (usize, FnType),
>)
    ensures
        r@ == filtered_steps(steps@, excluded@, steps@.len() as int),
{
    let mut r: Vec<(usize, FnType)> = Vec::new();
    let n = steps.len();
    #[verifier::loop_isolation(false)]
    for j in 0..n
        invariant
            r@ == filtered_steps(steps@, excluded@, j as int),
        decreases n - j,
    {
        let (idx, f) = steps[j];
        if !contains_id(excluded, idx) {
            r.push((idx, f));
        }
        proof {
            assert(steps@[j as int] == (idx, f));
        }
    }
    r
}

/// Build the learning schedule: filter both sequences by the predictor
/// ids, then interleave a learning step behind every prediction-error step,
/// flushed before the next posterior step and at the end.
pub fn build_learning_sequence(
    predictions: &Vec<(usize, FnType)>,
    updates: &Vec<(usize, FnType)>,
    inputs_x_idxs: &Vec<usize>,
    learning_fn: FnType,
) -> (r: (Vec<(usize, FnType)>, Vec<(usize, FnType)>))
    ensures
        r.0@ == filtered_steps(predictions@, inputs_x_idxs@, predictions@.len() as int),
        r.1@ == interleaved_of(
            filtered_steps(updates@, inputs_x_idxs@, updates@.len() as int),
            learning_fn,
        ),
{
    let filtered_predictions = filter_steps_exec(predictions, inputs_x_idxs);
    let filtered_updates = filter_steps_exec(updates, inputs_x_idxs);
    let ghost fsteps = filtered_updates@;

    let mut result_updates: Vec<(usize, FnType)> = Vec::new();
    let mut weight_updates: Vec<usize> = Vec::new();
    let n = filtered_updates.len();
    #[verifier::loop_isolation(false)]
    for j in 0..n
        invariant
            (result_updates@, weight_updates@) == interleave_rec(fsteps, learning_fn, j as int),
        decreases n - j,
    {
        let (idx, func) = filtered_updates[j];
        proof {
            assert(fsteps[j as int] == (idx, func));
        }
        if func.is_prediction_error() {
            weight_updates.push(idx);
        }
        if func.is_posterior() && weight_updates.len() > 0 {
            let m = weight_updates.len();
            let ghost res0 = result_updates@;
            let ghost pend = weight_updates@;
            #[verifier::loop_isolation(false)]
            for t in 0..m
                invariant
                    result_updates@ == res0 + learn_steps(pend, learning_fn).take(t as int),
                    weight_updates@ == pend,
                decreases m - t,
            {
                result_updates.push((weight_updates[t], learning_fn));
                proof {
                    assert(result_updates@ =~= res0 + learn_steps(pend, learning_fn).take(
                        t + 1,
                    ));
                }
            }
            proof {
                assert(learn_steps(pend, learning_fn).take(pend.len() as int) =~= learn_steps(
                    pend,
                    learning_fn,
                ));
            }
            weight_updates.clear();
        }
        result_updates.push((idx, func));
        proof {
            assert((result_updates@, weight_updates@) =~~= interleave_rec(
                fsteps,
                learning_fn,
                j + 1,
            ));
        }
    }

    // Flush what is still pending at the end of the list.
    let m = weight_updates.len();
    let ghost res0 = result_updates@;
    let ghost pend = weight_updates@;
    #[verifier::loop_isolation(false)]
    for t in 0..m
        invariant
            result_updates@ == res0 + learn_steps(pend, learning_fn).take(t as int),
            weight_updates@ == pend,
        decreases m - t,
    {
        result_updates.push((weight_updates[t], learning_fn));
        proof {
            assert(result_updates@ =~= res0 + learn_steps(pend, learning_fn).take(t + 1));
        }
    }
    proof {
        assert(learn_steps(pend, learning_fn).take(pend.len() as int) =~= learn_steps(
            pend,
            learning_fn,
        ));
        assert(result_updates@ =~= interleaved_of(fsteps, learning_fn));
    }
    (filtered_predictions, result_updates)
}

} // verus!
