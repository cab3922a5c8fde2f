//! Network-level laws, stated and proved against the kernels' contracts.

use vstd::prelude::*;

use crate::model::{
    add_one_post, child_list_ok, fit_learning_fn, fit_predictions, fit_run, fit_start,
    fit_updates, run_state, Network, NodeKind, StateV,
};
use crate::num::{le_of, max_of, nan_bits, EXP_MASK, ONE_BITS, TINY_BITS};
use crate::updates::posterior::continuous::{
    posterior_continuous_ehgf_floats, posterior_continuous_standard_floats,
    posterior_continuous_unbounded_floats,
};
use crate::updates::posterior::volatile::{
    posterior_volatile_ehgf_floats, posterior_volatile_standard_floats,
    posterior_volatile_unbounded_floats,
};
use crate::updates::prediction::continuous::{
    prediction_continuous_floats, predicted_volatility_of,
};
use crate::updates::prediction::volatile::prediction_volatile_floats;
use crate::utils::function_pointer::FnType;
use crate::utils::set_coupling::set_coupling_state;
use crate::utils::set_sequence::{predictions_of, updates_of};

verus! {

/// The global floor is an ordinary (non-NaN) number.
pub proof fn lemma_tiny_not_nan()
    ensures
        !nan_bits(TINY_BITS),
{
    assert(TINY_BITS & EXP_MASK != EXP_MASK) by (bit_vector);
}

/// Flooring at `1e-128` really floors: whatever the other operand, the
/// result is at least the floor in the IEEE order, and never NaN.
pub proof fn lemma_max_floor_all()
    ensures
        forall|x: u64|
            le_of(TINY_BITS, #[trigger] max_of(x, TINY_BITS)) && !nan_bits(
                max_of(x, TINY_BITS),
            ),
{
    lemma_tiny_not_nan();
}

/// Law (precision positivity): every posterior update floors the
/// precisions it writes at `1e-128` in the IEEE order, never NaN — the
/// standard, eHGF and unbounded continuous posteriors, the volatile value
/// level, and the volatile volatility level in all three variants — and
/// the prediction phase floors the predicted volatility the same way.  The
/// expected precision `1/(1/pi + omega)` carries no floor of its own; its
/// positivity on ordinary inputs is checked by tests.
pub proof fn posterior_precision_floored(s: StateV, i: int, dt: u64)
    ensures
        le_of(TINY_BITS, posterior_continuous_standard_floats(s, i).precision),
        le_of(TINY_BITS, posterior_continuous_ehgf_floats(s, i).precision),
        le_of(TINY_BITS, posterior_continuous_unbounded_floats(s, i).precision),
        le_of(TINY_BITS, posterior_volatile_standard_floats(s, i).precision),
        le_of(TINY_BITS, posterior_volatile_standard_floats(s, i).precision_vol),
        le_of(TINY_BITS, posterior_volatile_ehgf_floats(s, i).precision),
        le_of(TINY_BITS, posterior_volatile_ehgf_floats(s, i).precision_vol),
        le_of(TINY_BITS, posterior_volatile_unbounded_floats(s, i).precision),
        le_of(TINY_BITS, posterior_volatile_unbounded_floats(s, i).precision_vol),
        le_of(TINY_BITS, predicted_volatility_of(s, i, dt)),
{
    lemma_max_floor_all();
}

/// Law (variance snapshot): the prediction phase of either node kind
/// writes `current_variance = 1 / precision` from the precision it found,
/// and leaves the precision itself alone, so the snapshot a posterior
/// update reads one step later is the reciprocal of the previous step's
/// posterior precision.
pub proof fn prediction_snapshots_variance(s: StateV, i: int, dt: u64)
    ensures
        prediction_continuous_floats(s, i, dt).current_variance == crate::num::div_of(
            ONE_BITS,
            s.floats[i].precision,
        ),
        prediction_volatile_floats(s, i, dt).current_variance == crate::num::div_of(
            ONE_BITS,
            s.floats[i].precision,
        ),
        prediction_continuous_floats(s, i, dt).precision == s.floats[i].precision,
        prediction_volatile_floats(s, i, dt).precision == s.floats[i].precision,
{
}

/// Law (schedule determinism): the planner reads only the coupling
/// structure, the update variant and the input list; two networks that
/// agree on those plan identical prediction and update sequences.
pub proof fn schedule_deterministic(a: &Network, b: &Network)
    requires
        a.state().edges == b.state().edges,
        a.update_type == b.update_type,
        a.inputs@ == b.inputs@,
    ensures
        predictions_of(a.state()) == predictions_of(b.state()),
        updates_of(a.state(), a.update_type, a.inputs@) == updates_of(
            b.state(),
            b.update_type,
            b.inputs@,
        ),
{
}

/// Law (fit determinism): a fit run is a pure function of the starting
/// state, the input list, the update variant, the id lists, the data and
/// the learning-rate choice; two networks that agree on those end every
/// step of the run in the same state.
pub proof fn fit_deterministic(
    a: &Network,
    b: &Network,
    xids: Seq<usize>,
    yids: Seq<usize>,
    x: Seq<Seq<u64>>,
    y: Seq<Seq<u64>>,
    lr: Option<u64>,
    k: int,
)
    requires
        a.state() == b.state(),
        a.inputs@ == b.inputs@,
        a.update_type == b.update_type,
    ensures
        fit_run(
            fit_start(a.state(), xids, lr),
            a.inputs@,
            xids,
            yids,
            x,
            y,
            fit_predictions(a, xids),
            fit_updates(a, xids, fit_learning_fn(lr)),
            k,
        ) == fit_run(
            fit_start(b.state(), xids, lr),
            b.inputs@,
            xids,
            yids,
            x,
            y,
            fit_predictions(b, xids),
            fit_updates(b, xids, fit_learning_fn(lr)),
            k,
        ),
{
    assert(fit_predictions(a, xids) == fit_predictions(b, xids));
    assert(fit_updates(a, xids, fit_learning_fn(lr)) == fit_updates(b, xids, fit_learning_fn(lr)));
}

/// Law (edge symmetry, node insertion): inserting one node with existing,
/// duplicate-free child lists keeps the graph well formed and symmetric:
/// every edge is listed from both of its ends with equal coupling
/// strengths at the matching positions.
pub proof fn node_insertion_keeps_symmetry(
    s0: StateV,
    s1: StateV,
    kind: NodeKind,
    vco: Option<Seq<usize>>,
    qco: Option<Seq<usize>>,
    cf: Option<crate::math::CouplingFn>,
)
    requires
        s0.wf(),
        s0.symmetric(),
        s0.len() <= usize::MAX as int,
        child_list_ok(s0, vco),
        child_list_ok(s0, qco),
        add_one_post(s0, s1, kind, vco, qco, cf),
    ensures
        s1.wf(),
        s1.symmetric(),
{
    crate::model::lemma_add_one_inv(s0, s1, kind, vco, qco, cf);
}

/// Law (edge symmetry, coupling write): writing a coupling strength
/// through both sides of a value edge keeps the graph well formed and
/// symmetric.
pub proof fn coupling_write_keeps_symmetry(s0: StateV, p: usize, c: usize, kappa: u64)
    requires
        s0.wf(),
        s0.symmetric(),
        s0.len() <= usize::MAX as int,
    ensures
        set_coupling_state(s0, p, c, kappa).wf(),
        set_coupling_state(s0, p, c, kappa).symmetric(),
{
    crate::utils::set_coupling::lemma_set_coupling_preserves(s0, p, c, kappa);
}

/// Law (variance snapshot across a run): in a run whose prediction list
/// holds prediction kernels only and includes a step for node `i`, and
/// whose update list holds no prediction kernel — as the planner's outputs
/// do for every scheduled node — each step leaves node `i` carrying
/// `current_variance` equal to the reciprocal of its precision at the end
/// of the step before.  With `input_data`'s trajectory clauses, the
/// recorded `current_variance` at step `t` is the reciprocal of the
/// recorded `precision` at step `t - 1`.
pub proof fn variance_snapshot_in_run(
    s: StateV,
    inputs: Seq<usize>,
    observations: Seq<u64>,
    predictions: Seq<(usize, FnType)>,
    updates: Seq<(usize, FnType)>,
    dts: Seq<u64>,
    t: int,
    i: int,
)
    requires
        t >= 0,
        0 <= i < s.floats.len(),
        forall|k: int|
            0 <= k < predictions.len()
                ==> crate::utils::beliefs_propagation::is_prediction_tag(
                (#[trigger] predictions[k]).1,
            ),
        forall|k: int|
            0 <= k < predictions.len() ==> ((#[trigger] predictions[k].0) as int)
                < s.floats.len(),
        forall|k: int|
            0 <= k < updates.len() ==> !crate::utils::beliefs_propagation::is_prediction_tag(
                (#[trigger] updates[k]).1,
            ),
        forall|k: int| 0 <= k < updates.len() ==> ((#[trigger] updates[k].0) as int) < s.floats.len(),
        inputs.len() > 0 && (inputs[0] as int) < s.floats.len(),
        exists|k: int| 0 <= k < predictions.len() && (#[trigger] predictions[k].0) as int == i,
    ensures
        run_state(s, inputs, observations, predictions, updates, dts, t).floats.len()
            == s.floats.len(),
        t >= 1 ==> run_state(
            s,
            inputs,
            observations,
            predictions,
            updates,
            dts,
            t,
        ).floats[i].current_variance == crate::num::div_of(
            ONE_BITS,
            run_state(s, inputs, observations, predictions, updates, dts, t - 1).floats[
                i].precision,
        ),
    decreases t,
{
    if t > 0 {
        variance_snapshot_in_run(s, inputs, observations, predictions, updates, dts, t - 1, i);
        let sp = run_state(s, inputs, observations, predictions, updates, dts, t - 1);
        let obs_t = seq![observations[t - 1]];
        assert forall|k: int| 0 <= k < obs_t.len() implies ((#[trigger] inputs[k]) as int)
            < sp.floats.len() by {
            assert(k == 0);
        }
        crate::utils::beliefs_propagation::lemma_bp_variance_snapshot(
            sp,
            inputs,
            obs_t,
            predictions,
            updates,
            dts[t - 1],
            i,
        );
        crate::utils::beliefs_propagation::lemma_prediction_pass_snapshot(
            sp,
            predictions,
            dts[t - 1],
            predictions.len() as int,
            i,
        );
        let s1 = crate::utils::beliefs_propagation::apply_steps(
            sp,
            predictions,
            dts[t - 1],
            predictions.len() as int,
        );
        crate::utils::beliefs_propagation::lemma_inject_keeps_variance(
            s1,
            inputs,
            obs_t,
            obs_t.len() as int,
            i,
        );
        let s2 = crate::utils::beliefs_propagation::inject_observations(
            s1,
            inputs,
            obs_t,
            obs_t.len() as int,
        );
        crate::utils::beliefs_propagation::lemma_update_pass_keeps_variance(
            s2,
            updates,
            dts[t - 1],
            updates.len() as int,
            i,
        );
    }
}

} // verus!
