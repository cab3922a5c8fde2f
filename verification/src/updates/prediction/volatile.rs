//! Prediction from a volatile state node.
//!
//! A volatile node carries two levels.  The implicit internal volatility
//! level is predicted first, from its own tonic parameters alone; the
//! external value level is then predicted with total log-volatility
//! `omega + kappa_internal * expected_mean_vol` and the usual drift over the
//! value parents.

use vstd::prelude::*;

use crate::model::{
    copy_vec, floats_updated, lemma_floats_update_preserves, same_shell, Network, NodeFloats,
    StateV,
};
use crate::num::{
    add_bits, add_of, clamp_bits, clamp_of, div_bits, div_of, exp_bits, exp_of, max_bits, max_of,
    mul_bits, mul_of, CLAMP_HI_BITS, CLAMP_LO_BITS, ONE_BITS, TINY_BITS,
};
use crate::updates::prediction::continuous::drift_sum;

verus! {

/// The scalar attributes of volatile node `i` after its prediction step:
/// the volatility level first, then the value level whose predicted
/// volatility it modulates.
pub open spec fn prediction_volatile_floats(s: StateV, i: int, dt: u64) -> NodeFloats {
    let f = s.floats[i];
    let e = s.edges[i];
    let expected_mean_vol = add_of(
        mul_of(f.autoconnection_strength_vol, f.mean_vol),
        mul_of(dt, f.tonic_drift_vol),
    );
    let predicted_volatility_vol = max_of(
        mul_of(dt, exp_of(clamp_of(f.tonic_volatility_vol, CLAMP_LO_BITS, CLAMP_HI_BITS))),
        TINY_BITS,
    );
    let expected_precision_vol = div_of(
        ONE_BITS,
        add_of(div_of(ONE_BITS, f.precision_vol), predicted_volatility_vol),
    );
    let total_volatility = add_of(
        f.tonic_volatility,
        mul_of(f.volatility_coupling_internal, expected_mean_vol),
    );
    let predicted_volatility = max_of(
        mul_of(dt, exp_of(clamp_of(total_volatility, CLAMP_LO_BITS, CLAMP_HI_BITS))),
        TINY_BITS,
    );
    let expected_precision = div_of(
        ONE_BITS,
        add_of(div_of(ONE_BITS, f.precision), predicted_volatility),
    );
    let expected_mean = add_of(
        mul_of(f.autoconnection_strength, f.mean),
        mul_of(dt, drift_sum(s, i, e.vp().len() as int)),
    );
    NodeFloats {
        current_variance: div_of(ONE_BITS, f.precision),
        expected_mean_vol,
        expected_precision_vol,
        effective_precision_vol: mul_of(predicted_volatility_vol, expected_precision_vol),
        expected_mean,
        expected_precision,
        effective_precision: mul_of(predicted_volatility, expected_precision),
        ..f
    }
}

/// Prediction step of a volatile state node: predict the internal
/// volatility level, then the value level, and store the variance snapshot
/// for the unbounded posterior.
pub fn prediction_volatile_state_node(network: &mut Network, node_idx: usize, time_step: u64)
    requires
        old(network).wf(),
        node_idx < old(network).state().len(),
    ensures
        final(network).wf(),
        old(network).state().symmetric() ==> final(network).state().symmetric(),
        floats_updated(
            old(network).state(),
            final(network).state(),
            node_idx as int,
            prediction_volatile_floats(old(network).state(), node_idx as int, time_step),
        ),
        same_shell(old(network), final(network)),
{
    let ghost s0 = network.state();
    let ghost i = node_idx as int;
    proof {
        assert(s0.node_wf(i));
    }
    let f = network.attributes.floats[node_idx];

    // 1. Predict the volatility level from its tonic parameters.
    let expected_mean_vol = add_bits(
        mul_bits(f.autoconnection_strength_vol, f.mean_vol),
        mul_bits(time_step, f.tonic_drift_vol),
    );
    let predicted_volatility_vol = max_bits(
        mul_bits(
            time_step,
            exp_bits(clamp_bits(f.tonic_volatility_vol, CLAMP_LO_BITS, CLAMP_HI_BITS)),
        ),
        TINY_BITS,
    );
    let expected_precision_vol = div_bits(
        ONE_BITS,
        add_bits(div_bits(ONE_BITS, f.precision_vol), predicted_volatility_vol),
    );
    let effective_precision_vol = mul_bits(predicted_volatility_vol, expected_precision_vol);

    // 2. Predict the value level, modulated by the volatility level.
    let total_volatility = add_bits(
        f.tonic_volatility,
        mul_bits(f.volatility_coupling_internal, expected_mean_vol),
    );
    let predicted_volatility = max_bits(
        mul_bits(time_step, exp_bits(clamp_bits(total_volatility, CLAMP_LO_BITS, CLAMP_HI_BITS))),
        TINY_BITS,
    );
    let expected_precision = div_bits(
        ONE_BITS,
        add_bits(div_bits(ONE_BITS, f.precision), predicted_volatility),
    );
    let effective_precision = mul_bits(predicted_volatility, expected_precision);

    let vp_ids: Vec<usize> = match &network.edges[node_idx].value_parents {
        Some(v) => copy_vec(v),
        None => Vec::new(),
    };
    let psis = copy_vec(&network.attributes.value_coupling_parents[node_idx]);
    let n_vp = vp_ids.len();
    let mut driftrate = f.tonic_drift;
    #[verifier::loop_isolation(false)]
    for j in 0..n_vp
        invariant
            driftrate == drift_sum(s0, i, j as int),
        decreases n_vp - j,
    {
        let p = vp_ids[j];
        proof {
            assert(s0.edges[i].vp()[j as int] < s0.len());
        }
        let parent_expected_mean = network.attributes.floats[p].expected_mean;
        driftrate = add_bits(driftrate, mul_bits(psis[j], parent_expected_mean));
    }
    let expected_mean = add_bits(
        mul_bits(f.autoconnection_strength, f.mean),
        mul_bits(time_step, driftrate),
    );

    let mut nf = f;
    nf.current_variance = div_bits(ONE_BITS, f.precision);
    nf.expected_mean_vol = expected_mean_vol;
    nf.expected_precision_vol = expected_precision_vol;
    nf.effective_precision_vol = effective_precision_vol;
    nf.expected_mean = expected_mean;
    nf.expected_precision = expected_precision;
    nf.effective_precision = effective_precision;
    network.attributes.floats[node_idx] = nf;
    proof {
        assert(network.state().floats =~= s0.floats.update(
            i,
            prediction_volatile_floats(s0, i, time_step),
        ));
        lemma_floats_update_preserves(
            s0,
            network.state(),
            i,
            prediction_volatile_floats(s0, i, time_step),
        );
    }
}

} // verus!
