//! Prediction from a continuous state node.
//!
//! The expected mean is `lambda * mu + dt * driftrate` with
//! `driftrate = rho + sum(psi_j * expected_mean_parent_j)` over the value
//! parents.  The expected precision is `1 / (1/pi + omega)` with the
//! predicted volatility `omega = max(dt * exp(clamp(omega_tonic +
//! sum(kappa_j * mu_parent_j), -80, 80)), 1e-128)`, and the effective
//! precision is `omega * expected_precision`.

use vstd::prelude::*;

use crate::model::{floats_updated, lemma_floats_update_preserves, same_shell, copy_vec, Network, NodeFloats, StateV};
use crate::num::{
    add_bits, add_of, clamp_bits, clamp_of, div_bits, div_of, exp_bits, exp_of, max_bits, max_of,
    mul_bits, mul_of, CLAMP_HI_BITS, CLAMP_LO_BITS, ONE_BITS, TINY_BITS,
};

verus! {

/// The drift rate of node `i` after its first `k` value parents have
/// contributed: tonic drift plus `psi_j * expected_mean_parent_j` for each.
pub open spec fn drift_sum(s: StateV, i: int, k: int) -> u64
    decreases k,
{
    if k <= 0 {
        s.floats[i].tonic_drift
    } else {
        add_of(
            drift_sum(s, i, k - 1),
            mul_of(
                s.value_coupling_parents[i][k - 1],
                s.floats[s.edges[i].vp()[k - 1] as int].expected_mean,
            ),
        )
    }
}

/// The total log-volatility of node `i` after its first `k` volatility
/// parents have contributed: tonic volatility plus `kappa_j * mu_parent_j`.
pub open spec fn total_volatility_sum(s: StateV, i: int, k: int) -> u64
    decreases k,
{
    if k <= 0 {
        s.floats[i].tonic_volatility
    } else {
        add_of(
            total_volatility_sum(s, i, k - 1),
            mul_of(
                s.volatility_coupling_parents[i][k - 1],
                s.floats[s.edges[i].qp()[k - 1] as int].mean,
            ),
        )
    }
}

/// The predicted volatility of node `i`:
/// `max(dt * exp(clamp(total, -80, 80)), 1e-128)`.
pub open spec fn predicted_volatility_of(s: StateV, i: int, dt: u64) -> u64 {
    max_of(
        mul_of(
            dt,
            exp_of(
                clamp_of(
                    total_volatility_sum(s, i, s.edges[i].qp().len() as int),
                    CLAMP_LO_BITS,
                    CLAMP_HI_BITS,
                ),
            ),
        ),
        TINY_BITS,
    )
}

/// The scalar attributes of node `i` after its prediction step.  An input
/// node without volatility parents keeps its expected precision: its data
/// likelihood is caller-controlled.
pub open spec fn prediction_continuous_floats(s: StateV, i: int, dt: u64) -> NodeFloats {
    let f = s.floats[i];
    let e = s.edges[i];
    let expected_mean = add_of(
        mul_of(f.autoconnection_strength, f.mean),
        mul_of(dt, drift_sum(s, i, e.vp().len() as int)),
    );
    let pv = predicted_volatility_of(s, i, dt);
    let expected_precision = div_of(ONE_BITS, add_of(div_of(ONE_BITS, f.precision), pv));
    let keep = e.is_input() && e.volatility_parents is None;
    NodeFloats {
        expected_mean,
        expected_precision: if keep {
            f.expected_precision
        } else {
            expected_precision
        },
        current_variance: div_of(ONE_BITS, f.precision),
        effective_precision: mul_of(pv, expected_precision),
        ..f
    }
}

/// Prediction step of a continuous state node: compute and store the
/// expected mean, expected precision, effective precision, and the variance
/// snapshot `1 / pi` read by the unbounded posterior a step later.
pub fn prediction_continuous_state_node(network: &mut Network, node_idx: usize, time_step: u64)
    requires
        old(network).wf(),
        node_idx < old(network).state().len(),
    ensures
        final(network).wf(),
        old(network).state().symmetric() ==> final(network).state().symmetric(),
        floats_updated(
            old(network).state(),
            final(network).state(),
            node_idx as int,
            prediction_continuous_floats(old(network).state(), node_idx as int, time_step),
        ),
        same_shell(old(network), final(network)),
{
    let ghost s0 = network.state();
    let ghost i = node_idx as int;
    proof {
        assert(s0.node_wf(i));
    }
    let f = network.attributes.floats[node_idx];

    // 1. Drift rate: tonic drift plus the value parents' contributions.
    let vp_ids: Vec<usize> = match &network.edges[node_idx].value_parents {
        Some(v) => copy_vec(v),
        None => Vec::new(),
    };
    let psis = copy_vec(&network.attributes.value_coupling_parents[node_idx]);
    let n_vp = vp_ids.len();
    let mut driftrate = f.tonic_drift;
    #[verifier::loop_isolation(false)]
    for j in 0..n_vp
        invariant
            driftrate == drift_sum(s0, i, j as int),
        decreases n_vp - j,
    {
        let p = vp_ids[j];
        proof {
            assert(s0.edges[i].vp()[j as int] < s0.len());
        }
        let parent_expected_mean = network.attributes.floats[p].expected_mean;
        driftrate = add_bits(driftrate, mul_bits(psis[j], parent_expected_mean));
    }
    let expected_mean = add_bits(
        mul_bits(f.autoconnection_strength, f.mean),
        mul_bits(time_step, driftrate),
    );

    // 2. Total log-volatility and the predicted precision.
    let qp_ids: Vec<usize> = match &network.edges[node_idx].volatility_parents {
        Some(v) => copy_vec(v),
        None => Vec::new(),
    };
    let kappas = copy_vec(&network.attributes.volatility_coupling_parents[node_idx]);
    let n_qp = qp_ids.len();
    let mut total_volatility = f.tonic_volatility;
    #[verifier::loop_isolation(false)]
    for j in 0..n_qp
        invariant
            total_volatility == total_volatility_sum(s0, i, j as int),
        decreases n_qp - j,
    {
        let p = qp_ids[j];
        proof {
            assert(s0.edges[i].qp()[j as int] < s0.len());
        }
        let parent_mean = network.attributes.floats[p].mean;
        total_volatility = add_bits(total_volatility, mul_bits(kappas[j], parent_mean));
    }
    let predicted_volatility = max_bits(
        mul_bits(time_step, exp_bits(clamp_bits(total_volatility, CLAMP_LO_BITS, CLAMP_HI_BITS))),
        TINY_BITS,
    );
    let expected_precision = div_bits(
        ONE_BITS,
        add_bits(div_bits(ONE_BITS, f.precision), predicted_volatility),
    );
    let effective_precision = mul_bits(predicted_volatility, expected_precision);

    // 3. Store, keeping the expected precision of an input node without
    // volatility parents.
    let is_input = network.edges[node_idx].value_children.is_none()
        && network.edges[node_idx].volatility_children.is_none();
    let has_volatility_parents = network.edges[node_idx].volatility_parents.is_some();
    let mut nf = f;
    nf.expected_mean = expected_mean;
    if !(is_input && !has_volatility_parents) {
        nf.expected_precision = expected_precision;
    }
    nf.current_variance = div_bits(ONE_BITS, f.precision);
    nf.effective_precision = effective_precision;
    network.attributes.floats[node_idx] = nf;
    proof {
        assert(network.state().floats =~= s0.floats.update(
            i,
            prediction_continuous_floats(s0, i, time_step),
        ));
        lemma_floats_update_preserves(
            s0,
            network.state(),
            i,
            prediction_continuous_floats(s0, i, time_step),
        );
    }
}

} // verus!
