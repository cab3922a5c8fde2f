//! Prospective reconfiguration helpers.
//!
//! A prospective posterior is what a parent's belief would become using
//! only its value children: the precision gathers
//! `pi_hat_c * (kappa^2 * g'(mu)^2 - g''(mu) * delta_c)` onto the expected
//! precision, and the mean gathers `(kappa * g'(mu) * pi_hat_c / pi) *
//! delta_c` onto the expected mean.  The learning rules aim a coupling
//! strength at the belief these would produce.

use vstd::prelude::*;

use crate::model::{copy_vec, Network};
use crate::num::{add_bits, div_bits, mul_bits, sub_bits, ONE_BITS, ZERO_BITS};
use crate::updates::posterior::continuous::{
    mean_value_fold, parent_coupling_lookup, prec_value_fold,
};

verus! {

/// The prospective posterior precision of node `node_idx`, from its value
/// children alone.
pub fn prospective_precision(network: &Network, node_idx: usize) -> (r: u64)
    requires
        network.wf(),
        node_idx < network.state().len(),
    ensures
        r == prec_value_fold(
            network.state(),
            node_idx as int,
            network.state().floats[node_idx as int].expected_precision,
            network.state().edges[node_idx as int].vc().len() as int,
        ),
{
    let ghost s = network.state();
    let ghost i = node_idx as int;
    proof {
        assert(s.node_wf(i));
    }
    let vc_ids: Vec<usize> = match &network.edges[node_idx].value_children {
        Some(v) => copy_vec(v),
        None => Vec::new(),
    };
    let kappas = copy_vec(&network.attributes.value_coupling_children[node_idx]);
    let parent_mean = network.attributes.floats[node_idx].mean;
    let mut precision = network.attributes.floats[node_idx].expected_precision;
    let ghost base = precision;
    let n_vc = vc_ids.len();
    #[verifier::loop_isolation(false)]
    for j in 0..n_vc
        invariant
            precision == prec_value_fold(s, i, base, j as int),
        decreases n_vc - j,
    {
        let c = vc_ids[j];
        proof {
            assert(s.edges[i].vc()[j as int] < s.len());
        }
        let child_expected_precision = network.attributes.floats[c].expected_precision;
        let kappa = kappas[j];
        let (prime_sq, second_term): (u64, u64) = match parent_coupling_lookup(
            network,
            c,
            node_idx,
        ) {
            Some(v) => {
                let g_prime = v.df(parent_mean);
                let g_second = v.d2f(parent_mean);
                let child_vape = network.attributes.floats[c].value_prediction_error;
                (mul_bits(g_prime, g_prime), mul_bits(g_second, child_vape))
            },
            None => (ONE_BITS, ZERO_BITS),
        };
        precision = add_bits(
            precision,
            mul_bits(
                child_expected_precision,
                sub_bits(mul_bits(mul_bits(kappa, kappa), prime_sq), second_term),
            ),
        );
    }
    precision
}

/// The prospective posterior mean of node `node_idx`, from its value
/// children alone, with `node_precision` as the dividing precision.
pub fn prospective_mean(network: &Network, node_idx: usize, node_precision: u64) -> (r: u64)
    requires
        network.wf(),
        node_idx < network.state().len(),
    ensures
        r == mean_value_fold(
            network.state(),
            node_idx as int,
            node_precision,
            network.state().floats[node_idx as int].expected_mean,
            network.state().edges[node_idx as int].vc().len() as int,
        ),
{
    let ghost s = network.state();
    let ghost i = node_idx as int;
    proof {
        assert(s.node_wf(i));
    }
    let vc_ids: Vec<usize> = match &network.edges[node_idx].value_children {
        Some(v) => copy_vec(v),
        None => Vec::new(),
    };
    let kappas = copy_vec(&network.attributes.value_coupling_children[node_idx]);
    let parent_mean = network.attributes.floats[node_idx].mean;
    let mut posterior_mean = network.attributes.floats[node_idx].expected_mean;
    let ghost base = posterior_mean;
    let n_vc = vc_ids.len();
    #[verifier::loop_isolation(false)]
    for j in 0..n_vc
        invariant
            posterior_mean == mean_value_fold(s, i, node_precision, base, j as int),
        decreases n_vc - j,
    {
        let c = vc_ids[j];
        proof {
            assert(s.edges[i].vc()[j as int] < s.len());
        }
        let child_expected_precision = network.attributes.floats[c].expected_precision;
        let child_vape = network.attributes.floats[c].value_prediction_error;
        let kappa = kappas[j];
        let prime: u64 = match parent_coupling_lookup(network, c, node_idx) {
            Some(v) => v.df(parent_mean),
            None => ONE_BITS,
        };
        posterior_mean = add_bits(
            posterior_mean,
            mul_bits(
                div_bits(
                    mul_bits(mul_bits(kappa, prime), child_expected_precision),
                    node_precision,
                ),
                child_vape,
            ),
        );
    }
    posterior_mean
}

} // verus!
