//! The weight-learning rules.
//!
//! For every value parent of a child node, a rule computes the parent's
//! prospective posterior, evaluates the edge's coupling function at the
//! prospective mean, derives the coupling strength that would explain the
//! child's mean, and moves the current strength towards it.  The fixed-rate
//! rule moves at the node's learning rate; the dynamic rule moves at the
//! precision weighting `pi_hat_child / (pi_hat_parent + pi_hat_child)`.  A
//! target or a new strength that is NaN or infinite falls back to the
//! current strength; the write goes symmetrically through the coupling
//! setter.

use vstd::prelude::*;

use crate::math::{coupling_f_of, CouplingFn};
use crate::model::{copy_vec, same_shell, Network, StateV};
use crate::num::{
    abs_bits, abs_of, add_bits, add_of, count_bits, count_of, div_bits, div_of, inf_bits, is_inf,
    is_nan, lt_bits, lt_of, mul_bits, mul_of, nan_bits, sub_bits, sub_of, ONE_BITS, TINY_BITS,
};
use crate::updates::posterior::continuous::{
    mean_value_fold, parent_coupling_fn, parent_coupling_lookup, prec_value_fold,
};
use crate::utils::prospective::{prospective_mean, prospective_precision};
use crate::utils::set_coupling::{set_coupling, set_coupling_state};

verus! {

/// The new coupling strength the fixed-rate rule writes for the `j`-th
/// value parent of child `i`, computed on state `s` with the parent's
/// prospective belief, the child's mean, the rate `lr` and the parent-count
/// weighting `w`.  `kappa` is the strength before this learning step began.
pub open spec fn learned_coupling(
    s: StateV,
    i: int,
    p: usize,
    kappa: u64,
    child_mean: u64,
    rate: u64,
    w: u64,
) -> u64 {
    let pp = prec_value_fold(
        s,
        p as int,
        s.floats[p as int].expected_precision,
        s.edges[p as int].vc().len() as int,
    );
    let pm = mean_value_fold(
        s,
        p as int,
        pp,
        s.floats[p as int].expected_mean,
        s.edges[p as int].vc().len() as int,
    );
    let g_value = match parent_coupling_fn(s, i, p) {
        Some(v) => coupling_f_of(v, pm),
        None => pm,
    };
    let ec0 = if lt_of(abs_of(g_value), TINY_BITS) {
        kappa
    } else {
        div_of(child_mean, g_value)
    };
    let ec = if nan_bits(ec0) || inf_bits(ec0) {
        kappa
    } else {
        ec0
    };
    let nk = add_of(kappa, mul_of(mul_of(sub_of(ec, kappa), rate), w));
    if nan_bits(nk) || inf_bits(nk) {
        kappa
    } else {
        nk
    }
}

/// The precision weighting the dynamic rule uses in place of a fixed rate:
/// `pi_hat_child / (pi_hat_parent + pi_hat_child)`.
pub open spec fn dynamic_rate(s: StateV, p: usize, child_expected_precision: u64) -> u64 {
    div_of(
        child_expected_precision,
        add_of(s.floats[p as int].expected_precision, child_expected_precision),
    )
}

/// The state after the first `k` value parents of child `i` have been
/// relearned by the fixed-rate rule.
pub open spec fn learning_fixed_state(s: StateV, i: int, k: int) -> StateV
    decreases k,
{
    if k <= 0 {
        s
    } else {
        let s_prev = learning_fixed_state(s, i, k - 1);
        let p = s.edges[i].vp()[k - 1];
        let kappa = s.value_coupling_parents[i][k - 1];
        let w = div_of(ONE_BITS, count_of(s.edges[i].vp().len() as usize));
        let nk = learned_coupling(s_prev, i, p, kappa, s.floats[i].mean, s.floats[i].lr, w);
        set_coupling_state(s_prev, p, i as usize, nk)
    }
}

/// The state after the first `k` value parents of child `i` have been
/// relearned by the dynamic rule.
pub open spec fn learning_dynamic_state(s: StateV, i: int, k: int) -> StateV
    decreases k,
{
    if k <= 0 {
        s
    } else {
        let s_prev = learning_dynamic_state(s, i, k - 1);
        let p = s.edges[i].vp()[k - 1];
        let kappa = s.value_coupling_parents[i][k - 1];
        let w = div_of(ONE_BITS, count_of(s.edges[i].vp().len() as usize));
        let rate = dynamic_rate(s_prev, p, s.floats[i].expected_precision);
        let nk = learned_coupling(s_prev, i, p, kappa, s.floats[i].mean, rate, w);
        set_coupling_state(s_prev, p, i as usize, nk)
    }
}

/// A learning pass changes only coupling strengths: edges, scalar
/// attributes and sufficient statistics stay as they were.
pub proof fn lemma_learning_fixed_frame(s: StateV, i: int, k: int)
    ensures
        learning_fixed_state(s, i, k).edges == s.edges,
        learning_fixed_state(s, i, k).floats == s.floats,
        learning_fixed_state(s, i, k).xis == s.xis,
        learning_fixed_state(s, i, k).value_coupling_fn_parents == s.value_coupling_fn_parents,
        learning_fixed_state(s, i, k).volatility_coupling_parents
            == s.volatility_coupling_parents,
        learning_fixed_state(s, i, k).volatility_coupling_children
            == s.volatility_coupling_children,
    decreases k,
{
    if k > 0 {
        lemma_learning_fixed_frame(s, i, k - 1);
    }
}

/// The dynamic rule has the same frame.
pub proof fn lemma_learning_dynamic_frame(s: StateV, i: int, k: int)
    ensures
        learning_dynamic_state(s, i, k).edges == s.edges,
        learning_dynamic_state(s, i, k).floats == s.floats,
        learning_dynamic_state(s, i, k).xis == s.xis,
        learning_dynamic_state(s, i, k).value_coupling_fn_parents == s.value_coupling_fn_parents,
        learning_dynamic_state(s, i, k).volatility_coupling_parents
            == s.volatility_coupling_parents,
        learning_dynamic_state(s, i, k).volatility_coupling_children
            == s.volatility_coupling_children,
    decreases k,
{
    if k > 0 {
        lemma_learning_dynamic_frame(s, i, k - 1);
    }
}

/// Fixed-rate weight update of every value-parent coupling of `node_idx`.
pub fn learning_weights_fixed(network: &mut Network, node_idx: usize, _time_step: u64)
    requires
        old(network).inv(),
        node_idx < old(network).state().len(),
    ensures
        final(network).inv(),
        final(network).state() == learning_fixed_state(
            old(network).state(),
            node_idx as int,
            old(network).state().edges[node_idx as int].vp().len() as int,
        ),
        same_shell(old(network), final(network)),
{
    let ghost s0 = network.state();
    let ghost i = node_idx as int;
    proof {
        assert(s0.node_wf(i));
    }
    let vp_ids: Vec<usize> = match &network.edges[node_idx].value_parents {
        Some(v) => copy_vec(v),
        None => Vec::new(),
    };
    let kappas = copy_vec(&network.attributes.value_coupling_parents[node_idx]);
    let child_mean = network.attributes.floats[node_idx].mean;
    let lr = network.attributes.floats[node_idx].lr;
    let weighting = div_bits(ONE_BITS, count_bits(vp_ids.len()));
    let n_vp = vp_ids.len();
    proof {
        assert(vp_ids@ =~= s0.edges[i].vp());
    }
    #[verifier::loop_isolation(false)]
    for j in 0..n_vp
        invariant
            network.inv(),
            network.state() == learning_fixed_state(s0, i, j as int),
            network.state().len() == s0.len(),
            network.state().floats == s0.floats,
            network.state().edges == s0.edges,
            same_shell(old(network), network),
        decreases n_vp - j,
    {
        let parent_idx = vp_ids[j];
        let value_coupling = kappas[j];
        proof {
            assert(s0.edges[i].vp()[j as int] < s0.len());
        }
        let prosp_precision = prospective_precision(network, parent_idx);
        let prosp_mean = prospective_mean(network, parent_idx, prosp_precision);
        let g_value: u64 = match parent_coupling_lookup(network, node_idx, parent_idx) {
            Some(v) => v.f(prosp_mean),
            None => prosp_mean,
        };
        let mut expected_coupling = if lt_bits(abs_bits(g_value), TINY_BITS) {
            value_coupling
        } else {
            div_bits(child_mean, g_value)
        };
        if is_nan(expected_coupling) || is_inf(expected_coupling) {
            expected_coupling = value_coupling;
        }
        let mut new_value_coupling = add_bits(
            value_coupling,
            mul_bits(mul_bits(sub_bits(expected_coupling, value_coupling), lr), weighting),
        );
        if is_nan(new_value_coupling) || is_inf(new_value_coupling) {
            new_value_coupling = value_coupling;
        }
        set_coupling(network, parent_idx, node_idx, new_value_coupling);
    }
}

/// Dynamic weight update of every value-parent coupling of `node_idx`,
/// with the precision weighting as the rate.
pub fn learning_weights_dynamic(network: &mut Network, node_idx: usize, _time_step: u64)
    requires
        old(network).inv(),
        node_idx < old(network).state().len(),
    ensures
        final(network).inv(),
        final(network).state() == learning_dynamic_state(
            old(network).state(),
            node_idx as int,
            old(network).state().edges[node_idx as int].vp().len() as int,
        ),
        same_shell(old(network), final(network)),
{
    let ghost s0 = network.state();
    let ghost i = node_idx as int;
    proof {
        assert(s0.node_wf(i));
    }
    let vp_ids: Vec<usize> = match &network.edges[node_idx].value_parents {
        Some(v) => copy_vec(v),
        None => Vec::new(),
    };
    let kappas = copy_vec(&network.attributes.value_coupling_parents[node_idx]);
    let child_mean = network.attributes.floats[node_idx].mean;
    let child_expected_precision = network.attributes.floats[node_idx].expected_precision;
    let weighting = div_bits(ONE_BITS, count_bits(vp_ids.len()));
    let n_vp = vp_ids.len();
    proof {
        assert(vp_ids@ =~= s0.edges[i].vp());
    }
    #[verifier::loop_isolation(false)]
    for j in 0..n_vp
        invariant
            network.inv(),
            network.state() == learning_dynamic_state(s0, i, j as int),
            network.state().len() == s0.len(),
            network.state().floats == s0.floats,
            network.state().edges == s0.edges,
            same_shell(old(network), network),
        decreases n_vp - j,
    {
        let parent_idx = vp_ids[j];
        let value_coupling = kappas[j];
        proof {
            assert(s0.edges[i].vp()[j as int] < s0.len());
        }
        let prosp_precision = prospective_precision(network, parent_idx);
        let prosp_mean = prospective_mean(network, parent_idx, prosp_precision);
        let g_value: u64 = match parent_coupling_lookup(network, node_idx, parent_idx) {
            Some(v) => v.f(prosp_mean),
            None => prosp_mean,
        };
        let mut expected_coupling = if lt_bits(abs_bits(g_value), TINY_BITS) {
            value_coupling
        } else {
            div_bits(child_mean, g_value)
        };
        if is_nan(expected_coupling) || is_inf(expected_coupling) {
            expected_coupling = value_coupling;
        }
        let parent_expected_precision = network.attributes.floats[parent_idx].expected_precision;
        let precision_weighting = div_bits(
            child_expected_precision,
            add_bits(parent_expected_precision, child_expected_precision),
        );
        let mut new_value_coupling = add_bits(
            value_coupling,
            mul_bits(
                mul_bits(sub_bits(expected_coupling, value_coupling), precision_weighting),
                weighting,
            ),
        );
        if is_nan(new_value_coupling) || is_inf(new_value_coupling) {
            new_value_coupling = value_coupling;
        }
        set_coupling(network, parent_idx, node_idx, new_value_coupling);
    }
}

} // verus!
