//! Posterior updates of a continuous state node.
//!
//! The precision gathers, over the value children, terms
//! `pi_hat_c * (kappa^2 * g'(mu)^2 - g''(mu) * delta_c)` and, over the
//! volatility children, terms
//! `0.5*(kappa*gamma)^2 + (kappa*gamma)^2*Delta - 0.5*kappa^2*gamma*Delta`;
//! the result is floored at `1e-128`.  The mean gathers
//! `(kappa * g'(mu) * pi_hat_c / pi) * delta_c` and
//! `(kappa * gamma * Delta) / (2*pi)`.  The standard variant updates the
//! precision first and divides the mean terms by it; the eHGF variant
//! updates the mean first, dividing by the expected precision; the
//! unbounded variant forms two quadratic approximations around different
//! expansion points and blends them with a smoothed-rectangle weight.

use vstd::prelude::*;

use crate::math::{coupling_d1_of, coupling_d2_of, sigmoid_of, CouplingFn};
use crate::model::{
    copy_vec, find_id, find_pos, floats_updated, lemma_floats_update_preserves, same_shell,
    Network, NodeFloats, StateV,
};
use crate::num::{
    add_bits, add_of, clamp_bits, clamp_of, div_bits, div_of, exp_bits, exp_of, ln_bits, ln_of,
    max_bits, max_of, mul_bits, mul_of, neg_bits, neg_of, sqrt_bits, sqrt_of, sub_bits, sub_of,
    CLAMP_HI_BITS, CLAMP_LO_BITS, EIGHT_BITS, HALF_BITS, ONE_BITS, ONE_POINT_TWO_BITS, THREE_BITS,
    TINY_BITS, TWO_BITS, ZERO_BITS,
};

verus! {

/// The parametrised sigmoid `sigmoid(phi * (x - theta))`.
pub open spec fn s_of(x: u64, theta: u64, phi: u64) -> u64 {
    sigmoid_of(mul_of(phi, sub_of(x, theta)))
}

/// The smoothed rectangular weighting
/// `s(x; theta_l, phi_l) * (1 - s(x; theta_r, phi_r))`.
pub open spec fn b_of(x: u64, theta_l: u64, phi_l: u64, theta_r: u64, phi_r: u64) -> u64 {
    mul_of(s_of(x, theta_l, phi_l), sub_of(ONE_BITS, s_of(x, theta_r, phi_r)))
}

/// The coupling function stored on child `c` for parent `p`: the entry at
/// `p`'s position in `c`'s value-parent list, absent when `p` is not listed.
pub open spec fn parent_coupling_fn(s: StateV, c: int, p: usize) -> Option<CouplingFn> {
    if s.edges[c].vp().contains(p) {
        s.value_coupling_fn_parents[c][find_id(s.edges[c].vp(), p)]
    } else {
        None
    }
}

/// The value child contribution to the precision of parent `i` at child
/// position `j`: `pi_hat_c * (kappa^2 * g'(mu)^2 - g''(mu) * delta_c)`,
/// with `(1, 0)` in place of the derivatives when no coupling function is
/// stored.
pub open spec fn prec_value_term(s: StateV, i: int, j: int) -> u64 {
    let c = s.edges[i].vc()[j] as int;
    let kappa = s.value_coupling_children[i][j];
    let pm = s.floats[i].mean;
    let cf = parent_coupling_fn(s, c, i as usize);
    let prime_sq = match cf {
        Some(v) => mul_of(coupling_d1_of(v, pm), coupling_d1_of(v, pm)),
        None => ONE_BITS,
    };
    let second_term = match cf {
        Some(v) => mul_of(coupling_d2_of(v, pm), s.floats[c].value_prediction_error),
        None => ZERO_BITS,
    };
    mul_of(
        s.floats[c].expected_precision,
        sub_of(mul_of(mul_of(kappa, kappa), prime_sq), second_term),
    )
}

/// The precision contributions of the first `k` value children of `i`,
/// added onto `base` in order.
pub open spec fn prec_value_fold(s: StateV, i: int, base: u64, k: int) -> u64
    decreases k,
{
    if k <= 0 {
        base
    } else {
        add_of(prec_value_fold(s, i, base, k - 1), prec_value_term(s, i, k - 1))
    }
}

/// The volatility child contribution to the precision of parent `i` at
/// child position `j`.
pub open spec fn prec_vol_term(s: StateV, i: int, j: int) -> u64 {
    let c = s.edges[i].qc()[j] as int;
    let kappa = s.volatility_coupling_children[i][j];
    let gamma = s.floats[c].effective_precision;
    let delta = s.floats[c].volatility_prediction_error;
    let kg2 = mul_of(mul_of(kappa, gamma), mul_of(kappa, gamma));
    sub_of(
        add_of(mul_of(HALF_BITS, kg2), mul_of(kg2, delta)),
        mul_of(mul_of(mul_of(HALF_BITS, mul_of(kappa, kappa)), gamma), delta),
    )
}

/// The precision contributions of the first `k` volatility children of
/// `i`, added onto `base` in order.
pub open spec fn prec_vol_fold(s: StateV, i: int, base: u64, k: int) -> u64
    decreases k,
{
    if k <= 0 {
        base
    } else {
        add_of(prec_vol_fold(s, i, base, k - 1), prec_vol_term(s, i, k - 1))
    }
}

/// The total precision-weighted prediction error of node `i` from all of
/// its children: the value children's terms, then the volatility
/// children's, summed from zero in list order.
pub open spec fn precision_wpe_of(s: StateV, i: int) -> u64 {
    prec_vol_fold(
        s,
        i,
        prec_value_fold(s, i, ZERO_BITS, s.edges[i].vc().len() as int),
        s.edges[i].qc().len() as int,
    )
}

/// The value child contribution to the mean of parent `i` at child
/// position `j`, with `np` as the dividing precision:
/// `(kappa * g'(mu) * pi_hat_c / np) * delta_c`.
pub open spec fn mean_value_term(s: StateV, i: int, np: u64, j: int) -> u64 {
    let c = s.edges[i].vc()[j] as int;
    let kappa = s.value_coupling_children[i][j];
    let pm = s.floats[i].mean;
    let prime = match parent_coupling_fn(s, c, i as usize) {
        Some(v) => coupling_d1_of(v, pm),
        None => ONE_BITS,
    };
    mul_of(
        div_of(mul_of(mul_of(kappa, prime), s.floats[c].expected_precision), np),
        s.floats[c].value_prediction_error,
    )
}

/// The mean contributions of the first `k` value children of `i`, summed
/// from `base` in order.
pub open spec fn mean_value_fold(s: StateV, i: int, np: u64, base: u64, k: int) -> u64
    decreases k,
{
    if k <= 0 {
        base
    } else {
        add_of(mean_value_fold(s, i, np, base, k - 1), mean_value_term(s, i, np, k - 1))
    }
}

/// The volatility child contribution to the mean of parent `i` at child
/// position `j`: `(kappa * gamma * Delta) / (2 * np)`.
pub open spec fn mean_vol_term(s: StateV, i: int, np: u64, j: int) -> u64 {
    let c = s.edges[i].qc()[j] as int;
    let kappa = s.volatility_coupling_children[i][j];
    div_of(
        mul_of(
            mul_of(kappa, s.floats[c].effective_precision),
            s.floats[c].volatility_prediction_error,
        ),
        mul_of(TWO_BITS, np),
    )
}

/// The mean contributions of the first `k` volatility children of `i`,
/// summed from `base` in order.
pub open spec fn mean_vol_fold(s: StateV, i: int, np: u64, base: u64, k: int) -> u64
    decreases k,
{
    if k <= 0 {
        base
    } else {
        add_of(mean_vol_fold(s, i, np, base, k - 1), mean_vol_term(s, i, np, k - 1))
    }
}

/// The total mean-weighted prediction error of node `i` from all of its
/// children, with `np` as the dividing precision: the value children's sum
/// plus the volatility children's sum, each folded from zero.
pub open spec fn mean_wpe_of(s: StateV, i: int, np: u64) -> u64 {
    add_of(
        mean_value_fold(s, i, np, ZERO_BITS, s.edges[i].vc().len() as int),
        mean_vol_fold(s, i, np, ZERO_BITS, s.edges[i].qc().len() as int),
    )
}

/// The scalar attributes of node `i` after a standard posterior update:
/// precision first (floored at `1e-128`), then the mean divided by the new
/// posterior precision.
pub open spec fn posterior_continuous_standard_floats(s: StateV, i: int) -> NodeFloats {
    let f = s.floats[i];
    let posterior_precision = max_of(add_of(f.expected_precision, precision_wpe_of(s, i)), TINY_BITS);
    NodeFloats {
        precision: posterior_precision,
        mean: add_of(f.expected_mean, mean_wpe_of(s, i, posterior_precision)),
        ..f
    }
}

/// The scalar attributes of node `i` after an eHGF posterior update: the
/// mean first, divided by the expected precision, then the precision
/// computed from the state holding the updated mean.
pub open spec fn posterior_continuous_ehgf_floats(s: StateV, i: int) -> NodeFloats {
    let f = s.floats[i];
    let posterior_mean = add_of(f.expected_mean, mean_wpe_of(s, i, f.expected_precision));
    let s_mid = StateV { floats: s.floats.update(i, NodeFloats { mean: posterior_mean, ..f }), ..s };
    let posterior_precision = max_of(
        add_of(f.expected_precision, precision_wpe_of(s_mid, i)),
        TINY_BITS,
    );
    NodeFloats { mean: posterior_mean, precision: posterior_precision, ..f }
}

/// The scalar attributes of node `i` after an unbounded posterior update,
/// built from its first volatility child: two quadratic approximations, one
/// around the expected mean and one around `ln(v * (2 + sqrt(3)))`, blended
/// by the smoothed-rectangle weight at the expected mean; the blended
/// precision is floored at `1e-128`.
pub open spec fn posterior_continuous_unbounded_floats(s: StateV, i: int) -> NodeFloats {
    let f = s.floats[i];
    let c = s.edges[i].qc()[0] as int;
    let kappa = s.volatility_coupling_children[i][0];
    let cm = s.floats[c].mean;
    let cp = s.floats[c].precision;
    let cem = s.floats[c].expected_mean;
    let ctv = s.floats[c].tonic_volatility;
    let v = max_of(s.floats[c].current_variance, TINY_BITS);
    let x = add_of(mul_of(kappa, f.expected_mean), ctv);
    let w = sigmoid_of(sub_of(x, ln_of(v)));
    let numerator = add_of(div_of(ONE_BITS, cp), mul_of(sub_of(cm, cem), sub_of(cm, cem)));
    let exp_x = exp_of(clamp_of(x, CLAMP_LO_BITS, CLAMP_HI_BITS));
    let delta = sub_of(div_of(numerator, add_of(v, exp_x)), ONE_BITS);
    let pi1 = add_of(
        f.expected_precision,
        mul_of(mul_of(mul_of(HALF_BITS, mul_of(kappa, kappa)), w), sub_of(ONE_BITS, w)),
    );
    let mu1 = add_of(
        f.expected_mean,
        mul_of(div_of(mul_of(kappa, w), mul_of(TWO_BITS, pi1)), delta),
    );
    let phi = ln_of(mul_of(v, add_of(TWO_BITS, sqrt_of(THREE_BITS))));
    let exp_kp = exp_of(clamp_of(add_of(mul_of(kappa, phi), ctv), CLAMP_LO_BITS, CLAMP_HI_BITS));
    let w_phi = div_of(exp_kp, add_of(v, exp_kp));
    let delta_phi = sub_of(div_of(numerator, add_of(v, exp_kp)), ONE_BITS);
    let pi2 = add_of(
        f.expected_precision,
        mul_of(
            mul_of(mul_of(HALF_BITS, mul_of(kappa, kappa)), w_phi),
            add_of(w_phi, mul_of(sub_of(mul_of(TWO_BITS, w_phi), ONE_BITS), delta_phi)),
        ),
    );
    let mu_hat_phi = div_of(
        add_of(mul_of(sub_of(mul_of(TWO_BITS, pi2), ONE_BITS), phi), f.expected_mean),
        mul_of(TWO_BITS, pi2),
    );
    let mu2 = add_of(
        mu_hat_phi,
        mul_of(div_of(mul_of(kappa, w_phi), mul_of(TWO_BITS, pi2)), delta_phi),
    );
    let theta_l = sqrt_of(div_of(mul_of(ONE_POINT_TWO_BITS, numerator), mul_of(v, pi1)));
    let weighting = b_of(f.expected_mean, theta_l, EIGHT_BITS, ZERO_BITS, ONE_BITS);
    NodeFloats {
        precision: max_of(
            add_of(mul_of(sub_of(ONE_BITS, weighting), pi1), mul_of(weighting, pi2)),
            TINY_BITS,
        ),
        mean: add_of(mul_of(sub_of(ONE_BITS, weighting), mu1), mul_of(weighting, mu2)),
        ..f
    }
}

/// Look up the coupling function stored on child `c` for parent `p`.
pub fn parent_coupling_lookup(network: &Network, c: usize, p: usize) -> (r: Option<CouplingFn>)
    requires
        network.wf(),
        c < network.state().len(),
    ensures
        r == parent_coupling_fn(network.state(), c as int, p),
{
    proof {
        assert(network.state().node_wf(c as int));
    }
    let vp_ids: Vec<usize> = match &network.edges[c].value_parents {
        Some(v) => copy_vec(v),
        None => Vec::new(),
    };
    match find_pos(&vp_ids, p) {
        Some(pos) => {
            proof {
                crate::model::lemma_find_id(vp_ids@, p);
            }
            network.attributes.value_coupling_fn_parents[c][pos]
        },
        None => None,
    }
}

/// The precision-weighted prediction error gathered from the children of
/// `node_idx`: value couplings first, then volatility couplings.
fn precision_update_from_children(network: &Network, node_idx: usize) -> (r: u64)
    requires
        network.wf(),
        node_idx < network.state().len(),
    ensures
        r == precision_wpe_of(network.state(), node_idx as int),
{
    let ghost s = network.state();
    let ghost i = node_idx as int;
    proof {
        assert(s.node_wf(i));
    }
    let mut precision_wpe = ZERO_BITS;

    let vc_ids: Vec<usize> = match &network.edges[node_idx].value_children {
        Some(v) => copy_vec(v),
        None => Vec::new(),
    };
    let kappas = copy_vec(&network.attributes.value_coupling_children[node_idx]);
    let parent_mean = network.attributes.floats[node_idx].mean;
    let n_vc = vc_ids.len();
    #[verifier::loop_isolation(false)]
    for j in 0..n_vc
        invariant
            precision_wpe == prec_value_fold(s, i, ZERO_BITS, j as int),
        decreases n_vc - j,
    {
        let c = vc_ids[j];
        proof {
            assert(s.edges[i].vc()[j as int] < s.len());
        }
        let child_expected_precision = network.attributes.floats[c].expected_precision;
        let kappa = kappas[j];
        let cf = parent_coupling_lookup(network, c, node_idx);
        let (prime_sq, second_term): (u64, u64) = match cf {
            Some(v) => {
                let g_prime = v.df(parent_mean);
                let g_second = v.d2f(parent_mean);
                let child_vape = network.attributes.floats[c].value_prediction_error;
                (mul_bits(g_prime, g_prime), mul_bits(g_second, child_vape))
            },
            None => (ONE_BITS, ZERO_BITS),
        };
        precision_wpe = add_bits(
            precision_wpe,
            mul_bits(
                child_expected_precision,
                sub_bits(mul_bits(mul_bits(kappa, kappa), prime_sq), second_term),
            ),
        );
    }

    let qc_ids: Vec<usize> = match &network.edges[node_idx].volatility_children {
        Some(v) => copy_vec(v),
        None => Vec::new(),
    };
    let vol_kappas = copy_vec(&network.attributes.volatility_coupling_children[node_idx]);
    let n_qc = qc_ids.len();
    #[verifier::loop_isolation(false)]
    for j in 0..n_qc
        invariant
            precision_wpe == prec_vol_fold(
                s,
                i,
                prec_value_fold(s, i, ZERO_BITS, s.edges[i].vc().len() as int),
                j as int,
            ),
        decreases n_qc - j,
    {
        let c = qc_ids[j];
        proof {
            assert(s.edges[i].qc()[j as int] < s.len());
        }
        let effective_precision = network.attributes.floats[c].effective_precision;
        let volatility_pe = network.attributes.floats[c].volatility_prediction_error;
        let kappa = vol_kappas[j];
        let kg = mul_bits(kappa, effective_precision);
        let kg2 = mul_bits(kg, kg);
        precision_wpe = add_bits(
            precision_wpe,
            sub_bits(
                add_bits(mul_bits(HALF_BITS, kg2), mul_bits(kg2, volatility_pe)),
                mul_bits(
                    mul_bits(mul_bits(HALF_BITS, mul_bits(kappa, kappa)), effective_precision),
                    volatility_pe,
                ),
            ),
        );
    }
    precision_wpe
}

/// The mean-weighted prediction error gathered from the children of
/// `node_idx`, with `node_precision` as the dividing precision.
fn mean_update_from_children(network: &Network, node_idx: usize, node_precision: u64) -> (r: u64)
    requires
        network.wf(),
        node_idx < network.state().len(),
    ensures
        r == mean_wpe_of(network.state(), node_idx as int, node_precision),
{
    let ghost s = network.state();
    let ghost i = node_idx as int;
    proof {
        assert(s.node_wf(i));
    }
    let mut value_pwpe = ZERO_BITS;
    let mut volatility_pwpe = ZERO_BITS;

    let vc_ids: Vec<usize> = match &network.edges[node_idx].value_children {
        Some(v) => copy_vec(v),
        None => Vec::new(),
    };
    let kappas = copy_vec(&network.attributes.value_coupling_children[node_idx]);
    let parent_mean = network.attributes.floats[node_idx].mean;
    let n_vc = vc_ids.len();
    #[verifier::loop_isolation(false)]
    for j in 0..n_vc
        invariant
            value_pwpe == mean_value_fold(s, i, node_precision, ZERO_BITS, j as int),
        decreases n_vc - j,
    {
        let c = vc_ids[j];
        proof {
            assert(s.edges[i].vc()[j as int] < s.len());
        }
        let child_expected_precision = network.attributes.floats[c].expected_precision;
        let child_vape = network.attributes.floats[c].value_prediction_error;
        let kappa = kappas[j];
        let prime: u64 = match parent_coupling_lookup(network, c, node_idx) {
            Some(v) => v.df(parent_mean),
            None => ONE_BITS,
        };
        value_pwpe = add_bits(
            value_pwpe,
            mul_bits(
                div_bits(
                    mul_bits(mul_bits(kappa, prime), child_expected_precision),
                    node_precision,
                ),
                child_vape,
            ),
        );
    }

    let qc_ids: Vec<usize> = match &network.edges[node_idx].volatility_children {
        Some(v) => copy_vec(v),
        None => Vec::new(),
    };
    let vol_kappas = copy_vec(&network.attributes.volatility_coupling_children[node_idx]);
    let n_qc = qc_ids.len();
    #[verifier::loop_isolation(false)]
    for j in 0..n_qc
        invariant
            volatility_pwpe == mean_vol_fold(s, i, node_precision, ZERO_BITS, j as int),
        decreases n_qc - j,
    {
        let c = qc_ids[j];
        proof {
            assert(s.edges[i].qc()[j as int] < s.len());
        }
        let effective_precision = network.attributes.floats[c].effective_precision;
        let volatility_pe = network.attributes.floats[c].volatility_prediction_error;
        let kappa = vol_kappas[j];
        volatility_pwpe = add_bits(
            volatility_pwpe,
            div_bits(
                mul_bits(mul_bits(kappa, effective_precision), volatility_pe),
                mul_bits(TWO_BITS, node_precision),
            ),
        );
    }
    add_bits(value_pwpe, volatility_pwpe)
}

/// Standard posterior update: precision first, then the mean using the new
/// posterior precision.  Used for nodes with only value children, whatever
/// the network's update variant.
pub fn posterior_update_continuous_state_node(
    network: &mut Network,
    node_idx: usize,
    _time_step: u64,
)
    requires
        old(network).wf(),
        node_idx < old(network).state().len(),
    ensures
        final(network).wf(),
        old(network).state().symmetric() ==> final(network).state().symmetric(),
        floats_updated(
            old(network).state(),
            final(network).state(),
            node_idx as int,
            posterior_continuous_standard_floats(old(network).state(), node_idx as int),
        ),
        same_shell(old(network), final(network)),
{
    let ghost s0 = network.state();
    let ghost i = node_idx as int;
    let f = network.attributes.floats[node_idx];

    let precision_wpe = precision_update_from_children(network, node_idx);
    let posterior_precision = max_bits(add_bits(f.expected_precision, precision_wpe), TINY_BITS);
    let mean_wpe = mean_update_from_children(network, node_idx, posterior_precision);
    let posterior_mean = add_bits(f.expected_mean, mean_wpe);

    let mut nf = f;
    nf.precision = posterior_precision;
    nf.mean = posterior_mean;
    network.attributes.floats[node_idx] = nf;
    proof {
        assert(network.state().floats =~= s0.floats.update(
            i,
            posterior_continuous_standard_floats(s0, i),
        ));
        lemma_floats_update_preserves(
            s0,
            network.state(),
            i,
            posterior_continuous_standard_floats(s0, i),
        );
    }
}

/// eHGF posterior update: the mean first, using the expected precision as
/// an anticipatory divisor, then the precision from the updated state.
pub fn posterior_update_continuous_state_node_ehgf(
    network: &mut Network,
    node_idx: usize,
    _time_step: u64,
)
    requires
        old(network).wf(),
        node_idx < old(network).state().len(),
    ensures
        final(network).wf(),
        old(network).state().symmetric() ==> final(network).state().symmetric(),
        floats_updated(
            old(network).state(),
            final(network).state(),
            node_idx as int,
            posterior_continuous_ehgf_floats(old(network).state(), node_idx as int),
        ),
        same_shell(old(network), final(network)),
{
    let ghost s0 = network.state();
    let ghost i = node_idx as int;
    let f = network.attributes.floats[node_idx];

    let mean_wpe = mean_update_from_children(network, node_idx, f.expected_precision);
    let posterior_mean = add_bits(f.expected_mean, mean_wpe);
    let mut nf_mid = f;
    nf_mid.mean = posterior_mean;
    network.attributes.floats[node_idx] = nf_mid;
    proof {
        assert(network.state().floats =~= s0.floats.update(i, NodeFloats { mean: posterior_mean, ..s0.floats[i] }));
        lemma_floats_update_preserves(
            s0,
            network.state(),
            i,
            NodeFloats { mean: posterior_mean, ..s0.floats[i] },
        );
    }

    let precision_wpe = precision_update_from_children(network, node_idx);
    let posterior_precision = max_bits(add_bits(f.expected_precision, precision_wpe), TINY_BITS);
    let mut nf = network.attributes.floats[node_idx];
    nf.precision = posterior_precision;
    network.attributes.floats[node_idx] = nf;
    proof {
        assert(network.state().floats =~= s0.floats.update(
            i,
            posterior_continuous_ehgf_floats(s0, i),
        ));
        lemma_floats_update_preserves(
            s0,
            network.state(),
            i,
            posterior_continuous_ehgf_floats(s0, i),
        );
    }
}

/// Unbounded posterior update, for a node with a volatility child: blend
/// the two quadratic approximations built from the child's state and the
/// variance snapshot of the previous time step.
pub fn posterior_update_continuous_state_node_unbounded(
    network: &mut Network,
    node_idx: usize,
    _time_step: u64,
)
    requires
        old(network).wf(),
        node_idx < old(network).state().len(),
        old(network).state().edges[node_idx as int].qc().len() > 0,
    ensures
        final(network).wf(),
        old(network).state().symmetric() ==> final(network).state().symmetric(),
        floats_updated(
            old(network).state(),
            final(network).state(),
            node_idx as int,
            posterior_continuous_unbounded_floats(old(network).state(), node_idx as int),
        ),
        same_shell(old(network), final(network)),
{
    let ghost s0 = network.state();
    let ghost i = node_idx as int;
    proof {
        assert(s0.node_wf(i));
    }
    let f = network.attributes.floats[node_idx];

    let volatility_child_idx: usize = match &network.edges[node_idx].volatility_children {
        Some(v) => v[0],
        None => 0,
    };
    proof {
        assert(s0.edges[i].qc()[0] < s0.len());
    }
    let vol_coupling = network.attributes.volatility_coupling_children[node_idx][0];
    let cf = network.attributes.floats[volatility_child_idx];
    let child_mean = cf.mean;
    let child_precision = cf.precision;
    let child_expected_mean = cf.expected_mean;
    let child_tonic_volatility = cf.tonic_volatility;
    let previous_child_variance = max_bits(cf.current_variance, TINY_BITS);

    // First quadratic approximation, around the expected mean.
    let x = add_bits(mul_bits(vol_coupling, f.expected_mean), child_tonic_volatility);
    let w_child = crate::math::sigmoid(sub_bits(x, ln_bits(previous_child_variance)));
    let child_pe = sub_bits(child_mean, child_expected_mean);
    let numerator = add_bits(div_bits(ONE_BITS, child_precision), mul_bits(child_pe, child_pe));
    let exp_x_clamped = exp_bits(clamp_bits(x, CLAMP_LO_BITS, CLAMP_HI_BITS));
    let delta_child = sub_bits(
        div_bits(numerator, add_bits(previous_child_variance, exp_x_clamped)),
        ONE_BITS,
    );
    let pi_l1 = add_bits(
        f.expected_precision,
        mul_bits(
            mul_bits(mul_bits(HALF_BITS, mul_bits(vol_coupling, vol_coupling)), w_child),
            sub_bits(ONE_BITS, w_child),
        ),
    );
    let mu_l1 = add_bits(
        f.expected_mean,
        mul_bits(
            div_bits(mul_bits(vol_coupling, w_child), mul_bits(TWO_BITS, pi_l1)),
            delta_child,
        ),
    );

    // Second quadratic approximation, around `ln(v * (2 + sqrt(3)))`.
    let phi = ln_bits(
        mul_bits(previous_child_variance, add_bits(TWO_BITS, sqrt_bits(THREE_BITS))),
    );
    let exp_kappa_phi = exp_bits(
        clamp_bits(
            add_bits(mul_bits(vol_coupling, phi), child_tonic_volatility),
            CLAMP_LO_BITS,
            CLAMP_HI_BITS,
        ),
    );
    let w_phi = div_bits(exp_kappa_phi, add_bits(previous_child_variance, exp_kappa_phi));
    let delta_phi = sub_bits(
        div_bits(numerator, add_bits(previous_child_variance, exp_kappa_phi)),
        ONE_BITS,
    );
    let pi_l2 = add_bits(
        f.expected_precision,
        mul_bits(
            mul_bits(mul_bits(HALF_BITS, mul_bits(vol_coupling, vol_coupling)), w_phi),
            add_bits(w_phi, mul_bits(sub_bits(mul_bits(TWO_BITS, w_phi), ONE_BITS), delta_phi)),
        ),
    );
    let mu_hat_phi = div_bits(
        add_bits(mul_bits(sub_bits(mul_bits(TWO_BITS, pi_l2), ONE_BITS), phi), f.expected_mean),
        mul_bits(TWO_BITS, pi_l2),
    );
    let mu_l2 = add_bits(
        mu_hat_phi,
        mul_bits(div_bits(mul_bits(vol_coupling, w_phi), mul_bits(TWO_BITS, pi_l2)), delta_phi),
    );

    // Blend the two approximations.
    let theta_l = sqrt_bits(
        div_bits(
            mul_bits(ONE_POINT_TWO_BITS, numerator),
            mul_bits(previous_child_variance, pi_l1),
        ),
    );
    let s_left = crate::math::sigmoid(mul_bits(EIGHT_BITS, sub_bits(f.expected_mean, theta_l)));
    let s_right = crate::math::sigmoid(mul_bits(ONE_BITS, sub_bits(f.expected_mean, ZERO_BITS)));
    let weighting = mul_bits(s_left, sub_bits(ONE_BITS, s_right));

    let posterior_precision = max_bits(
        add_bits(mul_bits(sub_bits(ONE_BITS, weighting), pi_l1), mul_bits(weighting, pi_l2)),
        TINY_BITS,
    );
    let posterior_mean = add_bits(
        mul_bits(sub_bits(ONE_BITS, weighting), mu_l1),
        mul_bits(weighting, mu_l2),
    );

    let mut nf = f;
    nf.precision = posterior_precision;
    nf.mean = posterior_mean;
    network.attributes.floats[node_idx] = nf;
    proof {
        assert(network.state().floats =~= s0.floats.update(
            i,
            posterior_continuous_unbounded_floats(s0, i),
        ));
        lemma_floats_update_preserves(
            s0,
            network.state(),
            i,
            posterior_continuous_unbounded_floats(s0, i),
        );
    }
}

} // verus!
