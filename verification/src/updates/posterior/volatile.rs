//! Posterior updates of a volatile state node.
//!
//! The external value level is corrected first (precision, then mean, from
//! the value children), the node's prediction errors are recomputed so that
//! the internal volatility level sees the updated values, and the
//! volatility level is then corrected.  The three variants differ only in
//! the volatility level: the standard order is precision first, the eHGF
//! order is mean first against the expected precision, and the unbounded
//! variant blends the two quadratic approximations.

use vstd::prelude::*;

use crate::math::sigmoid_of;
use crate::model::{
    copy_vec, floats_updated, lemma_floats_update_preserves, same_shell, Network, NodeFloats,
    StateV,
};
use crate::num::{
    add_bits, add_of, clamp_bits, clamp_of, count_bits, count_of, div_bits, div_of, exp_bits,
    exp_of, ln_bits, ln_of, max_bits, max_of, mul_bits, mul_of, sqrt_bits, sqrt_of, sub_bits,
    sub_of, CLAMP_HI_BITS, CLAMP_LO_BITS, EIGHT_BITS, HALF_BITS, ONE_BITS, ONE_POINT_TWO_BITS,
    THREE_BITS, TINY_BITS, TWO_BITS, ZERO_BITS,
};

verus! {

/// The value-level precision contribution of the `j`-th value child of
/// `i`: `kappa^2 * pi_hat_c`.
pub open spec fn vl_prec_term(s: StateV, i: int, j: int) -> u64 {
    let c = s.edges[i].vc()[j] as int;
    let kappa = s.value_coupling_children[i][j];
    mul_of(mul_of(kappa, kappa), s.floats[c].expected_precision)
}

/// The value-level precision of node `i` after its first `k` value
/// children contributed, starting from the expected precision.
pub open spec fn vl_prec_fold(s: StateV, i: int, k: int) -> u64
    decreases k,
{
    if k <= 0 {
        s.floats[i].expected_precision
    } else {
        add_of(vl_prec_fold(s, i, k - 1), vl_prec_term(s, i, k - 1))
    }
}

/// The value-level mean contribution of the `j`-th value child of `i`:
/// `(kappa * pi_hat_c / np) * delta_c`.
pub open spec fn vl_mean_term(s: StateV, i: int, np: u64, j: int) -> u64 {
    let c = s.edges[i].vc()[j] as int;
    let kappa = s.value_coupling_children[i][j];
    mul_of(
        div_of(mul_of(kappa, s.floats[c].expected_precision), np),
        s.floats[c].value_prediction_error,
    )
}

/// The value-level mean correction of node `i` over its first `k` value
/// children, summed from zero.
pub open spec fn vl_mean_fold(s: StateV, i: int, np: u64, k: int) -> u64
    decreases k,
{
    if k <= 0 {
        ZERO_BITS
    } else {
        add_of(vl_mean_fold(s, i, np, k - 1), vl_mean_term(s, i, np, k - 1))
    }
}

/// The value level and recomputed prediction errors of volatile node `i`:
/// the posterior precision (floored at `1e-128`) and mean from the value
/// children, then the value and volatility prediction errors recomputed
/// against them.
pub open spec fn volatile_value_level(s: StateV, i: int) -> (u64, u64, u64, u64) {
    let f = s.floats[i];
    let p1 = max_of(vl_prec_fold(s, i, s.edges[i].vc().len() as int), TINY_BITS);
    let m1 = add_of(f.expected_mean, vl_mean_fold(s, i, p1, s.edges[i].vc().len() as int));
    let d = sub_of(m1, f.expected_mean);
    let vpe = if s.edges[i].value_parents is Some {
        div_of(d, count_of(s.edges[i].vp().len() as usize))
    } else {
        d
    };
    let qpe = sub_of(
        add_of(div_of(f.expected_precision, p1), mul_of(f.expected_precision, mul_of(vpe, vpe))),
        ONE_BITS,
    );
    (p1, m1, vpe, qpe)
}

/// The standard volatility-level precision, floored at `1e-128`:
/// `pi_hat_vol + 0.5*(kappa*gamma)^2 + (kappa*gamma)^2*Delta
///  - 0.5*kappa^2*gamma*Delta` with the internal coupling strength and the
/// value level's effective precision.
pub open spec fn volatile_vol_precision(f: NodeFloats, qpe: u64) -> u64 {
    let kappa = f.volatility_coupling_internal;
    let gamma = f.effective_precision;
    let kg2 = mul_of(mul_of(kappa, gamma), mul_of(kappa, gamma));
    max_of(
        sub_of(
            add_of(add_of(f.expected_precision_vol, mul_of(HALF_BITS, kg2)), mul_of(kg2, qpe)),
            mul_of(mul_of(mul_of(HALF_BITS, mul_of(kappa, kappa)), gamma), qpe),
        ),
        TINY_BITS,
    )
}

/// The standard volatility-level mean:
/// `mu_hat_vol + (kappa*gamma*Delta) / (2*np)`.
pub open spec fn volatile_vol_mean(f: NodeFloats, qpe: u64, np: u64) -> u64 {
    let kappa = f.volatility_coupling_internal;
    let gamma = f.effective_precision;
    add_of(
        f.expected_mean_vol,
        div_of(mul_of(mul_of(kappa, gamma), qpe), mul_of(TWO_BITS, np)),
    )
}

/// The scalar attributes of volatile node `i` after a standard posterior
/// update: value level, recomputed errors, then the volatility level with
/// precision before mean.
pub open spec fn posterior_volatile_standard_floats(s: StateV, i: int) -> NodeFloats {
    let f = s.floats[i];
    let (p1, m1, vpe, qpe) = volatile_value_level(s, i);
    let pv = volatile_vol_precision(f, qpe);
    NodeFloats {
        precision: p1,
        mean: m1,
        value_prediction_error: vpe,
        volatility_prediction_error: qpe,
        precision_vol: pv,
        mean_vol: volatile_vol_mean(f, qpe, pv),
        ..f
    }
}

/// The scalar attributes of volatile node `i` after an eHGF posterior
/// update: as the standard one, but the volatility-level mean is computed
/// first, against the expected volatility-level precision.
pub open spec fn posterior_volatile_ehgf_floats(s: StateV, i: int) -> NodeFloats {
    let f = s.floats[i];
    let (p1, m1, vpe, qpe) = volatile_value_level(s, i);
    NodeFloats {
        precision: p1,
        mean: m1,
        value_prediction_error: vpe,
        volatility_prediction_error: qpe,
        precision_vol: volatile_vol_precision(f, qpe),
        mean_vol: volatile_vol_mean(f, qpe, f.expected_precision_vol),
        ..f
    }
}

/// The unbounded volatility-level update of a volatile node: the internal
/// volatility level plays the parent, the updated value level the child.
/// Returns the posterior volatility-level precision (floored at `1e-128`)
/// and mean.
pub open spec fn volatile_vol_unbounded(f: NodeFloats, p1: u64, m1: u64) -> (u64, u64) {
    let kappa = f.volatility_coupling_internal;
    let v = max_of(f.current_variance, TINY_BITS);
    let numerator = add_of(
        div_of(ONE_BITS, p1),
        mul_of(sub_of(m1, f.expected_mean), sub_of(m1, f.expected_mean)),
    );
    let x = add_of(mul_of(kappa, f.expected_mean_vol), f.tonic_volatility);
    let w = sigmoid_of(sub_of(x, ln_of(v)));
    let exp_x = exp_of(clamp_of(x, CLAMP_LO_BITS, CLAMP_HI_BITS));
    let delta = sub_of(div_of(numerator, add_of(v, exp_x)), ONE_BITS);
    let pi1 = add_of(
        f.expected_precision_vol,
        mul_of(mul_of(mul_of(HALF_BITS, mul_of(kappa, kappa)), w), sub_of(ONE_BITS, w)),
    );
    let mu1 = add_of(
        f.expected_mean_vol,
        mul_of(div_of(mul_of(kappa, w), mul_of(TWO_BITS, pi1)), delta),
    );
    let phi = ln_of(mul_of(v, add_of(TWO_BITS, sqrt_of(THREE_BITS))));
    let exp_kp = exp_of(
        clamp_of(add_of(mul_of(kappa, phi), f.tonic_volatility), CLAMP_LO_BITS, CLAMP_HI_BITS),
    );
    let w_phi = div_of(exp_kp, add_of(v, exp_kp));
    let delta_phi = sub_of(div_of(numerator, add_of(v, exp_kp)), ONE_BITS);
    let pi2 = add_of(
        f.expected_precision_vol,
        mul_of(
            mul_of(mul_of(HALF_BITS, mul_of(kappa, kappa)), w_phi),
            add_of(w_phi, mul_of(sub_of(mul_of(TWO_BITS, w_phi), ONE_BITS), delta_phi)),
        ),
    );
    let mu_hat_phi = div_of(
        add_of(mul_of(sub_of(mul_of(TWO_BITS, pi2), ONE_BITS), phi), f.expected_mean_vol),
        mul_of(TWO_BITS, pi2),
    );
    let mu2 = add_of(
        mu_hat_phi,
        mul_of(div_of(mul_of(kappa, w_phi), mul_of(TWO_BITS, pi2)), delta_phi),
    );
    let theta_l = sqrt_of(div_of(mul_of(ONE_POINT_TWO_BITS, numerator), mul_of(v, pi1)));
    let weighting = crate::updates::posterior::continuous::b_of(
        f.expected_mean_vol,
        theta_l,
        EIGHT_BITS,
        ZERO_BITS,
        ONE_BITS,
    );
    (
        max_of(
            add_of(mul_of(sub_of(ONE_BITS, weighting), pi1), mul_of(weighting, pi2)),
            TINY_BITS,
        ),
        add_of(mul_of(sub_of(ONE_BITS, weighting), mu1), mul_of(weighting, mu2)),
    )
}

/// The scalar attributes of volatile node `i` after an unbounded posterior
/// update.
pub open spec fn posterior_volatile_unbounded_floats(s: StateV, i: int) -> NodeFloats {
    let f = s.floats[i];
    let (p1, m1, vpe, qpe) = volatile_value_level(s, i);
    let (pv, mv) = volatile_vol_unbounded(f, p1, m1);
    NodeFloats {
        precision: p1,
        mean: m1,
        value_prediction_error: vpe,
        volatility_prediction_error: qpe,
        precision_vol: pv,
        mean_vol: mv,
        ..f
    }
}

/// Compute the value level and recomputed prediction errors of volatile
/// node `node_idx` from the current state.
fn value_level_update(network: &Network, node_idx: usize) -> (r: (u64, u64, u64, u64))
    requires
        network.wf(),
        node_idx < network.state().len(),
    ensures
        r == volatile_value_level(network.state(), node_idx as int),
{
    let ghost s = network.state();
    let ghost i = node_idx as int;
    proof {
        assert(s.node_wf(i));
    }
    let f = network.attributes.floats[node_idx];

    let vc_ids: Vec<usize> = match &network.edges[node_idx].value_children {
        Some(v) => copy_vec(v),
        None => Vec::new(),
    };
    let kappas = copy_vec(&network.attributes.value_coupling_children[node_idx]);
    let n_vc = vc_ids.len();

    let mut posterior_precision = f.expected_precision;
    #[verifier::loop_isolation(false)]
    for j in 0..n_vc
        invariant
            posterior_precision == vl_prec_fold(s, i, j as int),
        decreases n_vc - j,
    {
        let c = vc_ids[j];
        proof {
            assert(s.edges[i].vc()[j as int] < s.len());
        }
        let child_expected_precision = network.attributes.floats[c].expected_precision;
        posterior_precision = add_bits(
            posterior_precision,
            mul_bits(mul_bits(kappas[j], kappas[j]), child_expected_precision),
        );
    }
    let posterior_precision = max_bits(posterior_precision, TINY_BITS);

    let mut value_pwpe = ZERO_BITS;
    #[verifier::loop_isolation(false)]
    for j in 0..n_vc
        invariant
            value_pwpe == vl_mean_fold(s, i, posterior_precision, j as int),
        decreases n_vc - j,
    {
        let c = vc_ids[j];
        proof {
            assert(s.edges[i].vc()[j as int] < s.len());
        }
        let child_expected_precision = network.attributes.floats[c].expected_precision;
        let child_vape = network.attributes.floats[c].value_prediction_error;
        value_pwpe = add_bits(
            value_pwpe,
            mul_bits(
                div_bits(mul_bits(kappas[j], child_expected_precision), posterior_precision),
                child_vape,
            ),
        );
    }
    let posterior_mean = add_bits(f.expected_mean, value_pwpe);

    // Recompute the prediction errors against the updated value level.
    let mut value_pe = sub_bits(posterior_mean, f.expected_mean);
    let n_vp: Option<usize> = match &network.edges[node_idx].value_parents {
        Some(v) => Some(v.len()),
        None => None,
    };
    if let Some(n) = n_vp {
        value_pe = div_bits(value_pe, count_bits(n));
    }
    let volatility_pe = sub_bits(
        add_bits(
            div_bits(f.expected_precision, posterior_precision),
            mul_bits(f.expected_precision, mul_bits(value_pe, value_pe)),
        ),
        ONE_BITS,
    );
    (posterior_precision, posterior_mean, value_pe, volatility_pe)
}

/// Standard posterior update of a volatile state node.
pub fn posterior_update_volatile_state_node(network: &mut Network, node_idx: usize, _time_step: u64)
    requires
        old(network).wf(),
        node_idx < old(network).state().len(),
    ensures
        final(network).wf(),
        old(network).state().symmetric() ==> final(network).state().symmetric(),
        floats_updated(
            old(network).state(),
            final(network).state(),
            node_idx as int,
            posterior_volatile_standard_floats(old(network).state(), node_idx as int),
        ),
        same_shell(old(network), final(network)),
{
    let ghost s0 = network.state();
    let ghost i = node_idx as int;
    let f = network.attributes.floats[node_idx];
    let (p1, m1, vpe, qpe) = value_level_update(network, node_idx);

    let kappa = f.volatility_coupling_internal;
    let gamma = f.effective_precision;
    let kg = mul_bits(kappa, gamma);
    let kg2 = mul_bits(kg, kg);
    let precision_vol = max_bits(
        sub_bits(
            add_bits(
                add_bits(f.expected_precision_vol, mul_bits(HALF_BITS, kg2)),
                mul_bits(kg2, qpe),
            ),
            mul_bits(mul_bits(mul_bits(HALF_BITS, mul_bits(kappa, kappa)), gamma), qpe),
        ),
        TINY_BITS,
    );
    let mean_vol = add_bits(
        f.expected_mean_vol,
        div_bits(mul_bits(mul_bits(kappa, gamma), qpe), mul_bits(TWO_BITS, precision_vol)),
    );

    let mut nf = f;
    nf.precision = p1;
    nf.mean = m1;
    nf.value_prediction_error = vpe;
    nf.volatility_prediction_error = qpe;
    nf.precision_vol = precision_vol;
    nf.mean_vol = mean_vol;
    network.attributes.floats[node_idx] = nf;
    proof {
        assert(network.state().floats =~= s0.floats.update(
            i,
            posterior_volatile_standard_floats(s0, i),
        ));
        lemma_floats_update_preserves(
            s0,
            network.state(),
            i,
            posterior_volatile_standard_floats(s0, i),
        );
    }
}

/// eHGF posterior update of a volatile state node.
pub fn posterior_update_volatile_state_node_ehgf(
    network: &mut Network,
    node_idx: usize,
    _time_step: u64,
)
    requires
        old(network).wf(),
        node_idx < old(network).state().len(),
    ensures
        final(network).wf(),
        old(network).state().symmetric() ==> final(network).state().symmetric(),
        floats_updated(
            old(network).state(),
            final(network).state(),
            node_idx as int,
            posterior_volatile_ehgf_floats(old(network).state(), node_idx as int),
        ),
        same_shell(old(network), final(network)),
{
    let ghost s0 = network.state();
    let ghost i = node_idx as int;
    let f = network.attributes.floats[node_idx];
    let (p1, m1, vpe, qpe) = value_level_update(network, node_idx);

    let kappa = f.volatility_coupling_internal;
    let gamma = f.effective_precision;
    let mean_vol = add_bits(
        f.expected_mean_vol,
        div_bits(
            mul_bits(mul_bits(kappa, gamma), qpe),
            mul_bits(TWO_BITS, f.expected_precision_vol),
        ),
    );
    let kg = mul_bits(kappa, gamma);
    let kg2 = mul_bits(kg, kg);
    let precision_vol = max_bits(
        sub_bits(
            add_bits(
                add_bits(f.expected_precision_vol, mul_bits(HALF_BITS, kg2)),
                mul_bits(kg2, qpe),
            ),
            mul_bits(mul_bits(mul_bits(HALF_BITS, mul_bits(kappa, kappa)), gamma), qpe),
        ),
        TINY_BITS,
    );

    let mut nf = f;
    nf.precision = p1;
    nf.mean = m1;
    nf.value_prediction_error = vpe;
    nf.volatility_prediction_error = qpe;
    nf.precision_vol = precision_vol;
    nf.mean_vol = mean_vol;
    network.attributes.floats[node_idx] = nf;
    proof {
        assert(network.state().floats =~= s0.floats.update(
            i,
            posterior_volatile_ehgf_floats(s0, i),
        ));
        lemma_floats_update_preserves(
            s0,
            network.state(),
            i,
            posterior_volatile_ehgf_floats(s0, i),
        );
    }
}

/// Unbounded posterior update of a volatile state node.
pub fn posterior_update_volatile_state_node_unbounded(
    network: &mut Network,
    node_idx: usize,
    _time_step: u64,
)
    requires
        old(network).wf(),
        node_idx < old(network).state().len(),
    ensures
        final(network).wf(),
        old(network).state().symmetric() ==> final(network).state().symmetric(),
        floats_updated(
            old(network).state(),
            final(network).state(),
            node_idx as int,
            posterior_volatile_unbounded_floats(old(network).state(), node_idx as int),
        ),
        same_shell(old(network), final(network)),
{
    let ghost s0 = network.state();
    let ghost i = node_idx as int;
    let f = network.attributes.floats[node_idx];
    let (p1, m1, vpe, qpe) = value_level_update(network, node_idx);

    let kappa = f.volatility_coupling_internal;
    let v = max_bits(f.current_variance, TINY_BITS);
    let pe = sub_bits(m1, f.expected_mean);
    let numerator = add_bits(div_bits(ONE_BITS, p1), mul_bits(pe, pe));
    let x = add_bits(mul_bits(kappa, f.expected_mean_vol), f.tonic_volatility);
    let w = crate::math::sigmoid(sub_bits(x, ln_bits(v)));
    let exp_x = exp_bits(clamp_bits(x, CLAMP_LO_BITS, CLAMP_HI_BITS));
    let delta = sub_bits(div_bits(numerator, add_bits(v, exp_x)), ONE_BITS);
    let pi1 = add_bits(
        f.expected_precision_vol,
        mul_bits(
            mul_bits(mul_bits(HALF_BITS, mul_bits(kappa, kappa)), w),
            sub_bits(ONE_BITS, w),
        ),
    );
    let mu1 = add_bits(
        f.expected_mean_vol,
        mul_bits(div_bits(mul_bits(kappa, w), mul_bits(TWO_BITS, pi1)), delta),
    );
    let phi = ln_bits(mul_bits(v, add_bits(TWO_BITS, sqrt_bits(THREE_BITS))));
    let exp_kp = exp_bits(
        clamp_bits(add_bits(mul_bits(kappa, phi), f.tonic_volatility), CLAMP_LO_BITS, CLAMP_HI_BITS),
    );
    let w_phi = div_bits(exp_kp, add_bits(v, exp_kp));
    let delta_phi = sub_bits(div_bits(numerator, add_bits(v, exp_kp)), ONE_BITS);
    let pi2 = add_bits(
        f.expected_precision_vol,
        mul_bits(
            mul_bits(mul_bits(HALF_BITS, mul_bits(kappa, kappa)), w_phi),
            add_bits(w_phi, mul_bits(sub_bits(mul_bits(TWO_BITS, w_phi), ONE_BITS), delta_phi)),
        ),
    );
    let mu_hat_phi = div_bits(
        add_bits(
            mul_bits(sub_bits(mul_bits(TWO_BITS, pi2), ONE_BITS), phi),
            f.expected_mean_vol,
        ),
        mul_bits(TWO_BITS, pi2),
    );
    let mu2 = add_bits(
        mu_hat_phi,
        mul_bits(div_bits(mul_bits(kappa, w_phi), mul_bits(TWO_BITS, pi2)), delta_phi),
    );
    let theta_l = sqrt_bits(div_bits(mul_bits(ONE_POINT_TWO_BITS, numerator), mul_bits(v, pi1)));
    let s_left = crate::math::sigmoid(
        mul_bits(EIGHT_BITS, sub_bits(f.expected_mean_vol, theta_l)),
    );
    let s_right = crate::math::sigmoid(
        mul_bits(ONE_BITS, sub_bits(f.expected_mean_vol, ZERO_BITS)),
    );
    let weighting = mul_bits(s_left, sub_bits(ONE_BITS, s_right));
    let precision_vol = max_bits(
        add_bits(mul_bits(sub_bits(ONE_BITS, weighting), pi1), mul_bits(weighting, pi2)),
        TINY_BITS,
    );
    let mean_vol = add_bits(
        mul_bits(sub_bits(ONE_BITS, weighting), mu1),
        mul_bits(weighting, mu2),
    );

    let mut nf = f;
    nf.precision = p1;
    nf.mean = m1;
    nf.value_prediction_error = vpe;
    nf.volatility_prediction_error = qpe;
    nf.precision_vol = precision_vol;
    nf.mean_vol = mean_vol;
    network.attributes.floats[node_idx] = nf;
    proof {
        assert(network.state().floats =~= s0.floats.update(
            i,
            posterior_volatile_unbounded_floats(s0, i),
        ));
        lemma_floats_update_preserves(
            s0,
            network.state(),
            i,
            posterior_volatile_unbounded_floats(s0, i),
        );
    }
}

} // verus!
