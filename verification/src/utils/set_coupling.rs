//! Symmetric writes to the value-coupling vectors.
//!
//! A coupling strength lives twice: at the child's position in the parent's
//! `value_coupling_children` row and at the parent's position in the
//! child's `value_coupling_parents` row.  Writing it through here keeps the
//! two in sync; a pair that is not connected by a value edge is left alone.

use vstd::prelude::*;

use crate::model::{
    copy_vec, find_id, find_pos, lemma_find_id, same_shell, seq_steps_ok, step_ok, Network, StateV,
};
use crate::utils::function_pointer::FnType;

verus! {

/// The state after the coupling strength of the value edge `(p, c)` was
/// set to `kappa` on both sides; a missing edge changes nothing on that
/// side.
pub open spec fn set_coupling_state(s: StateV, p: usize, c: usize, kappa: u64) -> StateV {
    let vcp = if c < s.len() && s.edges[c as int].vp().contains(p) && find_id(
        s.edges[c as int].vp(),
        p,
    ) < s.value_coupling_parents[c as int].len() {
        s.value_coupling_parents.update(
            c as int,
            s.value_coupling_parents[c as int].update(find_id(s.edges[c as int].vp(), p), kappa),
        )
    } else {
        s.value_coupling_parents
    };
    let vcc = if p < s.len() && s.edges[p as int].vc().contains(c) && find_id(
        s.edges[p as int].vc(),
        c,
    ) < s.value_coupling_children[p as int].len() {
        s.value_coupling_children.update(
            p as int,
            s.value_coupling_children[p as int].update(find_id(s.edges[p as int].vc(), c), kappa),
        )
    } else {
        s.value_coupling_children
    };
    StateV {
        floats: s.floats,
        value_coupling_parents: vcp,
        value_coupling_children: vcc,
        volatility_coupling_parents: s.volatility_coupling_parents,
        volatility_coupling_children: s.volatility_coupling_children,
        value_coupling_fn_parents: s.value_coupling_fn_parents,
        xis: s.xis,
        edges: s.edges,
    }
}

/// How one node's coupling rows stand after a symmetric coupling write:
/// the row lengths never change, and entries move only at the written
/// positions.
pub proof fn lemma_set_coupling_rows(s0: StateV, p: usize, c: usize, kappa: u64, i: int)
    requires
        s0.wf(),
        0 <= i < s0.len(),
    ensures
        set_coupling_state(s0, p, c, kappa).value_coupling_parents[i].len()
            == s0.value_coupling_parents[i].len(),
        set_coupling_state(s0, p, c, kappa).value_coupling_children[i].len()
            == s0.value_coupling_children[i].len(),
        i != c as int ==> set_coupling_state(s0, p, c, kappa).value_coupling_parents[i]
            == s0.value_coupling_parents[i],
        i != p as int ==> set_coupling_state(s0, p, c, kappa).value_coupling_children[i]
            == s0.value_coupling_children[i],
        forall|k: int|
            0 <= k < s0.value_coupling_parents[i].len() && !(i == c as int && c < s0.len()
                && s0.edges[c as int].vp().contains(p) && k == find_id(s0.edges[c as int].vp(), p))
                ==> #[trigger] set_coupling_state(s0, p, c, kappa).value_coupling_parents[i][k]
                == s0.value_coupling_parents[i][k],
        forall|k: int|
            0 <= k < s0.value_coupling_children[i].len() && !(i == p as int && p < s0.len()
                && s0.edges[p as int].vc().contains(c) && k == find_id(s0.edges[p as int].vc(), c))
                ==> #[trigger] set_coupling_state(s0, p, c, kappa).value_coupling_children[i][k]
                == s0.value_coupling_children[i][k],
        (i == c as int && c < s0.len() && s0.edges[c as int].vp().contains(p) && find_id(
            s0.edges[c as int].vp(),
            p,
        ) < s0.value_coupling_parents[c as int].len()) ==> set_coupling_state(
            s0,
            p,
            c,
            kappa,
        ).value_coupling_parents[i][find_id(s0.edges[c as int].vp(), p)] == kappa,
        (i == p as int && p < s0.len() && s0.edges[p as int].vc().contains(c) && find_id(
            s0.edges[p as int].vc(),
            c,
        ) < s0.value_coupling_children[p as int].len()) ==> set_coupling_state(
            s0,
            p,
            c,
            kappa,
        ).value_coupling_children[i][find_id(s0.edges[p as int].vc(), c)] == kappa,
{
    if c < s0.len() {
        assert(s0.node_wf(c as int));
        if s0.edges[c as int].vp().contains(p) {
            lemma_find_id(s0.edges[c as int].vp(), p);
        }
    }
    if p < s0.len() {
        assert(s0.node_wf(p as int));
        if s0.edges[p as int].vc().contains(c) {
            lemma_find_id(s0.edges[p as int].vc(), c);
        }
    }
}

/// Setting a coupling through both sides preserves well-formedness and
/// edge symmetry, and changes no step validity.
pub proof fn lemma_set_coupling_preserves(s0: StateV, p: usize, c: usize, kappa: u64)
    requires
        s0.wf(),
        s0.symmetric(),
        s0.len() <= usize::MAX as int,
    ensures
        set_coupling_state(s0, p, c, kappa).wf(),
        set_coupling_state(s0, p, c, kappa).symmetric(),
        forall|steps: Seq<(usize, FnType)>|
            #[trigger] seq_steps_ok(s0, steps) ==> seq_steps_ok(
                set_coupling_state(s0, p, c, kappa),
                steps,
            ),
{
    let s1 = set_coupling_state(s0, p, c, kappa);
    assert(s1.edges == s0.edges);
    assert(s1.floats == s0.floats);
    assert(s1.len() == s0.len());
    assert forall|j: int| 0 <= j < s1.len() implies s1.node_wf(j) by {
        assert(s0.node_wf(j));
        lemma_set_coupling_rows(s0, p, c, kappa, j);
    }
    assert forall|j: int| 0 <= j < s1.len() implies s1.node_distinct(j) by {
        assert(s0.node_distinct(j));
    }

    let connected = c < s0.len() && p < s0.len() && s0.edges[c as int].vp().contains(p);
    let pos_c = find_id(s0.edges[c as int].vp(), p);
    let pos_p = find_id(s0.edges[p as int].vc(), c);
    if connected {
        lemma_find_id(s0.edges[c as int].vp(), p);
        assert(s0.node_wf(c as int));
        assert(s0.value_parent_sym_at(c as int, pos_c));
        assert(s0.edges[p as int].vc().contains(c));
        lemma_find_id(s0.edges[p as int].vc(), c);
        assert(s0.node_wf(p as int));
    }

    assert forall|pp: int, j: int|
        0 <= pp < s1.len() && 0 <= j < s1.edges[pp].vc().len() implies s1.value_edge_sym_at(
        pp,
        j,
    ) by {
        assert(s0.value_edge_sym_at(pp, j));
        let cc = s0.edges[pp].vc()[j];
        let pos_cc = find_id(s0.edges[cc as int].vp(), pp as usize);
        lemma_find_id(s0.edges[cc as int].vp(), pp as usize);
        assert(s0.node_wf(pp));
        assert(s0.node_wf(cc as int));
        lemma_set_coupling_rows(s0, p, c, kappa, pp);
        lemma_set_coupling_rows(s0, p, c, kappa, cc as int);
        let left_written = connected && pp == p as int && j == pos_p;
        let right_written = connected && cc == c && pos_cc == pos_c;
        if left_written {
            // This is the written edge: its child is c, and the matching
            // parent position is the written one.
            assert(s0.edges[p as int].vc()[pos_p] == c);
            assert(cc == c);
            assert(s0.edges[cc as int].vp() == s0.edges[c as int].vp());
            assert(s0.value_edge_sym_at(p as int, pos_p));
            assert(s0.edges[c as int].vp()[pos_cc] == p) by {
                assert(s0.value_parent_sym_at(c as int, pos_cc));
                assert(s0.edges[c as int].vp()[pos_cc] == pp as usize);
            }
            assert(pos_cc == pos_c) by {
                assert(s0.node_distinct(c as int));
                assert(s0.edges[c as int].vp()[pos_c] == p);
                if pos_cc != pos_c {
                    assert(false);
                }
            }
            assert(s1.value_coupling_children[pp][j] == kappa);
            assert(s1.value_coupling_parents[cc as int][pos_cc] == kappa);
        } else {
            // An untouched edge: show neither of its two entries moved.
            assert(s1.value_coupling_children[pp][j] == s0.value_coupling_children[pp][j]) by {
                if pp == p as int && p < s0.len() && s0.edges[p as int].vc().contains(c) && j
                    == pos_p {
                    // The written parent-side entry: then this is the
                    // written edge after all.
                    lemma_find_id(s0.edges[p as int].vc(), c);
                    assert(s0.edges[p as int].vc()[pos_p] == c);
                    assert(cc == c);
                    assert(s0.value_edge_sym_at(p as int, pos_p));
                    assert(s0.edges[c as int].vp().contains(p));
                    assert(false);
                }
            }
            assert(s1.value_coupling_parents[cc as int][pos_cc] == s0.value_coupling_parents[
                cc as int][pos_cc]) by {
                if cc == c && c < s0.len() && s0.edges[c as int].vp().contains(p) && pos_cc
                    == pos_c {
                    lemma_find_id(s0.edges[c as int].vp(), p);
                    assert(s0.edges[cc as int].vp() == s0.edges[c as int].vp());
                    assert(s0.edges[c as int].vp()[pos_cc] == pp as usize);
                    assert(s0.edges[c as int].vp()[pos_c] == p);
                    assert(pp == p as int);
                    assert(s0.edges[p as int].vc()[j] == c);
                    assert(s0.edges[p as int].vc().contains(c)) by {
                        assert(s0.edges[p as int].vc()[j] == c);
                    }
                    lemma_find_id(s0.edges[p as int].vc(), c);
                    assert(j == pos_p) by {
                        assert(s0.node_distinct(p as int));
                        assert(s0.edges[p as int].vc()[pos_p] == c);
                        if j != pos_p {
                            assert(false);
                        }
                    }
                    assert(false);
                }
            }
        }
    }

    assert forall|cc: int, k: int|
        0 <= cc < s1.len() && 0 <= k < s1.edges[cc].vp().len() implies s1.value_parent_sym_at(
        cc,
        k,
    ) by {
        assert(s0.value_parent_sym_at(cc, k));
        let pp = s0.edges[cc].vp()[k];
        let pos_pp = find_id(s0.edges[pp as int].vc(), cc as usize);
        lemma_find_id(s0.edges[pp as int].vc(), cc as usize);
        assert(s0.node_wf(cc));
        assert(s0.node_wf(pp as int));
        lemma_set_coupling_rows(s0, p, c, kappa, cc);
        lemma_set_coupling_rows(s0, p, c, kappa, pp as int);
        let left_written = connected && cc == c as int && k == pos_c;
        if left_written {
            assert(s0.edges[c as int].vp()[pos_c] == p);
            assert(pp == p);
            assert(s0.edges[pp as int].vc() == s0.edges[p as int].vc());
            assert(s0.edges[p as int].vc()[pos_pp] == c) by {
                assert(s0.value_edge_sym_at(p as int, pos_pp));
                assert(s0.edges[p as int].vc()[pos_pp] == cc as usize);
            }
            assert(pos_pp == pos_p) by {
                assert(s0.node_distinct(p as int));
                assert(s0.edges[p as int].vc()[pos_p] == c);
                if pos_pp != pos_p {
                    assert(false);
                }
            }
            assert(s1.value_coupling_parents[cc][k] == kappa);
            assert(s1.value_coupling_children[pp as int][pos_pp] == kappa);
        } else {
            assert(s1.value_coupling_parents[cc][k] == s0.value_coupling_parents[cc][k]) by {
                if cc == c as int && c < s0.len() && s0.edges[c as int].vp().contains(p) && k
                    == pos_c {
                    lemma_find_id(s0.edges[c as int].vp(), p);
                    assert(s0.edges[c as int].vp()[pos_c] == p);
                    assert(pp == p);
                    assert(s0.value_parent_sym_at(c as int, pos_c));
                    assert(false);
                }
            }
            assert(s1.value_coupling_children[pp as int][pos_pp] == s0.value_coupling_children[
                pp as int][pos_pp]) by {
                if pp == p && p < s0.len() && s0.edges[p as int].vc().contains(c) && pos_pp
                    == pos_p {
                    lemma_find_id(s0.edges[p as int].vc(), c);
                    assert(s0.edges[pp as int].vc() == s0.edges[p as int].vc());
                    assert(s0.edges[p as int].vc()[pos_pp] == cc as usize);
                    assert(s0.edges[p as int].vc()[pos_p] == c);
                    assert(cc == c as int);
                    assert(s0.edges[cc].vp()[k] == p);
                    assert(s0.edges[c as int].vp().contains(p)) by {
                        assert(s0.edges[cc].vp()[k] == p);
                    }
                    lemma_find_id(s0.edges[c as int].vp(), p);
                    assert(k == pos_c) by {
                        assert(s0.node_distinct(cc));
                        assert(s0.edges[c as int].vp()[pos_c] == p);
                        if k != pos_c {
                            assert(false);
                        }
                    }
                    assert(false);
                }
            }
        }
    }

    assert forall|pp: int, j: int|
        0 <= pp < s1.len() && 0 <= j < s1.edges[pp].qc().len() implies s1.vol_edge_sym_at(
        pp,
        j,
    ) by {
        assert(s0.vol_edge_sym_at(pp, j));
    }
    assert forall|cc: int, k: int|
        0 <= cc < s1.len() && 0 <= k < s1.edges[cc].qp().len() implies s1.vol_parent_sym_at(
        cc,
        k,
    ) by {
        assert(s0.vol_parent_sym_at(cc, k));
    }
    assert forall|steps: Seq<(usize, FnType)>|
        #[trigger] seq_steps_ok(s0, steps) implies seq_steps_ok(s1, steps) by {
        assert forall|k: int| 0 <= k < steps.len() implies step_ok(s1, #[trigger] steps[k]) by {
            assert(step_ok(s0, steps[k]));
        }
    }
}

/// Write the value-coupling strength of the edge `(parent_idx, child_idx)`
/// to both sides; a pair that is not connected is a silent no-op.
pub fn set_coupling(network: &mut Network, parent_idx: usize, child_idx: usize, coupling: u64)
    requires
        old(network).inv(),
        parent_idx < old(network).state().len(),
        child_idx < old(network).state().len(),
    ensures
        final(network).inv(),
        final(network).state() == set_coupling_state(
            old(network).state(),
            parent_idx,
            child_idx,
            coupling,
        ),
        same_shell(old(network), final(network)),
{
    let ghost s0 = network.state();
    let n_nodes = network.edges.len();
    proof {
        assert(s0.len() == n_nodes as int);
        assert(s0.node_wf(child_idx as int));
        assert(s0.node_wf(parent_idx as int));
    }

    // 1. Child side: the parent's position in the child's value-parent row.
    let vp_ids: Vec<usize> = match &network.edges[child_idx].value_parents {
        Some(v) => copy_vec(v),
        None => Vec::new(),
    };
    proof {
        assert(vp_ids@ =~= s0.edges[child_idx as int].vp());
    }
    if let Some(pos) = find_pos(&vp_ids, parent_idx) {
        proof {
            lemma_find_id(vp_ids@, parent_idx);
        }
        if pos < network.attributes.value_coupling_parents[child_idx].len() {
            let mut row = copy_vec(&network.attributes.value_coupling_parents[child_idx]);
            row.set(pos, coupling);
            network.attributes.value_coupling_parents[child_idx] = row;
        }
    }
    let ghost s1 = network.state();

    // 2. Parent side: the child's position in the parent's value-child row.
    let vc_ids: Vec<usize> = match &network.edges[parent_idx].value_children {
        Some(v) => copy_vec(v),
        None => Vec::new(),
    };
    proof {
        assert(vc_ids@ =~= s0.edges[parent_idx as int].vc());
    }
    if let Some(pos) = find_pos(&vc_ids, child_idx) {
        proof {
            lemma_find_id(vc_ids@, child_idx);
        }
        if pos < network.attributes.value_coupling_children[parent_idx].len() {
            let mut row = copy_vec(&network.attributes.value_coupling_children[parent_idx]);
            row.set(pos, coupling);
            network.attributes.value_coupling_children[parent_idx] = row;
        }
    }

    proof {
        let target = set_coupling_state(s0, parent_idx, child_idx, coupling);
        assert(network.state().floats =~= target.floats);
        assert(network.state().value_coupling_parents[child_idx as int]
            =~= target.value_coupling_parents[child_idx as int]);
        assert(network.state().value_coupling_children[parent_idx as int]
            =~= target.value_coupling_children[parent_idx as int]);
        assert(network.state().value_coupling_parents =~= target.value_coupling_parents);
        assert(network.state().value_coupling_children =~= target.value_coupling_children);
        assert(network.state().volatility_coupling_parents =~= target.volatility_coupling_parents);
        assert(network.state().volatility_coupling_children
            =~= target.volatility_coupling_children);
        assert(network.state().value_coupling_fn_parents =~= target.value_coupling_fn_parents);
        assert(network.state().xis =~= target.xis);
        assert(network.state().edges =~= target.edges);
        assert(network.state() == target);
        lemma_set_coupling_preserves(s0, parent_idx, child_idx, coupling);
        assert forall|i: int|
            0 <= i < network.inputs@.len() implies (network.inputs@[i] as int)
            < network.state().len() by {
            assert((old(network).inputs@[i] as int) < s0.len());
        }
    }
}

/// Write the same coupling strength to every `(parent, child)` pair of the
/// two id lists.
pub fn set_coupling_vec(
    network: &mut Network,
    parent_idxs: &Vec<usize>,
    child_idxs: &Vec<usize>,
    coupling: u64,
)
    requires
        old(network).inv(),
        forall|t: int|
            0 <= t < parent_idxs@.len() ==> (#[trigger] parent_idxs@[t] as int) < old(
                network,
            ).state().len(),
        forall|t: int|
            0 <= t < child_idxs@.len() ==> (#[trigger] child_idxs@[t] as int) < old(
                network,
            ).state().len(),
    ensures
        final(network).inv(),
        final(network).state() == set_coupling_vec_state(
            old(network).state(),
            parent_idxs@,
            child_idxs@,
            coupling,
            parent_idxs@.len() as int,
        ),
        same_shell(old(network), final(network)),
{
    let ghost s0 = network.state();
    let n_p = parent_idxs.len();
    let n_c = child_idxs.len();
    #[verifier::loop_isolation(false)]
    for a in 0..n_p
        invariant
            network.inv(),
            network.state() == set_coupling_vec_state(
                s0,
                parent_idxs@,
                child_idxs@,
                coupling,
                a as int,
            ),
            network.state().len() == s0.len(),
            same_shell(old(network), network),
        decreases n_p - a,
    {
        let ghost sa = network.state();
        #[verifier::loop_isolation(false)]
        for b in 0..n_c
            invariant
                network.inv(),
                network.state() == set_coupling_row_state(
                    sa,
                    parent_idxs@[a as int],
                    child_idxs@,
                    coupling,
                    b as int,
                ),
                network.state().len() == s0.len(),
                same_shell(old(network), network),
            decreases n_c - b,
        {
            set_coupling(network, parent_idxs[a], child_idxs[b], coupling);
        }
    }
}

/// The state after one parent's couplings to the first `b` children were
/// written.
pub open spec fn set_coupling_row_state(
    s: StateV,
    p: usize,
    children: Seq<usize>,
    kappa: u64,
    b: int,
) -> StateV
    decreases b,
{
    if b <= 0 {
        s
    } else {
        set_coupling_state(set_coupling_row_state(s, p, children, kappa, b - 1), p, children[b - 1], kappa)
    }
}

/// The state after the first `a` parents' couplings to all the children
/// were written.
pub open spec fn set_coupling_vec_state(
    s: StateV,
    parents: Seq<usize>,
    children: Seq<usize>,
    kappa: u64,
    a: int,
) -> StateV
    decreases a,
{
    if a <= 0 {
        s
    } else {
        set_coupling_row_state(
            set_coupling_vec_state(s, parents, children, kappa, a - 1),
            parents[a - 1],
            children,
            kappa,
            children.len() as int,
        )
    }
}

/// Coupling writes never change the coupling structure, the scalar
/// attributes, or the sufficient statistics.
pub proof fn lemma_coupling_row_frame(s: StateV, p: usize, children: Seq<usize>, kappa: u64, b: int)
    ensures
        set_coupling_row_state(s, p, children, kappa, b).edges == s.edges,
        set_coupling_row_state(s, p, children, kappa, b).len() == s.len(),
        set_coupling_row_state(s, p, children, kappa, b).floats == s.floats,
        set_coupling_row_state(s, p, children, kappa, b).xis == s.xis,
    decreases b,
{
    if b > 0 {
        lemma_coupling_row_frame(s, p, children, kappa, b - 1);
    }
}

/// The whole-product coupling write has the same frame.
pub proof fn lemma_coupling_vec_frame(
    s: StateV,
    parents: Seq<usize>,
    children: Seq<usize>,
    kappa: u64,
    a: int,
)
    ensures
        set_coupling_vec_state(s, parents, children, kappa, a).edges == s.edges,
        set_coupling_vec_state(s, parents, children, kappa, a).len() == s.len(),
        set_coupling_vec_state(s, parents, children, kappa, a).floats == s.floats,
        set_coupling_vec_state(s, parents, children, kappa, a).xis == s.xis,
    decreases a,
{
    if a > 0 {
        lemma_coupling_vec_frame(s, parents, children, kappa, a - 1);
        lemma_coupling_row_frame(
            set_coupling_vec_state(s, parents, children, kappa, a - 1),
            parents[a - 1],
            children,
            kappa,
            children.len() as int,
        );
    }
}

} // verus!
