//! The update-sequence planner.
//!
//! From the coupling structure alone it produces two ordered kernel lists.
//! Predictions run top-down: repeated passes emit the first remaining node
//! whose parents have all been emitted, dropping the rest when a pass makes
//! no progress.  Updates run bottom-up in two-phase batches: a posterior
//! batch of every non-input node whose children have all left the
//! prediction-error queue, then a prediction-error batch of every node
//! whose posterior is done (or that needs none).  Both lists depend only on
//! the node kinds, the edges and the update variant, never on attribute
//! values.

use vstd::prelude::*;

use crate::model::{
    copy_vec, seq_steps_ok, step_ok, EdgeV, Network, NodeKind, StateV, UpdateSequence, UpdateType,
};
use crate::utils::function_pointer::FnType;

verus! {

/// Whether node `idx` still has a parent among the remaining nodes.
pub open spec fn has_parent_in(edges: Seq<EdgeV>, idx: usize, remaining: Seq<usize>) -> bool {
    let e = edges[idx as int];
    (exists|t: int| 0 <= t < e.vp().len() && remaining.contains(e.vp()[t])) || (exists|t: int|
        0 <= t < e.qp().len() && remaining.contains(e.qp()[t]))
}

/// The position of the first remaining node with no remaining parent, from
/// position `k` on.
pub open spec fn first_ready(edges: Seq<EdgeV>, remaining: Seq<usize>, k: int) -> Option<int>
    decreases remaining.len() - k,
{
    if k < 0 || k >= remaining.len() {
        None
    } else if !has_parent_in(edges, remaining[k], remaining) {
        Some(k)
    } else {
        first_ready(edges, remaining, k + 1)
    }
}

/// The prediction kernel a node kind emits, if any.
pub open spec fn prediction_step_of(kind: NodeKind, idx: usize) -> Seq<(usize, FnType)> {
    match kind {
        NodeKind::Continuous => seq![(idx, FnType::PredictionContinuous)],
        NodeKind::Volatile => seq![(idx, FnType::PredictionVolatile)],
        NodeKind::Exponential => Seq::empty(),
    }
}

/// The prediction sequence drained from `remaining`: emit the first node
/// with no remaining parent, remove it, repeat; stop when no node is ready.
pub open spec fn preds_loop(edges: Seq<EdgeV>, remaining: Seq<usize>, fuel: nat) -> Seq<
    (usize, FnType),
>
    decreases fuel,
{
    if fuel == 0 {
        Seq::empty()
    } else {
        match first_ready(edges, remaining, 0) {
            None => Seq::empty(),
            Some(pos) => {
                if 0 <= pos < remaining.len() {
                    let idx = remaining[pos];
                    prediction_step_of(edges[idx as int].node_type, idx) + preds_loop(
                        edges,
                        remaining.remove(pos),
                        (fuel - 1) as nat,
                    )
                } else {
                    Seq::empty()
                }
            },
        }
    }
}

/// The ascending id list `0, 1, ..., n-1`.
pub open spec fn id_range(n: int) -> Seq<usize> {
    Seq::new(n as nat, |t: int| t as usize)
}

/// The full prediction sequence of a state.
pub open spec fn predictions_of(s: StateV) -> Seq<(usize, FnType)> {
    preds_loop(s.edges, id_range(s.len()), s.len() as nat)
}

/// Whether node `idx` still has a child in the prediction-error queue.
pub open spec fn has_child_in(edges: Seq<EdgeV>, idx: usize, pe: Seq<usize>) -> bool {
    let e = edges[idx as int];
    (exists|t: int| 0 <= t < e.vc().len() && pe.contains(e.vc()[t])) || (exists|t: int|
        0 <= t < e.qc().len() && pe.contains(e.qc()[t]))
}

/// The first `k` entries of `po` that are eligible for a posterior update:
/// every child has left the prediction-error queue.
pub open spec fn eligible_po(edges: Seq<EdgeV>, pe: Seq<usize>, po: Seq<usize>, k: int) -> Seq<
    usize,
>
    decreases k,
{
    if k <= 0 {
        Seq::empty()
    } else {
        eligible_po(edges, pe, po, k - 1) + (if !has_child_in(edges, po[k - 1], pe) {
            seq![po[k - 1]]
        } else {
            Seq::empty()
        })
    }
}

/// The posterior kernel of a node: chosen by kind, the update variant, and
/// whether the node has volatility children.
pub open spec fn posterior_step_of(edges: Seq<EdgeV>, ut: UpdateType, idx: usize) -> Seq<
    (usize, FnType),
> {
    let e = edges[idx as int];
    match e.node_type {
        NodeKind::Continuous => {
            if e.volatility_children is Some {
                match ut {
                    UpdateType::Ehgf => seq![(idx, FnType::PosteriorContinuousEhgf)],
                    UpdateType::Unbounded => seq![(idx, FnType::PosteriorContinuousUnbounded)],
                    UpdateType::Standard => seq![(idx, FnType::PosteriorContinuousStandard)],
                }
            } else {
                seq![(idx, FnType::PosteriorContinuousStandard)]
            }
        },
        NodeKind::Volatile => match ut {
            UpdateType::Ehgf => seq![(idx, FnType::PosteriorVolatileEhgf)],
            UpdateType::Unbounded => seq![(idx, FnType::PosteriorVolatileUnbounded)],
            UpdateType::Standard => seq![(idx, FnType::PosteriorVolatileStandard)],
        },
        NodeKind::Exponential => Seq::empty(),
    }
}

/// The posterior steps of a whole batch, in order.
pub open spec fn posterior_batch(edges: Seq<EdgeV>, ut: UpdateType, batch: Seq<usize>) -> Seq<
    (usize, FnType),
>
    decreases batch.len(),
{
    if batch.len() == 0 {
        Seq::empty()
    } else {
        posterior_batch(edges, ut, batch.drop_last()) + posterior_step_of(edges, ut, batch.last())
    }
}

/// The entries of a queue that are not contained in `gone`.
pub open spec fn without(q: Seq<usize>, gone: Seq<usize>, k: int) -> Seq<usize>
    decreases k,
{
    if k <= 0 {
        Seq::empty()
    } else {
        without(q, gone, k - 1) + (if gone.contains(q[k - 1]) {
            Seq::empty()
        } else {
            seq![q[k - 1]]
        })
    }
}

/// The first `k` entries of the prediction-error queue that are eligible:
/// their posterior step is no longer pending.
pub open spec fn eligible_pe(pe: Seq<usize>, po_left: Seq<usize>, k: int) -> Seq<usize>
    decreases k,
{
    if k <= 0 {
        Seq::empty()
    } else {
        eligible_pe(pe, po_left, k - 1) + (if po_left.contains(pe[k - 1]) {
            Seq::empty()
        } else {
            seq![pe[k - 1]]
        })
    }
}

/// The prediction-error kernel of a node: continuous and volatile nodes
/// emit one only when they have a parent of either kind; exponential-family
/// nodes always emit theirs.
pub open spec fn pe_step_of(edges: Seq<EdgeV>, idx: usize) -> Seq<(usize, FnType)> {
    let e = edges[idx as int];
    let has_parents = !(e.value_parents is None && e.volatility_parents is None);
    match e.node_type {
        NodeKind::Continuous => {
            if has_parents {
                seq![(idx, FnType::PredictionErrorContinuous)]
            } else {
                Seq::empty()
            }
        },
        NodeKind::Volatile => {
            if has_parents {
                seq![(idx, FnType::PredictionErrorVolatile)]
            } else {
                Seq::empty()
            }
        },
        NodeKind::Exponential => seq![(idx, FnType::PredictionErrorExponential)],
    }
}

/// The prediction-error steps of a whole batch, in order.
pub open spec fn pe_batch(edges: Seq<EdgeV>, batch: Seq<usize>) -> Seq<(usize, FnType)>
    decreases batch.len(),
{
    if batch.len() == 0 {
        Seq::empty()
    } else {
        pe_batch(edges, batch.drop_last()) + pe_step_of(edges, batch.last())
    }
}

/// One iteration of the update planner makes progress when its posterior
/// batch is non-empty or its prediction-error batch emitted a kernel.
pub open spec fn updates_loop(
    edges: Seq<EdgeV>,
    ut: UpdateType,
    pe: Seq<usize>,
    po: Seq<usize>,
    fuel: nat,
) -> Seq<(usize, FnType)>
    decreases fuel,
{
    if fuel == 0 {
        Seq::empty()
    } else {
        let po_batch_ids = eligible_po(edges, pe, po, po.len() as int);
        let po_left = without(po, po_batch_ids, po.len() as int);
        let pe_batch_ids = eligible_pe(pe, po_left, pe.len() as int);
        let pe_left = without(pe, pe_batch_ids, pe.len() as int);
        let emitted = posterior_batch(edges, ut, po_batch_ids) + pe_batch(edges, pe_batch_ids);
        let has_update = po_batch_ids.len() > 0 || pe_batch(edges, pe_batch_ids).len() > 0;
        if pe_left.len() == 0 && po_left.len() == 0 {
            emitted
        } else if !has_update {
            emitted
        } else {
            emitted + updates_loop(edges, ut, pe_left, po_left, (fuel - 1) as nat)
        }
    }
}

/// The ascending non-input id list: the posterior queue's starting point.
pub open spec fn non_inputs(n: int, inputs: Seq<usize>) -> Seq<usize>
    decreases n,
{
    if n <= 0 {
        Seq::empty()
    } else {
        non_inputs(n - 1, inputs) + (if inputs.contains((n - 1) as usize) {
            Seq::empty()
        } else {
            seq![(n - 1) as usize]
        })
    }
}

/// The full update sequence of a state.
pub open spec fn updates_of(s: StateV, ut: UpdateType, inputs: Seq<usize>) -> Seq<(usize, FnType)> {
    updates_loop(
        s.edges,
        ut,
        id_range(s.len()),
        non_inputs(s.len(), inputs),
        (2 * s.len() + 2) as nat,
    )
}

// ---------------------------------------------------------------------------
// Fuel insensitivity and step validity.
// ---------------------------------------------------------------------------

/// Any fuel at least the number of remaining nodes drains the prediction
/// queue the same way.
pub proof fn lemma_preds_fuel(edges: Seq<EdgeV>, remaining: Seq<usize>, f1: nat, f2: nat)
    requires
        f1 >= remaining.len(),
        f2 >= remaining.len(),
    ensures
        preds_loop(edges, remaining, f1) == preds_loop(edges, remaining, f2),
    decreases remaining.len(),
{
    match first_ready(edges, remaining, 0) {
        None => {},
        Some(pos) => {
            if 0 <= pos < remaining.len() {
                lemma_preds_fuel(
                    edges,
                    remaining.remove(pos),
                    (f1 - 1) as nat,
                    (f2 - 1) as nat,
                );
            }
        },
    }
}

/// Every entry of an eligible posterior batch comes from the queue.
pub proof fn lemma_eligible_po_sub(edges: Seq<EdgeV>, pe: Seq<usize>, po: Seq<usize>, k: int)
    requires
        k <= po.len(),
    ensures
        forall|t: int|
            0 <= t < eligible_po(edges, pe, po, k).len() ==> po.contains(
                #[trigger] eligible_po(edges, pe, po, k)[t],
            ),
    decreases k,
{
    if k > 0 {
        lemma_eligible_po_sub(edges, pe, po, k - 1);
        assert forall|t: int| 0 <= t < eligible_po(edges, pe, po, k).len() implies po.contains(
            #[trigger] eligible_po(edges, pe, po, k)[t],
        ) by {
            if t < eligible_po(edges, pe, po, k - 1).len() {
                assert(eligible_po(edges, pe, po, k)[t] == eligible_po(edges, pe, po, k - 1)[t]);
            } else {
                assert(eligible_po(edges, pe, po, k)[t] == po[k - 1]);
            }
        }
    }
}

/// Every entry left after a removal pass comes from the queue.
pub proof fn lemma_without_sub(q: Seq<usize>, gone: Seq<usize>, k: int)
    requires
        0 <= k <= q.len(),
    ensures
        forall|t: int|
            0 <= t < without(q, gone, k).len() ==> q.contains(#[trigger] without(q, gone, k)[t]),
        without(q, gone, k).len() <= k,
    decreases k,
{
    if k > 0 {
        lemma_without_sub(q, gone, k - 1);
        assert forall|t: int| 0 <= t < without(q, gone, k).len() implies q.contains(
            #[trigger] without(q, gone, k)[t],
        ) by {
            if t < without(q, gone, k - 1).len() {
                assert(without(q, gone, k)[t] == without(q, gone, k - 1)[t]);
            } else {
                assert(without(q, gone, k)[t] == q[k - 1]);
            }
        }
    }
}

/// Every entry of an eligible prediction-error batch comes from the queue.
pub proof fn lemma_eligible_pe_sub(pe: Seq<usize>, po_left: Seq<usize>, k: int)
    requires
        k <= pe.len(),
    ensures
        forall|t: int|
            0 <= t < eligible_pe(pe, po_left, k).len() ==> pe.contains(
                #[trigger] eligible_pe(pe, po_left, k)[t],
            ),
    decreases k,
{
    if k > 0 {
        lemma_eligible_pe_sub(pe, po_left, k - 1);
        assert forall|t: int| 0 <= t < eligible_pe(pe, po_left, k).len() implies pe.contains(
            #[trigger] eligible_pe(pe, po_left, k)[t],
        ) by {
            if t < eligible_pe(pe, po_left, k - 1).len() {
                assert(eligible_pe(pe, po_left, k)[t] == eligible_pe(pe, po_left, k - 1)[t]);
            } else {
                assert(eligible_pe(pe, po_left, k)[t] == pe[k - 1]);
            }
        }
    }
}

/// Every step a prediction queue emits is valid for the state.
pub proof fn lemma_preds_ok(s: StateV, remaining: Seq<usize>, fuel: nat)
    requires
        forall|t: int| 0 <= t < remaining.len() ==> (#[trigger] remaining[t] as int) < s.len(),
    ensures
        seq_steps_ok(s, preds_loop(s.edges, remaining, fuel)),
    decreases fuel,
{
    if fuel > 0 {
        match first_ready(s.edges, remaining, 0) {
            None => {},
            Some(pos) => {
                if 0 <= pos < remaining.len() {
                    let rest = remaining.remove(pos);
                    assert forall|t: int| 0 <= t < rest.len() implies (#[trigger] rest[t] as int)
                        < s.len() by {
                        if t < pos {
                            assert(rest[t] == remaining[t]);
                        } else {
                            assert(rest[t] == remaining[t + 1]);
                        }
                    }
                    lemma_preds_ok(s, rest, (fuel - 1) as nat);
                    let emitted = prediction_step_of(
                        s.edges[remaining[pos] as int].node_type,
                        remaining[pos],
                    );
                    let whole = preds_loop(s.edges, remaining, fuel);
                    assert forall|k: int| 0 <= k < whole.len() implies step_ok(
                        s,
                        #[trigger] whole[k],
                    ) by {
                        if k < emitted.len() {
                            assert(whole[k] == emitted[k]);
                        } else {
                            assert(whole[k] == preds_loop(s.edges, rest, (fuel - 1) as nat)[k
                                - emitted.len()]);
                        }
                    }
                }
            },
        }
    }
}

/// Every step a posterior batch emits is valid for a well-formed state.
pub proof fn lemma_posterior_batch_ok(s: StateV, ut: UpdateType, batch: Seq<usize>)
    requires
        s.wf(),
        forall|t: int| 0 <= t < batch.len() ==> (#[trigger] batch[t] as int) < s.len(),
    ensures
        seq_steps_ok(s, posterior_batch(s.edges, ut, batch)),
    decreases batch.len(),
{
    if batch.len() > 0 {
        lemma_posterior_batch_ok(s, ut, batch.drop_last());
        let whole = posterior_batch(s.edges, ut, batch);
        let prefix = posterior_batch(s.edges, ut, batch.drop_last());
        let last_steps = posterior_step_of(s.edges, ut, batch.last());
        assert(batch.drop_last().len() == batch.len() - 1);
        assert forall|t: int| 0 <= t < batch.drop_last().len() implies (
        #[trigger] batch.drop_last()[t] as int) < s.len() by {
            assert(batch.drop_last()[t] == batch[t]);
        }
        assert forall|k: int| 0 <= k < whole.len() implies step_ok(s, #[trigger] whole[k]) by {
            if k < prefix.len() {
                assert(whole[k] == prefix[k]);
            } else {
                assert(whole[k] == last_steps[k - prefix.len()]);
                let idx = batch.last();
                assert((idx as int) < s.len());
                assert(s.node_wf(idx as int));
            }
        }
    }
}

/// Every step a prediction-error batch emits is valid for the state.
pub proof fn lemma_pe_batch_ok(s: StateV, batch: Seq<usize>)
    requires
        forall|t: int| 0 <= t < batch.len() ==> (#[trigger] batch[t] as int) < s.len(),
    ensures
        seq_steps_ok(s, pe_batch(s.edges, batch)),
    decreases batch.len(),
{
    if batch.len() > 0 {
        assert forall|t: int| 0 <= t < batch.drop_last().len() implies (
        #[trigger] batch.drop_last()[t] as int) < s.len() by {
            assert(batch.drop_last()[t] == batch[t]);
        }
        lemma_pe_batch_ok(s, batch.drop_last());
        let whole = pe_batch(s.edges, batch);
        let prefix = pe_batch(s.edges, batch.drop_last());
        let last_steps = pe_step_of(s.edges, batch.last());
        assert forall|k: int| 0 <= k < whole.len() implies step_ok(s, #[trigger] whole[k]) by {
            if k < prefix.len() {
                assert(whole[k] == prefix[k]);
            } else {
                assert(whole[k] == last_steps[k - prefix.len()]);
            }
        }
    }
}

/// Every step an update queue emits is valid for a well-formed state.
pub proof fn lemma_updates_ok(s: StateV, ut: UpdateType, pe: Seq<usize>, po: Seq<usize>, fuel: nat)
    requires
        s.wf(),
        forall|t: int| 0 <= t < pe.len() ==> (#[trigger] pe[t] as int) < s.len(),
        forall|t: int| 0 <= t < po.len() ==> (#[trigger] po[t] as int) < s.len(),
    ensures
        seq_steps_ok(s, updates_loop(s.edges, ut, pe, po, fuel)),
    decreases fuel,
{
    if fuel > 0 {
        let po_batch_ids = eligible_po(s.edges, pe, po, po.len() as int);
        let po_left = without(po, po_batch_ids, po.len() as int);
        let pe_batch_ids = eligible_pe(pe, po_left, pe.len() as int);
        let pe_left = without(pe, pe_batch_ids, pe.len() as int);
        lemma_eligible_po_sub(s.edges, pe, po, po.len() as int);
        lemma_without_sub(po, po_batch_ids, po.len() as int);
        lemma_eligible_pe_sub(pe, po_left, pe.len() as int);
        lemma_without_sub(pe, pe_batch_ids, pe.len() as int);
        assert forall|t: int| 0 <= t < po_batch_ids.len() implies (
        #[trigger] po_batch_ids[t] as int) < s.len() by {
            assert(po.contains(po_batch_ids[t]));
            let u = choose|u: int| 0 <= u < po.len() && po[u] == po_batch_ids[t];
            assert((po[u] as int) < s.len());
        }
        assert forall|t: int| 0 <= t < pe_batch_ids.len() implies (
        #[trigger] pe_batch_ids[t] as int) < s.len() by {
            assert(pe.contains(pe_batch_ids[t]));
            let u = choose|u: int| 0 <= u < pe.len() && pe[u] == pe_batch_ids[t];
            assert((pe[u] as int) < s.len());
        }
        lemma_posterior_batch_ok(s, ut, po_batch_ids);
        lemma_pe_batch_ok(s, pe_batch_ids);
        let emitted = posterior_batch(s.edges, ut, po_batch_ids) + pe_batch(s.edges, pe_batch_ids);
        assert(seq_steps_ok(s, emitted)) by {
            assert forall|k: int| 0 <= k < emitted.len() implies step_ok(
                s,
                #[trigger] emitted[k],
            ) by {
                if k < posterior_batch(s.edges, ut, po_batch_ids).len() {
                    assert(emitted[k] == posterior_batch(s.edges, ut, po_batch_ids)[k]);
                } else {
                    assert(emitted[k] == pe_batch(s.edges, pe_batch_ids)[k - posterior_batch(
                        s.edges,
                        ut,
                        po_batch_ids,
                    ).len()]);
                }
            }
        }
        let has_update = po_batch_ids.len() > 0 || pe_batch(s.edges, pe_batch_ids).len() > 0;
        if pe_left.len() == 0 && po_left.len() == 0 {
        } else if !has_update {
        } else {
            assert forall|t: int| 0 <= t < pe_left.len() implies (#[trigger] pe_left[t] as int)
                < s.len() by {
                assert(pe.contains(pe_left[t]));
                let u = choose|u: int| 0 <= u < pe.len() && pe[u] == pe_left[t];
                assert((pe[u] as int) < s.len());
            }
            assert forall|t: int| 0 <= t < po_left.len() implies (#[trigger] po_left[t] as int)
                < s.len() by {
                assert(po.contains(po_left[t]));
                let u = choose|u: int| 0 <= u < po.len() && po[u] == po_left[t];
                assert((po[u] as int) < s.len());
            }
            lemma_updates_ok(s, ut, pe_left, po_left, (fuel - 1) as nat);
            let rest = updates_loop(s.edges, ut, pe_left, po_left, (fuel - 1) as nat);
            let whole = updates_loop(s.edges, ut, pe, po, fuel);
            assert forall|k: int| 0 <= k < whole.len() implies step_ok(s, #[trigger] whole[k]) by {
                if k < emitted.len() {
                    assert(whole[k] == emitted[k]);
                } else {
                    assert(whole[k] == rest[k - emitted.len()]);
                }
            }
        }
    }
}

/// Scanning forward over nodes that all still have parents does not change
/// the first ready position.
pub proof fn lemma_first_ready_from(edges: Seq<EdgeV>, remaining: Seq<usize>, j: int)
    requires
        0 <= j <= remaining.len(),
        forall|t: int| 0 <= t < j ==> has_parent_in(edges, #[trigger] remaining[t], remaining),
    ensures
        first_ready(edges, remaining, 0) == first_ready(edges, remaining, j),
    decreases j,
{
    if j > 0 {
        lemma_first_ready_from(edges, remaining, j - 1);
    }
}

/// A removal pass that meets a member of `gone` strictly shrinks the queue.
pub proof fn lemma_without_strict(q: Seq<usize>, gone: Seq<usize>, k: int, t0: int)
    requires
        0 <= t0 < k <= q.len(),
        gone.contains(q[t0]),
    ensures
        without(q, gone, k).len() < k,
    decreases k,
{
    lemma_without_sub(q, gone, k - 1);
    if t0 == k - 1 {
    } else {
        lemma_without_strict(q, gone, k - 1, t0);
    }
}

/// Whether node `idx` has a parent that is still in `remaining`.
fn has_parent_in_exec(network: &Network, idx: usize, remaining: &Vec<usize>) -> (r: bool)
    requires
        network.wf(),
        idx < network.state().len(),
    ensures
        r == has_parent_in(network.state().edges, idx, remaining@),
{
    let ghost edges = network.state().edges;
    let ghost e = edges[idx as int];
    let vp_ids: Vec<usize> = match &network.edges[idx].value_parents {
        Some(v) => copy_vec(v),
        None => Vec::new(),
    };
    proof {
        assert(vp_ids@ =~= e.vp());
    }
    let n_vp = vp_ids.len();
    #[verifier::loop_isolation(false)]
    for t in 0..n_vp
        invariant
            forall|u: int| 0 <= u < t ==> !remaining@.contains(#[trigger] vp_ids@[u]),
        decreases n_vp - t,
    {
        if crate::model::contains_id(remaining, vp_ids[t]) {
            proof {
                assert(remaining@.contains(e.vp()[t as int]));
            }
            return true;
        }
    }
    let qp_ids: Vec<usize> = match &network.edges[idx].volatility_parents {
        Some(v) => copy_vec(v),
        None => Vec::new(),
    };
    proof {
        assert(qp_ids@ =~= e.qp());
    }
    let n_qp = qp_ids.len();
    #[verifier::loop_isolation(false)]
    for t in 0..n_qp
        invariant
            forall|u: int| 0 <= u < t ==> !remaining@.contains(#[trigger] qp_ids@[u]),
        decreases n_qp - t,
    {
        if crate::model::contains_id(remaining, qp_ids[t]) {
            proof {
                assert(remaining@.contains(e.qp()[t as int]));
            }
            return true;
        }
    }
    proof {
        assert forall|u: int| 0 <= u < e.vp().len() implies !remaining@.contains(
            #[trigger] e.vp()[u],
        ) by {
            assert(!remaining@.contains(vp_ids@[u]));
        }
        assert forall|u: int| 0 <= u < e.qp().len() implies !remaining@.contains(
            #[trigger] e.qp()[u],
        ) by {
            assert(!remaining@.contains(qp_ids@[u]));
        }
    }
    false
}

/// Whether node `idx` has a child that is still in the prediction-error
/// queue.
fn has_child_in_exec(network: &Network, idx: usize, pe: &Vec<usize>) -> (r: bool)
    requires
        network.wf(),
        idx < network.state().len(),
    ensures
        r == has_child_in(network.state().edges, idx, pe@),
{
    let ghost edges = network.state().edges;
    let ghost e = edges[idx as int];
    let vc_ids: Vec<usize> = match &network.edges[idx].value_children {
        Some(v) => copy_vec(v),
        None => Vec::new(),
    };
    proof {
        assert(vc_ids@ =~= e.vc());
    }
    let n_vc = vc_ids.len();
    #[verifier::loop_isolation(false)]
    for t in 0..n_vc
        invariant
            forall|u: int| 0 <= u < t ==> !pe@.contains(#[trigger] vc_ids@[u]),
        decreases n_vc - t,
    {
        if crate::model::contains_id(pe, vc_ids[t]) {
            proof {
                assert(pe@.contains(e.vc()[t as int]));
            }
            return true;
        }
    }
    let qc_ids: Vec<usize> = match &network.edges[idx].volatility_children {
        Some(v) => copy_vec(v),
        None => Vec::new(),
    };
    proof {
        assert(qc_ids@ =~= e.qc());
    }
    let n_qc = qc_ids.len();
    #[verifier::loop_isolation(false)]
    for t in 0..n_qc
        invariant
            forall|u: int| 0 <= u < t ==> !pe@.contains(#[trigger] qc_ids@[u]),
        decreases n_qc - t,
    {
        if crate::model::contains_id(pe, qc_ids[t]) {
            proof {
                assert(pe@.contains(e.qc()[t as int]));
            }
            return true;
        }
    }
    proof {
        assert forall|u: int| 0 <= u < e.vc().len() implies !pe@.contains(
            #[trigger] e.vc()[u],
        ) by {
            assert(!pe@.contains(vc_ids@[u]));
        }
        assert forall|u: int| 0 <= u < e.qc().len() implies !pe@.contains(
            #[trigger] e.qc()[u],
        ) by {
            assert(!pe@.contains(qc_ids@[u]));
        }
    }
    false
}

/// The position of the first remaining node with no remaining parent.
fn find_first_ready(network: &Network, remaining: &Vec<usize>) -> (r: Option<usize>)
    requires
        network.wf(),
        forall|t: int|
            0 <= t < remaining@.len() ==> (#[trigger] remaining@[t] as int)
                < network.state().len(),
    ensures
        match r {
            Some(p) => p < remaining@.len() && first_ready(network.state().edges, remaining@, 0)
                == Some(p as int),
            None => first_ready(network.state().edges, remaining@, 0) is None,
        },
{
    let ghost edges = network.state().edges;
    let len = remaining.len();
    #[verifier::loop_isolation(false)]
    for j in 0..len
        invariant
            forall|t: int| 0 <= t < j ==> has_parent_in(edges, #[trigger] remaining@[t], remaining@),
        decreases len - j,
    {
        if !has_parent_in_exec(network, remaining[j], remaining) {
            proof {
                lemma_first_ready_from(edges, remaining@, j as int);
            }
            return Some(j);
        }
    }
    proof {
        lemma_first_ready_from(edges, remaining@, remaining@.len() as int);
    }
    None
}

/// Compute the prediction sequence of the network: repeated top-down passes
/// over the remaining nodes, each emitting the first node whose parents
/// have all been emitted.
pub fn get_predictions_sequence(network: &Network) -> (r: Vec<(usize, FnType)>)
    requires
        network.wf(),
    ensures
        r@ == predictions_of(network.state()),
        seq_steps_ok(network.state(), r@),
{
    let ghost s = network.state();
    let n = network.edges.len();
    let mut nodes_idxs: Vec<usize> = Vec::new();
    #[verifier::loop_isolation(false)]
    for t in 0..n
        invariant
            nodes_idxs@ == id_range(t as int),
        decreases n - t,
    {
        nodes_idxs.push(t);
        proof {
            assert(nodes_idxs@ =~= id_range(t + 1));
        }
    }

    let mut predictions: Vec<(usize, FnType)> = Vec::new();
    proof {
        lemma_preds_fuel(s.edges, nodes_idxs@, nodes_idxs@.len() as nat, s.len() as nat);
    }
    #[verifier::loop_isolation(false)]
    loop
        invariant
            forall|t: int|
                0 <= t < nodes_idxs@.len() ==> (#[trigger] nodes_idxs@[t] as int) < s.len(),
            predictions@ + preds_loop(s.edges, nodes_idxs@, nodes_idxs@.len() as nat)
                == predictions_of(s),
        decreases nodes_idxs@.len(),
    {
        let ghost rem0 = nodes_idxs@;
        match find_first_ready(network, &nodes_idxs) {
            None => {
                proof {
                    assert(preds_loop(s.edges, rem0, rem0.len() as nat) =~= Seq::<
                        (usize, FnType),
                    >::empty());
                    assert(predictions@ =~= predictions@ + Seq::<(usize, FnType)>::empty());
                }
                break;
            },
            Some(pos) => {
                let idx = nodes_idxs[pos];
                let ghost emitted = prediction_step_of(s.edges[idx as int].node_type, idx);
                match network.edges[idx].node_type {
                    NodeKind::Continuous => {
                        predictions.push((idx, FnType::PredictionContinuous));
                    },
                    NodeKind::Volatile => {
                        predictions.push((idx, FnType::PredictionVolatile));
                    },
                    NodeKind::Exponential => {},
                }
                nodes_idxs.remove(pos);
                proof {
                    assert(nodes_idxs@ == rem0.remove(pos as int));
                    assert(preds_loop(s.edges, rem0, rem0.len() as nat) == emitted + preds_loop(
                        s.edges,
                        nodes_idxs@,
                        (rem0.len() - 1) as nat,
                    ));
                    assert(nodes_idxs@.len() == rem0.len() - 1);
                    assert forall|t: int|
                        0 <= t < nodes_idxs@.len() implies (#[trigger] nodes_idxs@[t] as int)
                        < s.len() by {
                        if t < pos {
                            assert(nodes_idxs@[t] == rem0[t]);
                        } else {
                            assert(nodes_idxs@[t] == rem0[t + 1]);
                        }
                    }
                    assert(predictions@ + preds_loop(s.edges, nodes_idxs@, nodes_idxs@.len() as nat)
                        =~= predictions_of(s));
                }
            },
        }
    }
    proof {
        assert forall|t: int| 0 <= t < id_range(s.len()).len() implies (#[trigger] id_range(
            s.len(),
        )[t] as int) < s.len() by {
            assert(id_range(s.len())[t] == t as usize);
        }
        lemma_preds_ok(s, id_range(s.len()), s.len() as nat);
    }
    predictions
}

/// Every entry of the non-input list is an id below `n`, and there are at
/// most `n` of them.
pub proof fn lemma_non_inputs_sub(n: int, inputs: Seq<usize>)
    requires
        n >= 0,
    ensures
        forall|t: int|
            0 <= t < non_inputs(n, inputs).len() ==> (#[trigger] non_inputs(n, inputs)[t] as int)
                < n,
        non_inputs(n, inputs).len() <= n,
    decreases n,
{
    if n > 0 {
        lemma_non_inputs_sub(n - 1, inputs);
        assert forall|t: int| 0 <= t < non_inputs(n, inputs).len() implies (
        #[trigger] non_inputs(n, inputs)[t] as int) < n by {
            if t < non_inputs(n - 1, inputs).len() {
                assert(non_inputs(n, inputs)[t] == non_inputs(n - 1, inputs)[t]);
            } else {
                assert(non_inputs(n, inputs)[t] == (n - 1) as usize);
            }
        }
    }
}

/// The queue entries that are not in `gone`.
fn retain_without(q: &Vec<usize>, gone: &Vec<usize>) -> (r: Vec<usize>)
    ensures
        r@ == without(q@, gone@, q@.len() as int),
{
    let mut r: Vec<usize> = Vec::new();
    let n = q.len();
    #[verifier::loop_isolation(false)]
    for j in 0..n
        invariant
            r@ == without(q@, gone@, j as int),
        decreases n - j,
    {
        if !crate::model::contains_id(gone, q[j]) {
            r.push(q[j]);
        }
    }
    r
}

/// The queued nodes whose children have all left the prediction-error
/// queue.
fn compute_eligible_po(network: &Network, pe: &Vec<usize>, po: &Vec<usize>) -> (r: Vec<usize>)
    requires
        network.wf(),
        forall|t: int| 0 <= t < po@.len() ==> (#[trigger] po@[t] as int) < network.state().len(),
    ensures
        r@ == eligible_po(network.state().edges, pe@, po@, po@.len() as int),
{
    let mut r: Vec<usize> = Vec::new();
    let n = po.len();
    #[verifier::loop_isolation(false)]
    for j in 0..n
        invariant
            r@ == eligible_po(network.state().edges, pe@, po@, j as int),
        decreases n - j,
    {
        if !has_child_in_exec(network, po[j], pe) {
            r.push(po[j]);
        }
    }
    r
}

/// The queued nodes whose posterior step is no longer pending.
fn compute_eligible_pe(pe: &Vec<usize>, po_left: &Vec<usize>) -> (r: Vec<usize>)
    ensures
        r@ == eligible_pe(pe@, po_left@, pe@.len() as int),
{
    let mut r: Vec<usize> = Vec::new();
    let n = pe.len();
    #[verifier::loop_isolation(false)]
    for j in 0..n
        invariant
            r@ == eligible_pe(pe@, po_left@, j as int),
        decreases n - j,
    {
        if !crate::model::contains_id(po_left, pe[j]) {
            r.push(pe[j]);
        }
    }
    r
}

/// Append the posterior steps of a whole batch.
fn emit_posterior_batch(
    network: &Network,
    updates: &mut Vec<(usize, FnType)>,
    batch: &Vec<usize>,
    ut: UpdateType,
)
    requires
        network.wf(),
        forall|t: int|
            0 <= t < batch@.len() ==> (#[trigger] batch@[t] as int) < network.state().len(),
    ensures
        final(updates)@ == old(updates)@ + posterior_batch(network.state().edges, ut, batch@),
{
    let ghost upd0 = updates@;
    let ghost edges = network.state().edges;
    let n = batch.len();
    proof {
        assert(updates@ =~= upd0 + posterior_batch(edges, ut, batch@.take(0)));
    }
    #[verifier::loop_isolation(false)]
    for j in 0..n
        invariant
            updates@ == upd0 + posterior_batch(edges, ut, batch@.take(j as int)),
        decreases n - j,
    {
        let idx = batch[j];
        match network.edges[idx].node_type {
            NodeKind::Continuous => {
                if network.edges[idx].volatility_children.is_some() {
                    match ut {
                        UpdateType::Ehgf => updates.push((idx, FnType::PosteriorContinuousEhgf)),
                        UpdateType::Unbounded => updates.push(
                            (idx, FnType::PosteriorContinuousUnbounded),
                        ),
                        UpdateType::Standard => updates.push(
                            (idx, FnType::PosteriorContinuousStandard),
                        ),
                    }
                } else {
                    updates.push((idx, FnType::PosteriorContinuousStandard));
                }
            },
            NodeKind::Volatile => {
                match ut {
                    UpdateType::Ehgf => updates.push((idx, FnType::PosteriorVolatileEhgf)),
                    UpdateType::Unbounded => updates.push(
                        (idx, FnType::PosteriorVolatileUnbounded),
                    ),
                    UpdateType::Standard => updates.push(
                        (idx, FnType::PosteriorVolatileStandard),
                    ),
                }
            },
            NodeKind::Exponential => {},
        }
        proof {
            assert(batch@.take(j + 1).drop_last() =~= batch@.take(j as int));
            assert(batch@.take(j + 1).last() == batch@[j as int]);
            assert(updates@ =~= upd0 + posterior_batch(edges, ut, batch@.take(j + 1)));
        }
    }
    proof {
        assert(batch@.take(batch@.len() as int) =~= batch@);
    }
}

/// Append the prediction-error steps of a whole batch; report whether any
/// kernel was emitted.
fn emit_pe_batch(network: &Network, updates: &mut Vec<(usize, FnType)>, batch: &Vec<usize>) -> (any:
    bool)
    requires
        network.wf(),
        forall|t: int|
            0 <= t < batch@.len() ==> (#[trigger] batch@[t] as int) < network.state().len(),
    ensures
        final(updates)@ == old(updates)@ + pe_batch(network.state().edges, batch@),
        any == (pe_batch(network.state().edges, batch@).len() > 0),
{
    let ghost upd0 = updates@;
    let ghost edges = network.state().edges;
    let n = batch.len();
    let mut any = false;
    proof {
        assert(updates@ =~= upd0 + pe_batch(edges, batch@.take(0)));
    }
    #[verifier::loop_isolation(false)]
    for j in 0..n
        invariant
            updates@ == upd0 + pe_batch(edges, batch@.take(j as int)),
            any == (pe_batch(edges, batch@.take(j as int)).len() > 0),
        decreases n - j,
    {
        let idx = batch[j];
        let has_parents = network.edges[idx].value_parents.is_some()
            || network.edges[idx].volatility_parents.is_some();
        match network.edges[idx].node_type {
            NodeKind::Continuous => {
                if has_parents {
                    updates.push((idx, FnType::PredictionErrorContinuous));
                    any = true;
                }
            },
            NodeKind::Volatile => {
                if has_parents {
                    updates.push((idx, FnType::PredictionErrorVolatile));
                    any = true;
                }
            },
            NodeKind::Exponential => {
                updates.push((idx, FnType::PredictionErrorExponential));
                any = true;
            },
        }
        proof {
            assert(batch@.take(j + 1).drop_last() =~= batch@.take(j as int));
            assert(batch@.take(j + 1).last() == batch@[j as int]);
            assert(updates@ =~= upd0 + pe_batch(edges, batch@.take(j + 1)));
        }
    }
    proof {
        assert(batch@.take(batch@.len() as int) =~= batch@);
    }
    any
}

/// Compute the update sequence of the network: repeated bottom-up passes,
/// each emitting a batch of posterior steps for the nodes whose children
/// have all sent their prediction errors, then a batch of prediction-error
/// steps for the nodes whose posterior is no longer pending.
#[verifier::rlimit(100)]
pub fn get_updates_sequence(network: &Network) -> (r: Vec<(usize, FnType)>)
    requires
        network.wf(),
    ensures
        r@ == updates_of(network.state(), network.update_type, network.inputs@),
        seq_steps_ok(network.state(), r@),
{
    let ghost s = network.state();
    let ghost inputs_v = network.inputs@;
    let ut = network.update_type;
    let n = network.edges.len();

    let mut pe_nodes: Vec<usize> = Vec::new();
    #[verifier::loop_isolation(false)]
    for t in 0..n
        invariant
            pe_nodes@ == id_range(t as int),
        decreases n - t,
    {
        pe_nodes.push(t);
        proof {
            assert(pe_nodes@ =~= id_range(t + 1));
        }
    }
    let mut po_nodes: Vec<usize> = Vec::new();
    #[verifier::loop_isolation(false)]
    for t in 0..n
        invariant
            po_nodes@ == non_inputs(t as int, inputs_v),
        decreases n - t,
    {
        if !crate::model::contains_id(&network.inputs, t) {
            po_nodes.push(t);
        }
        proof {
            assert(po_nodes@ =~= non_inputs(t + 1, inputs_v));
        }
    }
    proof {
        lemma_non_inputs_sub(n as int, inputs_v);
    }

    let mut updates: Vec<(usize, FnType)> = Vec::new();
    let ghost mut fuel: nat = (2 * s.len() + 2) as nat;
    proof {
        assert(s.len() == n as int);
        assert(updates@ + updates_loop(s.edges, ut, pe_nodes@, po_nodes@, fuel) =~= updates_loop(
            s.edges,
            ut,
            pe_nodes@,
            po_nodes@,
            fuel,
        ));
    }
    #[verifier::loop_isolation(false)]
    loop
        invariant
            fuel >= pe_nodes@.len() + po_nodes@.len() + 1,
            forall|t: int| 0 <= t < pe_nodes@.len() ==> (#[trigger] pe_nodes@[t] as int) < s.len(),
            forall|t: int| 0 <= t < po_nodes@.len() ==> (#[trigger] po_nodes@[t] as int) < s.len(),
            updates@ + updates_loop(s.edges, ut, pe_nodes@, po_nodes@, fuel) == updates_of(
                s,
                ut,
                inputs_v,
            ),
        decreases fuel,
    {
        let ghost pe0 = pe_nodes@;
        let ghost po0 = po_nodes@;

        let eligible = compute_eligible_po(network, &pe_nodes, &po_nodes);
        proof {
            lemma_eligible_po_sub(s.edges, pe0, po0, po0.len() as int);
            assert forall|t: int| 0 <= t < eligible@.len() implies (
            #[trigger] eligible@[t] as int) < s.len() by {
                assert(po0.contains(eligible@[t]));
                let u = choose|u: int| 0 <= u < po0.len() && po0[u] == eligible@[t];
                assert((po0[u] as int) < s.len());
            }
        }
        emit_posterior_batch(network, &mut updates, &eligible, ut);

        po_nodes = retain_without(&po_nodes, &eligible);
        proof {
            lemma_without_sub(po0, eligible@, po0.len() as int);
            assert forall|t: int| 0 <= t < po_nodes@.len() implies (
            #[trigger] po_nodes@[t] as int) < s.len() by {
                assert(po0.contains(po_nodes@[t]));
                let u = choose|u: int| 0 <= u < po0.len() && po0[u] == po_nodes@[t];
                assert((po0[u] as int) < s.len());
            }
        }

        let epe = compute_eligible_pe(&pe_nodes, &po_nodes);
        proof {
            lemma_eligible_pe_sub(pe0, po_nodes@, pe0.len() as int);
            assert forall|t: int| 0 <= t < epe@.len() implies (#[trigger] epe@[t] as int)
                < s.len() by {
                assert(pe0.contains(epe@[t]));
                let u = choose|u: int| 0 <= u < pe0.len() && pe0[u] == epe@[t];
                assert((pe0[u] as int) < s.len());
            }
        }
        let pe_any = emit_pe_batch(network, &mut updates, &epe);

        pe_nodes = retain_without(&pe_nodes, &epe);
        proof {
            lemma_without_sub(pe0, epe@, pe0.len() as int);
            assert forall|t: int| 0 <= t < pe_nodes@.len() implies (
            #[trigger] pe_nodes@[t] as int) < s.len() by {
                assert(pe0.contains(pe_nodes@[t]));
                let u = choose|u: int| 0 <= u < pe0.len() && pe0[u] == pe_nodes@[t];
                assert((pe0[u] as int) < s.len());
            }
        }

        let has_update = eligible.len() > 0 || pe_any;
        proof {
            // One unfolding of the planner's loop matches this iteration.
            assert(updates_loop(s.edges, ut, pe0, po0, fuel) == (posterior_batch(
                s.edges,
                ut,
                eligible@,
            ) + pe_batch(s.edges, epe@)) + (if pe_nodes@.len() == 0 && po_nodes@.len() == 0 {
                Seq::<(usize, FnType)>::empty()
            } else if !(eligible@.len() > 0 || pe_batch(s.edges, epe@).len() > 0) {
                Seq::<(usize, FnType)>::empty()
            } else {
                updates_loop(s.edges, ut, pe_nodes@, po_nodes@, (fuel - 1) as nat)
            }));
        }
        if po_nodes.is_empty() && pe_nodes.is_empty() {
            proof {
                assert(updates@ =~= updates_of(s, ut, inputs_v));
            }
            break;
        }
        if !has_update {
            proof {
                assert(updates@ =~= updates_of(s, ut, inputs_v));
            }
            break;
        }
        proof {
            if eligible@.len() > 0 {
                let t0 = choose|t0: int| 0 <= t0 < po0.len() && po0[t0] == eligible@[0];
                assert(eligible@.contains(po0[t0])) by {
                    assert(eligible@[0] == po0[t0]);
                }
                lemma_without_strict(po0, eligible@, po0.len() as int, t0);
            } else {
                assert(pe_batch(s.edges, epe@).len() > 0);
                assert(epe@.len() > 0);
                let t0 = choose|t0: int| 0 <= t0 < pe0.len() && pe0[t0] == epe@[0];
                assert(epe@.contains(pe0[t0])) by {
                    assert(epe@[0] == pe0[t0]);
                }
                lemma_without_strict(pe0, epe@, pe0.len() as int, t0);
            }
            fuel = (fuel - 1) as nat;
        }
    }
    proof {
        assert forall|t: int| 0 <= t < id_range(s.len()).len() implies (#[trigger] id_range(
            s.len(),
        )[t] as int) < s.len() by {
            assert(id_range(s.len())[t] == t as usize);
        }
        lemma_updates_ok(
            s,
            ut,
            id_range(s.len()),
            non_inputs(s.len(), inputs_v),
            (2 * s.len() + 2) as nat,
        );
    }
    updates
}

/// Compute both kernel sequences of the network.
pub fn set_update_sequence(network: &Network) -> (r: UpdateSequence)
    requires
        network.wf(),
    ensures
        r.predictions@ == predictions_of(network.state()),
        r.updates@ == updates_of(network.state(), network.update_type, network.inputs@),
        seq_steps_ok(network.state(), r.predictions@),
        seq_steps_ok(network.state(), r.updates@),
{
    let predictions = get_predictions_sequence(network);
    let updates = get_updates_sequence(network);
    UpdateSequence { predictions, updates }
}

/// Every step the prediction planner emits carries a prediction kernel.
pub proof fn lemma_preds_only_prediction_tags(
    edges: Seq<EdgeV>,
    remaining: Seq<usize>,
    fuel: nat,
)
    ensures
        forall|k: int|
            0 <= k < preds_loop(edges, remaining, fuel).len()
                ==> crate::utils::beliefs_propagation::is_prediction_tag(
                (#[trigger] preds_loop(edges, remaining, fuel)[k]).1,
            ),
    decreases fuel,
{
    if fuel > 0 {
        match first_ready(edges, remaining, 0) {
            None => {},
            Some(pos) => {
                if 0 <= pos < remaining.len() {
                    let idx = remaining[pos];
                    let emitted = prediction_step_of(edges[idx as int].node_type, idx);
                    let rest = preds_loop(edges, remaining.remove(pos), (fuel - 1) as nat);
                    lemma_preds_only_prediction_tags(edges, remaining.remove(pos), (fuel - 1) as nat);
                    assert forall|k: int|
                        0 <= k < preds_loop(edges, remaining, fuel).len()
                            implies crate::utils::beliefs_propagation::is_prediction_tag(
                        (#[trigger] preds_loop(edges, remaining, fuel)[k]).1,
                    ) by {
                        if k < emitted.len() {
                            assert(preds_loop(edges, remaining, fuel)[k] == emitted[k]);
                        } else {
                            assert(preds_loop(edges, remaining, fuel)[k] == rest[k
                                - emitted.len()]);
                        }
                    }
                }
            },
        }
    }
}

/// No step the update planner emits carries a prediction kernel.
pub proof fn lemma_updates_no_prediction_tags(
    edges: Seq<EdgeV>,
    ut: UpdateType,
    pe: Seq<usize>,
    po: Seq<usize>,
    fuel: nat,
)
    ensures
        forall|k: int|
            0 <= k < updates_loop(edges, ut, pe, po, fuel).len()
                ==> !crate::utils::beliefs_propagation::is_prediction_tag(
                (#[trigger] updates_loop(edges, ut, pe, po, fuel)[k]).1,
            ),
    decreases fuel,
{
    if fuel > 0 {
        let po_batch_ids = eligible_po(edges, pe, po, po.len() as int);
        let po_left = without(po, po_batch_ids, po.len() as int);
        let pe_batch_ids = eligible_pe(pe, po_left, pe.len() as int);
        let pe_left = without(pe, pe_batch_ids, pe.len() as int);
        lemma_posterior_batch_no_prediction_tags(edges, ut, po_batch_ids);
        lemma_pe_batch_no_prediction_tags(edges, pe_batch_ids);
        let emitted = posterior_batch(edges, ut, po_batch_ids) + pe_batch(edges, pe_batch_ids);
        let has_update = po_batch_ids.len() > 0 || pe_batch(edges, pe_batch_ids).len() > 0;
        if pe_left.len() == 0 && po_left.len() == 0 {
        } else if !has_update {
        } else {
            lemma_updates_no_prediction_tags(edges, ut, pe_left, po_left, (fuel - 1) as nat);
        }
        let whole = updates_loop(edges, ut, pe, po, fuel);
        let rest = updates_loop(edges, ut, pe_left, po_left, (fuel - 1) as nat);
        assert forall|k: int|
            0 <= k < whole.len() implies !crate::utils::beliefs_propagation::is_prediction_tag(
            (#[trigger] whole[k]).1,
        ) by {
            if k < posterior_batch(edges, ut, po_batch_ids).len() {
                assert(whole[k] == posterior_batch(edges, ut, po_batch_ids)[k]);
            } else if k < emitted.len() {
                assert(whole[k] == pe_batch(edges, pe_batch_ids)[k - posterior_batch(
                    edges,
                    ut,
                    po_batch_ids,
                ).len()]);
            } else {
                assert(whole[k] == rest[k - emitted.len()]);
            }
        }
    }
}

/// Posterior batches emit posterior kernels only.
pub proof fn lemma_posterior_batch_no_prediction_tags(
    edges: Seq<EdgeV>,
    ut: UpdateType,
    batch: Seq<usize>,
)
    ensures
        forall|k: int|
            0 <= k < posterior_batch(edges, ut, batch).len()
                ==> !crate::utils::beliefs_propagation::is_prediction_tag(
                (#[trigger] posterior_batch(edges, ut, batch)[k]).1,
            ),
    decreases batch.len(),
{
    if batch.len() > 0 {
        lemma_posterior_batch_no_prediction_tags(edges, ut, batch.drop_last());
        let whole = posterior_batch(edges, ut, batch);
        let prefix = posterior_batch(edges, ut, batch.drop_last());
        assert forall|k: int|
            0 <= k < whole.len() implies !crate::utils::beliefs_propagation::is_prediction_tag(
            (#[trigger] whole[k]).1,
        ) by {
            if k < prefix.len() {
                assert(whole[k] == prefix[k]);
            } else {
                assert(whole[k] == posterior_step_of(edges, ut, batch.last())[k - prefix.len()]);
            }
        }
    }
}

/// Prediction-error batches emit prediction-error kernels only.
pub proof fn lemma_pe_batch_no_prediction_tags(edges: Seq<EdgeV>, batch: Seq<usize>)
    ensures
        forall|k: int|
            0 <= k < pe_batch(edges, batch).len()
                ==> !crate::utils::beliefs_propagation::is_prediction_tag(
                (#[trigger] pe_batch(edges, batch)[k]).1,
            ),
    decreases batch.len(),
{
    if batch.len() > 0 {
        lemma_pe_batch_no_prediction_tags(edges, batch.drop_last());
        let whole = pe_batch(edges, batch);
        let prefix = pe_batch(edges, batch.drop_last());
        assert forall|k: int|
            0 <= k < whole.len() implies !crate::utils::beliefs_propagation::is_prediction_tag(
            (#[trigger] whole[k]).1,
        ) by {
            if k < prefix.len() {
                assert(whole[k] == prefix[k]);
            } else {
                assert(whole[k] == pe_step_of(edges, batch.last())[k - prefix.len()]);
            }
        }
    }
}

} // verus!
