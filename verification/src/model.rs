//! The belief network: nodes, edges, per-node attributes, trajectories, and
//! the network-level operations that build the graph and drive inference.
//!
//! Node ids are dense (`0..N-1`, assigned by insertion order).  The mutable
//! state of every node is held side by side in [`Attributes`]; the coupling
//! structure is held in per-node adjacency lists.  Every scalar is an
//! IEEE-754 binary64 value carried as its `u64` bit pattern.

use vstd::prelude::*;

use crate::math::{resolve_of, resolve_coupling_fn, str_eq, CouplingFn};
use crate::num::{
    CENT_BITS, NEG_FOUR_BITS, ONE_BITS, THREE_BITS, ZERO_BITS,
};
use crate::utils::function_pointer::FnType;
use crate::utils::set_coupling::set_coupling_vec_state;

verus! {

/// The closed set of node kinds.
#[derive(Clone, Copy, Debug, PartialEq, Eq, Structural)]
pub enum NodeKind {
    /// A continuous Gaussian state node.
    Continuous,
    /// A volatile node carrying a value level and an implicit internal
    /// volatility level.
    Volatile,
    /// An exponential-family sufficient-statistics node.
    Exponential,
}

/// The posterior-update variant used network-wide.
#[derive(Clone, Copy, Debug, PartialEq, Eq, Structural)]
pub enum UpdateType {
    Standard,
    Ehgf,
    Unbounded,
}

/// The node kind a kind name denotes, if any.
pub open spec fn kind_of_name(s: Seq<char>) -> Option<NodeKind> {
    if s == "continuous-state"@ {
        Some(NodeKind::Continuous)
    } else if s == "volatile-state"@ {
        Some(NodeKind::Volatile)
    } else if s == "ef-state"@ {
        Some(NodeKind::Exponential)
    } else {
        None
    }
}

/// The update variant an update-type name denotes; unknown names fall back
/// to the standard variant.
pub open spec fn update_type_of_name(s: Seq<char>) -> UpdateType {
    if s == "eHGF"@ {
        UpdateType::Ehgf
    } else if s == "unbounded"@ {
        UpdateType::Unbounded
    } else {
        UpdateType::Standard
    }
}

/// Parse a kind name.
pub fn parse_kind(kind: &str) -> (r: Option<NodeKind>)
    ensures
        r == kind_of_name(kind@),
{
    if str_eq(kind, "continuous-state") {
        Some(NodeKind::Continuous)
    } else if str_eq(kind, "volatile-state") {
        Some(NodeKind::Volatile)
    } else if str_eq(kind, "ef-state") {
        Some(NodeKind::Exponential)
    } else {
        None
    }
}

/// Parse an update-type name.
pub fn parse_update_type(name: &str) -> (r: UpdateType)
    ensures
        r == update_type_of_name(name@),
{
    if str_eq(name, "eHGF") {
        UpdateType::Ehgf
    } else if str_eq(name, "unbounded") {
        UpdateType::Unbounded
    } else {
        UpdateType::Standard
    }
}

/// Accepts either a single node id or a list of ids, so that callers can
/// write `value_children = 0` as well as `value_children = [0, 1]`.
#[derive(Debug, Clone)]
pub enum IntOrList {
    Single(usize),
    List(Vec<usize>),
}

/// The id list an [`IntOrList`] denotes.
pub open spec fn int_or_list_ids(v: IntOrList) -> Seq<usize> {
    match v {
        IntOrList::Single(x) => seq![x],
        IntOrList::List(l) => l@,
    }
}

impl IntOrList {
    /// Flatten to a plain id list.
    pub fn into_vec(self) -> (r: Vec<usize>)
        ensures
            r@ == int_or_list_ids(self),
    {
        match self {
            IntOrList::Single(v) => {
                let mut r: Vec<usize> = Vec::new();
                r.push(v);
                proof {
                    assert(r@ =~= seq![v]);
                }
                r
            },
            IntOrList::List(v) => v,
        }
    }
}

impl From<usize> for IntOrList {
    fn from(v: usize) -> (r: Self)
        ensures
            r == IntOrList::Single(v),
    {
        IntOrList::Single(v)
    }
}

impl vstd::std_specs::convert::FromSpecImpl<usize> for IntOrList {
    open spec fn obeys_from_spec() -> bool {
        true
    }

    open spec fn from_spec(v: usize) -> Self {
        IntOrList::Single(v)
    }
}

impl From<Vec<usize>> for IntOrList {
    fn from(v: Vec<usize>) -> (r: Self)
        ensures
            r == IntOrList::List(v),
    {
        IntOrList::List(v)
    }
}

impl vstd::std_specs::convert::FromSpecImpl<Vec<usize>> for IntOrList {
    open spec fn obeys_from_spec() -> bool {
        true
    }

    open spec fn from_spec(v: Vec<usize>) -> Self {
        IntOrList::List(v)
    }
}

/// The adjacency lists of one node.  `None` and an empty list are not the
/// same thing: a node added without children is an input node, and the
/// prediction-error division by the parent count happens only when a parent
/// list is present.
#[derive(Debug, Clone)]
pub struct AdjacencyLists {
    pub node_type: NodeKind,
    pub value_parents: Option<Vec<usize>>,
    pub value_children: Option<Vec<usize>>,
    pub volatility_parents: Option<Vec<usize>>,
    pub volatility_children: Option<Vec<usize>>,
}

/// Spec-level adjacency lists.
pub struct EdgeV {
    pub node_type: NodeKind,
    pub value_parents: Option<Seq<usize>>,
    pub value_children: Option<Seq<usize>>,
    pub volatility_parents: Option<Seq<usize>>,
    pub volatility_children: Option<Seq<usize>>,
}

impl View for AdjacencyLists {
    type V = EdgeV;

    open spec fn view(&self) -> EdgeV {
        EdgeV {
            node_type: self.node_type,
            value_parents: match self.value_parents {
                Some(v) => Some(v@),
                None => None,
            },
            value_children: match self.value_children {
                Some(v) => Some(v@),
                None => None,
            },
            volatility_parents: match self.volatility_parents {
                Some(v) => Some(v@),
                None => None,
            },
            volatility_children: match self.volatility_children {
                Some(v) => Some(v@),
                None => None,
            },
        }
    }
}

impl DeepView for AdjacencyLists {
    type V = EdgeV;

    open spec fn deep_view(&self) -> EdgeV {
        self.view()
    }
}

impl EdgeV {
    /// The value-parent ids, empty when absent.
    pub open spec fn vp(self) -> Seq<usize> {
        match self.value_parents {
            Some(s) => s,
            None => Seq::empty(),
        }
    }

    /// The value-child ids, empty when absent.
    pub open spec fn vc(self) -> Seq<usize> {
        match self.value_children {
            Some(s) => s,
            None => Seq::empty(),
        }
    }

    /// The volatility-parent ids, empty when absent.
    pub open spec fn qp(self) -> Seq<usize> {
        match self.volatility_parents {
            Some(s) => s,
            None => Seq::empty(),
        }
    }

    /// The volatility-child ids, empty when absent.
    pub open spec fn qc(self) -> Seq<usize> {
        match self.volatility_children {
            Some(s) => s,
            None => Seq::empty(),
        }
    }

    /// An input node has no children of either kind.
    pub open spec fn is_input(self) -> bool {
        self.value_children is None && self.volatility_children is None
    }
}

/// The scalar attributes of one node.  Every attribute is present on every
/// node; kernels read and write only those that its kind gives a meaning to.
#[derive(Clone, Copy, Debug, PartialEq, Eq, Structural)]
pub struct NodeFloats {
    pub mean: u64,
    pub expected_mean: u64,
    pub precision: u64,
    pub expected_precision: u64,
    pub tonic_volatility: u64,
    pub tonic_drift: u64,
    pub autoconnection_strength: u64,
    pub current_variance: u64,
    pub value_prediction_error: u64,
    pub volatility_prediction_error: u64,
    pub effective_precision: u64,
    pub observed: u64,
    pub lr: u64,
    pub nus: u64,
    pub mean_vol: u64,
    pub expected_mean_vol: u64,
    pub precision_vol: u64,
    pub expected_precision_vol: u64,
    pub tonic_volatility_vol: u64,
    pub tonic_drift_vol: u64,
    pub autoconnection_strength_vol: u64,
    pub effective_precision_vol: u64,
    pub volatility_coupling_internal: u64,
}

/// The per-node attribute stores, each indexed by node id.  Coupling-strength
/// rows run parallel to the adjacency lists of the same name; the coupling
/// function row runs parallel to `value_parents`.
#[derive(Debug)]
pub struct Attributes {
    pub floats: Vec<NodeFloats>,
    pub value_coupling_parents: Vec<Vec<u64>>,
    pub value_coupling_children: Vec<Vec<u64>>,
    pub volatility_coupling_parents: Vec<Vec<u64>>,
    pub volatility_coupling_children: Vec<Vec<u64>>,
    pub value_coupling_fn_parents: Vec<Vec<Option<CouplingFn>>>,
    pub xis: Vec<Vec<u64>>,
}

/// The spec-level state a kernel transforms: every attribute store plus the
/// (never-changing) coupling structure.
pub struct StateV {
    pub floats: Seq<NodeFloats>,
    pub value_coupling_parents: Seq<Seq<u64>>,
    pub value_coupling_children: Seq<Seq<u64>>,
    pub volatility_coupling_parents: Seq<Seq<u64>>,
    pub volatility_coupling_children: Seq<Seq<u64>>,
    pub value_coupling_fn_parents: Seq<Seq<Option<CouplingFn>>>,
    pub xis: Seq<Seq<u64>>,
    pub edges: Seq<EdgeV>,
}

impl DeepView for CouplingFn {
    type V = CouplingFn;

    open spec fn deep_view(&self) -> CouplingFn {
        *self
    }
}

/// One time-step snapshot of a node's vector attributes.
#[derive(Debug, Clone)]
pub struct VectorSnapshot {
    pub value_coupling_parents: Vec<u64>,
    pub value_coupling_children: Vec<u64>,
    pub volatility_coupling_parents: Vec<u64>,
    pub volatility_coupling_children: Vec<u64>,
    pub xis: Vec<u64>,
}

/// Spec-level vector snapshot.
pub struct VectorSnapshotV {
    pub value_coupling_parents: Seq<u64>,
    pub value_coupling_children: Seq<u64>,
    pub volatility_coupling_parents: Seq<u64>,
    pub volatility_coupling_children: Seq<u64>,
    pub xis: Seq<u64>,
}

impl View for VectorSnapshot {
    type V = VectorSnapshotV;

    open spec fn view(&self) -> VectorSnapshotV {
        VectorSnapshotV {
            value_coupling_parents: self.value_coupling_parents@,
            value_coupling_children: self.value_coupling_children@,
            volatility_coupling_parents: self.volatility_coupling_parents@,
            volatility_coupling_children: self.volatility_coupling_children@,
            xis: self.xis@,
        }
    }
}

impl DeepView for VectorSnapshot {
    type V = VectorSnapshotV;

    open spec fn deep_view(&self) -> VectorSnapshotV {
        self.view()
    }
}

/// The recorded belief trajectories: for each node id, one scalar snapshot
/// and one vector snapshot per time step.
#[derive(Debug)]
pub struct NodeTrajectories {
    pub floats: Vec<Vec<NodeFloats>>,
    pub vectors: Vec<Vec<VectorSnapshot>>,
}

/// The two ordered kernel sequences the scheduler produces.
#[derive(Debug)]
pub struct UpdateSequence {
    pub predictions: Vec<(usize, FnType)>,
    pub updates: Vec<(usize, FnType)>,
}

/// The belief network.
#[derive(Debug)]
pub struct Network {
    pub attributes: Attributes,
    pub edges: Vec<AdjacencyLists>,
    pub inputs: Vec<usize>,
    pub update_type: UpdateType,
    pub update_sequence: UpdateSequence,
    pub node_trajectories: NodeTrajectories,
}

impl Network {
    /// The spec-level state of the attribute stores and edges.
    pub open spec fn state(&self) -> StateV {
        StateV {
            floats: self.attributes.floats@,
            value_coupling_parents: self.attributes.value_coupling_parents.deep_view(),
            value_coupling_children: self.attributes.value_coupling_children.deep_view(),
            volatility_coupling_parents: self.attributes.volatility_coupling_parents.deep_view(),
            volatility_coupling_children: self.attributes.volatility_coupling_children.deep_view(),
            value_coupling_fn_parents: self.attributes.value_coupling_fn_parents.deep_view(),
            xis: self.attributes.xis.deep_view(),
            edges: self.edges.deep_view(),
        }
    }
}

impl StateV {
    /// The number of nodes.
    pub open spec fn len(self) -> int {
        self.edges.len() as int
    }

    /// Every attribute store covers every node.
    pub open spec fn stores_cover(self) -> bool {
        &&& self.floats.len() == self.len()
        &&& self.value_coupling_parents.len() == self.len()
        &&& self.value_coupling_children.len() == self.len()
        &&& self.volatility_coupling_parents.len() == self.len()
        &&& self.volatility_coupling_children.len() == self.len()
        &&& self.value_coupling_fn_parents.len() == self.len()
        &&& self.xis.len() == self.len()
    }

    /// The adjacency lists of node `i` are in bounds, present lists are
    /// non-empty, and the coupling rows of node `i` run parallel to them.
    pub open spec fn node_wf(self, i: int) -> bool {
        let e = self.edges[i];
        &&& self.value_coupling_parents[i].len() == e.vp().len()
        &&& self.value_coupling_children[i].len() == e.vc().len()
        &&& self.volatility_coupling_parents[i].len() == e.qp().len()
        &&& self.volatility_coupling_children[i].len() == e.qc().len()
        &&& self.value_coupling_fn_parents[i].len() == e.vp().len()
        &&& forall|j: int| 0 <= j < e.vp().len() ==> e.vp()[j] < self.len()
        &&& forall|j: int| 0 <= j < e.vc().len() ==> e.vc()[j] < self.len()
        &&& forall|j: int| 0 <= j < e.qp().len() ==> e.qp()[j] < self.len()
        &&& forall|j: int| 0 <= j < e.qc().len() ==> e.qc()[j] < self.len()
        &&& (e.value_parents is Some ==> e.vp().len() > 0)
        &&& (e.value_children is Some ==> e.vc().len() > 0)
        &&& (e.volatility_parents is Some ==> e.qp().len() > 0)
        &&& (e.volatility_children is Some ==> e.qc().len() > 0)
    }

    /// Structural well-formedness: stores cover the nodes and every node's
    /// lists are in bounds and parallel to their coupling rows.
    pub open spec fn wf(self) -> bool {
        &&& self.stores_cover()
        &&& forall|i: int| 0 <= i < self.len() ==> self.node_wf(i)
    }
}

/// The first position of `x` in `s` (equal to `s.len()` when `x` is absent).
pub open spec fn find_id(s: Seq<usize>, x: usize) -> int
    decreases s.len(),
{
    if s.len() == 0 {
        0
    } else if s[0] == x {
        0
    } else {
        1 + find_id(s.drop_first(), x)
    }
}

/// Where `s` contains `x`, `find_id` gives its first position.
pub proof fn lemma_find_id(s: Seq<usize>, x: usize)
    ensures
        s.contains(x) ==> 0 <= find_id(s, x) < s.len() && s[find_id(s, x)] == x,
        !s.contains(x) ==> find_id(s, x) == s.len(),
    decreases s.len(),
{
    if s.len() > 0 && s[0] != x {
        lemma_find_id(s.drop_first(), x);
        assert(s.contains(x) ==> s.drop_first().contains(x)) by {
            if s.contains(x) {
                let i = choose|i: int| 0 <= i < s.len() && s[i] == x;
                assert(s.drop_first()[i - 1] == x);
            }
        }
        assert(forall|j: int| 0 <= j < s.drop_first().len() ==> s.drop_first()[j] == s[j + 1]);
        if s.drop_first().contains(x) {
            let k = choose|k: int| 0 <= k < s.drop_first().len() && s.drop_first()[k] == x;
            assert(s[k + 1] == x);
        }
    }
}

/// Appending an element does not move the first position of an element that
/// is already present; appending a fresh element puts it at the end.
pub proof fn lemma_find_id_push(s: Seq<usize>, y: usize, x: usize)
    ensures
        s.contains(x) ==> find_id(s.push(y), x) == find_id(s, x),
        !s.contains(x) && x == y ==> find_id(s.push(y), x) == s.len(),
        s.push(y).contains(x) == (s.contains(x) || x == y),
    decreases s.len(),
{
    lemma_find_id(s, x);
    lemma_find_id(s.push(y), x);
    if s.len() == 0 {
        assert(s.push(y) =~= seq![y]);
        if x == y {
            assert(s.push(y)[0] == y);
        }
    } else {
        assert(s.push(y)[0] == s[0]);
        if s[0] != x {
            assert(s.push(y).drop_first() =~= s.drop_first().push(y));
            lemma_find_id_push(s.drop_first(), y, x);
            assert(s.contains(x) ==> s.drop_first().contains(x)) by {
                if s.contains(x) {
                    let i = choose|i: int| 0 <= i < s.len() && s[i] == x;
                    assert(s.drop_first()[i - 1] == x);
                }
            }
            assert(s.drop_first().contains(x) ==> s.contains(x)) by {
                if s.drop_first().contains(x) {
                    let k = choose|k: int|
                        0 <= k < s.drop_first().len() && s.drop_first()[k] == x;
                    assert(s[k + 1] == x);
                }
            }
        } else {
            assert(s.push(y).contains(x)) by {
                assert(s.push(y)[0] == x);
            }
            assert(s.contains(x)) by {
                assert(s[0] == x);
            }
        }
    }
}

/// Copy a vector of plain values.
pub fn copy_vec<T: Copy>(v: &Vec<T>) -> (r: Vec<T>)
    ensures
        r@ == v@,
{
    let mut r: Vec<T> = Vec::new();
    let n = v.len();
    for i in 0..n
        invariant
            n == v@.len(),
            r@ == v@.take(i as int),
        decreases n - i,
    {
        r.push(v[i]);
        proof {
            assert(r@ =~= v@.take(i + 1));
        }
    }
    proof {
        assert(v@.take(n as int) =~= v@);
    }
    r
}

/// Whether a vector of ids contains `x`.
pub fn contains_id(v: &Vec<usize>, x: usize) -> (r: bool)
    ensures
        r == v@.contains(x),
{
    let n = v.len();
    for i in 0..n
        invariant
            n == v@.len(),
            forall|j: int| 0 <= j < i ==> v@[j] != x,
        decreases n - i,
    {
        if v[i] == x {
            return true;
        }
    }
    false
}

/// The first position of `x` in `v`, if present.
pub fn find_pos(v: &Vec<usize>, x: usize) -> (r: Option<usize>)
    ensures
        match r {
            Some(p) => v@.contains(x) && p == find_id(v@, x),
            None => !v@.contains(x),
        },
{
    let n = v.len();
    for i in 0..n
        invariant
            n == v@.len(),
            forall|j: int| 0 <= j < i ==> v@[j] != x,
        decreases n - i,
    {
        if v[i] == x {
            proof {
                lemma_find_first(v@, x, i as int);
            }
            return Some(i);
        }
    }
    return None;
}

/// Where `s[i] == x` and nothing before `i` equals `x`, the first position
/// of `x` is `i`.
pub proof fn lemma_find_first(s: Seq<usize>, x: usize, i: int)
    requires
        0 <= i < s.len(),
        s[i] == x,
        forall|j: int| 0 <= j < i ==> s[j] != x,
    ensures
        s.contains(x),
        find_id(s, x) == i,
    decreases i,
{
    if i > 0 {
        assert(s[0] != x);
        assert(s.drop_first()[i - 1] == x);
        assert(forall|j: int| 0 <= j < i - 1 ==> s.drop_first()[j] == s[j + 1]);
        lemma_find_first(s.drop_first(), x, i - 1);
    }
}

impl StateV {
    /// The lists of node `i` hold no duplicate ids.
    pub open spec fn node_distinct(self, i: int) -> bool {
        let e = self.edges[i];
        &&& e.vp().no_duplicates()
        &&& e.vc().no_duplicates()
        &&& e.qp().no_duplicates()
        &&& e.qc().no_duplicates()
    }

    /// Value edges are symmetric at `(p, j)`: the `j`-th value child of `p`
    /// lists `p` back among its value parents, with the same coupling
    /// strength at the matching position.
    pub open spec fn value_edge_sym_at(self, p: int, j: int) -> bool {
        let c = self.edges[p].vc()[j];
        &&& c < self.len()
        &&& self.edges[c as int].vp().contains(p as usize)
        &&& self.value_coupling_children[p][j] == self.value_coupling_parents[c as int][find_id(
            self.edges[c as int].vp(),
            p as usize,
        )]
    }

    /// Volatility edges are symmetric at `(p, j)`.
    pub open spec fn vol_edge_sym_at(self, p: int, j: int) -> bool {
        let c = self.edges[p].qc()[j];
        &&& c < self.len()
        &&& self.edges[c as int].qp().contains(p as usize)
        &&& self.volatility_coupling_children[p][j] == self.volatility_coupling_parents[c as int][
            find_id(self.edges[c as int].qp(), p as usize)]
    }

    /// Parent lists point back at `(c, k)`: the `k`-th value parent of `c`
    /// lists `c` among its value children, with the same coupling strength
    /// at the matching position.
    pub open spec fn value_parent_sym_at(self, c: int, k: int) -> bool {
        let p = self.edges[c].vp()[k];
        &&& p < self.len()
        &&& self.edges[p as int].vc().contains(c as usize)
        &&& self.value_coupling_parents[c][k] == self.value_coupling_children[p as int][find_id(
            self.edges[p as int].vc(),
            c as usize,
        )]
    }

    /// Volatility parent lists point back at `(c, k)`.
    pub open spec fn vol_parent_sym_at(self, c: int, k: int) -> bool {
        let p = self.edges[c].qp()[k];
        &&& p < self.len()
        &&& self.edges[p as int].qc().contains(c as usize)
        &&& self.volatility_coupling_parents[c][k] == self.volatility_coupling_children[p as int][
            find_id(self.edges[p as int].qc(), c as usize)]
    }

    /// Edge symmetry over the whole graph: every listed edge is listed from
    /// both of its ends with no duplicates, and both ends carry the same
    /// coupling strength at the matching positions.
    pub open spec fn symmetric(self) -> bool {
        &&& forall|i: int| 0 <= i < self.len() ==> self.node_distinct(i)
        &&& forall|p: int, j: int|
            0 <= p < self.len() && 0 <= j < self.edges[p].vc().len() ==> self.value_edge_sym_at(
                p,
                j,
            )
        &&& forall|p: int, j: int|
            0 <= p < self.len() && 0 <= j < self.edges[p].qc().len() ==> self.vol_edge_sym_at(p, j)
        &&& forall|c: int, k: int|
            0 <= c < self.len() && 0 <= k < self.edges[c].vp().len() ==> self.value_parent_sym_at(
                c,
                k,
            )
        &&& forall|c: int, k: int|
            0 <= c < self.len() && 0 <= k < self.edges[c].qp().len() ==> self.vol_parent_sym_at(
                c,
                k,
            )
    }
}

impl Network {
    /// Structural well-formedness of the whole network: the attribute state
    /// is well formed, the input list is in bounds, and both kernel
    /// sequences target existing nodes with kernels their kind accepts.
    pub open spec fn wf(&self) -> bool {
        &&& self.state().wf()
        &&& forall|i: int|
            0 <= i < self.inputs@.len() ==> (self.inputs@[i] as int) < self.state().len()
        &&& seq_steps_ok(self.state(), self.update_sequence.predictions@)
        &&& seq_steps_ok(self.state(), self.update_sequence.updates@)
    }

    /// Full invariant: structural well-formedness plus edge symmetry.
    pub open spec fn inv(&self) -> bool {
        &&& self.wf()
        &&& self.state().symmetric()
    }

    /// Build an empty network with the given update variant; unknown names
    /// fall back to the standard variant.
    pub fn new(update_type: &str) -> (r: Network)
        ensures
            r.inv(),
            r.state().len() == 0,
            r.update_type == update_type_of_name(update_type@),
            r.inputs@.len() == 0,
            r.update_sequence.predictions@.len() == 0,
            r.update_sequence.updates@.len() == 0,
            r.node_trajectories.floats@.len() == 0,
            r.node_trajectories.vectors@.len() == 0,
    {
        Network {
            attributes: Attributes {
                floats: Vec::new(),
                value_coupling_parents: Vec::new(),
                value_coupling_children: Vec::new(),
                volatility_coupling_parents: Vec::new(),
                volatility_coupling_children: Vec::new(),
                value_coupling_fn_parents: Vec::new(),
                xis: Vec::new(),
            },
            edges: Vec::new(),
            inputs: Vec::new(),
            update_type: parse_update_type(update_type),
            update_sequence: UpdateSequence { predictions: Vec::new(), updates: Vec::new() },
            node_trajectories: NodeTrajectories { floats: Vec::new(), vectors: Vec::new() },
        }
    }

    /// The list of input node ids.
    pub fn get_inputs(&self) -> (r: &Vec<usize>)
        ensures
            r@ == self.inputs@,
    {
        &self.inputs
    }

    /// The adjacency lists of every node.
    pub fn get_edges(&self) -> (r: &Vec<AdjacencyLists>)
        ensures
            r.deep_view() == self.state().edges,
    {
        &self.edges
    }

    /// The scheduled kernel sequences.
    pub fn get_update_sequence(&self) -> (r: &UpdateSequence)
        ensures
            r.predictions@ == self.update_sequence.predictions@,
            r.updates@ == self.update_sequence.updates@,
    {
        &self.update_sequence
    }

    /// The recorded trajectories.
    pub fn get_node_trajectories(&self) -> (r: &NodeTrajectories)
        ensures
            r.floats@ == self.node_trajectories.floats@,
            r.vectors@ == self.node_trajectories.vectors@,
    {
        &self.node_trajectories
    }
}

/// The default scalar attributes of a freshly added node.  Input nodes of
/// the continuous kind start with no autoconnection and no tonic volatility;
/// the learning rate starts at `0.01`.
pub open spec fn default_floats_of(kind: NodeKind, is_input: bool) -> NodeFloats {
    NodeFloats {
        mean: ZERO_BITS,
        expected_mean: ZERO_BITS,
        precision: ONE_BITS,
        expected_precision: ONE_BITS,
        tonic_volatility: match kind {
            NodeKind::Continuous => if is_input {
                ZERO_BITS
            } else {
                NEG_FOUR_BITS
            },
            NodeKind::Volatile => NEG_FOUR_BITS,
            NodeKind::Exponential => ZERO_BITS,
        },
        tonic_drift: ZERO_BITS,
        autoconnection_strength: match kind {
            NodeKind::Continuous => if is_input {
                ZERO_BITS
            } else {
                ONE_BITS
            },
            NodeKind::Volatile => ONE_BITS,
            NodeKind::Exponential => ZERO_BITS,
        },
        current_variance: ONE_BITS,
        value_prediction_error: ZERO_BITS,
        volatility_prediction_error: ZERO_BITS,
        effective_precision: ZERO_BITS,
        observed: ONE_BITS,
        lr: CENT_BITS,
        nus: if kind == NodeKind::Exponential {
            THREE_BITS
        } else {
            ZERO_BITS
        },
        mean_vol: ZERO_BITS,
        expected_mean_vol: ZERO_BITS,
        precision_vol: ONE_BITS,
        expected_precision_vol: ONE_BITS,
        tonic_volatility_vol: if kind == NodeKind::Volatile {
            NEG_FOUR_BITS
        } else {
            ZERO_BITS
        },
        tonic_drift_vol: ZERO_BITS,
        autoconnection_strength_vol: if kind == NodeKind::Volatile {
            ONE_BITS
        } else {
            ZERO_BITS
        },
        effective_precision_vol: ZERO_BITS,
        volatility_coupling_internal: if kind == NodeKind::Volatile {
            ONE_BITS
        } else {
            ZERO_BITS
        },
    }
}

/// Build the default scalar attributes of a freshly added node.
pub fn default_floats(kind: NodeKind, is_input: bool) -> (r: NodeFloats)
    ensures
        r == default_floats_of(kind, is_input),
{
    let tonic_volatility = match kind {
        NodeKind::Continuous => if is_input {
            ZERO_BITS
        } else {
            NEG_FOUR_BITS
        },
        NodeKind::Volatile => NEG_FOUR_BITS,
        NodeKind::Exponential => ZERO_BITS,
    };
    let autoconnection_strength = match kind {
        NodeKind::Continuous => if is_input {
            ZERO_BITS
        } else {
            ONE_BITS
        },
        NodeKind::Volatile => ONE_BITS,
        NodeKind::Exponential => ZERO_BITS,
    };
    let is_volatile = match kind {
        NodeKind::Volatile => true,
        _ => false,
    };
    let is_exponential = match kind {
        NodeKind::Exponential => true,
        _ => false,
    };
    NodeFloats {
        mean: ZERO_BITS,
        expected_mean: ZERO_BITS,
        precision: ONE_BITS,
        expected_precision: ONE_BITS,
        tonic_volatility,
        tonic_drift: ZERO_BITS,
        autoconnection_strength,
        current_variance: ONE_BITS,
        value_prediction_error: ZERO_BITS,
        volatility_prediction_error: ZERO_BITS,
        effective_precision: ZERO_BITS,
        observed: ONE_BITS,
        lr: CENT_BITS,
        nus: if is_exponential {
            THREE_BITS
        } else {
            ZERO_BITS
        },
        mean_vol: ZERO_BITS,
        expected_mean_vol: ZERO_BITS,
        precision_vol: ONE_BITS,
        expected_precision_vol: ONE_BITS,
        tonic_volatility_vol: if is_volatile {
            NEG_FOUR_BITS
        } else {
            ZERO_BITS
        },
        tonic_drift_vol: ZERO_BITS,
        autoconnection_strength_vol: if is_volatile {
            ONE_BITS
        } else {
            ZERO_BITS
        },
        effective_precision_vol: ZERO_BITS,
        volatility_coupling_internal: if is_volatile {
            ONE_BITS
        } else {
            ZERO_BITS
        },
    }
}

/// The id list of an optional child argument, empty when absent.
pub open spec fn opt_ids(o: Option<Seq<usize>>) -> Seq<usize> {
    match o {
        Some(s) => s,
        None => Seq::empty(),
    }
}

/// A child-list argument is valid for a state: ids exist, no id repeats, and
/// a present list is non-empty.
pub open spec fn child_list_ok(s: StateV, o: Option<Seq<usize>>) -> bool {
    match o {
        None => true,
        Some(ids) => {
            &&& ids.len() > 0
            &&& ids.no_duplicates()
            &&& forall|j: int| 0 <= j < ids.len() ==> ids[j] < s.len()
        },
    }
}

/// A scheduled step is valid for a state when its target exists and its
/// kernel fits the target's kind (the unbounded continuous posterior needs a
/// volatility child to read).
pub open spec fn step_ok(s: StateV, step: (usize, FnType)) -> bool {
    let i = step.0 as int;
    &&& i < s.len()
    &&& match step.1 {
        FnType::PredictionContinuous => true,
        FnType::PredictionVolatile => true,
        FnType::PredictionErrorContinuous => true,
        FnType::PredictionErrorVolatile => true,
        FnType::PredictionErrorExponential => true,
        FnType::PosteriorContinuousStandard => true,
        FnType::PosteriorContinuousEhgf => true,
        FnType::PosteriorContinuousUnbounded => s.edges[i].qc().len() > 0,
        FnType::PosteriorVolatileStandard => true,
        FnType::PosteriorVolatileEhgf => true,
        FnType::PosteriorVolatileUnbounded => true,
        FnType::LearningFixed => true,
        FnType::LearningDynamic => true,
    }
}

/// Every step of a sequence is valid for the state.
pub open spec fn seq_steps_ok(s: StateV, steps: Seq<(usize, FnType)>) -> bool {
    forall|k: int| 0 <= k < steps.len() ==> step_ok(s, #[trigger] steps[k])
}

/// The view of an optional id-list argument.
pub open spec fn opt_view(o: Option<Vec<usize>>) -> Option<Seq<usize>> {
    match o {
        Some(v) => Some(v@),
        None => None,
    }
}

/// How a state `s1` relates to `s0` part-way through inserting one node:
/// the node itself (id `s0.len()`) is fully in place with kind `kind`,
/// child lists `vco`/`qco` and default attributes; the ids in `vdone` have
/// the new node attached as a value parent (strength `1.0`, coupling
/// function `cf`); the ids in `qdone` have it attached as a volatility
/// parent; everything else is as in `s0`.
pub open spec fn attach_progress(
    s0: StateV,
    s1: StateV,
    kind: NodeKind,
    vco: Option<Seq<usize>>,
    qco: Option<Seq<usize>>,
    cf: Option<CouplingFn>,
    vdone: Seq<usize>,
    qdone: Seq<usize>,
) -> bool {
    let n0 = s0.len();
    let nid = n0 as usize;
    &&& s1.len() == n0 + 1
    &&& s1.stores_cover()
    &&& s1.edges[n0] == (EdgeV {
        node_type: kind,
        value_parents: None,
        value_children: vco,
        volatility_parents: None,
        volatility_children: qco,
    })
    &&& s1.floats[n0] == default_floats_of(kind, vco is None && qco is None)
    &&& s1.value_coupling_parents[n0] == Seq::<u64>::empty()
    &&& s1.value_coupling_children[n0] == Seq::new(opt_ids(vco).len(), |j: int| ONE_BITS)
    &&& s1.volatility_coupling_parents[n0] == Seq::<u64>::empty()
    &&& s1.volatility_coupling_children[n0] == Seq::new(opt_ids(qco).len(), |j: int| ONE_BITS)
    &&& s1.value_coupling_fn_parents[n0] == Seq::<Option<CouplingFn>>::empty()
    &&& s1.xis[n0] == (if kind == NodeKind::Exponential {
        seq![ZERO_BITS, ZERO_BITS]
    } else {
        Seq::<u64>::empty()
    })
    &&& forall|i: int|
        0 <= i < n0 ==> #[trigger] attach_node_clause(s0, s1, cf, vdone, qdone, i)
}

/// How node `i` (an old node) stands part-way through inserting a node:
/// either attached to the new node on a given side, or untouched there.
pub open spec fn attach_node_clause(
    s0: StateV,
    s1: StateV,
    cf: Option<CouplingFn>,
    vdone: Seq<usize>,
    qdone: Seq<usize>,
    i: int,
) -> bool {
    let nid = s0.len() as usize;
    &&& s1.floats[i] == s0.floats[i]
    &&& s1.xis[i] == s0.xis[i]
    &&& s1.value_coupling_children[i] == s0.value_coupling_children[i]
    &&& s1.volatility_coupling_children[i] == s0.volatility_coupling_children[i]
    &&& s1.edges[i].node_type == s0.edges[i].node_type
    &&& s1.edges[i].value_children == s0.edges[i].value_children
    &&& s1.edges[i].volatility_children == s0.edges[i].volatility_children
    &&& (vdone.contains(i as usize) ==> s1.edges[i].value_parents == Some(
        s0.edges[i].vp().push(nid),
    ) && s1.value_coupling_parents[i] == s0.value_coupling_parents[i].push(ONE_BITS)
        && s1.value_coupling_fn_parents[i] == s0.value_coupling_fn_parents[i].push(cf))
    &&& (!vdone.contains(i as usize) ==> s1.edges[i].value_parents == s0.edges[i].value_parents
        && s1.value_coupling_parents[i] == s0.value_coupling_parents[i]
        && s1.value_coupling_fn_parents[i] == s0.value_coupling_fn_parents[i])
    &&& (qdone.contains(i as usize) ==> s1.edges[i].volatility_parents == Some(
        s0.edges[i].qp().push(nid),
    ) && s1.volatility_coupling_parents[i] == s0.volatility_coupling_parents[i].push(ONE_BITS))
    &&& (!qdone.contains(i as usize) ==> s1.edges[i].volatility_parents == s0.edges[
        i].volatility_parents && s1.volatility_coupling_parents[i]
        == s0.volatility_coupling_parents[i])
}

/// The full effect of inserting one node: attach progress with both child
/// lists done.
pub open spec fn add_one_post(
    s0: StateV,
    s1: StateV,
    kind: NodeKind,
    vco: Option<Seq<usize>>,
    qco: Option<Seq<usize>>,
    cf: Option<CouplingFn>,
) -> bool {
    attach_progress(s0, s1, kind, vco, qco, cf, opt_ids(vco), opt_ids(qco))
}

/// Inserting one node preserves structural well-formedness and edge
/// symmetry, and keeps every previously valid step sequence valid.
pub proof fn lemma_add_one_inv(
    s0: StateV,
    s1: StateV,
    kind: NodeKind,
    vco: Option<Seq<usize>>,
    qco: Option<Seq<usize>>,
    cf: Option<CouplingFn>,
)
    requires
        s0.wf(),
        s0.symmetric(),
        s0.len() <= usize::MAX as int,
        child_list_ok(s0, vco),
        child_list_ok(s0, qco),
        add_one_post(s0, s1, kind, vco, qco, cf),
    ensures
        s1.wf(),
        s1.symmetric(),
        forall|steps: Seq<(usize, FnType)>|
            #[trigger] seq_steps_ok(s0, steps) ==> seq_steps_ok(s1, steps),
{
    let n0 = s0.len();
    let nid = n0 as usize;
    let vc = opt_ids(vco);
    let qc = opt_ids(qco);

    // Well-formedness of every node.
    assert forall|i: int| 0 <= i < s1.len() implies s1.node_wf(i) by {
        if i < n0 {
            assert(s0.node_wf(i));
            assert(attach_node_clause(s0, s1, cf, vc, qc, i));
            if vc.contains(i as usize) {
                assert(s1.edges[i].vp() == s0.edges[i].vp().push(nid));
            }
            if qc.contains(i as usize) {
                assert(s1.edges[i].qp() == s0.edges[i].qp().push(nid));
            }
        } else {
            assert(s1.edges[i].vc() == opt_ids(vco));
            assert(s1.edges[i].qc() == opt_ids(qco));
            assert(s1.edges[i].vp() =~= Seq::<usize>::empty());
            assert(s1.edges[i].qp() =~= Seq::<usize>::empty());
        }
    }

    // Distinctness: a fresh id cannot repeat in an old list.
    assert forall|i: int| 0 <= i < s1.len() implies s1.node_distinct(i) by {
        if i < n0 {
            assert(s0.node_distinct(i));
            assert(s0.node_wf(i));
            assert(attach_node_clause(s0, s1, cf, vc, qc, i));
            if vc.contains(i as usize) {
                assert(!s0.edges[i].vp().contains(nid)) by {
                    if s0.edges[i].vp().contains(nid) {
                        let j = choose|j: int|
                            0 <= j < s0.edges[i].vp().len() && s0.edges[i].vp()[j] == nid;
                        assert(s0.edges[i].vp()[j] < n0);
                    }
                }
                assert(s1.edges[i].vp() == s0.edges[i].vp().push(nid));
                lemma_push_distinct(s0.edges[i].vp(), nid);
            }
            if qc.contains(i as usize) {
                assert(!s0.edges[i].qp().contains(nid)) by {
                    if s0.edges[i].qp().contains(nid) {
                        let j = choose|j: int|
                            0 <= j < s0.edges[i].qp().len() && s0.edges[i].qp()[j] == nid;
                        assert(s0.edges[i].qp()[j] < n0);
                    }
                }
                assert(s1.edges[i].qp() == s0.edges[i].qp().push(nid));
                lemma_push_distinct(s0.edges[i].qp(), nid);
            }
        } else {
            assert(s1.edges[i].vp() =~= Seq::<usize>::empty());
            assert(s1.edges[i].qp() =~= Seq::<usize>::empty());
        }
    }

    // Symmetry of value edges seen from the parent side.
    assert forall|p: int, j: int|
        0 <= p < s1.len() && 0 <= j < s1.edges[p].vc().len() implies s1.value_edge_sym_at(
        p,
        j,
    ) by {
        if p < n0 {
            assert(attach_node_clause(s0, s1, cf, vc, qc, p));
            let c = s1.edges[p].vc()[j];
            assert(s1.edges[p].vc() == s0.edges[p].vc());
            assert(s0.value_edge_sym_at(p, j));
            assert(s0.edges[c as int].vp().contains(p as usize));
            assert(attach_node_clause(s0, s1, cf, vc, qc, c as int));
            if vc.contains(c) {
                lemma_find_id_push(s0.edges[c as int].vp(), nid, p as usize);
                assert(s1.edges[c as int].vp() == s0.edges[c as int].vp().push(nid));
                lemma_find_id(s0.edges[c as int].vp(), p as usize);
                assert(s1.value_coupling_parents[c as int] == s0.value_coupling_parents[
                    c as int].push(ONE_BITS));
                assert(s0.node_wf(c as int));
            } else {
                assert(s1.edges[c as int].vp() == s0.edges[c as int].vp());
            }
        } else {
            // The new node's value children: each was attached.
            let c = s1.edges[p].vc()[j];
            assert(s1.edges[p].vc() == vc);
            assert(vc.contains(c));
            assert(c < n0);
            assert(attach_node_clause(s0, s1, cf, vc, qc, c as int));
            assert(s0.node_wf(c as int));
            assert(!s0.edges[c as int].vp().contains(nid)) by {
                if s0.edges[c as int].vp().contains(nid) {
                    let k = choose|k: int|
                        0 <= k < s0.edges[c as int].vp().len() && s0.edges[c as int].vp()[k]
                            == nid;
                    assert(s0.edges[c as int].vp()[k] < n0);
                }
            }
            assert(s1.edges[c as int].vp() == s0.edges[c as int].vp().push(nid));
            lemma_find_id_push(s0.edges[c as int].vp(), nid, nid);
            lemma_find_id(s0.edges[c as int].vp(), nid);
            assert(s1.edges[c as int].vp().contains(nid)) by {
                assert(s1.edges[c as int].vp()[s0.edges[c as int].vp().len() as int] == nid);
            }
            assert(find_id(s1.edges[c as int].vp(), nid) == s0.edges[c as int].vp().len()) by {
                lemma_find_first(
                    s1.edges[c as int].vp(),
                    nid,
                    s0.edges[c as int].vp().len() as int,
                );
            }
            assert(s1.value_coupling_parents[c as int] == s0.value_coupling_parents[
                c as int].push(ONE_BITS));
            assert(s0.node_wf(c as int));
            assert(s1.value_coupling_children[p][j] == ONE_BITS);
        }
    }

    // Symmetry of volatility edges seen from the parent side.
    assert forall|p: int, j: int|
        0 <= p < s1.len() && 0 <= j < s1.edges[p].qc().len() implies s1.vol_edge_sym_at(
        p,
        j,
    ) by {
        if p < n0 {
            assert(attach_node_clause(s0, s1, cf, vc, qc, p));
            let c = s1.edges[p].qc()[j];
            assert(s1.edges[p].qc() == s0.edges[p].qc());
            assert(s0.vol_edge_sym_at(p, j));
            assert(s0.edges[c as int].qp().contains(p as usize));
            assert(attach_node_clause(s0, s1, cf, vc, qc, c as int));
            if qc.contains(c) {
                lemma_find_id_push(s0.edges[c as int].qp(), nid, p as usize);
                assert(s1.edges[c as int].qp() == s0.edges[c as int].qp().push(nid));
                lemma_find_id(s0.edges[c as int].qp(), p as usize);
                assert(s1.volatility_coupling_parents[c as int] == s0.volatility_coupling_parents[
                    c as int].push(ONE_BITS));
                assert(s0.node_wf(c as int));
            } else {
                assert(s1.edges[c as int].qp() == s0.edges[c as int].qp());
            }
        } else {
            let c = s1.edges[p].qc()[j];
            assert(s1.edges[p].qc() == qc);
            assert(qc.contains(c));
            assert(c < n0);
            assert(attach_node_clause(s0, s1, cf, vc, qc, c as int));
            assert(s0.node_wf(c as int));
            assert(!s0.edges[c as int].qp().contains(nid)) by {
                if s0.edges[c as int].qp().contains(nid) {
                    let k = choose|k: int|
                        0 <= k < s0.edges[c as int].qp().len() && s0.edges[c as int].qp()[k]
                            == nid;
                    assert(s0.edges[c as int].qp()[k] < n0);
                }
            }
            assert(s1.edges[c as int].qp() == s0.edges[c as int].qp().push(nid));
            assert(s1.edges[c as int].qp().contains(nid)) by {
                assert(s1.edges[c as int].qp()[s0.edges[c as int].qp().len() as int] == nid);
            }
            assert(find_id(s1.edges[c as int].qp(), nid) == s0.edges[c as int].qp().len()) by {
                lemma_find_first(
                    s1.edges[c as int].qp(),
                    nid,
                    s0.edges[c as int].qp().len() as int,
                );
            }
            assert(s1.volatility_coupling_parents[c as int] == s0.volatility_coupling_parents[
                c as int].push(ONE_BITS));
            assert(s0.node_wf(c as int));
            assert(s1.volatility_coupling_children[p][j] == ONE_BITS);
        }
    }

    // Symmetry of value edges seen from the child side.
    assert forall|c: int, k: int|
        0 <= c < s1.len() && 0 <= k < s1.edges[c].vp().len() implies s1.value_parent_sym_at(
        c,
        k,
    ) by {
        if c < n0 {
            assert(s0.node_wf(c));
            assert(attach_node_clause(s0, s1, cf, vc, qc, c));
            if vc.contains(c as usize) {
                assert(s1.edges[c].vp() == s0.edges[c].vp().push(nid));
                if k < s0.edges[c].vp().len() {
                    assert(s0.value_parent_sym_at(c, k));
                    let p = s0.edges[c].vp()[k];
                    assert(attach_node_clause(s0, s1, cf, vc, qc, p as int));
                    assert(s1.edges[c].vp()[k] == p);
                    assert(s1.edges[p as int].vc() == s0.edges[p as int].vc());
                    assert(s1.value_coupling_children[p as int] == s0.value_coupling_children[
                        p as int]);
                    assert(s1.value_coupling_parents[c][k] == s0.value_coupling_parents[c][k]);
                } else {
                    // The appended entry: the parent is the new node.
                    assert(s1.edges[c].vp()[k] == nid);
                    assert(s1.edges[n0].vc() == vc);
                    lemma_find_id(vc, c as usize);
                    assert(s1.value_coupling_children[n0][find_id(vc, c as usize)] == ONE_BITS);
                    assert(s1.value_coupling_parents[c][k] == ONE_BITS);
                }
            } else {
                assert(s1.edges[c].vp() == s0.edges[c].vp());
                assert(s0.value_parent_sym_at(c, k));
                let p = s0.edges[c].vp()[k];
                assert(attach_node_clause(s0, s1, cf, vc, qc, p as int));
                assert(s1.edges[p as int].vc() == s0.edges[p as int].vc());
                assert(s1.value_coupling_children[p as int] == s0.value_coupling_children[
                    p as int]);
                assert(s1.value_coupling_parents[c][k] == s0.value_coupling_parents[c][k]);
            }
        } else {
            assert(s1.edges[c].vp() =~= Seq::<usize>::empty());
        }
    }

    // Symmetry of volatility edges seen from the child side.
    assert forall|c: int, k: int|
        0 <= c < s1.len() && 0 <= k < s1.edges[c].qp().len() implies s1.vol_parent_sym_at(
        c,
        k,
    ) by {
        if c < n0 {
            assert(s0.node_wf(c));
            assert(attach_node_clause(s0, s1, cf, vc, qc, c));
            if qc.contains(c as usize) {
                assert(s1.edges[c].qp() == s0.edges[c].qp().push(nid));
                if k < s0.edges[c].qp().len() {
                    assert(s0.vol_parent_sym_at(c, k));
                    let p = s0.edges[c].qp()[k];
                    assert(attach_node_clause(s0, s1, cf, vc, qc, p as int));
                    assert(s1.edges[c].qp()[k] == p);
                    assert(s1.edges[p as int].qc() == s0.edges[p as int].qc());
                    assert(s1.volatility_coupling_children[p as int]
                        == s0.volatility_coupling_children[p as int]);
                    assert(s1.volatility_coupling_parents[c][k] == s0.volatility_coupling_parents[
                        c][k]);
                } else {
                    assert(s1.edges[c].qp()[k] == nid);
                    assert(s1.edges[n0].qc() == qc);
                    lemma_find_id(qc, c as usize);
                    assert(s1.volatility_coupling_children[n0][find_id(qc, c as usize)]
                        == ONE_BITS);
                    assert(s1.volatility_coupling_parents[c][k] == ONE_BITS);
                }
            } else {
                assert(s1.edges[c].qp() == s0.edges[c].qp());
                assert(s0.vol_parent_sym_at(c, k));
                let p = s0.edges[c].qp()[k];
                assert(attach_node_clause(s0, s1, cf, vc, qc, p as int));
                assert(s1.edges[p as int].qc() == s0.edges[p as int].qc());
                assert(s1.volatility_coupling_children[p as int] == s0.volatility_coupling_children[
                    p as int]);
                assert(s1.volatility_coupling_parents[c][k] == s0.volatility_coupling_parents[c][
                    k]);
            }
        } else {
            assert(s1.edges[c].qp() =~= Seq::<usize>::empty());
        }
    }

    // Previously valid step sequences stay valid: targets still exist and
    // no node lost a volatility child.
    assert forall|steps: Seq<(usize, FnType)>|
        #[trigger] seq_steps_ok(s0, steps) implies seq_steps_ok(s1, steps) by {
        assert forall|k: int| 0 <= k < steps.len() implies step_ok(s1, #[trigger] steps[k]) by {
            assert(step_ok(s0, steps[k]));
            let i = steps[k].0 as int;
            assert(attach_node_clause(s0, s1, cf, vc, qc, i));
            assert(s1.edges[i].qc() == s0.edges[i].qc());
        }
    }
}

/// Appending a fresh element keeps a sequence duplicate-free.
pub proof fn lemma_push_distinct(s: Seq<usize>, x: usize)
    requires
        s.no_duplicates(),
        !s.contains(x),
    ensures
        s.push(x).no_duplicates(),
{
    let t = s.push(x);
    assert forall|i: int, j: int| 0 <= i < t.len() && 0 <= j < t.len() && i != j implies t[i]
        != t[j] by {
        if i < s.len() && j < s.len() {
        } else if i < s.len() {
            assert(t[j] == x);
            assert(t[i] == s[i]);
            assert(s.contains(s[i]) || true);
            if t[i] == x {
                assert(s.contains(x)) by {
                    assert(s[i] == x);
                }
            }
        } else {
            assert(t[i] == x);
            assert(j < s.len());
            if t[j] == x {
                assert(s.contains(x)) by {
                    assert(s[j] == x);
                }
            }
        }
    }
}

/// Membership in a sequence with one element appended.
pub proof fn lemma_push_contains(s: Seq<usize>, y: usize)
    ensures
        forall|x: usize| #[trigger] s.push(y).contains(x) == (s.contains(x) || x == y),
{
    assert forall|x: usize| #[trigger] s.push(y).contains(x) == (s.contains(x) || x == y) by {
        if s.push(y).contains(x) {
            let t = choose|t: int| 0 <= t < s.push(y).len() && s.push(y)[t] == x;
            if t < s.len() {
                assert(s[t] == x);
            }
        }
        if s.contains(x) {
            let t = choose|t: int| 0 <= t < s.len() && s[t] == x;
            assert(s.push(y)[t] == x);
        }
        assert(s.push(y)[s.len() as int] == y);
    }
}

impl Network {
    /// Insert one node of the given kind with the given child lists and
    /// edge coupling function, establishing the symmetric edges.
    #[verifier::rlimit(60)]
    fn add_node_one(
        &mut self,
        kind: NodeKind,
        value_children: Option<Vec<usize>>,
        volatility_children: Option<Vec<usize>>,
        coupling_fn: Option<CouplingFn>,
    )
        requires
            old(self).inv(),
            child_list_ok(old(self).state(), opt_view(value_children)),
            child_list_ok(old(self).state(), opt_view(volatility_children)),
            kind == NodeKind::Volatile ==> volatility_children is None,
            kind == NodeKind::Exponential ==> value_children is None && volatility_children
                is None,
        ensures
            final(self).inv(),
            add_one_post(
                old(self).state(),
                final(self).state(),
                kind,
                opt_view(value_children),
                opt_view(volatility_children),
                coupling_fn,
            ),
            (value_children is None && volatility_children is None) ==> final(self).inputs@
                == old(self).inputs@.push(old(self).state().len() as usize),
            !(value_children is None && volatility_children is None) ==> final(self).inputs@
                == old(self).inputs@,
            final(self).update_type == old(self).update_type,
            final(self).update_sequence.predictions@ == old(self).update_sequence.predictions@,
            final(self).update_sequence.updates@ == old(self).update_sequence.updates@,
            final(self).node_trajectories.floats@ == old(self).node_trajectories.floats@,
            final(self).node_trajectories.vectors@ == old(self).node_trajectories.vectors@,
    {
        let ghost s0 = self.state();
        let ghost vco = opt_view(value_children);
        let ghost qco = opt_view(volatility_children);
        let node_id = self.edges.len();
        proof {
            assert(s0.len() == node_id as int);
        }
        let is_input = value_children.is_none() && volatility_children.is_none();
        if is_input {
            self.inputs.push(node_id);
        }

        let (has_vc, vc_ids): (bool, Vec<usize>) = match value_children {
            Some(v) => (true, v),
            None => (false, Vec::new()),
        };
        let (has_qc, qc_ids): (bool, Vec<usize>) = match volatility_children {
            Some(v) => (true, v),
            None => (false, Vec::new()),
        };
        proof {
            assert(opt_ids(vco) == vc_ids@);
            assert(opt_ids(qco) == qc_ids@);
        }

        self.attributes.floats.push(default_floats(kind, is_input));
        self.attributes.value_coupling_parents.push(Vec::new());
        self.attributes.value_coupling_children.push(vec![ONE_BITS; vc_ids.len()]);
        self.attributes.volatility_coupling_parents.push(Vec::new());
        self.attributes.volatility_coupling_children.push(vec![ONE_BITS; qc_ids.len()]);
        self.attributes.value_coupling_fn_parents.push(Vec::new());
        let mut xis_row: Vec<u64> = Vec::new();
        let is_exponential = match kind {
            NodeKind::Exponential => true,
            _ => false,
        };
        if is_exponential {
            xis_row.push(ZERO_BITS);
            xis_row.push(ZERO_BITS);
        }
        self.attributes.xis.push(xis_row);
        self.edges.push(
            AdjacencyLists {
                node_type: kind,
                value_parents: None,
                value_children: if has_vc {
                    Some(copy_vec(&vc_ids))
                } else {
                    None
                },
                volatility_parents: None,
                volatility_children: if has_qc {
                    Some(copy_vec(&qc_ids))
                } else {
                    None
                },
            },
        );

        proof {
            assert(self.state().value_coupling_children[s0.len()] =~= Seq::new(
                opt_ids(vco).len(),
                |j: int| ONE_BITS,
            ));
            assert(self.state().volatility_coupling_children[s0.len()] =~= Seq::new(
                opt_ids(qco).len(),
                |j: int| ONE_BITS,
            ));
            assert(self.state().value_coupling_parents[s0.len()] =~= Seq::<u64>::empty());
            assert(self.state().volatility_coupling_parents[s0.len()] =~= Seq::<u64>::empty());
            assert(self.state().value_coupling_fn_parents[s0.len()] =~= Seq::<
                Option<CouplingFn>,
            >::empty());
            if kind == NodeKind::Exponential {
                assert(self.state().xis[s0.len()] =~= seq![ZERO_BITS, ZERO_BITS]);
            } else {
                assert(self.state().xis[s0.len()] =~= Seq::<u64>::empty());
            }
            assert(attach_progress(
                s0,
                self.state(),
                kind,
                vco,
                qco,
                coupling_fn,
                Seq::<usize>::empty(),
                Seq::<usize>::empty(),
            ));
        }

        proof {
            assert(vc_ids@.take(0) =~= Seq::<usize>::empty());
            assert(qc_ids@.take(0) =~= Seq::<usize>::empty());
        }
        let n_vc = vc_ids.len();
        #[verifier::loop_isolation(false)]
        for j in 0..n_vc
            invariant
                n_vc == vc_ids@.len(),
                (is_input ==> self.inputs@ == old(self).inputs@.push(node_id)),
                (!is_input ==> self.inputs@ == old(self).inputs@),
                self.update_type == old(self).update_type,
                self.update_sequence.predictions@ == old(self).update_sequence.predictions@,
                self.update_sequence.updates@ == old(self).update_sequence.updates@,
                self.node_trajectories.floats@ == old(self).node_trajectories.floats@,
                self.node_trajectories.vectors@ == old(self).node_trajectories.vectors@,
                attach_progress(
                    s0,
                    self.state(),
                    kind,
                    vco,
                    qco,
                    coupling_fn,
                    vc_ids@.take(j as int),
                    Seq::<usize>::empty(),
                ),
            decreases n_vc - j,
        {
            let c = vc_ids[j];
            proof {
                assert(child_list_ok(s0, vco));
                assert(vc_ids@[j as int] < s0.len());
                assert(!vc_ids@.take(j as int).contains(c)) by {
                    if vc_ids@.take(j as int).contains(c) {
                        let t = choose|t: int|
                            0 <= t < j && vc_ids@.take(j as int)[t] == c;
                        assert(vc_ids@[t] == vc_ids@[j as int]);
                    }
                }
            }
            let ghost pre = self.state();
            proof {
                assert(attach_node_clause(
                    s0,
                    pre,
                    coupling_fn,
                    vc_ids@.take(j as int),
                    Seq::<usize>::empty(),
                    c as int,
                ));
            }
            let mut vp_new: Vec<usize> = match &self.edges[c].value_parents {
                Some(v) => copy_vec(v),
                None => Vec::new(),
            };
            vp_new.push(node_id);
            proof {
                assert(vp_new@ == s0.edges[c as int].vp().push(node_id));
            }
            self.edges[c].value_parents = Some(vp_new);
            let mut row = copy_vec(&self.attributes.value_coupling_parents[c]);
            row.push(ONE_BITS);
            self.attributes.value_coupling_parents[c] = row;
            let mut fns_row = copy_vec(&self.attributes.value_coupling_fn_parents[c]);
            fns_row.push(coupling_fn);
            self.attributes.value_coupling_fn_parents[c] = fns_row;
            proof {
                assert(vc_ids@.take(j + 1) =~= vc_ids@.take(j as int).push(c));
                lemma_push_contains(vc_ids@.take(j as int), c);
                let spost = self.state();
                assert forall|i: int| 0 <= i < s0.len() implies #[trigger] attach_node_clause(
                    s0,
                    spost,
                    coupling_fn,
                    vc_ids@.take(j + 1),
                    Seq::<usize>::empty(),
                    i,
                ) by {
                    assert(attach_node_clause(
                        s0,
                        pre,
                        coupling_fn,
                        vc_ids@.take(j as int),
                        Seq::<usize>::empty(),
                        i,
                    ));
                    if i != c {
                        assert(spost.edges[i] == pre.edges[i]);
                        assert(spost.value_coupling_parents[i] == pre.value_coupling_parents[i]);
                        assert(spost.value_coupling_fn_parents[i] == pre.value_coupling_fn_parents[
                            i]);
                    } else {
                        assert(vc_ids@.take(j + 1).contains(c));
                        assert(spost.edges[i].value_parents == Some(
                            s0.edges[i].vp().push(node_id),
                        ));
                        assert(spost.value_coupling_parents[i] == s0.value_coupling_parents[
                            i].push(ONE_BITS));
                        assert(spost.value_coupling_fn_parents[i] == s0.value_coupling_fn_parents[
                            i].push(coupling_fn));
                        assert(spost.edges[i].volatility_parents == pre.edges[
                            i].volatility_parents);
                        assert(spost.edges[i].node_type == pre.edges[i].node_type);
                        assert(spost.edges[i].value_children == pre.edges[i].value_children);
                        assert(spost.edges[i].volatility_children == pre.edges[
                            i].volatility_children);
                        assert(spost.volatility_coupling_parents[i]
                            == pre.volatility_coupling_parents[i]);
                    }
                }
                assert(attach_progress(
                    s0,
                    self.state(),
                    kind,
                    vco,
                    qco,
                    coupling_fn,
                    vc_ids@.take(j + 1),
                    Seq::<usize>::empty(),
                ));
            }
        }

        proof {
            assert(vc_ids@.take(n_vc as int) =~= vc_ids@);
        }

        let n_qc = qc_ids.len();
        #[verifier::loop_isolation(false)]
        for j in 0..n_qc
            invariant
                n_qc == qc_ids@.len(),
                (is_input ==> self.inputs@ == old(self).inputs@.push(node_id)),
                (!is_input ==> self.inputs@ == old(self).inputs@),
                self.update_type == old(self).update_type,
                self.update_sequence.predictions@ == old(self).update_sequence.predictions@,
                self.update_sequence.updates@ == old(self).update_sequence.updates@,
                self.node_trajectories.floats@ == old(self).node_trajectories.floats@,
                self.node_trajectories.vectors@ == old(self).node_trajectories.vectors@,
                attach_progress(
                    s0,
                    self.state(),
                    kind,
                    vco,
                    qco,
                    coupling_fn,
                    vc_ids@,
                    qc_ids@.take(j as int),
                ),
            decreases n_qc - j,
        {
            let c = qc_ids[j];
            proof {
                assert(child_list_ok(s0, qco));
                assert(qc_ids@[j as int] < s0.len());
                assert(!qc_ids@.take(j as int).contains(c)) by {
                    if qc_ids@.take(j as int).contains(c) {
                        let t = choose|t: int|
                            0 <= t < j && qc_ids@.take(j as int)[t] == c;
                        assert(qc_ids@[t] == qc_ids@[j as int]);
                    }
                }
            }
            let ghost pre = self.state();
            proof {
                assert(attach_node_clause(
                    s0,
                    pre,
                    coupling_fn,
                    vc_ids@,
                    qc_ids@.take(j as int),
                    c as int,
                ));
            }
            let mut qp_new: Vec<usize> = match &self.edges[c].volatility_parents {
                Some(v) => copy_vec(v),
                None => Vec::new(),
            };
            qp_new.push(node_id);
            proof {
                assert(qp_new@ == s0.edges[c as int].qp().push(node_id));
            }
            self.edges[c].volatility_parents = Some(qp_new);
            let mut row = copy_vec(&self.attributes.volatility_coupling_parents[c]);
            row.push(ONE_BITS);
            self.attributes.volatility_coupling_parents[c] = row;
            proof {
                assert(qc_ids@.take(j + 1) =~= qc_ids@.take(j as int).push(c));
                lemma_push_contains(qc_ids@.take(j as int), c);
                let spost = self.state();
                assert forall|i: int| 0 <= i < s0.len() implies #[trigger] attach_node_clause(
                    s0,
                    spost,
                    coupling_fn,
                    vc_ids@,
                    qc_ids@.take(j + 1),
                    i,
                ) by {
                    assert(attach_node_clause(
                        s0,
                        pre,
                        coupling_fn,
                        vc_ids@,
                        qc_ids@.take(j as int),
                        i,
                    ));
                    if i != c {
                        assert(spost.edges[i] == pre.edges[i]);
                        assert(spost.volatility_coupling_parents[i]
                            == pre.volatility_coupling_parents[i]);
                    } else {
                        assert(qc_ids@.take(j + 1).contains(c));
                        assert(spost.edges[i].volatility_parents == Some(
                            s0.edges[i].qp().push(node_id),
                        ));
                        assert(spost.volatility_coupling_parents[i]
                            == s0.volatility_coupling_parents[i].push(ONE_BITS));
                        assert(spost.edges[i].value_parents == pre.edges[i].value_parents);
                        assert(spost.edges[i].node_type == pre.edges[i].node_type);
                        assert(spost.edges[i].value_children == pre.edges[i].value_children);
                        assert(spost.edges[i].volatility_children == pre.edges[
                            i].volatility_children);
                        assert(spost.value_coupling_parents[i] == pre.value_coupling_parents[i]);
                        assert(spost.value_coupling_fn_parents[i] == pre.value_coupling_fn_parents[
                            i]);
                    }
                }
                assert(attach_progress(
                    s0,
                    self.state(),
                    kind,
                    vco,
                    qco,
                    coupling_fn,
                    vc_ids@,
                    qc_ids@.take(j + 1),
                ));
            }
        }

        proof {
            assert(qc_ids@.take(n_qc as int) =~= qc_ids@);
            assert(add_one_post(s0, self.state(), kind, vco, qco, coupling_fn));
            lemma_add_one_inv(s0, self.state(), kind, vco, qco, coupling_fn);
            assert forall|i: int|
                0 <= i < self.inputs@.len() implies (self.inputs@[i] as int)
                < self.state().len() by {
                if i < old(self).inputs@.len() {
                    assert((old(self).inputs@[i] as int) < s0.len());
                }
            }
        }
    }

    /// Add `n` nodes of the given kind, each with the given child lists.
    ///
    /// Symmetric edges are established towards every named child: the child
    /// gains the new node among its parents of the matching kind, and both
    /// sides' coupling rows grow by one entry of `1.0`.  `coupling_fn` names
    /// the coupling function of every value edge so created.  Nodes added
    /// without children are input nodes.  Edges are built bottom-up: parent
    /// arguments are not accepted, a child must already exist.
    pub fn add_nodes(
        &mut self,
        kind: &str,
        n: usize,
        value_parents: Option<IntOrList>,
        value_children: Option<IntOrList>,
        volatility_parents: Option<IntOrList>,
        volatility_children: Option<IntOrList>,
        coupling_fn: Option<&str>,
    )
        requires
            old(self).inv(),
            kind_of_name(kind@) is Some,
            value_parents is None,
            volatility_parents is None,
            child_list_ok(old(self).state(), opt_ids_view(value_children)),
            child_list_ok(old(self).state(), opt_ids_view(volatility_children)),
            kind_of_name(kind@) == Some(NodeKind::Volatile) ==> volatility_children is None,
            kind_of_name(kind@) == Some(NodeKind::Exponential) ==> value_children is None
                && volatility_children is None,
            old(self).state().len() + n <= usize::MAX,
        ensures
            final(self).inv(),
            final(self).state().len() == old(self).state().len() + n,
            added_nodes_post(
                old(self).state(),
                final(self).state(),
                kind_of_name(kind@)->0,
                opt_ids_view(value_children),
                opt_ids_view(volatility_children),
                match coupling_fn {
                    Some(name) => Some(resolve_of(name@)),
                    None => None,
                },
                n as int,
            ),
            (value_children is None && volatility_children is None) ==> final(self).inputs@
                == old(self).inputs@ + Seq::new(
                n as nat,
                |m: int| (old(self).state().len() + m) as usize,
            ),
            !(value_children is None && volatility_children is None) ==> final(self).inputs@
                == old(self).inputs@,
            final(self).update_type == old(self).update_type,
            final(self).update_sequence.predictions@ == old(self).update_sequence.predictions@,
            final(self).update_sequence.updates@ == old(self).update_sequence.updates@,
            final(self).node_trajectories.floats@ == old(self).node_trajectories.floats@,
            final(self).node_trajectories.vectors@ == old(self).node_trajectories.vectors@,
    {
        let ghost s0 = self.state();
        let ghost n0 = s0.len();
        let ghost vco = opt_ids_view(value_children);
        let ghost qco = opt_ids_view(volatility_children);
        let nk = match parse_kind(kind) {
            Some(k) => k,
            None => NodeKind::Continuous,
        };
        let cf: Option<CouplingFn> = match coupling_fn {
            Some(name) => Some(resolve_coupling_fn(name)),
            None => None,
        };
        let is_input = value_children.is_none() && volatility_children.is_none();
        let (has_vc, vc_ids): (bool, Vec<usize>) = match value_children {
            Some(v) => (true, v.into_vec()),
            None => (false, Vec::new()),
        };
        let (has_qc, qc_ids): (bool, Vec<usize>) = match volatility_children {
            Some(v) => (true, v.into_vec()),
            None => (false, Vec::new()),
        };
        proof {
            assert(opt_ids(vco) == vc_ids@);
            assert(opt_ids(qco) == qc_ids@);
            assert(Seq::new(0, |m: int| (n0 + m) as usize) =~= Seq::<usize>::empty());
            assert(old(self).inputs@ + Seq::<usize>::empty() =~= old(self).inputs@);
        }
        #[verifier::loop_isolation(false)]
        for m in 0..n
            invariant
                self.inv(),
                self.state().len() == n0 + m,
                added_nodes_post(s0, self.state(), nk, vco, qco, cf, m as int),
                (is_input ==> self.inputs@ == old(self).inputs@ + Seq::new(
                    m as nat,
                    |t: int| (n0 + t) as usize,
                )),
                (!is_input ==> self.inputs@ == old(self).inputs@),
                self.update_type == old(self).update_type,
                self.update_sequence.predictions@ == old(self).update_sequence.predictions@,
                self.update_sequence.updates@ == old(self).update_sequence.updates@,
                self.node_trajectories.floats@ == old(self).node_trajectories.floats@,
                self.node_trajectories.vectors@ == old(self).node_trajectories.vectors@,
            decreases n - m,
        {
            let ghost sm = self.state();
            let vc_arg: Option<Vec<usize>> = if has_vc {
                Some(copy_vec(&vc_ids))
            } else {
                None
            };
            let qc_arg: Option<Vec<usize>> = if has_qc {
                Some(copy_vec(&qc_ids))
            } else {
                None
            };
            proof {
                assert(opt_view(vc_arg) == vco);
                assert(opt_view(qc_arg) == qco);
                assert forall|j: int| 0 <= j < opt_ids(vco).len() implies opt_ids(vco)[j]
                    < sm.len() by {
                    assert(opt_ids(vco)[j] < n0);
                }
                assert forall|j: int| 0 <= j < opt_ids(qco).len() implies opt_ids(qco)[j]
                    < sm.len() by {
                    assert(opt_ids(qco)[j] < n0);
                }
            }
            self.add_node_one(nk, vc_arg, qc_arg, cf);
            proof {
                lemma_added_nodes_step(s0, sm, self.state(), nk, vco, qco, cf, m as int);
                if is_input {
                    assert(self.inputs@ =~= old(self).inputs@ + Seq::new(
                        (m + 1) as nat,
                        |t: int| (n0 + t) as usize,
                    ));
                }
            }
        }
    }
}

/// `s1` is `s0` with the scalar attributes of node `i` replaced by `nf` and
/// nothing else changed.
pub open spec fn floats_updated(s0: StateV, s1: StateV, i: int, nf: NodeFloats) -> bool {
    &&& s1.floats == s0.floats.update(i, nf)
    &&& s1.value_coupling_parents == s0.value_coupling_parents
    &&& s1.value_coupling_children == s0.value_coupling_children
    &&& s1.volatility_coupling_parents == s0.volatility_coupling_parents
    &&& s1.volatility_coupling_children == s0.volatility_coupling_children
    &&& s1.value_coupling_fn_parents == s0.value_coupling_fn_parents
    &&& s1.xis == s0.xis
    &&& s1.edges == s0.edges
}

/// The parts of the network a kernel never touches: inputs, update variant,
/// the scheduled sequences, and the recorded trajectories.
pub open spec fn same_shell(a: &Network, b: &Network) -> bool {
    &&& b.inputs@ == a.inputs@
    &&& b.update_type == a.update_type
    &&& b.update_sequence.predictions@ == a.update_sequence.predictions@
    &&& b.update_sequence.updates@ == a.update_sequence.updates@
    &&& b.node_trajectories.floats@ == a.node_trajectories.floats@
    &&& b.node_trajectories.vectors@ == a.node_trajectories.vectors@
}

/// Replacing one node's scalar attributes preserves structural
/// well-formedness, edge symmetry, and the validity of every step sequence.
pub proof fn lemma_floats_update_preserves(s0: StateV, s1: StateV, i: int, nf: NodeFloats)
    requires
        s0.wf(),
        0 <= i < s0.len(),
        floats_updated(s0, s1, i, nf),
    ensures
        s1.wf(),
        s0.symmetric() ==> s1.symmetric(),
        forall|steps: Seq<(usize, FnType)>|
            #[trigger] seq_steps_ok(s0, steps) ==> seq_steps_ok(s1, steps),
{
    assert(s1.len() == s0.len());
    assert forall|j: int| 0 <= j < s1.len() implies s1.node_wf(j) by {
        assert(s0.node_wf(j));
    }
    if s0.symmetric() {
        assert forall|j: int| 0 <= j < s1.len() implies s1.node_distinct(j) by {
            assert(s0.node_distinct(j));
        }
        assert forall|p: int, j: int|
            0 <= p < s1.len() && 0 <= j < s1.edges[p].vc().len() implies s1.value_edge_sym_at(
            p,
            j,
        ) by {
            assert(s0.value_edge_sym_at(p, j));
        }
        assert forall|p: int, j: int|
            0 <= p < s1.len() && 0 <= j < s1.edges[p].qc().len() implies s1.vol_edge_sym_at(
            p,
            j,
        ) by {
            assert(s0.vol_edge_sym_at(p, j));
        }
        assert forall|c: int, k: int|
            0 <= c < s1.len() && 0 <= k < s1.edges[c].vp().len() implies s1.value_parent_sym_at(
            c,
            k,
        ) by {
            assert(s0.value_parent_sym_at(c, k));
        }
        assert forall|c: int, k: int|
            0 <= c < s1.len() && 0 <= k < s1.edges[c].qp().len() implies s1.vol_parent_sym_at(
            c,
            k,
        ) by {
            assert(s0.vol_parent_sym_at(c, k));
        }
    }
    assert forall|steps: Seq<(usize, FnType)>|
        #[trigger] seq_steps_ok(s0, steps) implies seq_steps_ok(s1, steps) by {
        assert forall|k: int| 0 <= k < steps.len() implies step_ok(s1, #[trigger] steps[k]) by {
            assert(step_ok(s0, steps[k]));
        }
    }
}

/// Step validity depends only on the coupling structure.
pub proof fn lemma_steps_ok_same_edges(s1: StateV, s2: StateV, steps: Seq<(usize, FnType)>)
    requires
        s1.edges == s2.edges,
        seq_steps_ok(s1, steps),
    ensures
        seq_steps_ok(s2, steps),
{
    assert forall|k: int| 0 <= k < steps.len() implies step_ok(s2, #[trigger] steps[k]) by {
        assert(step_ok(s1, steps[k]));
    }
}

/// The vector attributes of node `i`, as one snapshot.
pub open spec fn snapshot_of(s: StateV, i: int) -> VectorSnapshotV {
    VectorSnapshotV {
        value_coupling_parents: s.value_coupling_parents[i],
        value_coupling_children: s.value_coupling_children[i],
        volatility_coupling_parents: s.volatility_coupling_parents[i],
        volatility_coupling_children: s.volatility_coupling_children[i],
        xis: s.xis[i],
    }
}

/// The id list of an optional single-or-list argument.
pub open spec fn opt_ids_view(o: Option<IntOrList>) -> Option<Seq<usize>> {
    match o {
        Some(v) => Some(int_or_list_ids(v)),
        None => None,
    }
}

/// How a state `s1` relates to `s0` after `n` nodes of one kind were added
/// with the same child lists: the new nodes carry the given structure and
/// default attributes, old nodes' scalar stores are untouched, and every
/// child named in the lists gained exactly the new ids as parents of the
/// matching kind.
pub open spec fn added_nodes_post(
    s0: StateV,
    s1: StateV,
    kind: NodeKind,
    vco: Option<Seq<usize>>,
    qco: Option<Seq<usize>>,
    cf: Option<CouplingFn>,
    n: int,
) -> bool {
    let n0 = s0.len();
    let vc = opt_ids(vco);
    let qc = opt_ids(qco);
    let new_ids = Seq::new(n as nat, |m: int| (n0 + m) as usize);
    &&& s1.len() == n0 + n
    &&& forall|m: int|
        0 <= m < n ==> (#[trigger] s1.edges[n0 + m]) == (EdgeV {
            node_type: kind,
            value_parents: None,
            value_children: vco,
            volatility_parents: None,
            volatility_children: qco,
        })
    &&& forall|m: int|
        0 <= m < n ==> (#[trigger] s1.floats[n0 + m]) == default_floats_of(
            kind,
            vco is None && qco is None,
        )
    &&& forall|m: int|
        0 <= m < n ==> (#[trigger] s1.value_coupling_children[n0 + m]) == Seq::new(
            vc.len(),
            |j: int| ONE_BITS,
        )
    &&& forall|m: int|
        0 <= m < n ==> (#[trigger] s1.volatility_coupling_children[n0 + m]) == Seq::new(
            qc.len(),
            |j: int| ONE_BITS,
        )
    &&& forall|m: int|
        0 <= m < n ==> (#[trigger] s1.xis[n0 + m]) == (if kind == NodeKind::Exponential {
            seq![ZERO_BITS, ZERO_BITS]
        } else {
            Seq::<u64>::empty()
        })
    &&& forall|i: int| 0 <= i < n0 ==> (#[trigger] s1.floats[i]) == s0.floats[i]
    &&& forall|i: int|
        0 <= i < n0 ==> #[trigger] grown_node_clause(s0, s1, cf, vc, qc, new_ids, i)
}

/// How old node `i` stands after a batch of nodes was added: attached to
/// exactly the new ids where it was named as a child, untouched otherwise.
pub open spec fn grown_node_clause(
    s0: StateV,
    s1: StateV,
    cf: Option<CouplingFn>,
    vc: Seq<usize>,
    qc: Seq<usize>,
    new_ids: Seq<usize>,
    i: int,
) -> bool {
    let n = new_ids.len() as int;
    &&& s1.xis[i] == s0.xis[i]
    &&& s1.value_coupling_children[i] == s0.value_coupling_children[i]
    &&& s1.volatility_coupling_children[i] == s0.volatility_coupling_children[i]
    &&& s1.edges[i].node_type == s0.edges[i].node_type
    &&& s1.edges[i].value_children == s0.edges[i].value_children
    &&& s1.edges[i].volatility_children == s0.edges[i].volatility_children
    &&& (vc.contains(i as usize) && n > 0 ==> s1.edges[i].value_parents == Some(
        s0.edges[i].vp() + new_ids,
    ) && s1.value_coupling_parents[i] == s0.value_coupling_parents[i] + Seq::new(
        new_ids.len(),
        |t: int| ONE_BITS,
    ) && s1.value_coupling_fn_parents[i] == s0.value_coupling_fn_parents[i] + Seq::new(
        new_ids.len(),
        |t: int| cf,
    ))
    &&& (!(vc.contains(i as usize) && n > 0) ==> s1.edges[i].value_parents == s0.edges[
        i].value_parents && s1.value_coupling_parents[i] == s0.value_coupling_parents[i]
        && s1.value_coupling_fn_parents[i] == s0.value_coupling_fn_parents[i])
    &&& (qc.contains(i as usize) && n > 0 ==> s1.edges[i].volatility_parents == Some(
        s0.edges[i].qp() + new_ids,
    ) && s1.volatility_coupling_parents[i] == s0.volatility_coupling_parents[i] + Seq::new(
        new_ids.len(),
        |t: int| ONE_BITS,
    ))
    &&& (!(qc.contains(i as usize) && n > 0) ==> s1.edges[i].volatility_parents == s0.edges[
        i].volatility_parents && s1.volatility_coupling_parents[i]
        == s0.volatility_coupling_parents[i])
}

/// One more node extends the batch description by one id.
pub proof fn lemma_added_nodes_step(
    s0: StateV,
    sm: StateV,
    s1: StateV,
    kind: NodeKind,
    vco: Option<Seq<usize>>,
    qco: Option<Seq<usize>>,
    cf: Option<CouplingFn>,
    m: int,
)
    requires
        m >= 0,
        s0.wf(),
        s0.len() + m + 1 <= usize::MAX as int,
        child_list_ok(s0, vco),
        child_list_ok(s0, qco),
        added_nodes_post(s0, sm, kind, vco, qco, cf, m),
        add_one_post(sm, s1, kind, vco, qco, cf),
    ensures
        added_nodes_post(s0, s1, kind, vco, qco, cf, m + 1),
{
    let n0 = s0.len();
    let vc = opt_ids(vco);
    let qc = opt_ids(qco);
    let ids_m = Seq::new(m as nat, |t: int| (n0 + t) as usize);
    let ids_m1 = Seq::new((m + 1) as nat, |t: int| (n0 + t) as usize);
    let nid = (n0 + m) as usize;
    assert(ids_m1 =~= ids_m.push(nid));
    assert(sm.len() == n0 + m);

    assert forall|mm: int| 0 <= mm < m + 1 implies (#[trigger] s1.edges[n0 + mm]) == (EdgeV {
        node_type: kind,
        value_parents: None,
        value_children: vco,
        volatility_parents: None,
        volatility_children: qco,
    }) by {
        if mm < m {
            assert(attach_node_clause(sm, s1, cf, vc, qc, n0 + mm));
            assert(sm.edges[n0 + mm] == (EdgeV {
                node_type: kind,
                value_parents: None,
                value_children: vco,
                volatility_parents: None,
                volatility_children: qco,
            }));
            assert(!vc.contains((n0 + mm) as usize)) by {
                if vc.contains((n0 + mm) as usize) {
                    let j = choose|j: int| 0 <= j < vc.len() && vc[j] == (n0 + mm) as usize;
                    assert(vc[j] < n0);
                }
            }
            assert(!qc.contains((n0 + mm) as usize)) by {
                if qc.contains((n0 + mm) as usize) {
                    let j = choose|j: int| 0 <= j < qc.len() && qc[j] == (n0 + mm) as usize;
                    assert(qc[j] < n0);
                }
            }
        }
    }
    assert forall|mm: int| 0 <= mm < m + 1 implies (#[trigger] s1.floats[n0 + mm])
        == default_floats_of(kind, vco is None && qco is None) by {
        if mm < m {
            assert(attach_node_clause(sm, s1, cf, vc, qc, n0 + mm));
        }
    }
    assert forall|mm: int| 0 <= mm < m + 1 implies (#[trigger] s1.value_coupling_children[n0
        + mm]) == Seq::new(vc.len(), |j: int| ONE_BITS) by {
        if mm < m {
            assert(attach_node_clause(sm, s1, cf, vc, qc, n0 + mm));
        }
    }
    assert forall|mm: int| 0 <= mm < m + 1 implies (#[trigger] s1.volatility_coupling_children[
        n0 + mm]) == Seq::new(qc.len(), |j: int| ONE_BITS) by {
        if mm < m {
            assert(attach_node_clause(sm, s1, cf, vc, qc, n0 + mm));
        }
    }
    assert forall|mm: int| 0 <= mm < m + 1 implies (#[trigger] s1.xis[n0 + mm]) == (if kind
        == NodeKind::Exponential {
        seq![ZERO_BITS, ZERO_BITS]
    } else {
        Seq::<u64>::empty()
    }) by {
        if mm < m {
            assert(attach_node_clause(sm, s1, cf, vc, qc, n0 + mm));
        }
    }
    assert forall|i: int| 0 <= i < n0 implies (#[trigger] s1.floats[i]) == s0.floats[i] by {
        assert(attach_node_clause(sm, s1, cf, vc, qc, i));
        assert(sm.floats[i] == s0.floats[i]);
    }
    assert forall|i: int| 0 <= i < n0 implies #[trigger] grown_node_clause(
        s0,
        s1,
        cf,
        vc,
        qc,
        ids_m1,
        i,
    ) by {
        assert(attach_node_clause(sm, s1, cf, vc, qc, i));
        assert(grown_node_clause(s0, sm, cf, vc, qc, ids_m, i));
        if vc.contains(i as usize) {
            if m > 0 {
                assert(sm.edges[i].value_parents == Some(s0.edges[i].vp() + ids_m));
                assert(sm.edges[i].vp() == s0.edges[i].vp() + ids_m);
            } else {
                assert(ids_m =~= Seq::<usize>::empty());
                assert(s0.edges[i].vp() + ids_m =~= s0.edges[i].vp());
                assert(sm.edges[i].vp() == s0.edges[i].vp() + ids_m);
            }
            assert(s1.edges[i].value_parents == Some(sm.edges[i].vp().push(nid)));
            assert((s0.edges[i].vp() + ids_m).push(nid) =~= s0.edges[i].vp() + ids_m1);
            assert(sm.value_coupling_parents[i].push(ONE_BITS) =~= s0.value_coupling_parents[i]
                + Seq::new(ids_m1.len(), |t: int| ONE_BITS)) by {
                if m > 0 {
                } else {
                    assert(sm.value_coupling_parents[i] == s0.value_coupling_parents[i]);
                }
            }
            assert(sm.value_coupling_fn_parents[i].push(cf) =~= s0.value_coupling_fn_parents[i]
                + Seq::new(ids_m1.len(), |t: int| cf)) by {
                if m > 0 {
                } else {
                    assert(sm.value_coupling_fn_parents[i] == s0.value_coupling_fn_parents[i]);
                }
            }
        }
        if qc.contains(i as usize) {
            if m > 0 {
                assert(sm.edges[i].volatility_parents == Some(s0.edges[i].qp() + ids_m));
                assert(sm.edges[i].qp() == s0.edges[i].qp() + ids_m);
            } else {
                assert(ids_m =~= Seq::<usize>::empty());
                assert(s0.edges[i].qp() + ids_m =~= s0.edges[i].qp());
                assert(sm.edges[i].qp() == s0.edges[i].qp() + ids_m);
            }
            assert(s1.edges[i].volatility_parents == Some(sm.edges[i].qp().push(nid)));
            assert((s0.edges[i].qp() + ids_m).push(nid) =~= s0.edges[i].qp() + ids_m1);
            assert(sm.volatility_coupling_parents[i].push(ONE_BITS)
                =~= s0.volatility_coupling_parents[i] + Seq::new(
                ids_m1.len(),
                |t: int| ONE_BITS,
            )) by {
                if m > 0 {
                } else {
                    assert(sm.volatility_coupling_parents[i] == s0.volatility_coupling_parents[
                        i]);
                }
            }
        }
    }
}

/// The state after the first `k` observations of a stream were processed:
/// each time step runs one belief-propagation slice with a single
/// observation and its time delta.
pub open spec fn run_state(
    s: StateV,
    inputs: Seq<usize>,
    observations: Seq<u64>,
    predictions: Seq<(usize, FnType)>,
    updates: Seq<(usize, FnType)>,
    dts: Seq<u64>,
    k: int,
) -> StateV
    decreases k,
{
    if k <= 0 {
        s
    } else {
        crate::utils::beliefs_propagation::bp_state(
            run_state(s, inputs, observations, predictions, updates, dts, k - 1),
            inputs,
            seq![observations[k - 1]],
            predictions,
            updates,
            dts[k - 1],
        )
    }
}

/// A whole run changes attribute values, never the coupling structure.
pub proof fn lemma_run_state_frame(
    s: StateV,
    inputs: Seq<usize>,
    observations: Seq<u64>,
    predictions: Seq<(usize, FnType)>,
    updates: Seq<(usize, FnType)>,
    dts: Seq<u64>,
    k: int,
)
    ensures
        run_state(s, inputs, observations, predictions, updates, dts, k).edges == s.edges,
        run_state(s, inputs, observations, predictions, updates, dts, k).len() == s.len(),
    decreases k,
{
    if k > 0 {
        lemma_run_state_frame(s, inputs, observations, predictions, updates, dts, k - 1);
        let sp = run_state(s, inputs, observations, predictions, updates, dts, k - 1);
        crate::utils::beliefs_propagation::lemma_bp_state_frame(
            sp,
            inputs,
            seq![observations[k - 1]],
            predictions,
            updates,
            dts[k - 1],
        );
    }
}

/// The prediction sequence a run will use: the stored one, or a freshly
/// planned one when no schedule was set.
pub open spec fn effective_predictions(n: &Network) -> Seq<(usize, FnType)> {
    if n.update_sequence.predictions@.len() == 0 && n.update_sequence.updates@.len() == 0 {
        crate::utils::set_sequence::predictions_of(n.state())
    } else {
        n.update_sequence.predictions@
    }
}

/// The update sequence a run will use.
pub open spec fn effective_updates(n: &Network) -> Seq<(usize, FnType)> {
    if n.update_sequence.predictions@.len() == 0 && n.update_sequence.updates@.len() == 0 {
        crate::utils::set_sequence::updates_of(n.state(), n.update_type, n.inputs@)
    } else {
        n.update_sequence.updates@
    }
}

/// The time deltas a run will use: the given ones, or one unit per step.
pub open spec fn effective_dts(time_steps: Option<Vec<u64>>, n_time: int) -> Seq<u64> {
    match time_steps {
        Some(v) => v@,
        None => Seq::new(n_time as nat, |t: int| ONE_BITS),
    }
}

impl Network {
    /// Recompute the schedule from the current edges and kinds.
    pub fn set_update_sequence(&mut self)
        requires
            old(self).inv(),
        ensures
            final(self).inv(),
            final(self).state() == old(self).state(),
            final(self).inputs@ == old(self).inputs@,
            final(self).update_type == old(self).update_type,
            final(self).update_sequence.predictions@ == crate::utils::set_sequence::predictions_of(
                old(self).state(),
            ),
            final(self).update_sequence.updates@ == crate::utils::set_sequence::updates_of(
                old(self).state(),
                old(self).update_type,
                old(self).inputs@,
            ),
            final(self).node_trajectories.floats@ == old(self).node_trajectories.floats@,
            final(self).node_trajectories.vectors@ == old(self).node_trajectories.vectors@,
    {
        let predictions = crate::utils::set_sequence::get_predictions_sequence(self);
        let updates = crate::utils::set_sequence::get_updates_sequence(self);
        self.update_sequence = UpdateSequence { predictions, updates };
    }

    /// Feed a stream of observations: for each time step, run the
    /// prediction pass, write the observation into the first input node,
    /// run the update pass, and record every node's scalar and vector
    /// attributes.  The schedule is planned first if none was set; the time
    /// deltas default to one unit per step.
    pub fn input_data(&mut self, input_data: Vec<u64>, time_steps: Option<Vec<u64>>)
        requires
            old(self).inv(),
            input_data@.len() > 0 ==> old(self).inputs@.len() >= 1,
            match time_steps {
                Some(v) => v@.len() == input_data@.len(),
                None => true,
            },
        ensures
            final(self).inv(),
            final(self).state() == run_state(
                old(self).state(),
                old(self).inputs@,
                input_data@,
                effective_predictions(old(self)),
                effective_updates(old(self)),
                effective_dts(time_steps, input_data@.len() as int),
                input_data@.len() as int,
            ),
            final(self).inputs@ == old(self).inputs@,
            final(self).update_type == old(self).update_type,
            final(self).update_sequence.predictions@ == effective_predictions(old(self)),
            final(self).update_sequence.updates@ == effective_updates(old(self)),
            final(self).node_trajectories.floats@.len() == old(self).state().len(),
            final(self).node_trajectories.vectors@.len() == old(self).state().len(),
            forall|i: int|
                0 <= i < old(self).state().len() ==> (#[trigger] final(self).node_trajectories.floats@[i])@.len()
                    == input_data@.len(),
            forall|i: int|
                0 <= i < old(self).state().len() ==> (#[trigger] final(self).node_trajectories.vectors@[i])@.len()
                    == input_data@.len(),
            forall|i: int, t: int|
                0 <= i < old(self).state().len() && 0 <= t < input_data@.len()
                    ==> (#[trigger] final(self).node_trajectories.floats@[i]@[t]) == run_state(
                    old(self).state(),
                    old(self).inputs@,
                    input_data@,
                    effective_predictions(old(self)),
                    effective_updates(old(self)),
                    effective_dts(time_steps, input_data@.len() as int),
                    t + 1,
                ).floats[i],
            forall|i: int, t: int|
                0 <= i < old(self).state().len() && 0 <= t < input_data@.len()
                    ==> (#[trigger] final(self).node_trajectories.vectors@[i]@[t])@ == snapshot_of(
                    run_state(
                        old(self).state(),
                        old(self).inputs@,
                        input_data@,
                        effective_predictions(old(self)),
                        effective_updates(old(self)),
                        effective_dts(time_steps, input_data@.len() as int),
                        t + 1,
                    ),
                    i,
                ),
    {
        let ghost s0 = self.state();
        if self.update_sequence.predictions.is_empty() && self.update_sequence.updates.is_empty() {
            self.set_update_sequence();
        }
        let ghost preds_v = self.update_sequence.predictions@;
        let ghost upds_v = self.update_sequence.updates@;
        proof {
            assert(preds_v == effective_predictions(old(self)));
            assert(upds_v == effective_updates(old(self)));
        }

        let n_time = input_data.len();
        let dts: Vec<u64> = match time_steps {
            Some(v) => v,
            None => vec![ONE_BITS; n_time],
        };
        proof {
            assert(dts@ =~= effective_dts(time_steps, n_time as int));
        }
        let predictions = copy_vec(&self.update_sequence.predictions);
        let updates = copy_vec(&self.update_sequence.updates);
        let n = self.edges.len();

        let mut traj_floats: Vec<Vec<NodeFloats>> = Vec::new();
        let mut traj_vectors: Vec<Vec<VectorSnapshot>> = Vec::new();
        #[verifier::loop_isolation(false)]
        for i in 0..n
            invariant
                traj_floats@.len() == i,
                traj_vectors@.len() == i,
                forall|u: int| 0 <= u < i ==> (#[trigger] traj_floats@[u])@.len() == 0,
                forall|u: int| 0 <= u < i ==> (#[trigger] traj_vectors@[u])@.len() == 0,
            decreases n - i,
        {
            traj_floats.push(Vec::new());
            traj_vectors.push(Vec::new());
        }

        let ghost inputs_v = self.inputs@;
        let ghost obs_v = input_data@;
        #[verifier::loop_isolation(false)]
        for t in 0..n_time
            invariant
                self.inv(),
                self.state() == run_state(s0, inputs_v, obs_v, preds_v, upds_v, dts@, t as int),
                self.state().edges == s0.edges,
                self.state().len() == s0.len(),
                self.inputs@ == inputs_v,
                self.update_type == old(self).update_type,
                self.update_sequence.predictions@ == preds_v,
                self.update_sequence.updates@ == upds_v,
                seq_steps_ok(self.state(), preds_v),
                seq_steps_ok(self.state(), upds_v),
                traj_floats@.len() == s0.len(),
                traj_vectors@.len() == s0.len(),
                forall|u: int|
                    0 <= u < s0.len() ==> (#[trigger] traj_floats@[u])@.len() == t,
                forall|u: int|
                    0 <= u < s0.len() ==> (#[trigger] traj_vectors@[u])@.len() == t,
                forall|u: int, w: int|
                    0 <= u < s0.len() && 0 <= w < t ==> (#[trigger] traj_floats@[u]@[w])
                        == run_state(s0, inputs_v, obs_v, preds_v, upds_v, dts@, w + 1).floats[u],
                forall|u: int, w: int|
                    0 <= u < s0.len() && 0 <= w < t ==> (#[trigger] traj_vectors@[u]@[w])@
                        == snapshot_of(
                        run_state(s0, inputs_v, obs_v, preds_v, upds_v, dts@, w + 1),
                        u,
                    ),
            decreases n_time - t,
        {
            let ghost s_prev = self.state();
            let mut obs_vec: Vec<u64> = Vec::new();
            obs_vec.push(input_data[t]);
            proof {
                assert(obs_vec@ =~= seq![obs_v[t as int]]);
            }
            crate::utils::beliefs_propagation::belief_propagation(
                self,
                &obs_vec,
                &predictions,
                &updates,
                dts[t],
            );
            proof {
                lemma_steps_ok_same_edges(s_prev, self.state(), preds_v);
                lemma_steps_ok_same_edges(s_prev, self.state(), upds_v);
            }
            #[verifier::loop_isolation(false)]
            for i in 0..n
                invariant
                    traj_floats@.len() == s0.len(),
                    traj_vectors@.len() == s0.len(),
                    forall|u: int|
                        0 <= u < i ==> (#[trigger] traj_floats@[u])@.len() == t + 1,
                    forall|u: int|
                        i <= u < s0.len() ==> (#[trigger] traj_floats@[u])@.len() == t,
                    forall|u: int|
                        0 <= u < i ==> (#[trigger] traj_vectors@[u])@.len() == t + 1,
                    forall|u: int|
                        i <= u < s0.len() ==> (#[trigger] traj_vectors@[u])@.len() == t,
                    forall|u: int, w: int|
                        0 <= u < s0.len() && 0 <= w < t ==> (#[trigger] traj_floats@[u]@[w])
                            == run_state(
                            s0,
                            inputs_v,
                            obs_v,
                            preds_v,
                            upds_v,
                            dts@,
                            w + 1,
                        ).floats[u],
                    forall|u: int, w: int|
                        0 <= u < s0.len() && 0 <= w < t ==> (#[trigger] traj_vectors@[u]@[w])@
                            == snapshot_of(
                            run_state(s0, inputs_v, obs_v, preds_v, upds_v, dts@, w + 1),
                            u,
                        ),
                    forall|u: int|
                        0 <= u < i ==> (#[trigger] traj_floats@[u]@[t as int]) == self.state(
                        ).floats[u],
                    forall|u: int|
                        0 <= u < i ==> (#[trigger] traj_vectors@[u]@[t as int])@ == snapshot_of(
                            self.state(),
                            u,
                        ),
                decreases n - i,
            {
                traj_floats[i].push(self.attributes.floats[i]);
                let snap = VectorSnapshot {
                    value_coupling_parents: copy_vec(
                        &self.attributes.value_coupling_parents[i],
                    ),
                    value_coupling_children: copy_vec(
                        &self.attributes.value_coupling_children[i],
                    ),
                    volatility_coupling_parents: copy_vec(
                        &self.attributes.volatility_coupling_parents[i],
                    ),
                    volatility_coupling_children: copy_vec(
                        &self.attributes.volatility_coupling_children[i],
                    ),
                    xis: copy_vec(&self.attributes.xis[i]),
                };
                proof {
                    let target = snapshot_of(self.state(), i as int);
                    assert(snap@.value_coupling_parents =~= target.value_coupling_parents);
                    assert(snap@.value_coupling_children =~= target.value_coupling_children);
                    assert(snap@.volatility_coupling_parents =~= target.volatility_coupling_parents);
                    assert(snap@.volatility_coupling_children
                        =~= target.volatility_coupling_children);
                    assert(snap@.xis =~= target.xis);
                    assert(snap@ == target);
                }
                traj_vectors[i].push(snap);
            }
        }
        self.node_trajectories = NodeTrajectories { floats: traj_floats, vectors: traj_vectors };
    }
}

/// The state after the learning rate `v` was written on the first `k`
/// nodes that are not predictor inputs.
pub open spec fn set_lr_state(s: StateV, excluded: Seq<usize>, v: u64, k: int) -> StateV
    decreases k,
{
    if k <= 0 {
        s
    } else {
        let sp = set_lr_state(s, excluded, v, k - 1);
        if excluded.contains((k - 1) as usize) {
            sp
        } else {
            crate::utils::beliefs_propagation::with_floats(
                sp,
                k - 1,
                NodeFloats { lr: v, ..sp.floats[k - 1] },
            )
        }
    }
}

/// The state after the first `k` predictor nodes had their expected means
/// pinned to one feature row.
pub open spec fn inject_predictors(s: StateV, ids: Seq<usize>, row: Seq<u64>, k: int) -> StateV
    decreases k,
{
    if k <= 0 {
        s
    } else {
        let sp = inject_predictors(s, ids, row, k - 1);
        crate::utils::beliefs_propagation::with_floats(
            sp,
            ids[k - 1] as int,
            crate::updates::observations::predictor_floats(sp, ids[k - 1] as int, row[k - 1]),
        )
    }
}

/// The state after the first `k` target nodes had one observation row
/// written.
pub open spec fn inject_targets(s: StateV, ids: Seq<usize>, row: Seq<u64>, k: int) -> StateV
    decreases k,
{
    if k <= 0 {
        s
    } else {
        let sp = inject_targets(s, ids, row, k - 1);
        crate::utils::beliefs_propagation::with_floats(
            sp,
            ids[k - 1] as int,
            crate::updates::observations::set_observation_floats(
                sp,
                ids[k - 1] as int,
                row[k - 1],
            ),
        )
    }
}

/// The state after the first `k` supervised steps of a fit run: write the
/// predictor and target rows, then run one learning-interleaved slice with
/// unit time delta and no input-stream injection.
pub open spec fn fit_run(
    s: StateV,
    inputs: Seq<usize>,
    xids: Seq<usize>,
    yids: Seq<usize>,
    x: Seq<Seq<u64>>,
    y: Seq<Seq<u64>>,
    predictions: Seq<(usize, FnType)>,
    updates: Seq<(usize, FnType)>,
    k: int,
) -> StateV
    decreases k,
{
    if k <= 0 {
        s
    } else {
        let sp = fit_run(s, inputs, xids, yids, x, y, predictions, updates, k - 1);
        let si = inject_targets(
            inject_predictors(sp, xids, x[k - 1], xids.len() as int),
            yids,
            y[k - 1],
            yids.len() as int,
        );
        crate::utils::beliefs_propagation::bp_state(
            si,
            inputs,
            Seq::<u64>::empty(),
            predictions,
            updates,
            ONE_BITS,
        )
    }
}

/// The schedules a fit run uses: the standard schedule filtered by the
/// predictor ids, and the filtered updates with learning steps interleaved.
pub open spec fn fit_predictions(n: &Network, xids: Seq<usize>) -> Seq<(usize, FnType)> {
    crate::utils::set_learning_sequence::filtered_steps(
        crate::utils::set_sequence::predictions_of(n.state()),
        xids,
        crate::utils::set_sequence::predictions_of(n.state()).len() as int,
    )
}

/// The interleaved update schedule of a fit run.
pub open spec fn fit_updates(n: &Network, xids: Seq<usize>, learning_fn: FnType) -> Seq<
    (usize, FnType),
> {
    crate::utils::set_learning_sequence::interleaved_of(
        crate::utils::set_learning_sequence::filtered_steps(
            crate::utils::set_sequence::updates_of(n.state(), n.update_type, n.inputs@),
            xids,
            crate::utils::set_sequence::updates_of(n.state(), n.update_type, n.inputs@).len() as int,
        ),
        learning_fn,
    )
}

/// The learning rule a fit run uses: the fixed-rate rule when a rate is
/// given, the dynamic precision-weighted rule otherwise.
pub open spec fn fit_learning_fn(lr: Option<u64>) -> FnType {
    match lr {
        Some(v) => FnType::LearningFixed,
        None => FnType::LearningDynamic,
    }
}

/// The state a fit run starts from: the learning rate written on every
/// non-predictor node when a rate is given.
pub open spec fn fit_start(s: StateV, xids: Seq<usize>, lr: Option<u64>) -> StateV {
    match lr {
        Some(v) => set_lr_state(s, xids, v, s.len()),
        None => s,
    }
}

impl Network {
    /// Supervised multi-step prediction: for each time step, pin the
    /// predictor nodes' expected means to `x[t]` and the target nodes'
    /// means to `y[t]`, run one pass over the learning-interleaved
    /// schedule, and record every node's trajectory.  `lr = None` selects
    /// the dynamic precision-weighted learning rule; a given rate is
    /// written as the `lr` attribute of every non-predictor node first.
    #[verifier::rlimit(100)]
    pub fn fit(
        &mut self,
        x: &Vec<Vec<u64>>,
        y: &Vec<Vec<u64>>,
        inputs_x_idxs: &Vec<usize>,
        inputs_y_idxs: &Vec<usize>,
        lr: Option<u64>,
    )
        requires
            old(self).inv(),
            x@.len() == y@.len(),
            forall|t: int|
                0 <= t < x@.len() ==> (#[trigger] x@[t])@.len() >= inputs_x_idxs@.len(),
            forall|t: int|
                0 <= t < y@.len() ==> (#[trigger] y@[t])@.len() >= inputs_y_idxs@.len(),
            forall|t: int|
                0 <= t < inputs_x_idxs@.len() ==> (#[trigger] inputs_x_idxs@[t] as int) < old(
                    self,
                ).state().len(),
            forall|t: int|
                0 <= t < inputs_y_idxs@.len() ==> (#[trigger] inputs_y_idxs@[t] as int) < old(
                    self,
                ).state().len(),
        ensures
            final(self).inv(),
            final(self).state() == fit_run(
                fit_start(old(self).state(), inputs_x_idxs@, lr),
                old(self).inputs@,
                inputs_x_idxs@,
                inputs_y_idxs@,
                x.deep_view(),
                y.deep_view(),
                fit_predictions(old(self), inputs_x_idxs@),
                fit_updates(old(self), inputs_x_idxs@, fit_learning_fn(lr)),
                x@.len() as int,
            ),
            final(self).inputs@ == old(self).inputs@,
            final(self).update_type == old(self).update_type,
            final(self).update_sequence.predictions@ == old(self).update_sequence.predictions@,
            final(self).update_sequence.updates@ == old(self).update_sequence.updates@,
            final(self).node_trajectories.floats@.len() == old(self).state().len(),
            final(self).node_trajectories.vectors@.len() == old(self).state().len(),
            forall|i: int|
                0 <= i < old(self).state().len() ==> (#[trigger] final(self).node_trajectories.floats@[i])@.len() == x@.len(),
            forall|i: int|
                0 <= i < old(self).state().len() ==> (#[trigger] final(self).node_trajectories.vectors@[i])@.len() == x@.len(),
            forall|i: int, t: int|
                0 <= i < old(self).state().len() && 0 <= t < x@.len() ==> (#[trigger] final(self).node_trajectories.floats@[i]@[t]) == fit_run(
                    fit_start(old(self).state(), inputs_x_idxs@, lr),
                    old(self).inputs@,
                    inputs_x_idxs@,
                    inputs_y_idxs@,
                    x.deep_view(),
                    y.deep_view(),
                    fit_predictions(old(self), inputs_x_idxs@),
                    fit_updates(old(self), inputs_x_idxs@, fit_learning_fn(lr)),
                    t + 1,
                ).floats[i],
            forall|i: int, t: int|
                0 <= i < old(self).state().len() && 0 <= t < x@.len() ==> (#[trigger] final(self).node_trajectories.vectors@[i]@[t])@ == snapshot_of(
                    fit_run(
                        fit_start(old(self).state(), inputs_x_idxs@, lr),
                        old(self).inputs@,
                        inputs_x_idxs@,
                        inputs_y_idxs@,
                        x.deep_view(),
                        y.deep_view(),
                        fit_predictions(old(self), inputs_x_idxs@),
                        fit_updates(old(self), inputs_x_idxs@, fit_learning_fn(lr)),
                        t + 1,
                    ),
                    i,
                ),
    {
        let ghost s0 = self.state();
        let n = self.edges.len();
        let learning_fn = match lr {
            Some(_) => FnType::LearningFixed,
            None => FnType::LearningDynamic,
        };

        // Write the learning rate on every non-predictor node.
        if let Some(v) = lr {
            #[verifier::loop_isolation(false)]
            for i in 0..n
                invariant
                    self.inv(),
                    self.state() == set_lr_state(s0, inputs_x_idxs@, v, i as int),
                    self.state().edges == s0.edges,
                    self.state().len() == s0.len(),
                    self.inputs@ == old(self).inputs@,
                    self.update_type == old(self).update_type,
                    self.update_sequence.predictions@ == old(self).update_sequence.predictions@,
                    self.update_sequence.updates@ == old(self).update_sequence.updates@,
                    self.node_trajectories.floats@ == old(self).node_trajectories.floats@,
                    self.node_trajectories.vectors@ == old(self).node_trajectories.vectors@,
                decreases n - i,
            {
                if !contains_id(inputs_x_idxs, i) {
                    let ghost sp = self.state();
                    let mut nf = self.attributes.floats[i];
                    nf.lr = v;
                    self.attributes.floats[i] = nf;
                    proof {
                        assert(self.state().floats =~= sp.floats.update(
                            i as int,
                            NodeFloats { lr: v, ..sp.floats[i as int] },
                        ));
                        lemma_floats_update_preserves(
                            sp,
                            self.state(),
                            i as int,
                            NodeFloats { lr: v, ..sp.floats[i as int] },
                        );
                        assert forall|u: int|
                            0 <= u < self.inputs@.len() implies (self.inputs@[u] as int)
                            < self.state().len() by {
                            assert((old(self).inputs@[u] as int) < s0.len());
                        }
                    }
                }
            }
        }
        let ghost s_start = self.state();
        proof {
            assert(s_start == fit_start(s0, inputs_x_idxs@, lr));
            assert(s_start.edges == s0.edges);
        }

        // Build the learning-interleaved schedule from the standard one.
        let base_predictions = crate::utils::set_sequence::get_predictions_sequence(self);
        let base_updates = crate::utils::set_sequence::get_updates_sequence(self);
        let (predictions, updates) = crate::utils::set_learning_sequence::build_learning_sequence(
            &base_predictions,
            &base_updates,
            inputs_x_idxs,
            learning_fn,
        );
        proof {
            crate::utils::set_learning_sequence::lemma_filtered_ok(
                self.state(),
                base_predictions@,
                inputs_x_idxs@,
                base_predictions@.len() as int,
            );
            crate::utils::set_learning_sequence::lemma_filtered_ok(
                self.state(),
                base_updates@,
                inputs_x_idxs@,
                base_updates@.len() as int,
            );
            crate::utils::set_learning_sequence::lemma_interleaved_ok(
                self.state(),
                crate::utils::set_learning_sequence::filtered_steps(
                    base_updates@,
                    inputs_x_idxs@,
                    base_updates@.len() as int,
                ),
                learning_fn,
            );
            lemma_steps_ok_same_edges(self.state(), s0, predictions@);
            lemma_steps_ok_same_edges(self.state(), s0, updates@);
            assert(predictions@ == fit_predictions(old(self), inputs_x_idxs@));
            assert(updates@ == fit_updates(old(self), inputs_x_idxs@, fit_learning_fn(lr)));
        }
        let ghost preds_v = predictions@;
        let ghost upds_v = updates@;

        let n_time = x.len();
        let mut traj_floats: Vec<Vec<NodeFloats>> = Vec::new();
        let mut traj_vectors: Vec<Vec<VectorSnapshot>> = Vec::new();
        #[verifier::loop_isolation(false)]
        for i in 0..n
            invariant
                traj_floats@.len() == i,
                traj_vectors@.len() == i,
                forall|u: int| 0 <= u < i ==> (#[trigger] traj_floats@[u])@.len() == 0,
                forall|u: int| 0 <= u < i ==> (#[trigger] traj_vectors@[u])@.len() == 0,
            decreases n - i,
        {
            traj_floats.push(Vec::new());
            traj_vectors.push(Vec::new());
        }

        let ghost inputs_v = self.inputs@;
        let ghost xv = x.deep_view();
        let ghost yv = y.deep_view();
        let n_x = inputs_x_idxs.len();
        let n_y = inputs_y_idxs.len();
        let empty_obs: Vec<u64> = Vec::new();
        #[verifier::loop_isolation(false)]
        for t in 0..n_time
            invariant
                self.inv(),
                self.state() == fit_run(
                    s_start,
                    inputs_v,
                    inputs_x_idxs@,
                    inputs_y_idxs@,
                    xv,
                    yv,
                    preds_v,
                    upds_v,
                    t as int,
                ),
                self.state().edges == s0.edges,
                self.state().len() == s0.len(),
                self.inputs@ == inputs_v,
                self.update_type == old(self).update_type,
                self.update_sequence.predictions@ == old(self).update_sequence.predictions@,
                self.update_sequence.updates@ == old(self).update_sequence.updates@,
                seq_steps_ok(self.state(), preds_v),
                seq_steps_ok(self.state(), upds_v),
                traj_floats@.len() == s0.len(),
                traj_vectors@.len() == s0.len(),
                forall|u: int| 0 <= u < s0.len() ==> (#[trigger] traj_floats@[u])@.len() == t,
                forall|u: int| 0 <= u < s0.len() ==> (#[trigger] traj_vectors@[u])@.len() == t,
                forall|u: int, w: int|
                    0 <= u < s0.len() && 0 <= w < t ==> (#[trigger] traj_floats@[u]@[w])
                        == fit_run(
                        s_start,
                        inputs_v,
                        inputs_x_idxs@,
                        inputs_y_idxs@,
                        xv,
                        yv,
                        preds_v,
                        upds_v,
                        w + 1,
                    ).floats[u],
                forall|u: int, w: int|
                    0 <= u < s0.len() && 0 <= w < t ==> (#[trigger] traj_vectors@[u]@[w])@
                        == snapshot_of(
                        fit_run(
                            s_start,
                            inputs_v,
                            inputs_x_idxs@,
                            inputs_y_idxs@,
                            xv,
                            yv,
                            preds_v,
                            upds_v,
                            w + 1,
                        ),
                        u,
                    ),
            decreases n_time - t,
        {
            let ghost s_t = self.state();
            let x_row = &x[t];
            #[verifier::loop_isolation(false)]
            for a in 0..n_x
                invariant
                    self.inv(),
                    self.state() == inject_predictors(s_t, inputs_x_idxs@, xv[t as int], a as int),
                    self.state().edges == s0.edges,
                    self.state().len() == s0.len(),
                    self.inputs@ == inputs_v,
                    self.update_type == old(self).update_type,
                    self.update_sequence.predictions@ == old(self).update_sequence.predictions@,
                    self.update_sequence.updates@ == old(self).update_sequence.updates@,
                decreases n_x - a,
            {
                crate::updates::observations::set_predictors(self, inputs_x_idxs[a], x_row[a]);
            }
            let ghost s_tx = self.state();
            let y_row = &y[t];
            #[verifier::loop_isolation(false)]
            for b in 0..n_y
                invariant
                    self.inv(),
                    self.state() == inject_targets(s_tx, inputs_y_idxs@, yv[t as int], b as int),
                    self.state().edges == s0.edges,
                    self.state().len() == s0.len(),
                    self.inputs@ == inputs_v,
                    self.update_type == old(self).update_type,
                    self.update_sequence.predictions@ == old(self).update_sequence.predictions@,
                    self.update_sequence.updates@ == old(self).update_sequence.updates@,
                decreases n_y - b,
            {
                crate::updates::observations::set_observation(self, inputs_y_idxs[b], y_row[b]);
            }
            proof {
                lemma_steps_ok_same_edges(s_t, self.state(), preds_v);
                lemma_steps_ok_same_edges(s_t, self.state(), upds_v);
            }
            let ghost s_prev = self.state();
            crate::utils::beliefs_propagation::belief_propagation(
                self,
                &empty_obs,
                &predictions,
                &updates,
                ONE_BITS,
            );
            proof {
                assert(empty_obs@ =~= Seq::<u64>::empty());
                lemma_steps_ok_same_edges(s_prev, self.state(), preds_v);
                lemma_steps_ok_same_edges(s_prev, self.state(), upds_v);
            }
            #[verifier::loop_isolation(false)]
            for i in 0..n
                invariant
                    traj_floats@.len() == s0.len(),
                    traj_vectors@.len() == s0.len(),
                    forall|u: int| 0 <= u < i ==> (#[trigger] traj_floats@[u])@.len() == t + 1,
                    forall|u: int| i <= u < s0.len() ==> (#[trigger] traj_floats@[u])@.len() == t,
                    forall|u: int| 0 <= u < i ==> (#[trigger] traj_vectors@[u])@.len() == t + 1,
                    forall|u: int| i <= u < s0.len() ==> (#[trigger] traj_vectors@[u])@.len() == t,
                    forall|u: int, w: int|
                        0 <= u < s0.len() && 0 <= w < t ==> (#[trigger] traj_floats@[u]@[w])
                            == fit_run(
                            s_start,
                            inputs_v,
                            inputs_x_idxs@,
                            inputs_y_idxs@,
                            xv,
                            yv,
                            preds_v,
                            upds_v,
                            w + 1,
                        ).floats[u],
                    forall|u: int, w: int|
                        0 <= u < s0.len() && 0 <= w < t ==> (#[trigger] traj_vectors@[u]@[w])@
                            == snapshot_of(
                            fit_run(
                                s_start,
                                inputs_v,
                                inputs_x_idxs@,
                                inputs_y_idxs@,
                                xv,
                                yv,
                                preds_v,
                                upds_v,
                                w + 1,
                            ),
                            u,
                        ),
                    forall|u: int|
                        0 <= u < i ==> (#[trigger] traj_floats@[u]@[t as int]) == self.state(
                        ).floats[u],
                    forall|u: int|
                        0 <= u < i ==> (#[trigger] traj_vectors@[u]@[t as int])@ == snapshot_of(
                            self.state(),
                            u,
                        ),
                decreases n - i,
            {
                traj_floats[i].push(self.attributes.floats[i]);
                let snap = VectorSnapshot {
                    value_coupling_parents: copy_vec(&self.attributes.value_coupling_parents[i]),
                    value_coupling_children: copy_vec(&self.attributes.value_coupling_children[i]),
                    volatility_coupling_parents: copy_vec(
                        &self.attributes.volatility_coupling_parents[i],
                    ),
                    volatility_coupling_children: copy_vec(
                        &self.attributes.volatility_coupling_children[i],
                    ),
                    xis: copy_vec(&self.attributes.xis[i]),
                };
                proof {
                    let target = snapshot_of(self.state(), i as int);
                    assert(snap@.value_coupling_parents =~= target.value_coupling_parents);
                    assert(snap@.value_coupling_children =~= target.value_coupling_children);
                    assert(snap@.volatility_coupling_parents
                        =~= target.volatility_coupling_parents);
                    assert(snap@.volatility_coupling_children
                        =~= target.volatility_coupling_children);
                    assert(snap@.xis =~= target.xis);
                    assert(snap@ == target);
                }
                traj_vectors[i].push(snap);
            }
        }
        self.node_trajectories = NodeTrajectories { floats: traj_floats, vectors: traj_vectors };
    }

    /// Add a fan-out layer: `n` nodes of one kind, each with the same value
    /// children, and one coupling strength written on every new edge.
    pub fn add_layer(
        &mut self,
        n: usize,
        kind: &str,
        children: Option<Vec<usize>>,
        coupling: u64,
    )
        requires
            old(self).inv(),
            kind_of_name(kind@) is Some,
            kind_of_name(kind@) == Some(NodeKind::Exponential) ==> children is None,
            child_list_ok(old(self).state(), opt_view(children)),
            old(self).state().len() + n <= usize::MAX,
        ensures
            final(self).inv(),
            final(self).state().len() == old(self).state().len() + n,
            exists|mid: StateV|
                #[trigger] added_nodes_post(
                    old(self).state(),
                    mid,
                    kind_of_name(kind@)->0,
                    opt_view(children),
                    None,
                    None,
                    n as int,
                ) && final(self).state() == set_coupling_vec_state(
                    mid,
                    Seq::new(n as nat, |m: int| (old(self).state().len() + m) as usize),
                    opt_ids(opt_view(children)),
                    coupling,
                    n as int,
                ),
            children is None ==> final(self).inputs@ == old(self).inputs@ + Seq::new(
                n as nat,
                |m: int| (old(self).state().len() + m) as usize,
            ),
            children is Some ==> final(self).inputs@ == old(self).inputs@,
            final(self).update_type == old(self).update_type,
            final(self).update_sequence.predictions@ == old(self).update_sequence.predictions@,
            final(self).update_sequence.updates@ == old(self).update_sequence.updates@,
            final(self).node_trajectories.floats@ == old(self).node_trajectories.floats@,
            final(self).node_trajectories.vectors@ == old(self).node_trajectories.vectors@,
    {
        let n0 = self.edges.len();
        let (has_children, child_ids): (bool, Vec<usize>) = match children {
            Some(v) => (true, v),
            None => (false, Vec::new()),
        };
        let arg: Option<IntOrList> = if has_children {
            Some(IntOrList::List(copy_vec(&child_ids)))
        } else {
            None
        };
        self.add_nodes(kind, n, None, arg, None, None, None);
        let mut parent_ids: Vec<usize> = Vec::new();
        #[verifier::loop_isolation(false)]
        for m in 0..n
            invariant
                parent_ids@ == Seq::new(m as nat, |t: int| (n0 + t) as usize),
                forall|t: int|
                    0 <= t < m ==> (#[trigger] parent_ids@[t] as int) < self.state().len(),
            decreases n - m,
        {
            parent_ids.push(n0 + m);
            proof {
                assert(parent_ids@ =~= Seq::new((m + 1) as nat, |t: int| (n0 + t) as usize));
            }
        }
        proof {
            assert forall|t: int|
                0 <= t < child_ids@.len() implies (#[trigger] child_ids@[t] as int)
                < self.state().len() by {
                if has_children {
                    assert(opt_view(children) == Some(child_ids@));
                }
            }
        }
        let ghost s_mid = self.state();
        crate::utils::set_coupling::set_coupling_vec(self, &parent_ids, &child_ids, coupling);
        proof {
            crate::utils::set_coupling::lemma_coupling_vec_frame(
                s_mid,
                parent_ids@,
                child_ids@,
                coupling,
                parent_ids@.len() as int,
            );
            assert(parent_ids@ =~= Seq::new(n as nat, |m: int| (n0 + m) as usize));
            assert(child_ids@ =~= opt_ids(opt_view(children)));
            assert(added_nodes_post(
                old(self).state(),
                s_mid,
                kind_of_name(kind@)->0,
                opt_view(children),
                None,
                None,
                n as int,
            ) && self.state() == set_coupling_vec_state(
                s_mid,
                Seq::new(n as nat, |m: int| (old(self).state().len() + m) as usize),
                opt_ids(opt_view(children)),
                coupling,
                n as int,
            ));
        }
    }
}

} // verus!
