//! D2 data store: interprocedural summaries, with the call graph held in a
//! `petgraph` graph.
use vstd::prelude::*;

use crate::name_map::NameMap;
use petgraph::graph::{Graph, NodeIndex};
use petgraph::Directed;

verus! {

broadcast use vstd::string::group_string_axioms;

/// A call edge of the call graph.
#[derive(Debug)]
pub struct CallSite {
    pub caller: String,
    pub callee: String,
    pub line: usize,
}

/// A verdict on whether two arguments of one call may alias.
#[derive(Debug)]
pub struct AliasingVerdict {
    pub arg1: String,
    pub arg2: String,
    pub aliases: bool,
}

/// The value an `AliasingVerdict` stands for.
pub ghost struct AliasModel {
    pub arg1: Seq<char>,
    pub arg2: Seq<char>,
    pub aliases: bool,
}

impl DeepView for AliasingVerdict {
    type V = AliasModel;

    open spec fn deep_view(&self) -> AliasModel {
        AliasModel { arg1: self.arg1@, arg2: self.arg2@, aliases: self.aliases }
    }
}

/// How a callee treats ownership passed through a `T**` parameter.
#[derive(Debug, Clone, Copy, PartialEq, Eq, Structural)]
pub enum OwnershipTransferType {
    /// The callee frees the caller's pointee.
    ConsumesOwnership,
    /// The callee allocates into the caller's out-parameter.
    CreatesOwnership,
    /// Neither.
    NoTransfer,
}

/// The ownership transfer of one parameter.
#[derive(Debug)]
pub struct OwnershipTransferSummary {
    pub param_name: String,
    pub transfer_type: OwnershipTransferType,
}

/// The value an `OwnershipTransferSummary` stands for.
pub ghost struct TransferModel {
    pub param_name: Seq<char>,
    pub transfer_type: OwnershipTransferType,
}

impl DeepView for OwnershipTransferSummary {
    type V = TransferModel;

    open spec fn deep_view(&self) -> TransferModel {
        TransferModel { param_name: self.param_name@, transfer_type: self.transfer_type }
    }
}

/// A variable whose allocation or release depends on run-time control flow.
#[derive(Debug)]
pub struct DataDepFlag {
    pub function_name: String,
    pub variable_name: String,
    pub reason: String,
}

/// The value a `DataDepFlag` stands for.
pub ghost struct DataDepModel {
    pub function_name: Seq<char>,
    pub variable_name: Seq<char>,
    pub reason: Seq<char>,
}

impl DeepView for DataDepFlag {
    type V = DataDepModel;

    open spec fn deep_view(&self) -> DataDepModel {
        DataDepModel {
            function_name: self.function_name@,
            variable_name: self.variable_name@,
            reason: self.reason@,
        }
    }
}

/// The Rust ownership form chosen for a C variable.
#[derive(Debug, Clone, Copy, PartialEq, Eq, Structural)]
pub enum OwnershipKind {
    /// `Box<T>`
    UniqueHeapOwner,
    /// `&mut T`
    MutableBorrow,
    /// `&T`
    SharedBorrow,
    /// `Vec<T>`
    HeapArray,
    /// `Option<Box<T>>`
    ConservativeFallback,
}

impl DeepView for OwnershipKind {
    type V = OwnershipKind;

    open spec fn deep_view(&self) -> OwnershipKind {
        *self
    }
}

#[verifier::external_type_specification]
#[verifier::external_body]
#[verifier::reject_recursive_types(N)]
#[verifier::reject_recursive_types(E)]
#[verifier::reject_recursive_types(Ty)]
#[verifier::reject_recursive_types(Ix)]
pub struct ExGraph<N, E, Ty, Ix>(Graph<N, E, Ty, Ix>);

#[verifier::external_type_specification]
#[verifier::external_body]
pub struct ExDirected(Directed);

/// The node weights of a call graph, in the order the nodes were added.
pub uninterp spec fn call_graph_nodes(g: Graph<String, CallSite>) -> Seq<Seq<char>>;

/// The edges of a call graph, in the order they were added: source index,
/// target index, and the caller, callee and line of the call.
pub uninterp spec fn call_graph_edges(g: Graph<String, CallSite>) -> Seq<
    (usize, usize, Seq<char>, Seq<char>, usize),
>;

/// `Graph::new`: a graph with no node and no edge.
#[verifier::external_body]
pub(crate) fn new_call_graph() -> (g: Graph<String, CallSite>)
    ensures
        call_graph_nodes(g) == Seq::<Seq<char>>::empty(),
        call_graph_edges(g) == Seq::<(usize, usize, Seq<char>, Seq<char>, usize)>::empty(),
{
    Graph::new()
}

/// `Graph::add_node`: appends a node and returns its index (the number of
/// nodes before). It panics when the graph already holds `u32::MAX` nodes,
/// which `requires` leaves out.
#[verifier::external_body]
pub(crate) fn call_graph_add_node(g: &mut Graph<String, CallSite>, name: String) -> (idx: usize)
    requires
        call_graph_nodes(*old(g)).len() < u32::MAX,
    ensures
        call_graph_nodes(*final(g)) == call_graph_nodes(*old(g)).push(name@),
        call_graph_edges(*final(g)) == call_graph_edges(*old(g)),
        idx == call_graph_nodes(*old(g)).len(),
{
    g.add_node(name).index()
}

/// `Graph::add_edge`: appends an edge from node `a` to node `b`. It panics
/// when a node index is out of bounds or the graph already holds
/// `u32::MAX` edges, which `requires` leaves out.
#[verifier::external_body]
pub(crate) fn call_graph_add_edge(g: &mut Graph<String, CallSite>, a: usize, b: usize, w: CallSite)
    requires
        a < call_graph_nodes(*old(g)).len(),
        b < call_graph_nodes(*old(g)).len(),
        call_graph_edges(*old(g)).len() < u32::MAX,
    ensures
        call_graph_nodes(*final(g)) == call_graph_nodes(*old(g)),
        call_graph_edges(*final(g)) == call_graph_edges(*old(g)).push(
            (a, b, w.caller@, w.callee@, w.line),
        ),
{
    g.add_edge(NodeIndex::new(a), NodeIndex::new(b), w);
}

/// `Graph::node_count`: the number of nodes.
#[verifier::external_body]
pub(crate) fn call_graph_node_count(g: &Graph<String, CallSite>) -> (res: usize)
    ensures
        res == call_graph_nodes(*g).len(),
{
    g.node_count()
}

/// `Graph::edge_count`: the number of edges.
#[verifier::external_body]
pub(crate) fn call_graph_edge_count(g: &Graph<String, CallSite>) -> (res: usize)
    ensures
        res == call_graph_edges(*g).len(),
{
    g.edge_count()
}

/// D2 data store: interprocedural summaries.
#[derive(Debug)]
pub struct InterproceduralSummaries {
    pub call_graph: Graph<String, CallSite>,
    pub alias_verdicts: NameMap<Vec<AliasingVerdict>>,
    pub ownership_transfer_summaries: NameMap<OwnershipTransferSummary>,
    pub cross_function_union_resolutions: NameMap<String>,
    pub data_dependent_ownership_flags: Vec<DataDepFlag>,
}

/// The value an `InterproceduralSummaries` stands for.
pub ghost struct SummariesModel {
    pub call_graph_nodes: Seq<Seq<char>>,
    pub call_graph_edges: Seq<(usize, usize, Seq<char>, Seq<char>, usize)>,
    pub alias_verdicts: Seq<(Seq<char>, Seq<AliasModel>)>,
    pub ownership_transfer_summaries: Seq<(Seq<char>, TransferModel)>,
    pub cross_function_union_resolutions: Seq<(Seq<char>, Seq<char>)>,
    pub data_dependent_ownership_flags: Seq<DataDepModel>,
}

impl DeepView for InterproceduralSummaries {
    type V = SummariesModel;

    open spec fn deep_view(&self) -> SummariesModel {
        SummariesModel {
            call_graph_nodes: call_graph_nodes(self.call_graph),
            call_graph_edges: call_graph_edges(self.call_graph),
            alias_verdicts: self.alias_verdicts@,
            ownership_transfer_summaries: self.ownership_transfer_summaries@,
            cross_function_union_resolutions: self.cross_function_union_resolutions@,
            data_dependent_ownership_flags: self.data_dependent_ownership_flags.deep_view(),
        }
    }
}

impl InterproceduralSummaries {
    /// Empty summaries.
    pub fn new() -> (res: Self)
        ensures
            res.deep_view() == (SummariesModel {
                call_graph_nodes: seq![],
                call_graph_edges: seq![],
                alias_verdicts: seq![],
                ownership_transfer_summaries: seq![],
                cross_function_union_resolutions: seq![],
                data_dependent_ownership_flags: seq![],
            }),
    {
        let res = InterproceduralSummaries {
            call_graph: new_call_graph(),
            alias_verdicts: NameMap::new(),
            ownership_transfer_summaries: NameMap::new(),
            cross_function_union_resolutions: NameMap::new(),
            data_dependent_ownership_flags: Vec::new(),
        };
        assert(res.data_dependent_ownership_flags.deep_view() =~= Seq::<DataDepModel>::empty());
        res
    }
}

} // verus!
