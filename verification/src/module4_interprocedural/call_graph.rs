//! Whole-program call graph: one node per function, one edge per call
//! whose callee is a function of the translation unit.
use vstd::prelude::*;

use crate::data_stores::interprocedural_summaries::{
    call_graph_add_edge, call_graph_add_node, call_graph_edge_count, call_graph_edges,
    call_graph_node_count, call_graph_nodes, new_call_graph, CallSite,
};
use crate::module2_ast::ast_parser::{CallSiteModel, FunctionModel, TranslationUnitAST};
use crate::name_map::{assoc_get, assoc_insert, lemma_assoc_insert_get, NameMap};
use petgraph::graph::Graph;

verus! {

broadcast use vstd::string::group_string_axioms;

/// An edge of the call graph as the contracts see it: source node, target
/// node, caller, callee and line.
pub type EdgeModel = (usize, usize, Seq<char>, Seq<char>, usize);

/// The call graph together with the node index of each function name.
#[derive(Debug)]
pub struct CallGraphResult {
    pub graph: Graph<String, CallSite>,
    pub node_indices: NameMap<usize>,
}

impl CallGraphResult {
    /// The number of nodes of the graph.
    pub fn node_count(&self) -> (res: usize)
        ensures
            res == call_graph_nodes(self.graph).len(),
    {
        call_graph_node_count(&self.graph)
    }

    /// The number of edges of the graph.
    pub fn edge_count(&self) -> (res: usize)
        ensures
            res == call_graph_edges(self.graph).len(),
    {
        call_graph_edge_count(&self.graph)
    }
}

/// The names of the functions `fs`, in order: the nodes of their graph.
pub open spec fn function_names(fs: Seq<FunctionModel>) -> Seq<Seq<char>> {
    fs.map_values(|f: FunctionModel| f.name)
}

/// The node index of each function name; of several functions with one
/// name, the last one's index.
pub open spec fn spec_node_indices(fs: Seq<FunctionModel>) -> Seq<(Seq<char>, usize)>
    decreases fs.len(),
{
    if fs.len() == 0 {
        seq![]
    } else {
        assoc_insert(spec_node_indices(fs.drop_last()), fs.last().name, (fs.len() - 1) as usize)
    }
}

/// The edges for the calls `cs` made by `caller`: one for each call whose
/// caller and callee both have a node, in order.
pub open spec fn call_edges_of(
    idx: Seq<(Seq<char>, usize)>,
    caller: Seq<char>,
    cs: Seq<CallSiteModel>,
) -> Seq<EdgeModel>
    decreases cs.len(),
{
    if cs.len() == 0 {
        seq![]
    } else {
        let prev = call_edges_of(idx, caller, cs.drop_last());
        let c = cs.last();
        match (assoc_get(idx, caller), assoc_get(idx, c.callee)) {
            (Some(a), Some(b)) => prev.push((a, b, caller, c.callee, c.line)),
            _ => prev,
        }
    }
}

/// The edges for every call of the functions `fs`, function by function.
pub open spec fn spec_call_edges(idx: Seq<(Seq<char>, usize)>, fs: Seq<FunctionModel>) -> Seq<
    EdgeModel,
>
    decreases fs.len(),
{
    if fs.len() == 0 {
        seq![]
    } else {
        spec_call_edges(idx, fs.drop_last()) + call_edges_of(
            idx,
            fs.last().name,
            fs.last().call_sites,
        )
    }
}

/// The edges of the call graph of `fs`.
pub open spec fn graph_edges(fs: Seq<FunctionModel>) -> Seq<EdgeModel> {
    spec_call_edges(spec_node_indices(fs), fs)
}

/// A name has an index only if some function of that name sits there.
pub proof fn lemma_node_indices(fs: Seq<FunctionModel>, k: Seq<char>)
    requires
        fs.len() <= usize::MAX,
    ensures
        assoc_get(spec_node_indices(fs), k) matches Some(i) ==> i < fs.len() && fs[i as int].name
            == k,
        (exists|j: int| 0 <= j < fs.len() && fs[j].name == k) ==> assoc_get(
            spec_node_indices(fs),
            k,
        ) is Some,
    decreases fs.len(),
{
    if fs.len() > 0 {
        let init = fs.drop_last();
        lemma_node_indices(init, k);
        lemma_assoc_insert_get(
            spec_node_indices(init),
            fs.last().name,
            (fs.len() - 1) as usize,
            k,
        );
        if exists|j: int| 0 <= j < fs.len() && fs[j].name == k {
            let j = choose|j: int| 0 <= j < fs.len() && fs[j].name == k;
            if j < fs.len() - 1 {
                assert(init[j].name == k);
            }
        }
    }
}

/// Every edge of `call_edges_of` joins two indexed nodes and names the
/// caller; its callee is a call of `cs`.
proof fn lemma_call_edges_of(idx: Seq<(Seq<char>, usize)>, caller: Seq<char>, cs: Seq<CallSiteModel>)
    ensures
        call_edges_of(idx, caller, cs).len() <= cs.len(),
        forall|e: int|
            0 <= e < call_edges_of(idx, caller, cs).len() ==> {
                let ed = #[trigger] call_edges_of(idx, caller, cs)[e];
                &&& assoc_get(idx, caller) == Some(ed.0)
                &&& assoc_get(idx, ed.3) == Some(ed.1)
                &&& ed.2 == caller
            },
    decreases cs.len(),
{
    if cs.len() > 0 {
        lemma_call_edges_of(idx, caller, cs.drop_last());
    }
}

/// Every edge of `spec_call_edges` joins two indexed nodes, its source
/// being its caller's.
proof fn lemma_spec_call_edges(idx: Seq<(Seq<char>, usize)>, fs: Seq<FunctionModel>)
    ensures
        forall|e: int|
            0 <= e < spec_call_edges(idx, fs).len() ==> {
                let ed = #[trigger] spec_call_edges(idx, fs)[e];
                &&& assoc_get(idx, ed.2) == Some(ed.0)
                &&& assoc_get(idx, ed.3) == Some(ed.1)
            },
    decreases fs.len(),
{
    if fs.len() > 0 {
        let init = fs.drop_last();
        lemma_spec_call_edges(idx, init);
        lemma_call_edges_of(idx, fs.last().name, fs.last().call_sites);
        let a = spec_call_edges(idx, init);
        let b = call_edges_of(idx, fs.last().name, fs.last().call_sites);
        assert forall|e: int| 0 <= e < (a + b).len() implies {
            let ed = #[trigger] (a + b)[e];
            &&& assoc_get(idx, ed.2) == Some(ed.0)
            &&& assoc_get(idx, ed.3) == Some(ed.1)
        } by {
            if e >= a.len() {
                assert((a + b)[e] == b[e - a.len()]);
            }
        }
    }
}

/// Every edge of the call graph joins two of its nodes: its source node
/// holds the caller's name and its target node the callee's.
pub proof fn lemma_call_graph_edges_join_nodes(fs: Seq<FunctionModel>)
    requires
        fs.len() <= usize::MAX,
    ensures
        forall|e: int|
            0 <= e < graph_edges(fs).len() ==> {
                let ed = #[trigger] graph_edges(fs)[e];
                &&& ed.0 < fs.len()
                &&& ed.1 < fs.len()
                &&& function_names(fs)[ed.0 as int] == ed.2
                &&& function_names(fs)[ed.1 as int] == ed.3
            },
{
    lemma_spec_call_edges(spec_node_indices(fs), fs);
    assert forall|e: int| 0 <= e < graph_edges(fs).len() implies {
        let ed = #[trigger] graph_edges(fs)[e];
        &&& ed.0 < fs.len()
        &&& ed.1 < fs.len()
        &&& function_names(fs)[ed.0 as int] == ed.2
        &&& function_names(fs)[ed.1 as int] == ed.3
    } by {
        let ed = graph_edges(fs)[e];
        lemma_node_indices(fs, ed.2);
        lemma_node_indices(fs, ed.3);
    }
}

/// A call gets an edge exactly when its callee is the name of a function
/// of the translation unit: the edges of one caller's calls are as many
/// as its calls to functions of `fs`.
pub proof fn lemma_call_edge_iff_known_callee(
    fs: Seq<FunctionModel>,
    f: int,
    cs: Seq<CallSiteModel>,
)
    requires
        0 <= f < fs.len() <= usize::MAX,
    ensures
        call_edges_of(spec_node_indices(fs), fs[f].name, cs).len() == cs.filter(
            |c: CallSiteModel| function_names(fs).contains(c.callee),
        ).len(),
    decreases cs.len(),
{
    let idx = spec_node_indices(fs);
    let p = |c: CallSiteModel| function_names(fs).contains(c.callee);
    lemma_node_indices(fs, fs[f].name);
    if cs.len() > 0 {
        lemma_call_edge_iff_known_callee(fs, f, cs.drop_last());
        let c = cs.last();
        lemma_node_indices(fs, c.callee);
        assert(cs.drop_last().push(c) =~= cs);
        cs.drop_last().lemma_filter_push(c, p);
        if function_names(fs).contains(c.callee) {
            let j = choose|j: int| 0 <= j < function_names(fs).len() && function_names(fs)[j] == c.callee;
            assert(fs[j].name == c.callee);
        } else {
            if let Some(i) = assoc_get(idx, c.callee) {
                assert(function_names(fs)[i as int] == c.callee);
            }
        }
    } else {
        assert(cs.filter(p) =~= Seq::<CallSiteModel>::empty());
    }
}

/// The number of calls made by the functions `fs`.
pub open spec fn total_calls(fs: Seq<FunctionModel>) -> nat
    decreases fs.len(),
{
    if fs.len() == 0 {
        0
    } else {
        total_calls(fs.drop_last()) + fs.last().call_sites.len()
    }
}

proof fn lemma_spec_call_edges_le(idx: Seq<(Seq<char>, usize)>, fs: Seq<FunctionModel>)
    ensures
        spec_call_edges(idx, fs).len() <= total_calls(fs),
    decreases fs.len(),
{
    if fs.len() > 0 {
        lemma_spec_call_edges_le(idx, fs.drop_last());
        lemma_call_edges_of(idx, fs.last().name, fs.last().call_sites);
    }
}

/// The call graph has one node per function and at most one edge per
/// call.
pub proof fn lemma_call_graph_size(fs: Seq<FunctionModel>)
    ensures
        function_names(fs).len() == fs.len(),
        graph_edges(fs).len() <= total_calls(fs),
{
    lemma_spec_call_edges_le(spec_node_indices(fs), fs);
}

fn index_of(m: &NameMap<usize>, k: &String) -> (res: Option<usize>)
    ensures
        res == assoc_get(m@, k@),
{
    match m.get(k.as_str()) {
        Some(v) => Some(*v),
        None => None,
    }
}

/// Builds the call graph of a translation unit: one node per function, in
/// order, and one edge per call whose callee names a function, in the order
/// of the functions and their calls. It panics when the graph would hold
/// more than `u32::MAX` nodes or edges, which `requires` leaves out.
pub fn build_call_graph(tu_ast: &TranslationUnitAST) -> (res: CallGraphResult)
    requires
        tu_ast.functions.len() <= u32::MAX,
        graph_edges(tu_ast.deep_view().functions).len() <= u32::MAX,
    ensures
        call_graph_nodes(res.graph) == function_names(tu_ast.deep_view().functions),
        res.node_indices@ == spec_node_indices(tu_ast.deep_view().functions),
        call_graph_edges(res.graph) == graph_edges(tu_ast.deep_view().functions),
{
    let ghost fs = tu_ast.deep_view().functions;
    let mut graph = new_call_graph();
    let mut node_indices: NameMap<usize> = NameMap::new();
    let n = tu_ast.functions.len();
    let mut f: usize = 0;
    while f < n
        invariant
            f <= n == fs.len() <= u32::MAX,
            fs == tu_ast.deep_view().functions,
            call_graph_nodes(graph) == function_names(fs.take(f as int)),
            call_graph_edges(graph) == Seq::<EdgeModel>::empty(),
            node_indices@ == spec_node_indices(fs.take(f as int)),
        decreases n - f,
    {
        let name = tu_ast.functions[f].name.clone();
        let idx = call_graph_add_node(&mut graph, name);
        let key = tu_ast.functions[f].name.clone();
        node_indices.insert(key, idx);
        assert(fs.take(f + 1).drop_last() =~= fs.take(f as int));
        assert(function_names(fs.take(f + 1)) =~= function_names(fs.take(f as int)).push(
            fs[f as int].name,
        ));
        f += 1;
    }
    assert(fs.take(n as int) =~= fs);
    let ghost idx = node_indices@;
    let mut f: usize = 0;
    assert(spec_call_edges(idx, fs.take(0)) =~= Seq::<EdgeModel>::empty());
    while f < n
        invariant
            f <= n == fs.len() <= u32::MAX,
            fs == tu_ast.deep_view().functions,
            idx == node_indices@,
            idx == spec_node_indices(fs),
            graph_edges(fs).len() <= u32::MAX,
            call_graph_nodes(graph) == function_names(fs),
            call_graph_edges(graph) == spec_call_edges(idx, fs.take(f as int)),
        decreases n - f,
    {
        let func = &tu_ast.functions[f];
        let ghost cs = func.deep_view().call_sites;
        let ghost base = call_graph_edges(graph);
        assert(fs.take(f + 1).drop_last() =~= fs.take(f as int));
        proof {
            lemma_spec_call_edges_prefix(idx, fs, f as int + 1);
        }
        let caller_idx = index_of(&node_indices, &func.name);
        let mut c: usize = 0;
        assert(cs.take(0) =~= Seq::<CallSiteModel>::empty());
        assert(base + call_edges_of(idx, func.deep_view().name, cs.take(0)) =~= base);
        while c < func.call_sites.len()
            invariant
                c <= cs.len(),
                cs == func.deep_view().call_sites,
                func.deep_view() == fs[f as int],
                f < n == fs.len(),
                idx == node_indices@,
                idx == spec_node_indices(fs),
                caller_idx == assoc_get(idx, func.name@),
                (base + call_edges_of(idx, func.name@, cs)).len() <= u32::MAX,
                call_graph_nodes(graph) == function_names(fs),
                call_graph_edges(graph) == base + call_edges_of(idx, func.name@, cs.take(c as int)),
            decreases cs.len() - c,
        {
            assert(cs.take(c + 1).drop_last() =~= cs.take(c as int));
            proof {
                lemma_call_edges_of_prefix(idx, func.name@, cs, c as int + 1);
            }
            let call = &func.call_sites[c];
            let callee_idx = index_of(&node_indices, &call.callee);
            match (caller_idx, callee_idx) {
                (Some(a), Some(b)) => {
                    proof {
                        lemma_node_indices(fs, func.name@);
                        lemma_node_indices(fs, call.callee@);
                    }
                    let w = CallSite {
                        caller: func.name.clone(),
                        callee: call.callee.clone(),
                        line: call.line,
                    };
                    call_graph_add_edge(&mut graph, a, b, w);
                    assert(call_graph_edges(graph) =~= base + call_edges_of(
                        idx,
                        func.name@,
                        cs.take(c + 1),
                    ));
                },
                _ => {
                    assert(call_graph_edges(graph) =~= base + call_edges_of(
                        idx,
                        func.name@,
                        cs.take(c + 1),
                    ));
                },
            }
            c += 1;
        }
        assert(cs.take(cs.len() as int) =~= cs);
        assert(call_graph_edges(graph) =~= spec_call_edges(idx, fs.take(f + 1)));
        f += 1;
    }
    assert(fs.take(n as int) =~= fs);
    CallGraphResult { graph, node_indices }
}

/// The edges of a prefix of the calls are a prefix of the edges.
proof fn lemma_call_edges_of_prefix(
    idx: Seq<(Seq<char>, usize)>,
    caller: Seq<char>,
    cs: Seq<CallSiteModel>,
    k: int,
)
    requires
        0 <= k <= cs.len(),
    ensures
        call_edges_of(idx, caller, cs.take(k)).len() <= call_edges_of(idx, caller, cs).len(),
    decreases cs.len() - k,
{
    if k < cs.len() {
        lemma_call_edges_of_prefix(idx, caller, cs, k + 1);
        assert(cs.take(k + 1).drop_last() =~= cs.take(k));
    } else {
        assert(cs.take(k) =~= cs);
    }
}

/// The edges of a prefix of the functions are no more than all the edges.
proof fn lemma_spec_call_edges_prefix(idx: Seq<(Seq<char>, usize)>, fs: Seq<FunctionModel>, k: int)
    requires
        0 <= k <= fs.len(),
    ensures
        spec_call_edges(idx, fs.take(k)).len() <= spec_call_edges(idx, fs).len(),
    decreases fs.len() - k,
{
    if k < fs.len() {
        lemma_spec_call_edges_prefix(idx, fs, k + 1);
        assert(fs.take(k + 1).drop_last() =~= fs.take(k));
    } else {
        assert(fs.take(k) =~= fs);
    }
}

} // verus!
