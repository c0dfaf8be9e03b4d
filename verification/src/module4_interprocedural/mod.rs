//! Interprocedural analysis: call graph, aliasing, ownership transfer,
//! union variants across functions and data-dependent ownership.
pub mod alias_analysis;
pub mod call_graph;
pub mod data_dep_detector;
pub mod ownership_summary;
pub mod union_tracking;

use vstd::prelude::*;

pub use alias_analysis::analyze_interprocedural_aliasing;
pub use call_graph::{build_call_graph, CallGraphResult};
pub use data_dep_detector::detect_data_dependent_ownership;
pub use ownership_summary::generate_ownership_transfer_summaries;
pub use union_tracking::track_cross_function_union_variants;

use crate::data_stores::interprocedural_summaries::{InterproceduralSummaries, SummariesModel};
use crate::data_stores::semantic_models::SemanticModel;
use crate::module2_ast::ast_parser::TranslationUnitAST;
use crate::name_map::NameMap;
use alias_analysis::alias_fold;
use call_graph::{function_names, graph_edges};
use data_dep_detector::flags_fold;
use ownership_summary::summaries_fold;
use union_tracking::resolutions_fold;

verus! {

/// The summaries that interprocedural analysis gives a translation unit
/// with the semantic models `models`.
pub open spec fn spec_interprocedural(
    tu: crate::module2_ast::ast_parser::TranslationUnitModel,
    models: Seq<(Seq<char>, crate::data_stores::semantic_models::SemanticView)>,
) -> SummariesModel {
    SummariesModel {
        call_graph_nodes: function_names(tu.functions),
        call_graph_edges: graph_edges(tu.functions),
        alias_verdicts: alias_fold(tu.functions),
        ownership_transfer_summaries: summaries_fold(models, tu.functions),
        cross_function_union_resolutions: resolutions_fold(
            models,
            tu.functions,
            models.len() as int,
        ),
        data_dependent_ownership_flags: flags_fold(models, tu.functions),
    }
}

/// Runs every interprocedural analysis and gathers the summaries. Building
/// the call graph panics beyond `u32::MAX` nodes or edges, which `requires`
/// leaves out.
pub fn run_interprocedural_analysis(
    tu_ast: &TranslationUnitAST,
    semantic_models: &NameMap<SemanticModel>,
) -> (res: InterproceduralSummaries)
    requires
        tu_ast.functions.len() <= u32::MAX,
        graph_edges(tu_ast.deep_view().functions).len() <= u32::MAX,
    ensures
        res.deep_view() == spec_interprocedural(tu_ast.deep_view(), semantic_models@),
{
    let mut summaries = InterproceduralSummaries::new();
    let call_graph_res = build_call_graph(tu_ast);
    summaries.call_graph = call_graph_res.graph;
    summaries.alias_verdicts = analyze_interprocedural_aliasing(tu_ast);
    summaries.ownership_transfer_summaries = generate_ownership_transfer_summaries(
        tu_ast,
        semantic_models,
    );
    summaries.cross_function_union_resolutions = track_cross_function_union_variants(
        tu_ast,
        semantic_models,
    );
    summaries.data_dependent_ownership_flags = detect_data_dependent_ownership(
        tu_ast,
        semantic_models,
    );
    summaries
}

} // verus!
