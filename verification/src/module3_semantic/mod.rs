pub mod base_analyser;
pub mod pointer_chain;
pub mod union_transformer;

use vstd::prelude::*;

pub use base_analyser::analyze_function_base;
pub use pointer_chain::analyze_pointer_chains;
pub use union_transformer::transform_unions_per_function;

use crate::data_stores::semantic_models::{SemanticModel, SemanticView};
use crate::module2_ast::ast_parser::{FunctionModel, TranslationUnitAST, UnionModel};
use crate::name_map::{assoc_get, assoc_insert, lemma_assoc_insert_get, NameMap};
use crate::text::lines;
use base_analyser::spec_analyze_function_base;
use pointer_chain::{chain_scan, classify_params};
use union_transformer::{union_fold, UnionState};

verus! {

/// The semantic model of `f`: the base analysis, then the pointer chains,
/// then the unions of the translation unit.
pub open spec fn spec_function_semantics(f: FunctionModel, unions: Seq<UnionModel>) -> SemanticView {
    let base = spec_analyze_function_base(f);
    let pdc = classify_params(base.pointer_depth_classifications, f.parameters);
    let chained = SemanticView {
        pointer_depth_classifications: pdc,
        memory_patterns: chain_scan(base.memory_patterns, lines(f.body_code), pdc),
        ..base
    };
    let st = union_fold(
        UnionState {
            transforms: chained.local_union_transforms,
            unresolved: chained.unresolved_union_cases,
        },
        f,
        unions,
    );
    SemanticView {
        local_union_transforms: st.transforms,
        unresolved_union_cases: st.unresolved,
        ..chained
    }
}

/// The semantic models of the functions `fs`, keyed by function name (a
/// later function of the same name replaces the earlier model).
pub open spec fn semantics_fold(fs: Seq<FunctionModel>, unions: Seq<UnionModel>) -> Seq<
    (Seq<char>, SemanticView),
>
    decreases fs.len(),
{
    if fs.len() == 0 {
        seq![]
    } else {
        assoc_insert(
            semantics_fold(fs.drop_last(), unions),
            fs.last().name,
            spec_function_semantics(fs.last(), unions),
        )
    }
}

/// Performs the per-function semantic analysis of every function of the
/// translation unit (the D1 semantic models).
pub fn analyze_translation_unit_semantics(tu_ast: &TranslationUnitAST) -> (res: NameMap<
    SemanticModel,
>)
    ensures
        res@ == semantics_fold(tu_ast.deep_view().functions, tu_ast.deep_view().unions),
{
    let mut semantic_models: NameMap<SemanticModel> = NameMap::new();
    let ghost fs = tu_ast.deep_view().functions;
    let ghost us = tu_ast.deep_view().unions;
    let mut i: usize = 0;
    assert(fs.take(0) =~= Seq::<FunctionModel>::empty());
    while i < tu_ast.functions.len()
        invariant
            i <= fs.len(),
            fs == tu_ast.deep_view().functions,
            us == tu_ast.deep_view().unions,
            semantic_models@ == semantics_fold(fs.take(i as int), us),
        decreases fs.len() - i,
    {
        assert(fs.take(i + 1).drop_last() =~= fs.take(i as int));
        let func = &tu_ast.functions[i];
        let mut model = analyze_function_base(func);
        analyze_pointer_chains(func, &mut model);
        transform_unions_per_function(func, tu_ast, &mut model);
        semantic_models.insert(func.name.clone(), model);
        i += 1;
    }
    assert(fs.take(fs.len() as int) =~= fs);
    semantic_models
}

/// The names of the functions `fs` are pairwise distinct.
pub open spec fn names_distinct(fs: Seq<FunctionModel>) -> bool {
    forall|a: int, b: int| 0 <= a < b < fs.len() ==> fs[a].name != fs[b].name
}

/// A name has a semantic model exactly when some function has that name.
pub proof fn lemma_one_model_per_function(fs: Seq<FunctionModel>, unions: Seq<UnionModel>, k: Seq<char>)
    ensures
        assoc_get(semantics_fold(fs, unions), k) is Some <==> exists|j: int|
            0 <= j < fs.len() && (#[trigger] fs[j]).name == k,
    decreases fs.len(),
{
    if fs.len() > 0 {
        let init = fs.drop_last();
        lemma_one_model_per_function(init, unions, k);
        lemma_assoc_insert_get(
            semantics_fold(init, unions),
            fs.last().name,
            spec_function_semantics(fs.last(), unions),
            k,
        );
        if exists|j: int| 0 <= j < fs.len() && (#[trigger] fs[j]).name == k {
            let j = choose|j: int| 0 <= j < fs.len() && (#[trigger] fs[j]).name == k;
            if j < fs.len() - 1 {
                assert(init[j].name == k);
            }
        }
        if exists|j: int| 0 <= j < init.len() && (#[trigger] init[j]).name == k {
            let j = choose|j: int| 0 <= j < init.len() && (#[trigger] init[j]).name == k;
            assert(fs[j].name == k);
        }
    }
}

/// When function names are distinct, the model of each function is its
/// own analysis (base analysis, pointer chains, unions), and carries its
/// name.
pub proof fn lemma_model_of_function(fs: Seq<FunctionModel>, unions: Seq<UnionModel>, j: int)
    requires
        names_distinct(fs),
        0 <= j < fs.len(),
    ensures
        assoc_get(semantics_fold(fs, unions), fs[j].name) == Some(
            spec_function_semantics(fs[j], unions),
        ),
        spec_function_semantics(fs[j], unions).function_name == fs[j].name,
    decreases fs.len(),
{
    let init = fs.drop_last();
    lemma_assoc_insert_get(
        semantics_fold(init, unions),
        fs.last().name,
        spec_function_semantics(fs.last(), unions),
        fs[j].name,
    );
    if j < fs.len() - 1 {
        assert(init[j] == fs[j]);
        lemma_model_of_function(init, unions, j);
    }
}

} // verus!
