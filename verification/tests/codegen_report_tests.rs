use c2saferust::data_stores::interprocedural_summaries::{
    AliasingVerdict, DataDepFlag, InterproceduralSummaries, OwnershipKind,
    OwnershipTransferSummary, OwnershipTransferType,
};
use c2saferust::data_stores::semantic_models::{MemoryPattern, PointerDepthClassification, SemanticModel};
use c2saferust::module1_validation::ValidatedCSource;
use c2saferust::module2_ast::ast_parser::{FunctionAST, ParameterAST, TranslationUnitAST};
use c2saferust::module5_codegen::infer_ownership_types;
use c2saferust::module6_repair::{RepairLogEntry, RepairResult};
use c2saferust::module7_gui::report_assembler::assemble_translation_report;
use c2saferust::name_map::NameMap;

fn param(name: &str, depth: usize) -> ParameterAST {
    ParameterAST { name: name.to_string(), c_type: "int".to_string(), pointer_depth: depth, is_union: false }
}

#[test]
fn test_ownership_infer_t_star_star() {
    let tu_ast = TranslationUnitAST {
        functions: vec![FunctionAST {
            name: "swap".to_string(),
            return_type: "void".to_string(),
            parameters: vec![param("a", 2)],
            body_code: "*a = NULL;".to_string(),
            call_sites: vec![],
        }],
        unions: vec![],
        structs: vec![],
    };

    let mut model = SemanticModel::new("swap".to_string());
    model
        .pointer_depth_classifications
        .insert("a".to_string(), PointerDepthClassification::MultiLevel { depth: 2 });
    model.memory_patterns.insert("a".to_string(), MemoryPattern::Write);

    let mut models = NameMap::new();
    models.insert("swap".to_string(), model);

    let summaries = InterproceduralSummaries::new();

    let ownership_maps = infer_ownership_types(&tu_ast, &models, &summaries);
    assert!(ownership_maps.contains_key("swap"));
    assert!(matches!(
        ownership_maps.get("swap").unwrap().variable_ownership.get("a"),
        Some(OwnershipKind::MutableBorrow)
    ));
}

#[test]
fn ownership_kinds_follow_flags_transfers_and_patterns() {
    let tu_ast = TranslationUnitAST {
        functions: vec![
            FunctionAST {
                name: "f".to_string(),
                return_type: "void".to_string(),
                parameters: vec![param("a", 2), param("b", 0), param("c", 1), param("d", 2), param("e", 1)],
                body_code: String::new(),
                call_sites: vec![],
            },
            FunctionAST {
                name: "no_model".to_string(),
                return_type: "void".to_string(),
                parameters: vec![param("z", 1)],
                body_code: String::new(),
                call_sites: vec![],
            },
        ],
        unions: vec![],
        structs: vec![],
    };
    let mut model = SemanticModel::new("f".to_string());
    model.memory_patterns.insert("c".to_string(), MemoryPattern::Free);
    model.memory_patterns.insert("local_w".to_string(), MemoryPattern::Write);
    model.memory_patterns.insert("local_flag".to_string(), MemoryPattern::Allocate);
    model.symbol_table.insert("a".to_string(), "int".to_string());
    model.symbol_table.insert("local_w".to_string(), "int".to_string());
    model.symbol_table.insert("local_r".to_string(), "int".to_string());
    model.symbol_table.insert("local_flag".to_string(), "int*".to_string());
    let mut models = NameMap::new();
    models.insert("f".to_string(), model);

    let mut summaries = InterproceduralSummaries::new();
    summaries.ownership_transfer_summaries.insert(
        "f:a".to_string(),
        OwnershipTransferSummary { param_name: "a".to_string(), transfer_type: OwnershipTransferType::ConsumesOwnership },
    );
    summaries.data_dependent_ownership_flags.push(DataDepFlag {
        function_name: "f".to_string(),
        variable_name: "e".to_string(),
        reason: String::new(),
    });
    summaries.data_dependent_ownership_flags.push(DataDepFlag {
        function_name: "f".to_string(),
        variable_name: "local_flag".to_string(),
        reason: String::new(),
    });

    let maps = infer_ownership_types(&tu_ast, &models, &summaries);
    let f = &maps.get("f").unwrap().variable_ownership;
    assert_eq!(f.get("a"), Some(&OwnershipKind::UniqueHeapOwner));
    assert_eq!(f.get("b"), Some(&OwnershipKind::SharedBorrow));
    assert_eq!(f.get("c"), Some(&OwnershipKind::UniqueHeapOwner));
    assert_eq!(f.get("d"), Some(&OwnershipKind::MutableBorrow));
    assert_eq!(f.get("e"), Some(&OwnershipKind::ConservativeFallback));
    assert_eq!(f.get("local_w"), Some(&OwnershipKind::MutableBorrow));
    assert_eq!(f.get("local_r"), Some(&OwnershipKind::SharedBorrow));
    assert_eq!(f.get("local_flag"), Some(&OwnershipKind::ConservativeFallback));
    assert_eq!(f.len(), 8);
    assert_eq!(maps.get("no_model").unwrap().variable_ownership.len(), 0);
}

fn validated(path: &str) -> ValidatedCSource {
    ValidatedCSource {
        file_path: path.to_string(),
        raw_content: "int main() {}".to_string(),
        line_count: 1,
        byte_size: 13,
    }
}

#[test]
fn test_report_assembly() {
    let val = validated("test.c");
    let tu_ast = TranslationUnitAST::new();
    let models = NameMap::new();
    let summaries = InterproceduralSummaries::new();
    let repair_res = RepairResult {
        final_success: true,
        iterations_used: 1,
        repair_logs: vec![],
        final_rust_code: "pub fn main() {}".to_string(),
    };

    let report = assemble_translation_report(&val, &tu_ast, &models, &summaries, &repair_res);
    assert_eq!(report.idioms_summary.len(), 6);
    assert!(report.compilation_successful);
}

#[test]
fn report_markdown_and_idioms() {
    let val = validated("dir/prog.c");
    let tu_ast = TranslationUnitAST::new();
    let models = NameMap::new();
    let mut summaries = InterproceduralSummaries::new();
    summaries.alias_verdicts.insert(
        "main:f:1".to_string(),
        vec![AliasingVerdict { arg1: "buf + 1".to_string(), arg2: "buf".to_string(), aliases: false }],
    );
    let repair_res = RepairResult {
        final_success: false,
        iterations_used: 2,
        repair_logs: vec![RepairLogEntry {
            iteration: 1,
            patch_source: "Rule-Based-Fallback".to_string(),
            explanation: "fixed".to_string(),
            compilation_successful: false,
        }],
        final_rust_code: "x".to_string(),
    };
    let report = assemble_translation_report(&val, &tu_ast, &models, &summaries, &repair_res);
    assert_eq!(report.source_file_name, "prog.c");
    assert!(!report.idioms_summary[0].detected);
    assert_eq!(report.idioms_summary[0].resolution, "No call-site aliasing detected");
    assert!(report.idioms_summary[3].detected);
    assert_eq!(report.idioms_summary[3].idiom_number, 4);
    let md = &report.formatted_markdown_report;
    assert!(md.starts_with("# Translation Report for \"prog.c\"\n\n"));
    assert!(md.contains("- **Input C File**: 13 bytes, 1 lines\n"));
    assert!(md.contains("- **Call Graph**: 0 nodes, 0 edges\n"));
    assert!(md.contains("- **Final Compilation Success**: false\n"));
    assert!(md.contains("- **Idiom 4 (Overlapping pointer-arithmetic slices)**: [DETECTED] — Call-site range offset overlap check\n"));
    assert!(md.ends_with("\n## Repair History\n\n- Iteration 1: Source: Rule-Based-Fallback | Note: fixed\n"));
}
