use c2saferust::data_stores::semantic_models::{MemoryPattern, PointerDepthClassification, SemanticModel};
use c2saferust::module2_ast::ast_parser::{
    FunctionAST, ParameterAST, TranslationUnitAST, UnionAST, UnionVariantAST,
};
use c2saferust::module3_semantic::base_analyser::analyze_function_base;
use c2saferust::module3_semantic::pointer_chain::analyze_pointer_chains;
use c2saferust::module3_semantic::union_transformer::transform_unions_per_function;

#[test]
fn test_base_semantic_analyser() {
    let func = FunctionAST {
        name: "test_fn".to_string(),
        return_type: "void".to_string(),
        parameters: vec![ParameterAST {
            name: "ptr".to_string(),
            c_type: "int".to_string(),
            pointer_depth: 1,
            is_union: false,
        }],
        body_code: "int x = 10;\n*ptr = x;\nfree(ptr);".to_string(),
        call_sites: vec![],
    };

    let model = analyze_function_base(&func);
    assert!(model.symbol_table.contains_key("ptr"));
    assert!(model.symbol_table.contains_key("x"));
    assert!(matches!(model.memory_patterns.get("ptr"), Some(MemoryPattern::Free)));
}

#[test]
fn test_multi_level_pointer_chain_analyser() {
    let func = FunctionAST {
        name: "swap".to_string(),
        return_type: "void".to_string(),
        parameters: vec![
            ParameterAST {
                name: "a".to_string(),
                c_type: "int".to_string(),
                pointer_depth: 2,
                is_union: false,
            },
            ParameterAST {
                name: "b".to_string(),
                c_type: "int".to_string(),
                pointer_depth: 2,
                is_union: false,
            },
        ],
        body_code: "int *temp = *a;\n*a = *b;\n*b = temp;".to_string(),
        call_sites: vec![],
    };

    let mut model = SemanticModel::new("swap".to_string());
    analyze_pointer_chains(&func, &mut model);

    assert!(matches!(
        model.pointer_depth_classifications.get("a"),
        Some(PointerDepthClassification::MultiLevel { depth: 2 })
    ));
}

#[test]
fn test_local_union_transformer() {
    let tu_ast = TranslationUnitAST {
        functions: vec![],
        unions: vec![UnionAST {
            name: "Data".to_string(),
            variants: vec![
                UnionVariantAST { field_name: "i".to_string(), field_type: "int".to_string() },
                UnionVariantAST { field_name: "f".to_string(), field_type: "float".to_string() },
            ],
            tag_field: Some("tag".to_string()),
        }],
        structs: vec![],
    };

    let func = FunctionAST {
        name: "process_data".to_string(),
        return_type: "void".to_string(),
        parameters: vec![],
        body_code: "union Data d;\n d.i = 42;".to_string(),
        call_sites: vec![],
    };

    let mut model = SemanticModel::new("process_data".to_string());
    transform_unions_per_function(&func, &tu_ast, &mut model);

    assert_eq!(model.local_union_transforms.len(), 1);
    assert_eq!(model.local_union_transforms[0].local_variant_resolved, Some("i".to_string()));
}
