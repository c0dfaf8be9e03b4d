use c2saferust::data_stores::interprocedural_summaries::OwnershipTransferType;
use c2saferust::data_stores::semantic_models::{
    MemoryPattern, PointerDepthClassification, SemanticModel, UnionTransform, UnresolvedUnionCase,
};
use c2saferust::module2_ast::ast_parser::{CallSiteAST, FunctionAST, ParameterAST, TranslationUnitAST};
use c2saferust::module4_interprocedural::{
    analyze_interprocedural_aliasing, build_call_graph, detect_data_dependent_ownership,
    generate_ownership_transfer_summaries, track_cross_function_union_variants,
};
use c2saferust::name_map::NameMap;

#[test]
fn test_aliased_mutable_parameters_detection() {
    let tu_ast = TranslationUnitAST {
        functions: vec![FunctionAST {
            name: "main".to_string(),
            return_type: "int".to_string(),
            parameters: vec![],
            body_code: "int x = 10; foo(&x, &x);".to_string(),
            call_sites: vec![CallSiteAST {
                callee: "foo".to_string(),
                arguments: vec!["&x".to_string(), "&x".to_string()],
                line: 5,
            }],
        }],
        unions: vec![],
        structs: vec![],
    };

    let verdicts = analyze_interprocedural_aliasing(&tu_ast);
    let key = "main:foo:5";
    assert!(verdicts.contains_key(key));
    assert!(verdicts.get(key).unwrap()[0].aliases); // Idiom 1 detected!
}

#[test]
fn test_overlapping_slice_detection() {
    let tu_ast = TranslationUnitAST {
        functions: vec![FunctionAST {
            name: "main".to_string(),
            return_type: "int".to_string(),
            parameters: vec![],
            body_code: "combine(buf + 2, buf + 3, 5);".to_string(),
            call_sites: vec![CallSiteAST {
                callee: "combine".to_string(),
                arguments: vec!["buf + 2".to_string(), "buf + 3".to_string(), "5".to_string()],
                line: 12,
            }],
        }],
        unions: vec![],
        structs: vec![],
    };

    let verdicts = analyze_interprocedural_aliasing(&tu_ast);
    let key = "main:combine:12";
    assert!(verdicts.contains_key(key));
    assert!(verdicts.get(key).unwrap()[0].aliases); // Idiom 4 detected!
}

#[test]
fn test_call_graph_construction() {
    let tu_ast = TranslationUnitAST {
        functions: vec![
            FunctionAST {
                name: "main".to_string(),
                return_type: "int".to_string(),
                parameters: vec![],
                body_code: "foo();".to_string(),
                call_sites: vec![CallSiteAST {
                    callee: "foo".to_string(),
                    arguments: vec![],
                    line: 10,
                }],
            },
            FunctionAST {
                name: "foo".to_string(),
                return_type: "void".to_string(),
                parameters: vec![],
                body_code: "".to_string(),
                call_sites: vec![],
            },
        ],
        unions: vec![],
        structs: vec![],
    };

    let result = build_call_graph(&tu_ast);
    assert_eq!(result.node_count(), 2);
    assert_eq!(result.edge_count(), 1);
}

#[test]
fn test_data_dependent_ownership_detection() {
    let tu_ast = TranslationUnitAST {
        functions: vec![FunctionAST {
            name: "conditional_free".to_string(),
            return_type: "void".to_string(),
            parameters: vec![],
            body_code: "int *p = malloc(10);\nif (should_free) {\n  free(p);\n}".to_string(),
            call_sites: vec![],
        }],
        unions: vec![],
        structs: vec![],
    };

    let mut model = SemanticModel::new("conditional_free".to_string());
    model.memory_patterns.insert("p".to_string(), MemoryPattern::Free);

    let mut models = NameMap::new();
    models.insert("conditional_free".to_string(), model);

    let flags = detect_data_dependent_ownership(&tu_ast, &models);
    assert_eq!(flags.len(), 1);
    assert_eq!(flags[0].variable_name, "p"); // Idiom 6 detected and flagged!
}

#[test]
fn test_idiom2_t_star_star_consumes_ownership() {
    let tu_ast = TranslationUnitAST {
        functions: vec![FunctionAST {
            name: "free_buffer".to_string(),
            return_type: "void".to_string(),
            parameters: vec![ParameterAST {
                name: "buf".to_string(),
                c_type: "int".to_string(),
                pointer_depth: 2,
                is_union: false,
            }],
            body_code: "free(*buf); *buf = NULL;".to_string(),
            call_sites: vec![],
        }],
        unions: vec![],
        structs: vec![],
    };

    let mut model = SemanticModel::new("free_buffer".to_string());
    model
        .pointer_depth_classifications
        .insert("buf".to_string(), PointerDepthClassification::MultiLevel { depth: 2 });
    model.memory_patterns.insert("buf".to_string(), MemoryPattern::Free);

    let mut models = NameMap::new();
    models.insert("free_buffer".to_string(), model);

    let summaries = generate_ownership_transfer_summaries(&tu_ast, &models);
    assert!(summaries.contains_key("free_buffer:buf"));
    assert!(matches!(
        summaries.get("free_buffer:buf").unwrap().transfer_type,
        OwnershipTransferType::ConsumesOwnership
    ));
}

#[test]
fn test_idiom3_t_star_star_creates_ownership() {
    let tu_ast = TranslationUnitAST {
        functions: vec![FunctionAST {
            name: "alloc_buffer".to_string(),
            return_type: "void".to_string(),
            parameters: vec![ParameterAST {
                name: "out".to_string(),
                c_type: "int".to_string(),
                pointer_depth: 2,
                is_union: false,
            }],
            body_code: "*out = malloc(100);".to_string(),
            call_sites: vec![],
        }],
        unions: vec![],
        structs: vec![],
    };

    let mut model = SemanticModel::new("alloc_buffer".to_string());
    model
        .pointer_depth_classifications
        .insert("out".to_string(), PointerDepthClassification::MultiLevel { depth: 2 });
    model.memory_patterns.insert("out".to_string(), MemoryPattern::Allocate);

    let mut models = NameMap::new();
    models.insert("alloc_buffer".to_string(), model);

    let summaries = generate_ownership_transfer_summaries(&tu_ast, &models);
    assert!(summaries.contains_key("alloc_buffer:out"));
    assert!(matches!(
        summaries.get("alloc_buffer:out").unwrap().transfer_type,
        OwnershipTransferType::CreatesOwnership
    ));
}

#[test]
fn test_cross_function_union_variant_tracking() {
    let tu_ast = TranslationUnitAST {
        functions: vec![
            FunctionAST {
                name: "set_val".to_string(),
                return_type: "void".to_string(),
                parameters: vec![],
                body_code: "u.i = 10;".to_string(),
                call_sites: vec![],
            },
            FunctionAST {
                name: "read_val".to_string(),
                return_type: "void".to_string(),
                parameters: vec![],
                body_code: "int x = u;".to_string(),
                call_sites: vec![],
            },
        ],
        unions: vec![],
        structs: vec![],
    };

    let mut model_set = SemanticModel::new("set_val".to_string());
    model_set.local_union_transforms.push(UnionTransform {
        union_name: "Data".to_string(),
        enum_name: "DataEnum".to_string(),
        local_variant_resolved: Some("i".to_string()),
    });

    let mut model_read = SemanticModel::new("read_val".to_string());
    model_read.unresolved_union_cases.push(UnresolvedUnionCase {
        union_name: "Data".to_string(),
        function_name: "read_val".to_string(),
    });

    let mut models = NameMap::new();
    models.insert("set_val".to_string(), model_set);
    models.insert("read_val".to_string(), model_read);

    let cross_resolutions = track_cross_function_union_variants(&tu_ast, &models);
    assert_eq!(cross_resolutions.get("read_val:Data"), Some(&"i".to_string())); // Idiom 5 resolved!
}
