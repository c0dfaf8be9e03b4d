use c2saferust::data_stores::semantic_models::MemoryPattern;
use c2saferust::module2_ast::ast_parser::ParameterAST;
use c2saferust::module3_semantic::base_analyser::analyze_function_base;
use c2saferust::data_stores::semantic_models::{SemanticModel, UnionTransform, UnresolvedUnionCase};
use c2saferust::module2_ast::ast_parser::{CallSiteAST, FunctionAST, TranslationUnitAST};
use c2saferust::module3_semantic::union_transformer::capitalize;
use c2saferust::module4_interprocedural::{
    analyze_interprocedural_aliasing, build_call_graph, track_cross_function_union_variants,
};
use c2saferust::name_map::NameMap;

fn func(name: &str, calls: Vec<(&str, Vec<&str>, usize)>) -> FunctionAST {
    FunctionAST {
        name: name.to_string(),
        return_type: "void".to_string(),
        parameters: vec![],
        body_code: String::new(),
        call_sites: calls
            .into_iter()
            .map(|(c, args, line)| CallSiteAST {
                callee: c.to_string(),
                arguments: args.into_iter().map(|a| a.to_string()).collect(),
                line,
            })
            .collect(),
    }
}

#[test]
fn call_graph_skips_unknown_callees() {
    let tu = TranslationUnitAST {
        functions: vec![
            func("main", vec![("helper", vec![], 3), ("printf", vec!["\"x\""], 4), ("main", vec![], 5)]),
            func("helper", vec![("helper", vec![], 9)]),
        ],
        unions: vec![],
        structs: vec![],
    };
    let g = build_call_graph(&tu);
    assert_eq!(g.node_count(), 2);
    assert_eq!(g.edge_count(), 3);
    assert_eq!(g.node_indices.get("main"), Some(&0));
    assert_eq!(g.node_indices.get("helper"), Some(&1));
}

#[test]
fn verdicts_cover_every_pair() {
    let tu = TranslationUnitAST {
        functions: vec![func("main", vec![("f", vec!["a", "&a", "b", "*a"], 7)])],
        unions: vec![],
        structs: vec![],
    };
    let verdicts = analyze_interprocedural_aliasing(&tu);
    let row = verdicts.get("main:f:7").unwrap();
    assert_eq!(row.len(), 6);
    assert!(row[0].aliases); // a, &a
    assert!(!row[1].aliases); // a, b
    assert!(row[2].aliases); // a, *a
    assert_eq!(row[3].arg1, "&a");
    assert_eq!(row[3].arg2, "b");
}

#[test]
fn capitalize_first_letter() {
    assert_eq!(capitalize("data"), "Data");
    assert_eq!(capitalize("ßx"), "SSx");
    assert_eq!(capitalize(""), "");
}

#[test]
fn union_variant_needs_another_function() {
    let tu = TranslationUnitAST {
        functions: vec![func("only", vec![])],
        unions: vec![],
        structs: vec![],
    };
    let mut m = SemanticModel::new("only".to_string());
    m.local_union_transforms.push(UnionTransform {
        union_name: "U".to_string(),
        enum_name: "UEnum".to_string(),
        local_variant_resolved: Some("i".to_string()),
    });
    m.unresolved_union_cases.push(UnresolvedUnionCase {
        union_name: "U".to_string(),
        function_name: "only".to_string(),
    });
    let mut models = NameMap::new();
    models.insert("only".to_string(), m);
    let r = track_cross_function_union_variants(&tu, &models);
    assert!(r.is_empty());
}

fn flags_for(body: &str) -> Vec<c2saferust::data_stores::interprocedural_summaries::DataDepFlag> {
    let tu = TranslationUnitAST {
        functions: vec![FunctionAST {
            name: "f".to_string(),
            return_type: "void".to_string(),
            parameters: vec![],
            body_code: body.to_string(),
            call_sites: vec![],
        }],
        unions: vec![],
        structs: vec![],
    };
    let mut model = SemanticModel::new("f".to_string());
    model.memory_patterns.insert("p".to_string(), MemoryPattern::Free);
    let mut models = NameMap::new();
    models.insert("f".to_string(), model);
    c2saferust::module4_interprocedural::detect_data_dependent_ownership(&tu, &models)
}

#[test]
fn unconditional_free_is_not_flagged() {
    assert!(flags_for("int *p = malloc(10);\nfree(p);\nif (n) {\n  n = 0;\n}").is_empty());
}

#[test]
fn guarded_frees_are_flagged() {
    let f = flags_for("if (n)\n  free(p);");
    assert_eq!(f.len(), 1);
    assert_eq!(
        f[0].reason,
        "Ownership pattern 'Free' for variable 'p' is conditioned on runtime control flow: 'if (n)'"
    );
    let f = flags_for("if (n) {\n  n = 0;\n} else {\n  free(p);\n}");
    assert_eq!(f.len(), 1);
    assert!(f[0].reason.ends_with("'if (n) {'"));
    let f = flags_for("switch (k)\n{\n  case 1: free(p); break;\n}");
    assert_eq!(f.len(), 1);
    assert!(f[0].reason.ends_with("'switch (k)'"));
    assert!(flags_for("if (n) n = 0;\nfree(p);").is_empty());
}

#[test]
fn use_columns_count_bytes() {
    let func = FunctionAST {
        name: "g".to_string(),
        return_type: "void".to_string(),
        parameters: vec![ParameterAST {
            name: "p".to_string(),
            c_type: "int".to_string(),
            pointer_depth: 1,
            is_union: false,
        }],
        body_code: "é = p;".to_string(),
        call_sites: vec![],
    };
    let m = analyze_function_base(&func);
    let uses = m.def_use_chains.get("p").unwrap();
    assert_eq!(uses[0].line, 1);
    assert_eq!(uses[0].column, 6);
}

#[test]
fn chain_patterns_change_only_multi_level_names() {
    let param = |n: &str, d: usize| ParameterAST {
        name: n.to_string(),
        c_type: "int".to_string(),
        pointer_depth: d,
        is_union: false,
    };
    let func = FunctionAST {
        name: "h".to_string(),
        return_type: "void".to_string(),
        parameters: vec![param("pp", 2), param("q", 1), param("w", 3)],
        body_code: "free(*pp);\n**q = 1;\n**w = 2;".to_string(),
        call_sites: vec![],
    };
    let mut model = SemanticModel::new("h".to_string());
    model.memory_patterns.insert("q".to_string(), MemoryPattern::Read);
    c2saferust::module3_semantic::pointer_chain::analyze_pointer_chains(&func, &mut model);
    assert!(matches!(model.memory_patterns.get("pp"), Some(MemoryPattern::Free)));
    assert!(matches!(model.memory_patterns.get("q"), Some(MemoryPattern::Read)));
    assert!(matches!(model.memory_patterns.get("w"), Some(MemoryPattern::Write)));
    assert_eq!(model.memory_patterns.len(), 3);
}

#[test]
fn resolution_keys_are_unresolved_cases_resolved_elsewhere() {
    let tu = TranslationUnitAST {
        functions: vec![func("a", vec![]), func("b", vec![]), func("c", vec![])],
        unions: vec![],
        structs: vec![],
    };
    let mut ma = SemanticModel::new("a".to_string());
    ma.local_union_transforms.push(UnionTransform {
        union_name: "U".to_string(),
        enum_name: "UEnum".to_string(),
        local_variant_resolved: Some("x".to_string()),
    });
    let mut mb = SemanticModel::new("b".to_string());
    for u in ["U", "V"] {
        mb.unresolved_union_cases.push(UnresolvedUnionCase {
            union_name: u.to_string(),
            function_name: "b".to_string(),
        });
    }
    let mut models = NameMap::new();
    models.insert("a".to_string(), ma);
    models.insert("b".to_string(), mb);
    let r = track_cross_function_union_variants(&tu, &models);
    assert_eq!(r.len(), 1);
    assert_eq!(r.get("b:U"), Some(&"x".to_string()));
    assert_eq!(r.get("b:V"), None);
}

#[test]
fn else_inside_a_name_is_no_conditional() {
    assert!(flags_for("else;\nfree(p);").is_empty());
    assert!(flags_for("int *elsebuf = malloc(8);\nfree(p);").is_empty());
    let f = flags_for("if (a) {\n} else if (b)\n  free(p);");
    assert_eq!(f.len(), 1);
    assert!(f[0].reason.ends_with("'} else if (b)'"));
}
