use c2saferust::module6_repair::compiler_loop::{
    compilation_result, compiler_launch_failure, RustcDiagnosticCode, RustcDiagnosticMessage,
};
use c2saferust::module6_repair::diagnostic_packager::package_diagnostics;
use c2saferust::module6_repair::llm_client::{
    choose_proposal, extract_rust_code_block, fallback_rule_based_repair, gemini_endpoint,
    key_from_dotenv, proposal_from_reply, repair_api_key, repair_prompt, PatchProposal,
};
use c2saferust::module6_repair::patch_applier::patch_log_entry;
use c2saferust::module6_repair::{RepairLoop, RepairStep};

fn diag(level: &str, code: Option<&str>, message: &str) -> RustcDiagnosticMessage {
    RustcDiagnosticMessage {
        message: message.to_string(),
        code: code.map(|c| RustcDiagnosticCode { code: c.to_string() }),
        level: level.to_string(),
        spans: vec![],
    }
}

#[test]
fn test_diagnostic_packaging() {
    let pkg = package_diagnostics("int main() { return 0; }", "fn main() {}", &[], 1);
    assert_eq!(pkg.iteration_number, 1);
    assert_eq!(pkg.original_c_source, "int main() { return 0; }");
}

#[test]
fn test_extract_rust_code_block() {
    let input = "Here is the code:\n```rust\nfn main() {}\n```\nHope this helps!";
    let extracted = extract_rust_code_block(input);
    assert_eq!(extracted, Some("fn main() {}".to_string()));
}

#[test]
fn packaging_formats_each_diagnostic() {
    let ds = vec![diag("error", Some("E0308"), "mismatched types"), diag("warning", None, "unused")];
    let pkg = package_diagnostics("c", "r", &ds, 2);
    assert_eq!(pkg.compiler_error_messages, vec!["[E0308] mismatched types", "[] unused"]);
    assert_eq!(pkg.structured_diagnostics.len(), 2);
    assert_eq!(pkg.candidate_rust_code, "r");
}

#[test]
fn extract_plain_fence_and_unclosed() {
    assert_eq!(extract_rust_code_block("a ```\n x \n``` b"), Some("x".to_string()));
    assert_eq!(extract_rust_code_block("```rust\nfn f() {}"), None);
    assert_eq!(extract_rust_code_block("no code"), None);
}

#[test]
fn compilation_counts_errors() {
    let ds = vec![diag("error", None, "a"), diag("warning", None, "b"), diag("error", None, "c")];
    let r = compilation_result(true, "out".to_string(), ds);
    assert_eq!(r.error_count, 2);
    assert!(!r.success);
    let clean = compilation_result(true, String::new(), vec![diag("warning", None, "w")]);
    assert!(clean.success);
    assert_eq!(clean.error_count, 0);
    let failed_status = compilation_result(false, String::new(), vec![]);
    assert!(!failed_status.success);
}

#[test]
fn launch_failure_result() {
    let r = compiler_launch_failure("not found");
    assert!(!r.success);
    assert_eq!(r.error_count, 1);
    assert_eq!(r.raw_output, "Failed to execute rustc: not found");
}

#[test]
fn fallback_drops_c_headers() {
    let pkg = package_diagnostics("c", "void f() {\n  let x = 1;\n  int main() {\n}", &[], 1);
    let p = fallback_rule_based_repair(&pkg);
    assert_eq!(p.patched_rust_code, "  let x = 1;\n}");
    assert_eq!(p.source, "Rule-Based-Fallback");
    assert_eq!(p.explanation, "Applied syntax normalization and rule-based repair fallback.");
}

#[test]
fn reply_becomes_proposal() {
    assert_eq!(
        proposal_from_reply(String::new()).unwrap_err(),
        "Gemini API returned empty text response."
    );
    let p = proposal_from_reply("```rust\nfn a() {}\n```".to_string()).unwrap();
    assert_eq!(p.patched_rust_code, "fn a() {}");
    assert_eq!(p.source, "Gemini-LLM-API");
    let q = proposal_from_reply("fn b() {}".to_string()).unwrap();
    assert_eq!(q.patched_rust_code, "fn b() {}");
}

#[test]
fn proposal_choice_prefers_model_reply() {
    let pkg = package_diagnostics("c", "void x();\nfn y() {}", &[], 1);
    let model = PatchProposal {
        patched_rust_code: "fn z() {}".to_string(),
        explanation: "e".to_string(),
        source: "s".to_string(),
    };
    assert_eq!(choose_proposal(&pkg, Some(Ok(model))).patched_rust_code, "fn z() {}");
    assert_eq!(choose_proposal(&pkg, Some(Err("down".to_string()))).patched_rust_code, "fn y() {}");
    assert_eq!(choose_proposal(&pkg, None).source, "Rule-Based-Fallback");
}

#[test]
fn api_key_sources() {
    assert_eq!(key_from_dotenv("A=1\n  GEMINI_API_KEY= abc \n"), Some("abc".to_string()));
    assert_eq!(key_from_dotenv("GEMINI_API_KEY=\nGEMINI_API_KEY=x"), Some("x".to_string()));
    assert_eq!(key_from_dotenv("nothing"), None);
    assert_eq!(repair_api_key(Some("k".to_string()), None), Some("k".to_string()));
    assert_eq!(repair_api_key(Some("  ".to_string()), Some("GEMINI_API_KEY=d".to_string())), None);
    assert_eq!(repair_api_key(None, Some("GEMINI_API_KEY=d".to_string())), Some("d".to_string()));
}

#[test]
fn endpoint_and_prompt() {
    assert_eq!(
        gemini_endpoint("K"),
        "https://generativelanguage.googleapis.com/v1beta/models/gemini-3.6-flash:generateContent?key=K"
    );
    let ds = vec![diag("error", Some("E1"), "m1"), diag("error", None, "m2")];
    let pkg = package_diagnostics("C SRC", "RS", &ds, 1);
    let prompt = repair_prompt(&pkg);
    assert!(prompt.contains("=== Original C Source ===\nC SRC\n\n=== Candidate Rust Code ===\nRS"));
    assert!(prompt.contains("=== rustc Diagnostic Errors ===\n[E1] m1\n[] m2\n\nPlease provide"));
}

#[test]
fn repair_loop_succeeds_first_try() {
    let st = RepairLoop::start("c".to_string(), "fn a() {}".to_string(), 3);
    let ok = compilation_result(true, String::new(), vec![]);
    match st.on_compiled(&ok, Some("fn a2() {}".to_string())) {
        RepairStep::Done(r) => {
            assert!(r.final_success);
            assert_eq!(r.iterations_used, 1);
            assert!(r.repair_logs.is_empty());
            assert_eq!(r.final_rust_code, "fn a2() {}");
        }
        RepairStep::Patch(_) => panic!("expected the loop to finish"),
    }
}

#[test]
fn repair_loop_exhausts_iterations() {
    let mut st = RepairLoop::start("c".to_string(), "bad".to_string(), 2);
    let failed = || compilation_result(true, String::new(), vec![diag("error", None, "e")]);
    for expected_iteration in 1..=2usize {
        assert_eq!(st.iteration(), expected_iteration);
        match st.on_compiled(&failed(), None) {
            RepairStep::Patch(p) => {
                assert_eq!(p.request().iteration_number, expected_iteration);
                let proposal = PatchProposal {
                    patched_rust_code: format!("v{}", expected_iteration),
                    explanation: "x".to_string(),
                    source: "s".to_string(),
                };
                st = p.apply(&proposal);
            }
            RepairStep::Done(_) => panic!("expected a patch request"),
        }
    }
    match st.on_compiled(&failed(), None) {
        RepairStep::Done(r) => {
            assert!(!r.final_success);
            assert_eq!(r.iterations_used, 2);
            assert_eq!(r.repair_logs.len(), 2);
            assert_eq!(r.repair_logs[1].iteration, 2);
            assert_eq!(r.final_rust_code, "v2");
        }
        RepairStep::Patch(_) => panic!("expected the final check"),
    }
}

#[test]
fn log_entry_of_patch() {
    let p = PatchProposal {
        patched_rust_code: "x".to_string(),
        explanation: "why".to_string(),
        source: "unit_test".to_string(),
    };
    let e = patch_log_entry(&p, 4);
    assert_eq!(e.iteration, 4);
    assert_eq!(e.patch_source, "unit_test");
    assert_eq!(e.explanation, "why");
    assert!(!e.compilation_successful);
}

#[test]
fn repair_loop_without_iterations_counts_none() {
    let st = RepairLoop::start("c".to_string(), "fn a() {}".to_string(), 0);
    let ok = compilation_result(true, String::new(), vec![]);
    match st.on_compiled(&ok, None) {
        RepairStep::Done(r) => {
            assert!(r.final_success);
            assert_eq!(r.iterations_used, 0);
            assert!(r.repair_logs.is_empty());
            assert_eq!(r.final_rust_code, "fn a() {}");
        }
        RepairStep::Patch(_) => panic!("expected the loop to finish"),
    }
}
