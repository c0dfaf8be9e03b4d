use c2saferust::module1_validation::SourceRead;
use c2saferust::module5_codegen::CodegenResult;
use c2saferust::module6_repair::RepairResult;
use c2saferust::module7_gui::gui_app::{C2SafeRustApp, StatusTone};
use c2saferust::module7_gui::pipeline::PipelineStart;
use c2saferust::name_map::NameMap;

const SOURCE: &str = "void helper(int **p) {\n    free(*p);\n}\n\nint main() {\n    int *q = malloc(4);\n    helper(&q);\n    return 0;\n}\n";

fn analysed() -> c2saferust::module7_gui::pipeline::AnalysedUnit {
    let start = PipelineStart::new("prog.c".to_string());
    let awaiting = match start.on_source_read(SourceRead::Bytes(SOURCE.as_bytes().to_vec())) {
        Ok(a) => a,
        Err(r) => panic!("{}", r.status_message),
    };
    assert!(!awaiting.parse_would_panic(&None));
    let parsed = match awaiting.on_preprocessor_output(None) {
        Ok(p) => p,
        Err(r) => panic!("{}", r.status_message),
    };
    assert_eq!(parsed.ast().functions.len(), 2);
    parsed.analyze()
}

#[test]
fn pipeline_stops_at_validation() {
    let start = PipelineStart::new("prog.txt".to_string());
    match start.on_source_read(SourceRead::Bytes(b"int x;".to_vec())) {
        Ok(_) => panic!("expected a refusal"),
        Err(r) => {
            assert!(r.is_error);
            assert!(r.status_message.starts_with("❌ Validation Error: Invalid Extension Error: "));
        }
    }
}

#[test]
fn pipeline_runs_through_every_stage() {
    let analysed = analysed();
    assert_eq!(analysed.semantic_models().len(), 2);
    let codegen = CodegenResult {
        generated_rust_code: "pub fn main() {}".to_string(),
        output_file_path: "output.rs".to_string(),
        ownership_maps: NameMap::new(),
    };
    let generated = match analysed.on_code_generated(Ok(codegen)) {
        Ok(g) => g,
        Err(r) => panic!("{}", r.status_message),
    };
    assert_eq!(generated.c_source(), SOURCE);
    assert_eq!(generated.output_file_path(), "output.rs");
    let result = generated.on_repaired(Ok(RepairResult {
        final_success: true,
        iterations_used: 1,
        repair_logs: vec![],
        final_rust_code: "pub fn main() {}".to_string(),
    }));
    assert!(result.is_success);
    assert!(!result.is_error);
    assert_eq!(result.func_count, 2);
    assert_eq!(result.call_nodes, 2);
    assert_eq!(result.call_edges, 1);
    assert!(result.idioms_status_display[1].2); // ownership consumed through T**
    assert_eq!(result.status_message, "✅ Transpilation & Compiler Verification Succeeded!");
}

#[test]
fn pipeline_reports_codegen_failure() {
    let analysed = analysed();
    match analysed.on_code_generated(Err("no synthesizer".to_string())) {
        Ok(_) => panic!("expected a failure"),
        Err(r) => {
            assert_eq!(r.markdown_report_text, "# Codegen Error\n\nno synthesizer");
            assert_eq!(r.func_count, 2);
            assert_eq!(r.c_lines, 9);
        }
    }
}

#[test]
fn status_tones() {
    let mut app = C2SafeRustApp::default();
    assert_eq!(app.status_tone(), StatusTone::Neutral);
    app.is_error = true;
    assert_eq!(app.status_tone(), StatusTone::Failed);
    app.is_success = true;
    assert_eq!(app.status_tone(), StatusTone::Succeeded);
    app.is_transpiling = true;
    assert_eq!(app.status_tone(), StatusTone::Running);
}
