use c2saferust::module1_validation::{ValidatedCSource, ValidationError};
use c2saferust::module2_ast::ast_parser::TranslationUnitAST;
use c2saferust::data_stores::interprocedural_summaries::InterproceduralSummaries;
use c2saferust::module6_repair::RepairResult;
use c2saferust::module7_gui::gui_app::{
    later_stage_failed, parsing_failed, pipeline_finished, validation_failed, C2SafeRustApp,
    TranspileStart,
};
use c2saferust::module7_gui::highlight::{
    line_class, token_class, tokenize_code_line, LineClass, TokenClass,
};
use c2saferust::name_map::NameMap;

#[test]
fn tokens_of_a_line() {
    assert_eq!(
        tokenize_code_line("int *p_1 = x;"),
        vec!["int", " ", "*", "p_1", " ", "=", " ", "x", ";"]
    );
    assert!(tokenize_code_line("").is_empty());
    let line = "fn main() { let v: Vec<u8> = vec![]; }";
    assert_eq!(tokenize_code_line(line).concat(), line);
}

#[test]
fn token_classes() {
    assert_eq!(token_class("int"), TokenClass::Keyword);
    assert_eq!(token_class("Option"), TokenClass::Keyword);
    assert_eq!(token_class("usize"), TokenClass::TypeName);
    assert_eq!(token_class("malloc"), TokenClass::KnownFunction);
    assert_eq!(token_class("42"), TokenClass::Number);
    assert_eq!(token_class(" "), TokenClass::Number);
    assert_eq!(token_class("*"), TokenClass::PointerOperator);
    assert_eq!(token_class("x"), TokenClass::Plain);
}

#[test]
fn line_classes() {
    assert_eq!(line_class("  // note"), LineClass::Comment);
    assert_eq!(line_class(" * more"), LineClass::Comment);
    assert_eq!(line_class("#include <x.h>"), LineClass::Directive);
    assert_eq!(line_class("int x;"), LineClass::Code);
}

#[test]
fn viewer_loads_and_starts() {
    let mut app = C2SafeRustApp::default();
    app.file_path_input = "a.c".to_string();
    app.load_file_contents(Some("int x;\nint y;\n".to_string()));
    assert_eq!(app.c_lines, 2);
    assert_eq!(app.c_bytes, 14);
    assert!(!app.is_error);
    assert_eq!(
        app.status_message,
        "📂 Loaded C file 'a.c' (2 lines, 14 bytes). Click '▶ Run Transpilation' to transpile."
    );
    assert_eq!(app.begin_transpilation(false), TranspileStart::ReloadFile);
    assert!(!app.is_transpiling);
    assert_eq!(app.begin_transpilation(true), TranspileStart::Started);
    assert!(app.is_transpiling);
    assert_eq!(app.begin_transpilation(true), TranspileStart::AlreadyRunning);
    app.load_file_contents(None);
    assert!(app.is_error);
    assert_eq!(app.original_c_code, "// Error: File not found or unable to read at 'a.c'");
    assert_eq!(app.status_message, "⚠️ File not found or unreadable: 'a.c'");
}

fn validated() -> ValidatedCSource {
    ValidatedCSource {
        file_path: "p.c".to_string(),
        raw_content: "int main() {}".to_string(),
        line_count: 1,
        byte_size: 13,
    }
}

#[test]
fn pipeline_failures() {
    let r = validation_failed("p.c", &ValidationError::EmptyFile("e".to_string()));
    assert!(r.is_error);
    assert_eq!(r.markdown_report_text, "# Validation Error\n\nEmpty File Error: e");
    assert_eq!(r.status_message, "❌ Validation Error: Empty File Error: e");
    assert_eq!(r.original_c_code, "");
    let v = validated();
    let r = parsing_failed("p.c", &v, "bad");
    assert_eq!(r.markdown_report_text, "# AST Error\n\nbad");
    assert_eq!(r.c_bytes, 13);
    let r = later_stage_failed("p.c", &v, &TranslationUnitAST::new(), "Repair Loop", "io");
    assert_eq!(r.status_message, "❌ Repair Loop Error: io");
    assert_eq!(r.func_count, 0);
}

#[test]
fn pipeline_result_reaches_viewer() {
    let v = validated();
    let repair = RepairResult {
        final_success: false,
        iterations_used: 3,
        repair_logs: vec![],
        final_rust_code: "fn f() {}".to_string(),
    };
    let r = pipeline_finished(
        "p.c",
        &v,
        &TranslationUnitAST::new(),
        &NameMap::new(),
        &InterproceduralSummaries::new(),
        &repair,
    );
    assert!(!r.is_error);
    assert_eq!(r.status_message, "⚠️ Transpilation Completed (Repair Iterations: 3).");
    assert_eq!(r.idioms_status_display.len(), 6);
    assert_eq!(r.generated_rust_code, "fn f() {}");
    let mut app = C2SafeRustApp::default();
    app.is_transpiling = true;
    app.receive_pipeline_result(r);
    assert!(!app.is_transpiling);
    assert_eq!(app.repair_iterations, 3);
    assert_eq!(app.generated_rust_code, "fn f() {}");
}
