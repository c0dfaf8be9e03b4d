//! The state of the viewer and the results of the transpilation pipeline
//! that it shows.
use vstd::prelude::*;

use crate::data_stores::interprocedural_summaries::InterproceduralSummaries;
use crate::data_stores::semantic_models::SemanticModel;
use crate::module1_validation::{ValidatedCSource, ValidationError};
use crate::module2_ast::ast_parser::TranslationUnitAST;
use crate::module6_repair::patch_applier::LogModel;
use crate::module6_repair::RepairResult;
use crate::module7_gui::report_assembler::{
    assemble_translation_report, spec_report, IdiomModel, ReportModel,
};
use crate::name_map::NameMap;
use crate::text::{chars_of, decimal, decimal_exec, lines, lines_of_str, push_all, string_of};

verus! {

broadcast use vstd::string::group_string_axioms;

/// What one run of the pipeline gives the viewer.
#[derive(Debug)]
pub struct PipelineResult {
    pub file_path: String,
    pub original_c_code: String,
    pub generated_rust_code: String,
    pub markdown_report_text: String,
    pub c_lines: usize,
    pub c_bytes: usize,
    pub func_count: usize,
    pub call_nodes: usize,
    pub call_edges: usize,
    pub repair_iterations: usize,
    /// `(number, name, detected, resolution)` of each idiom.
    pub idioms_status_display: Vec<(usize, String, bool, String)>,
    /// `(iteration, source, note)` of each repair.
    pub repair_logs: Vec<(usize, String, String)>,
    pub is_success: bool,
    pub is_error: bool,
    pub status_message: String,
}

/// The value a `PipelineResult` stands for.
pub ghost struct PipelineModel {
    pub file_path: Seq<char>,
    pub original_c_code: Seq<char>,
    pub generated_rust_code: Seq<char>,
    pub markdown_report_text: Seq<char>,
    pub c_lines: usize,
    pub c_bytes: usize,
    pub func_count: usize,
    pub call_nodes: usize,
    pub call_edges: usize,
    pub repair_iterations: usize,
    pub idioms_status_display: Seq<(usize, Seq<char>, bool, Seq<char>)>,
    pub repair_logs: Seq<(usize, Seq<char>, Seq<char>)>,
    pub is_success: bool,
    pub is_error: bool,
    pub status_message: Seq<char>,
}

impl DeepView for PipelineResult {
    type V = PipelineModel;

    open spec fn deep_view(&self) -> PipelineModel {
        PipelineModel {
            file_path: self.file_path@,
            original_c_code: self.original_c_code@,
            generated_rust_code: self.generated_rust_code@,
            markdown_report_text: self.markdown_report_text@,
            c_lines: self.c_lines,
            c_bytes: self.c_bytes,
            func_count: self.func_count,
            call_nodes: self.call_nodes,
            call_edges: self.call_edges,
            repair_iterations: self.repair_iterations,
            idioms_status_display: self.idioms_status_display.deep_view(),
            repair_logs: self.repair_logs.deep_view(),
            is_success: self.is_success,
            is_error: self.is_error,
            status_message: self.status_message@,
        }
    }
}

// ---------------------------------------------------------------------
// Results of the pipeline
// ---------------------------------------------------------------------

/// The result of a run that stopped at stage `stage` with `error`: the
/// report and the status name the stage and give the error.
pub open spec fn failure_model(
    file_path: Seq<char>,
    original_c_code: Seq<char>,
    c_lines: usize,
    c_bytes: usize,
    func_count: usize,
    stage: Seq<char>,
    error: Seq<char>,
) -> PipelineModel {
    PipelineModel {
        file_path,
        original_c_code,
        generated_rust_code: seq![],
        markdown_report_text: "# "@ + stage + " Error\n\n"@ + error,
        c_lines,
        c_bytes,
        func_count,
        call_nodes: 0,
        call_edges: 0,
        repair_iterations: 0,
        idioms_status_display: seq![],
        repair_logs: seq![],
        is_success: false,
        is_error: true,
        status_message: "❌ "@ + stage + " Error: "@ + error,
    }
}

fn failure(
    file_path: &str,
    original_c_code: String,
    c_lines: usize,
    c_bytes: usize,
    func_count: usize,
    stage: &str,
    error: &str,
) -> (res: PipelineResult)
    ensures
        res.deep_view() == failure_model(
            file_path@,
            original_c_code@,
            c_lines,
            c_bytes,
            func_count,
            stage@,
            error@,
        ),
{
    let mut report = chars_of("# ");
    let st = chars_of(stage);
    push_all(&mut report, &st);
    let e1 = chars_of(" Error\n\n");
    push_all(&mut report, &e1);
    let er = chars_of(error);
    push_all(&mut report, &er);
    let mut status = chars_of("❌ ");
    push_all(&mut status, &st);
    let e2 = chars_of(" Error: ");
    push_all(&mut status, &e2);
    push_all(&mut status, &er);
    let idioms: Vec<(usize, String, bool, String)> = Vec::new();
    let logs: Vec<(usize, String, String)> = Vec::new();
    assert(idioms.deep_view() =~= Seq::<(usize, Seq<char>, bool, Seq<char>)>::empty());
    assert(logs.deep_view() =~= Seq::<(usize, Seq<char>, Seq<char>)>::empty());
    proof {
        reveal_strlit("");
    }
    PipelineResult {
        file_path: file_path.to_string(),
        original_c_code,
        generated_rust_code: String::new(),
        markdown_report_text: string_of(&report),
        c_lines,
        c_bytes,
        func_count,
        call_nodes: 0,
        call_edges: 0,
        repair_iterations: 0,
        idioms_status_display: idioms,
        repair_logs: logs,
        is_success: false,
        is_error: true,
        status_message: string_of(&status),
    }
}

/// The result when the input file was refused: nothing was read into the
/// pipeline.
pub fn validation_failed(file_path: &str, err: &ValidationError) -> (res: PipelineResult)
    ensures
        res.deep_view() == failure_model(
            file_path@,
            seq![],
            0,
            0,
            0,
            "Validation"@,
            crate::module1_validation::spec_error_message(err.deep_view()),
        ),
{
    let msg = err.message();
    failure(file_path, String::new(), 0, 0, 0, "Validation", msg.as_str())
}

/// The result when preprocessing or parsing failed.
pub fn parsing_failed(file_path: &str, validated: &ValidatedCSource, error: &str) -> (res:
    PipelineResult)
    ensures
        res.deep_view() == failure_model(
            file_path@,
            validated.raw_content@,
            validated.line_count,
            validated.byte_size,
            0,
            "AST"@,
            error@,
        ),
{
    failure(
        file_path,
        validated.raw_content.clone(),
        validated.line_count,
        validated.byte_size,
        0,
        "AST",
        error,
    )
}

/// The result when a stage after parsing failed: `Codegen` or `Repair
/// Loop`.
pub fn later_stage_failed(
    file_path: &str,
    validated: &ValidatedCSource,
    tu_ast: &TranslationUnitAST,
    stage: &str,
    error: &str,
) -> (res: PipelineResult)
    ensures
        res.deep_view() == failure_model(
            file_path@,
            validated.raw_content@,
            validated.line_count,
            validated.byte_size,
            tu_ast.functions@.len() as usize,
            stage@,
            error@,
        ),
{
    failure(
        file_path,
        validated.raw_content.clone(),
        validated.line_count,
        validated.byte_size,
        tu_ast.functions.len(),
        stage,
        error,
    )
}

/// An idiom as the viewer lists it.
pub open spec fn idiom_row(i: IdiomModel) -> (usize, Seq<char>, bool, Seq<char>) {
    (i.idiom_number, i.name, i.detected, i.resolution)
}

/// A repair as the viewer lists it.
pub open spec fn log_row(l: LogModel) -> (usize, Seq<char>, Seq<char>) {
    (l.iteration, l.patch_source, l.explanation)
}

/// The status line of a finished run.
pub open spec fn finished_status(success: bool, iterations: usize) -> Seq<char> {
    if success {
        "✅ Transpilation & Compiler Verification Succeeded!"@
    } else {
        "⚠️ Transpilation Completed (Repair Iterations: "@ + decimal(iterations as nat) + ")."@
    }
}

/// The result of a run that went through every stage, from its report.
pub open spec fn success_model(
    file_path: Seq<char>,
    original_c_code: Seq<char>,
    report: ReportModel,
    logs: Seq<LogModel>,
) -> PipelineModel {
    PipelineModel {
        file_path,
        original_c_code,
        generated_rust_code: report.final_rust_code,
        markdown_report_text: report.formatted_markdown_report,
        c_lines: report.c_lines,
        c_bytes: report.c_bytes,
        func_count: report.functions_count,
        call_nodes: report.call_graph_nodes,
        call_edges: report.call_graph_edges,
        repair_iterations: report.repair_iterations,
        idioms_status_display: report.idioms_summary.map_values(|i: IdiomModel| idiom_row(i)),
        repair_logs: logs.map_values(|l: LogModel| log_row(l)),
        is_success: report.compilation_successful,
        is_error: false,
        status_message: finished_status(report.compilation_successful, report.repair_iterations),
    }
}

/// The result of a run that went through every stage: the translation
/// report, and the idioms and repairs as the viewer lists them.
pub fn pipeline_finished(
    file_path: &str,
    validated: &ValidatedCSource,
    tu_ast: &TranslationUnitAST,
    semantic_models: &NameMap<SemanticModel>,
    summaries: &InterproceduralSummaries,
    repair_res: &RepairResult,
) -> (res: PipelineResult)
    ensures
        res.deep_view() == success_model(
            file_path@,
            validated.raw_content@,
            spec_report(
                validated.deep_view(),
                tu_ast.deep_view(),
                summaries.deep_view(),
                repair_res.deep_view(),
            ),
            repair_res.repair_logs.deep_view(),
        ),
{
    let report = assemble_translation_report(
        validated,
        tu_ast,
        semantic_models,
        summaries,
        repair_res,
    );
    let ghost rm = report.deep_view();
    let mut idioms: Vec<(usize, String, bool, String)> = Vec::new();
    let mut k: usize = 0;
    while k < report.idioms_summary.len()
        invariant
            k <= report.idioms_summary@.len(),
            rm == report.deep_view(),
            idioms.deep_view() == rm.idioms_summary.take(k as int).map_values(
                |i: IdiomModel| idiom_row(i),
            ),
        decreases report.idioms_summary@.len() - k,
    {
        let i = &report.idioms_summary[k];
        let row = (i.idiom_number, i.name.clone(), i.detected, i.resolution.clone());
        let ghost before = idioms.deep_view();
        idioms.push(row);
        assert(idioms.deep_view() =~= before.push(row.deep_view()));
        assert(rm.idioms_summary.take(k + 1) =~= rm.idioms_summary.take(k as int).push(
            rm.idioms_summary[k as int],
        ));
        assert(rm.idioms_summary.take(k + 1).map_values(|i: IdiomModel| idiom_row(i))
            =~= rm.idioms_summary.take(k as int).map_values(|i: IdiomModel| idiom_row(i)).push(
            idiom_row(rm.idioms_summary[k as int]),
        ));
        k += 1;
    }
    assert(rm.idioms_summary.take(rm.idioms_summary.len() as int) =~= rm.idioms_summary);
    let ghost ls = repair_res.repair_logs.deep_view();
    let mut logs: Vec<(usize, String, String)> = Vec::new();
    let mut k: usize = 0;
    while k < repair_res.repair_logs.len()
        invariant
            k <= repair_res.repair_logs@.len(),
            ls == repair_res.repair_logs.deep_view(),
            logs.deep_view() == ls.take(k as int).map_values(|l: LogModel| log_row(l)),
        decreases repair_res.repair_logs@.len() - k,
    {
        let l = &repair_res.repair_logs[k];
        let row = (l.iteration, l.patch_source.clone(), l.explanation.clone());
        let ghost before = logs.deep_view();
        logs.push(row);
        assert(logs.deep_view() =~= before.push(row.deep_view()));
        assert(ls.take(k + 1) =~= ls.take(k as int).push(ls[k as int]));
        assert(ls.take(k + 1).map_values(|l: LogModel| log_row(l)) =~= ls.take(
            k as int,
        ).map_values(|l: LogModel| log_row(l)).push(log_row(ls[k as int])));
        k += 1;
    }
    assert(ls.take(ls.len() as int) =~= ls);
    let status_message = if report.compilation_successful {
        String::from_str("✅ Transpilation & Compiler Verification Succeeded!")
    } else {
        let mut v = chars_of("⚠️ Transpilation Completed (Repair Iterations: ");
        let d = decimal_exec(report.repair_iterations);
        push_all(&mut v, &d);
        let close = chars_of(").");
        push_all(&mut v, &close);
        string_of(&v)
    };
    let res = PipelineResult {
        file_path: file_path.to_string(),
        original_c_code: validated.raw_content.clone(),
        generated_rust_code: report.final_rust_code.clone(),
        markdown_report_text: report.formatted_markdown_report.clone(),
        c_lines: report.c_lines,
        c_bytes: report.c_bytes,
        func_count: report.functions_count,
        call_nodes: report.call_graph_nodes,
        call_edges: report.call_graph_edges,
        repair_iterations: report.repair_iterations,
        idioms_status_display: idioms,
        repair_logs: logs,
        is_success: report.compilation_successful,
        is_error: false,
        status_message,
    };
    res
}

// ---------------------------------------------------------------------
// The viewer's state
// ---------------------------------------------------------------------

/// What the viewer shows: the file, the code on both sides, the report,
/// the metrics, and the state of a run.
#[derive(Debug)]
pub struct C2SafeRustApp {
    pub file_path_input: String,
    pub original_c_code: String,
    pub generated_rust_code: String,
    pub status_message: String,
    pub is_success: bool,
    pub is_error: bool,
    pub is_transpiling: bool,
    /// 0: the idioms, 1: the report, 2: the repair history.
    pub active_tab: usize,
    pub markdown_report_text: String,
    /// `(number, name, detected, resolution)` of each idiom.
    pub idioms_status_display: Vec<(usize, String, bool, String)>,
    pub c_lines: usize,
    pub c_bytes: usize,
    pub func_count: usize,
    pub call_nodes: usize,
    pub call_edges: usize,
    pub repair_iterations: usize,
    /// `(iteration, source, note)` of each repair.
    pub repair_logs: Vec<(usize, String, String)>,
}

/// The value a `C2SafeRustApp` stands for.
pub ghost struct ViewerModel {
    pub file_path_input: Seq<char>,
    pub original_c_code: Seq<char>,
    pub generated_rust_code: Seq<char>,
    pub status_message: Seq<char>,
    pub is_success: bool,
    pub is_error: bool,
    pub is_transpiling: bool,
    pub active_tab: usize,
    pub markdown_report_text: Seq<char>,
    pub idioms_status_display: Seq<(usize, Seq<char>, bool, Seq<char>)>,
    pub c_lines: usize,
    pub c_bytes: usize,
    pub func_count: usize,
    pub call_nodes: usize,
    pub call_edges: usize,
    pub repair_iterations: usize,
    pub repair_logs: Seq<(usize, Seq<char>, Seq<char>)>,
}

impl DeepView for C2SafeRustApp {
    type V = ViewerModel;

    open spec fn deep_view(&self) -> ViewerModel {
        ViewerModel {
            file_path_input: self.file_path_input@,
            original_c_code: self.original_c_code@,
            generated_rust_code: self.generated_rust_code@,
            status_message: self.status_message@,
            is_success: self.is_success,
            is_error: self.is_error,
            is_transpiling: self.is_transpiling,
            active_tab: self.active_tab,
            markdown_report_text: self.markdown_report_text@,
            idioms_status_display: self.idioms_status_display.deep_view(),
            c_lines: self.c_lines,
            c_bytes: self.c_bytes,
            func_count: self.func_count,
            call_nodes: self.call_nodes,
            call_edges: self.call_edges,
            repair_iterations: self.repair_iterations,
            repair_logs: self.repair_logs.deep_view(),
        }
    }
}

/// A viewer with every text empty, every number zero and every flag off.
pub open spec fn empty_viewer() -> ViewerModel {
    ViewerModel {
        file_path_input: seq![],
        original_c_code: seq![],
        generated_rust_code: seq![],
        status_message: seq![],
        is_success: false,
        is_error: false,
        is_transpiling: false,
        active_tab: 0,
        markdown_report_text: seq![],
        idioms_status_display: seq![],
        c_lines: 0,
        c_bytes: 0,
        func_count: 0,
        call_nodes: 0,
        call_edges: 0,
        repair_iterations: 0,
        repair_logs: seq![],
    }
}

impl Default for C2SafeRustApp {
    fn default() -> (res: Self)
        ensures
            res.deep_view() == empty_viewer(),
    {
        let idioms: Vec<(usize, String, bool, String)> = Vec::new();
        let logs: Vec<(usize, String, String)> = Vec::new();
        assert(idioms.deep_view() =~= Seq::<(usize, Seq<char>, bool, Seq<char>)>::empty());
        assert(logs.deep_view() =~= Seq::<(usize, Seq<char>, Seq<char>)>::empty());
        C2SafeRustApp {
            file_path_input: String::new(),
            original_c_code: String::new(),
            generated_rust_code: String::new(),
            status_message: String::new(),
            is_success: false,
            is_error: false,
            is_transpiling: false,
            active_tab: 0,
            markdown_report_text: String::new(),
            idioms_status_display: idioms,
            c_lines: 0,
            c_bytes: 0,
            func_count: 0,
            call_nodes: 0,
            call_edges: 0,
            repair_iterations: 0,
            repair_logs: logs,
        }
    }
}

/// The code side's text after a file is loaded.
pub open spec fn preview_text() -> Seq<char> {
    "// C file preview loaded successfully.\n// Click '▶ Run Transpilation' above to convert to Safe Rust."@
}

/// The report's text after a file is loaded.
pub open spec fn pending_report_text() -> Seq<char> {
    "# Translation Report\n\n*Transpilation pending. Click '▶ Run Transpilation' to generate execution summary.*"@
}

/// The viewer `v` after the file at its path was read as `content`, or
/// could not be read (`None`).
pub open spec fn spec_load(v: ViewerModel, content: Option<Seq<char>>) -> ViewerModel {
    match content {
        Some(c) => {
            let n_lines = lines(c).len() as usize;
            let n_bytes = vstd::utf8::encode_utf8(c).len() as usize;
            ViewerModel {
                original_c_code: c,
                c_lines: n_lines,
                c_bytes: n_bytes,
                generated_rust_code: preview_text(),
                markdown_report_text: pending_report_text(),
                idioms_status_display: seq![],
                repair_logs: seq![],
                func_count: 0,
                call_nodes: 0,
                call_edges: 0,
                repair_iterations: 0,
                is_success: false,
                is_error: false,
                status_message: "📂 Loaded C file '"@ + v.file_path_input + "' ("@ + decimal(
                    n_lines as nat,
                ) + " lines, "@ + decimal(n_bytes as nat)
                    + " bytes). Click '▶ Run Transpilation' to transpile."@,
                ..v
            }
        },
        None => ViewerModel {
            original_c_code: "// Error: File not found or unable to read at '"@ + v.file_path_input + "'"@,
            c_lines: 0,
            c_bytes: 0,
            generated_rust_code: seq![],
            is_error: true,
            is_success: false,
            status_message: "⚠️ File not found or unreadable: '"@ + v.file_path_input + "'"@,
            ..v
        },
    }
}

/// What starting a run decided.
#[derive(Debug, Clone, Copy, PartialEq, Eq, Structural)]
pub enum TranspileStart {
    /// A run is under way; nothing changes.
    AlreadyRunning,
    /// The file is gone; it is to be loaded again, which reports the error.
    ReloadFile,
    /// The run starts.
    Started,
}

/// The viewer after the result of a run arrived.
pub open spec fn spec_receive(v: ViewerModel, r: PipelineModel) -> ViewerModel {
    ViewerModel {
        original_c_code: r.original_c_code,
        generated_rust_code: r.generated_rust_code,
        markdown_report_text: r.markdown_report_text,
        c_lines: r.c_lines,
        c_bytes: r.c_bytes,
        func_count: r.func_count,
        call_nodes: r.call_nodes,
        call_edges: r.call_edges,
        repair_iterations: r.repair_iterations,
        idioms_status_display: r.idioms_status_display,
        repair_logs: r.repair_logs,
        is_success: r.is_success,
        is_error: r.is_error,
        status_message: r.status_message,
        is_transpiling: false,
        ..v
    }
}

/// The tone of the status banner.
#[derive(Debug, Clone, Copy, PartialEq, Eq, Structural)]
pub enum StatusTone {
    Running,
    Succeeded,
    Failed,
    Neutral,
}

fn push_text(v: &mut Vec<char>, s: &str)
    ensures
        final(v)@ == old(v)@ + s@,
{
    let c = chars_of(s);
    push_all(v, &c);
}

impl C2SafeRustApp {
    /// Shows the file at the viewer's path, given what reading it gave:
    /// its code and size, with the run's results cleared; or, when it could
    /// not be read, an error.
    pub fn load_file_contents(&mut self, content: Option<String>)
        ensures
            final(self).deep_view() == spec_load(old(self).deep_view(), content.deep_view()),
    {
        match content {
            Some(c) => {
                let ls = lines_of_str(c.as_str());
                let n_lines = ls.len();
                let n_bytes = c.as_str().len();
                let mut status = chars_of("📂 Loaded C file '");
                let p = chars_of(self.file_path_input.as_str());
                push_all(&mut status, &p);
                push_text(&mut status, "' (");
                let d1 = decimal_exec(n_lines);
                push_all(&mut status, &d1);
                push_text(&mut status, " lines, ");
                let d2 = decimal_exec(n_bytes);
                push_all(&mut status, &d2);
                push_text(&mut status, " bytes). Click '▶ Run Transpilation' to transpile.");
                self.original_c_code = c;
                self.c_lines = n_lines;
                self.c_bytes = n_bytes;
                self.generated_rust_code = String::from_str(
                    "// C file preview loaded successfully.\n// Click '▶ Run Transpilation' above to convert to Safe Rust.",
                );
                self.markdown_report_text = String::from_str(
                    "# Translation Report\n\n*Transpilation pending. Click '▶ Run Transpilation' to generate execution summary.*",
                );
                self.idioms_status_display = Vec::new();
                self.repair_logs = Vec::new();
                self.func_count = 0;
                self.call_nodes = 0;
                self.call_edges = 0;
                self.repair_iterations = 0;
                self.is_success = false;
                self.is_error = false;
                self.status_message = string_of(&status);
                assert(self.idioms_status_display.deep_view() =~= Seq::<
                    (usize, Seq<char>, bool, Seq<char>),
                >::empty());
                assert(self.repair_logs.deep_view() =~= Seq::<(usize, Seq<char>, Seq<char>)>::empty());
            },
            None => {
                let mut code = chars_of("// Error: File not found or unable to read at '");
                let p = chars_of(self.file_path_input.as_str());
                push_all(&mut code, &p);
                push_text(&mut code, "'");
                let mut status = chars_of("⚠️ File not found or unreadable: '");
                push_all(&mut status, &p);
                push_text(&mut status, "'");
                self.original_c_code = string_of(&code);
                self.c_lines = 0;
                self.c_bytes = 0;
                self.generated_rust_code = String::new();
                self.is_error = true;
                self.is_success = false;
                self.status_message = string_of(&status);
                proof {
                    reveal_strlit("");
                }
            },
        }
    }

    /// Decides how a request to run the pipeline is met, given whether the
    /// viewer's path names a file: a run under way ignores it, a missing
    /// file is to be loaded again, and otherwise the run starts and the
    /// viewer says so.
    pub fn begin_transpilation(&mut self, path_is_file: bool) -> (res: TranspileStart)
        ensures
            old(self).is_transpiling ==> res == TranspileStart::AlreadyRunning,
            !old(self).is_transpiling && !path_is_file ==> res == TranspileStart::ReloadFile,
            !old(self).is_transpiling && path_is_file ==> res == TranspileStart::Started,
            res != TranspileStart::Started ==> final(self).deep_view() == old(self).deep_view(),
            res == TranspileStart::Started ==> final(self).deep_view() == (ViewerModel {
                is_transpiling: true,
                is_success: false,
                is_error: false,
                status_message: "⚡ Transpiling '"@ + old(self).file_path_input@
                    + "' in background (AST, Semantic Analysis, Codegen, Repair)..."@,
                ..old(self).deep_view()
            }),
    {
        if self.is_transpiling {
            return TranspileStart::AlreadyRunning;
        }
        if !path_is_file {
            return TranspileStart::ReloadFile;
        }
        let mut status = chars_of("⚡ Transpiling '");
        let p = chars_of(self.file_path_input.as_str());
        push_all(&mut status, &p);
        push_text(&mut status, "' in background (AST, Semantic Analysis, Codegen, Repair)...");
        self.is_transpiling = true;
        self.is_success = false;
        self.is_error = false;
        self.status_message = string_of(&status);
        TranspileStart::Started
    }

    /// The tone of the status banner: a run under way first, then success,
    /// then failure.
    pub fn status_tone(&self) -> (res: StatusTone)
        ensures
            res == if self.is_transpiling {
                StatusTone::Running
            } else if self.is_success {
                StatusTone::Succeeded
            } else if self.is_error {
                StatusTone::Failed
            } else {
                StatusTone::Neutral
            },
    {
        if self.is_transpiling {
            StatusTone::Running
        } else if self.is_success {
            StatusTone::Succeeded
        } else if self.is_error {
            StatusTone::Failed
        } else {
            StatusTone::Neutral
        }
    }

    /// Shows the result of a finished run.
    pub fn receive_pipeline_result(&mut self, res: PipelineResult)
        ensures
            final(self).deep_view() == spec_receive(old(self).deep_view(), res.deep_view()),
    {
        self.original_c_code = res.original_c_code;
        self.generated_rust_code = res.generated_rust_code;
        self.markdown_report_text = res.markdown_report_text;
        self.c_lines = res.c_lines;
        self.c_bytes = res.c_bytes;
        self.func_count = res.func_count;
        self.call_nodes = res.call_nodes;
        self.call_edges = res.call_edges;
        self.repair_iterations = res.repair_iterations;
        self.idioms_status_display = res.idioms_status_display;
        self.repair_logs = res.repair_logs;
        self.is_success = res.is_success;
        self.is_error = res.is_error;
        self.status_message = res.status_message;
        self.is_transpiling = false;
    }
}

} // verus!
