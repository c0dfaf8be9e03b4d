//! The transpilation pipeline as a sequence of stages. Each stage takes
//! what the outside work before it gave (the file's bytes, the external
//! preprocessor's output, the generated code, the repair outcome) and
//! either moves on or ends the run with the result the viewer shows.
use vstd::prelude::*;

use crate::data_stores::interprocedural_summaries::{InterproceduralSummaries, SummariesModel};
use crate::data_stores::semantic_models::{SemanticModel, SemanticView};
use crate::module1_validation::{
    spec_error_message, spec_validate_input, validate_input, SourceRead, ValidatedCSource,
    ValidatedModel,
};
use crate::module2_ast::ast_parser::{
    function_parse_panics, functions_parse_panics, spec_construct_ast, TranslationUnitAST,
    TranslationUnitModel,
};
use crate::module2_ast::preprocess_and_parse;
use crate::module2_ast::preprocessor::{preprocess_c_code, spec_preprocess};
use crate::module3_semantic::analyze_translation_unit_semantics;
use crate::module3_semantic::semantics_fold;
use crate::module4_interprocedural::call_graph::graph_edges;
use crate::module4_interprocedural::{run_interprocedural_analysis, spec_interprocedural};
use crate::module5_codegen::{CodegenModel, CodegenResult};
use crate::module6_repair::RepairResult;
use crate::module7_gui::gui_app::{
    failure_model, later_stage_failed, parsing_failed, pipeline_finished, success_model,
    validation_failed, PipelineModel, PipelineResult,
};
use crate::module7_gui::report_assembler::spec_report;
use crate::name_map::NameMap;

verus! {

broadcast use vstd::string::group_string_axioms;

/// The most patches the repair loop of a run asks for.
pub const MAX_REPAIR_ITERATIONS: usize = 3;

/// A run waiting for the input file to be read.
pub struct PipelineStart {
    file_path: String,
}

impl View for PipelineStart {
    type V = Seq<char>;

    closed spec fn view(&self) -> Seq<char> {
        self.file_path@
    }
}

/// A run whose input was validated, waiting for the external
/// preprocessor's output.
pub struct AwaitingPreprocessor {
    file_path: String,
    validated: ValidatedCSource,
}

impl View for AwaitingPreprocessor {
    type V = (Seq<char>, ValidatedModel);

    closed spec fn view(&self) -> (Seq<char>, ValidatedModel) {
        (self.file_path@, self.validated.deep_view())
    }
}

/// A run whose input was parsed, before analysis.
pub struct ParsedUnit {
    file_path: String,
    validated: ValidatedCSource,
    ast: TranslationUnitAST,
}

impl View for ParsedUnit {
    type V = (Seq<char>, ValidatedModel, TranslationUnitModel);

    closed spec fn view(&self) -> (Seq<char>, ValidatedModel, TranslationUnitModel) {
        (self.file_path@, self.validated.deep_view(), self.ast.deep_view())
    }
}

/// What an analysed run holds: the path, the input, its AST, the semantic
/// models and the interprocedural summaries.
pub ghost struct AnalysedModel {
    pub file_path: Seq<char>,
    pub validated: ValidatedModel,
    pub ast: TranslationUnitModel,
    pub models: Seq<(Seq<char>, SemanticView)>,
    pub summaries: SummariesModel,
}

/// A run whose input was analysed, waiting for the generated code.
pub struct AnalysedUnit {
    file_path: String,
    validated: ValidatedCSource,
    ast: TranslationUnitAST,
    semantic_models: NameMap<SemanticModel>,
    summaries: InterproceduralSummaries,
}

impl View for AnalysedUnit {
    type V = AnalysedModel;

    closed spec fn view(&self) -> AnalysedModel {
        AnalysedModel {
            file_path: self.file_path@,
            validated: self.validated.deep_view(),
            ast: self.ast.deep_view(),
            models: self.semantic_models@,
            summaries: self.summaries.deep_view(),
        }
    }
}

/// A run whose code was generated, waiting for the repair loop's outcome.
pub struct GeneratedUnit {
    analysed: AnalysedUnit,
    codegen: CodegenResult,
}

impl View for GeneratedUnit {
    type V = (AnalysedModel, CodegenModel);

    closed spec fn view(&self) -> (AnalysedModel, CodegenModel) {
        (self.analysed@, self.codegen.deep_view())
    }
}

/// The failure result of a run of `a` that stopped after analysis at
/// `stage` with `error`.
pub open spec fn late_failure(a: AnalysedModel, stage: Seq<char>, error: Seq<char>) -> PipelineModel {
    failure_model(
        a.file_path,
        a.validated.raw_content,
        a.validated.line_count,
        a.validated.byte_size,
        a.ast.functions.len() as usize,
        stage,
        error,
    )
}

impl PipelineStart {
    /// A run on the file at `file_path`.
    pub fn new(file_path: String) -> (res: Self)
        ensures
            res@ == file_path@,
    {
        PipelineStart { file_path }
    }

    /// The path of the file to read.
    pub fn file_path(&self) -> (res: &str)
        ensures
            res@ == self@,
    {
        self.file_path.as_str()
    }

    /// Validation of what reading the file gave: a refused file ends the
    /// run with the validation error.
    pub fn on_source_read(self, read: SourceRead) -> (res: Result<AwaitingPreprocessor, PipelineResult>)
        ensures
            match spec_validate_input(self@, read.deep_view()) {
                Ok(m) => res matches Ok(next) && next@ == (self@, m),
                Err(e) => res matches Err(r) && r.deep_view() == failure_model(
                    self@,
                    seq![],
                    0,
                    0,
                    0,
                    "Validation"@,
                    spec_error_message(e),
                ),
            },
    {
        match validate_input(self.file_path.as_str(), read) {
            Ok(validated) => Ok(AwaitingPreprocessor { file_path: self.file_path, validated }),
            Err(err) => Err(validation_failed(self.file_path.as_str(), &err)),
        }
    }
}

impl AwaitingPreprocessor {
    /// The validated input.
    pub fn validated(&self) -> (res: &ValidatedCSource)
        ensures
            res.deep_view() == self@.1,
    {
        &self.validated
    }

    /// Whether parsing the source that `gcc_stdout` would give panics (it
    /// would slice a signature or call line backwards).
    pub fn parse_would_panic(&self, gcc_stdout: &Option<String>) -> (res: bool)
        ensures
            res == functions_parse_panics(
                spec_preprocess(self@.1, gcc_stdout.deep_view()).expanded_content,
            ),
    {
        let out = match gcc_stdout {
            Some(s) => Some(s.clone()),
            None => None,
        };
        match preprocess_c_code(&self.validated, out) {
            Ok(expanded) => function_parse_panics(expanded.expanded_content.as_str()),
            Err(_) => false,
        }
    }

    /// Preprocessing and parsing, given the external preprocessor's output
    /// if it ran; a failure ends the run with the parse error.
    pub fn on_preprocessor_output(self, gcc_stdout: Option<String>) -> (res: Result<
        ParsedUnit,
        PipelineResult,
    >)
        requires
            !functions_parse_panics(spec_preprocess(self@.1, gcc_stdout.deep_view()).expanded_content),
        ensures
            res matches Ok(next) && next@ == (
                self@.0,
                self@.1,
                spec_construct_ast(spec_preprocess(self@.1, gcc_stdout.deep_view()).expanded_content),
            ),
    {
        match preprocess_and_parse(&self.validated, gcc_stdout) {
            Ok(out) => Ok(
                ParsedUnit { file_path: self.file_path, validated: self.validated, ast: out.ast },
            ),
            Err(err) => Err(parsing_failed(self.file_path.as_str(), &self.validated, err.as_str())),
        }
    }
}

impl ParsedUnit {
    /// The AST of the input.
    pub fn ast(&self) -> (res: &TranslationUnitAST)
        ensures
            res.deep_view() == self@.2,
    {
        &self.ast
    }

    /// Semantic and interprocedural analysis. Building the call graph
    /// panics beyond `u32::MAX` nodes or edges, which `requires` leaves
    /// out.
    pub fn analyze(self) -> (res: AnalysedUnit)
        requires
            self@.2.functions.len() <= u32::MAX,
            graph_edges(self@.2.functions).len() <= u32::MAX,
        ensures
            res@ == (AnalysedModel {
                file_path: self@.0,
                validated: self@.1,
                ast: self@.2,
                models: semantics_fold(self@.2.functions, self@.2.unions),
                summaries: spec_interprocedural(
                    self@.2,
                    semantics_fold(self@.2.functions, self@.2.unions),
                ),
            }),
    {
        let semantic_models = analyze_translation_unit_semantics(&self.ast);
        let summaries = run_interprocedural_analysis(&self.ast, &semantic_models);
        AnalysedUnit {
            file_path: self.file_path,
            validated: self.validated,
            ast: self.ast,
            semantic_models,
            summaries,
        }
    }
}

impl AnalysedUnit {
    /// The AST of the input.
    pub fn ast(&self) -> (res: &TranslationUnitAST)
        ensures
            res.deep_view() == self@.ast,
    {
        &self.ast
    }

    /// The semantic models.
    pub fn semantic_models(&self) -> (res: &NameMap<SemanticModel>)
        ensures
            res@ == self@.models,
    {
        &self.semantic_models
    }

    /// The interprocedural summaries.
    pub fn summaries(&self) -> (res: &InterproceduralSummaries)
        ensures
            res.deep_view() == self@.summaries,
    {
        &self.summaries
    }

    /// Takes the outcome of code generation: a failure ends the run.
    pub fn on_code_generated(self, res: Result<CodegenResult, String>) -> (out: Result<
        GeneratedUnit,
        PipelineResult,
    >)
        ensures
            match res {
                Ok(c) => out matches Ok(next) && next@ == (self@, c.deep_view()),
                Err(e) => out matches Err(r) && r.deep_view() == late_failure(
                    self@,
                    "Codegen"@,
                    e@,
                ),
            },
    {
        match res {
            Ok(codegen) => Ok(GeneratedUnit { analysed: self, codegen }),
            Err(err) => Err(
                later_stage_failed(
                    self.file_path.as_str(),
                    &self.validated,
                    &self.ast,
                    "Codegen",
                    err.as_str(),
                ),
            ),
        }
    }
}

impl GeneratedUnit {
    /// The C source of the run.
    pub fn c_source(&self) -> (res: &str)
        ensures
            res@ == self@.0.validated.raw_content,
    {
        self.analysed.validated.raw_content.as_str()
    }

    /// Where the generated code was written.
    pub fn output_file_path(&self) -> (res: &str)
        ensures
            res@ == self@.1.output_file_path,
    {
        self.codegen.output_file_path.as_str()
    }

    /// Ends the run with the repair loop's outcome: the report of the
    /// translation, or the loop's error.
    pub fn on_repaired(self, res: Result<RepairResult, String>) -> (out: PipelineResult)
        ensures
            match res {
                Ok(r) => out.deep_view() == success_model(
                    self@.0.file_path,
                    self@.0.validated.raw_content,
                    spec_report(self@.0.validated, self@.0.ast, self@.0.summaries, r.deep_view()),
                    r.deep_view().repair_logs,
                ),
                Err(e) => out.deep_view() == late_failure(self@.0, "Repair Loop"@, e@),
            },
    {
        let a = &self.analysed;
        match res {
            Ok(repair) => pipeline_finished(
                a.file_path.as_str(),
                &a.validated,
                &a.ast,
                &a.semantic_models,
                &a.summaries,
                &repair,
            ),
            Err(err) => later_stage_failed(
                a.file_path.as_str(),
                &a.validated,
                &a.ast,
                "Repair Loop",
                err.as_str(),
            ),
        }
    }
}

} // verus!
