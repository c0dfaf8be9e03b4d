//! Compiler diagnostics and the outcome of one compilation.
use vstd::prelude::*;

use crate::text::{chars_of, string_of};

verus! {

broadcast use vstd::string::group_string_axioms;

/// Where in a file a diagnostic points.
#[derive(Debug)]
pub struct RustcDiagnosticSpan {
    pub file_name: String,
    pub line_start: usize,
    pub line_end: usize,
    pub column_start: usize,
    pub column_end: usize,
}

/// The value a `RustcDiagnosticSpan` stands for.
pub ghost struct SpanModel {
    pub file_name: Seq<char>,
    pub line_start: usize,
    pub line_end: usize,
    pub column_start: usize,
    pub column_end: usize,
}

impl DeepView for RustcDiagnosticSpan {
    type V = SpanModel;

    open spec fn deep_view(&self) -> SpanModel {
        SpanModel {
            file_name: self.file_name@,
            line_start: self.line_start,
            line_end: self.line_end,
            column_start: self.column_start,
            column_end: self.column_end,
        }
    }
}

impl RustcDiagnosticSpan {
    /// A copy of this span.
    pub fn duplicate(&self) -> (res: Self)
        ensures
            res.deep_view() == self.deep_view(),
    {
        RustcDiagnosticSpan {
            file_name: self.file_name.clone(),
            line_start: self.line_start,
            line_end: self.line_end,
            column_start: self.column_start,
            column_end: self.column_end,
        }
    }
}

/// The error code of a diagnostic, such as `E0308`.
#[derive(Debug)]
pub struct RustcDiagnosticCode {
    pub code: String,
}

/// One diagnostic that the compiler emitted.
#[derive(Debug)]
pub struct RustcDiagnosticMessage {
    pub message: String,
    pub code: Option<RustcDiagnosticCode>,
    /// `error`, `warning`, and so on.
    pub level: String,
    pub spans: Vec<RustcDiagnosticSpan>,
}

/// The value a `RustcDiagnosticMessage` stands for.
pub ghost struct DiagnosticModel {
    pub message: Seq<char>,
    pub code: Option<Seq<char>>,
    pub level: Seq<char>,
    pub spans: Seq<SpanModel>,
}

impl DeepView for RustcDiagnosticMessage {
    type V = DiagnosticModel;

    open spec fn deep_view(&self) -> DiagnosticModel {
        DiagnosticModel {
            message: self.message@,
            code: match self.code {
                Some(c) => Some(c.code@),
                None => None,
            },
            level: self.level@,
            spans: self.spans.deep_view(),
        }
    }
}

impl RustcDiagnosticMessage {
    /// A copy of this diagnostic.
    pub fn duplicate(&self) -> (res: Self)
        ensures
            res.deep_view() == self.deep_view(),
    {
        let code = match &self.code {
            Some(c) => Some(RustcDiagnosticCode { code: c.code.clone() }),
            None => None,
        };
        let mut spans: Vec<RustcDiagnosticSpan> = Vec::new();
        let mut i: usize = 0;
        while i < self.spans.len()
            invariant
                i <= self.spans@.len(),
                spans.deep_view() == self.spans.deep_view().take(i as int),
            decreases self.spans@.len() - i,
        {
            let ghost before = spans.deep_view();
            let s = self.spans[i].duplicate();
            spans.push(s);
            assert(spans.deep_view() =~= before.push(s.deep_view()));
            assert(self.spans.deep_view().take(i + 1) =~= self.spans.deep_view().take(
                i as int,
            ).push(self.spans[i as int].deep_view()));
            i += 1;
        }
        assert(self.spans.deep_view().take(self.spans@.len() as int) =~= self.spans.deep_view());
        RustcDiagnosticMessage {
            message: self.message.clone(),
            code,
            level: self.level.clone(),
            spans,
        }
    }
}

/// Copies of all the diagnostics `ds`.
pub fn duplicate_diagnostics(ds: &[RustcDiagnosticMessage]) -> (res: Vec<RustcDiagnosticMessage>)
    ensures
        res.deep_view() == ds.deep_view(),
{
    let mut out: Vec<RustcDiagnosticMessage> = Vec::new();
    let mut i: usize = 0;
    while i < ds.len()
        invariant
            i <= ds@.len(),
            out.deep_view() == ds.deep_view().take(i as int),
        decreases ds@.len() - i,
    {
        let ghost before = out.deep_view();
        let d = ds[i].duplicate();
        out.push(d);
        assert(out.deep_view() =~= before.push(d.deep_view()));
        assert(ds.deep_view().take(i + 1) =~= ds.deep_view().take(i as int).push(
            ds[i as int].deep_view(),
        ));
        i += 1;
    }
    assert(ds.deep_view().take(ds@.len() as int) =~= ds.deep_view());
    out
}

/// The outcome of one compilation.
#[derive(Debug)]
pub struct CompilationResult {
    pub success: bool,
    pub raw_output: String,
    pub diagnostics: Vec<RustcDiagnosticMessage>,
    pub error_count: usize,
}

/// The value a `CompilationResult` stands for.
pub ghost struct CompilationModel {
    pub success: bool,
    pub raw_output: Seq<char>,
    pub diagnostics: Seq<DiagnosticModel>,
    pub error_count: usize,
}

impl DeepView for CompilationResult {
    type V = CompilationModel;

    open spec fn deep_view(&self) -> CompilationModel {
        CompilationModel {
            success: self.success,
            raw_output: self.raw_output@,
            diagnostics: self.diagnostics.deep_view(),
            error_count: self.error_count,
        }
    }
}

/// The number of diagnostics of `ds` at level `error`.
pub open spec fn error_count_of(ds: Seq<DiagnosticModel>) -> nat
    decreases ds.len(),
{
    if ds.len() == 0 {
        0
    } else {
        error_count_of(ds.drop_last()) + if ds.last().level == "error"@ {
            1nat
        } else {
            0nat
        }
    }
}

/// No more diagnostics are errors than there are diagnostics.
pub proof fn lemma_error_count_le(ds: Seq<DiagnosticModel>)
    ensures
        error_count_of(ds) <= ds.len(),
    decreases ds.len(),
{
    if ds.len() > 0 {
        lemma_error_count_le(ds.drop_last());
    }
}

/// The result of a compiler run that exited with status `status_ok`,
/// wrote `stderr`, and emitted the diagnostics `diagnostics` (the lines of
/// `stderr` that parse as one): it succeeded when the status was a success
/// and no diagnostic is an error.
pub fn compilation_result(status_ok: bool, stderr: String, diagnostics: Vec<RustcDiagnosticMessage>)
    -> (res: CompilationResult)
    ensures
        res.deep_view() == (CompilationModel {
            success: status_ok && error_count_of(diagnostics.deep_view()) == 0,
            raw_output: stderr@,
            diagnostics: diagnostics.deep_view(),
            error_count: error_count_of(diagnostics.deep_view()) as usize,
        }),
{
    let ghost ds = diagnostics.deep_view();
    let error = String::from_str("error");
    let mut error_count: usize = 0;
    let mut i: usize = 0;
    while i < diagnostics.len()
        invariant
            i <= ds.len(),
            ds == diagnostics.deep_view(),
            error@ == "error"@,
            error_count == error_count_of(ds.take(i as int)),
        decreases ds.len() - i,
    {
        assert(ds.take(i + 1).drop_last() =~= ds.take(i as int));
        proof {
            lemma_error_count_le(ds.take(i + 1));
        }
        if diagnostics[i].level == error {
            error_count += 1;
        }
        i += 1;
    }
    assert(ds.take(ds.len() as int) =~= ds);
    CompilationResult {
        success: status_ok && error_count == 0,
        raw_output: stderr,
        diagnostics,
        error_count,
    }
}

/// The result when the compiler could not be run at all: a failure with
/// one error, no diagnostic, and `Failed to execute rustc: <reason>` as
/// output.
pub fn compiler_launch_failure(reason: &str) -> (res: CompilationResult)
    ensures
        res.deep_view() == (CompilationModel {
            success: false,
            raw_output: "Failed to execute rustc: "@ + reason@,
            diagnostics: seq![],
            error_count: 1,
        }),
{
    let mut out = chars_of("Failed to execute rustc: ");
    let r = chars_of(reason);
    crate::text::push_all(&mut out, &r);
    let diagnostics: Vec<RustcDiagnosticMessage> = Vec::new();
    assert(diagnostics.deep_view() =~= Seq::<DiagnosticModel>::empty());
    CompilationResult { success: false, raw_output: string_of(&out), diagnostics, error_count: 1 }
}

} // verus!
