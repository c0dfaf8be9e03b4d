//! Packaging of compiler diagnostics into a repair request.
use vstd::prelude::*;

use crate::module6_repair::compiler_loop::{
    duplicate_diagnostics, DiagnosticModel, RustcDiagnosticMessage,
};
use crate::text::{chars_of, push_all, string_of};

verus! {

broadcast use vstd::string::group_string_axioms;

/// What a repair agent is given: the C source, the candidate Rust code, the
/// compiler's messages and the iteration.
#[derive(Debug)]
pub struct RepairRequestPackage {
    pub original_c_source: String,
    pub candidate_rust_code: String,
    pub compiler_error_messages: Vec<String>,
    pub structured_diagnostics: Vec<RustcDiagnosticMessage>,
    pub iteration_number: usize,
}

/// The value a `RepairRequestPackage` stands for.
pub ghost struct PackageModel {
    pub original_c_source: Seq<char>,
    pub candidate_rust_code: Seq<char>,
    pub compiler_error_messages: Seq<Seq<char>>,
    pub structured_diagnostics: Seq<DiagnosticModel>,
    pub iteration_number: usize,
}

impl DeepView for RepairRequestPackage {
    type V = PackageModel;

    open spec fn deep_view(&self) -> PackageModel {
        PackageModel {
            original_c_source: self.original_c_source@,
            candidate_rust_code: self.candidate_rust_code@,
            compiler_error_messages: self.compiler_error_messages.deep_view(),
            structured_diagnostics: self.structured_diagnostics.deep_view(),
            iteration_number: self.iteration_number,
        }
    }
}

/// The message line of a diagnostic: `[<code>] <message>`, with an empty
/// code when it has none.
pub open spec fn error_line(d: DiagnosticModel) -> Seq<char> {
    let code = match d.code {
        Some(c) => c,
        None => seq![],
    };
    "["@ + code + "] "@ + d.message
}

fn error_line_exec(d: &RustcDiagnosticMessage) -> (res: String)
    ensures
        res@ == error_line(d.deep_view()),
{
    let mut v = chars_of("[");
    match &d.code {
        Some(c) => {
            let cc = chars_of(c.code.as_str());
            push_all(&mut v, &cc);
        },
        None => {},
    }
    let close = chars_of("] ");
    push_all(&mut v, &close);
    let m = chars_of(d.message.as_str());
    push_all(&mut v, &m);
    string_of(&v)
}

/// Combines the C source, the candidate Rust code and the diagnostics of
/// iteration `iteration` into a repair request, with one message line per
/// diagnostic.
pub fn package_diagnostics(
    c_source: &str,
    rust_code: &str,
    diagnostics: &[RustcDiagnosticMessage],
    iteration: usize,
) -> (res: RepairRequestPackage)
    ensures
        res.deep_view() == (PackageModel {
            original_c_source: c_source@,
            candidate_rust_code: rust_code@,
            compiler_error_messages: diagnostics.deep_view().map_values(
                |d: DiagnosticModel| error_line(d),
            ),
            structured_diagnostics: diagnostics.deep_view(),
            iteration_number: iteration,
        }),
{
    let ghost ds = diagnostics.deep_view();
    let mut messages: Vec<String> = Vec::new();
    let mut i: usize = 0;
    while i < diagnostics.len()
        invariant
            i <= ds.len(),
            ds == diagnostics.deep_view(),
            messages.deep_view() == ds.take(i as int).map_values(|d: DiagnosticModel| error_line(d)),
        decreases ds.len() - i,
    {
        let ghost before = messages.deep_view();
        let line = error_line_exec(&diagnostics[i]);
        messages.push(line);
        assert(messages.deep_view() =~= before.push(line@));
        assert(ds.take(i + 1).map_values(|d: DiagnosticModel| error_line(d)) =~= ds.take(
            i as int,
        ).map_values(|d: DiagnosticModel| error_line(d)).push(error_line(ds[i as int])));
        i += 1;
    }
    assert(ds.take(ds.len() as int) =~= ds);
    RepairRequestPackage {
        original_c_source: c_source.to_string(),
        candidate_rust_code: rust_code.to_string(),
        compiler_error_messages: messages,
        structured_diagnostics: duplicate_diagnostics(diagnostics),
        iteration_number: iteration,
    }
}

} // verus!
