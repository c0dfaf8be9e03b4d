//! Compiler validation and repair of generated Rust code. The loop's
//! decisions live here; compiling, asking for patches and writing files is
//! left to the caller, which reports each outcome back.
pub mod compiler_loop;
pub mod diagnostic_packager;
pub mod llm_client;
pub mod patch_applier;

use vstd::prelude::*;

pub use compiler_loop::{CompilationResult, RustcDiagnosticMessage};
pub use diagnostic_packager::{package_diagnostics, RepairRequestPackage};
pub use llm_client::PatchProposal;
pub use patch_applier::RepairLogEntry;

use compiler_loop::DiagnosticModel;
use diagnostic_packager::PackageModel;
use diagnostic_packager::error_line;
use patch_applier::{log_of, patch_log_entry, LogModel};

verus! {

broadcast use vstd::string::group_string_axioms;

/// The outcome of the repair loop.
#[derive(Debug)]
pub struct RepairResult {
    pub final_success: bool,
    pub iterations_used: usize,
    pub repair_logs: Vec<RepairLogEntry>,
    pub final_rust_code: String,
}

/// The value a `RepairResult` stands for.
pub ghost struct RepairResultModel {
    pub final_success: bool,
    pub iterations_used: usize,
    pub repair_logs: Seq<LogModel>,
    pub final_rust_code: Seq<char>,
}

impl DeepView for RepairResult {
    type V = RepairResultModel;

    open spec fn deep_view(&self) -> RepairResultModel {
        RepairResultModel {
            final_success: self.final_success,
            iterations_used: self.iterations_used,
            repair_logs: self.repair_logs.deep_view(),
            final_rust_code: self.final_rust_code@,
        }
    }
}

/// The `k`-th entry of a repair log is the patch of iteration `k + 1`, not
/// yet known to compile.
pub open spec fn logs_numbered(logs: Seq<LogModel>) -> bool {
    forall|k: int|
        0 <= k < logs.len() ==> (#[trigger] logs[k]).iteration == k + 1
            && !logs[k].compilation_successful
}

/// The state of the repair loop between two compilations.
pub ghost struct RepairLoopModel {
    pub c_source: Seq<char>,
    pub max_iterations: usize,
    /// The iteration of the next compilation; `max_iterations + 1` marks
    /// the final check after the last patch.
    pub iteration: usize,
    pub logs: Seq<LogModel>,
    pub current_rust: Seq<char>,
}

/// The repair loop: compile, and while compilation fails and iterations
/// are left, package the diagnostics, have a patch written, and compile
/// again.
pub struct RepairLoop {
    c_source: String,
    max_iterations: usize,
    iteration: usize,
    logs: Vec<RepairLogEntry>,
    current_rust: String,
}

impl View for RepairLoop {
    type V = RepairLoopModel;

    closed spec fn view(&self) -> RepairLoopModel {
        RepairLoopModel {
            c_source: self.c_source@,
            max_iterations: self.max_iterations,
            iteration: self.iteration,
            logs: self.logs.deep_view(),
            current_rust: self.current_rust@,
        }
    }
}

/// A repair that the loop waits for: the request to answer, and the loop
/// to resume once the patch is written.
pub struct PendingRepair {
    state: RepairLoop,
    request: RepairRequestPackage,
}

/// What the loop asks for after a compilation.
pub enum RepairStep {
    /// Answer the request, write the patch, and resume with `apply`.
    Patch(PendingRepair),
    /// The loop is over.
    Done(RepairResult),
}

/// The repair request of the state `st` after a failed compilation that
/// gave the diagnostics `ds`.
pub open spec fn request_of(st: RepairLoopModel, ds: Seq<DiagnosticModel>) -> PackageModel {
    PackageModel {
        original_c_source: st.c_source,
        candidate_rust_code: st.current_rust,
        compiler_error_messages: ds.map_values(|d: DiagnosticModel| error_line(d)),
        structured_diagnostics: ds,
        iteration_number: st.iteration,
    }
}

impl RepairLoop {
    #[verifier::type_invariant]
    spec fn loop_inv(self) -> bool {
        &&& self.max_iterations < usize::MAX
        &&& 1 <= self.iteration <= self.max_iterations + 1
        &&& self.logs@.len() == self.iteration - 1
        &&& logs_numbered(self.logs.deep_view())
    }

    /// Starts the loop on the candidate `candidate` generated from the C
    /// source `c_source`, with at most `max_iterations` patches.
    pub fn start(c_source: String, candidate: String, max_iterations: usize) -> (res: Self)
        requires
            max_iterations < usize::MAX,
        ensures
            res@ == (RepairLoopModel {
                c_source: c_source@,
                max_iterations,
                iteration: 1,
                logs: seq![],
                current_rust: candidate@,
            }),
    {
        let logs: Vec<RepairLogEntry> = Vec::new();
        assert(logs.deep_view() =~= Seq::<LogModel>::empty());
        RepairLoop { c_source, max_iterations, iteration: 1, logs, current_rust: candidate }
    }

    /// The iteration of the next compilation.
    pub fn iteration(&self) -> (res: usize)
        ensures
            res == self@.iteration,
            1 <= res <= self@.max_iterations + 1,
            self@.max_iterations < usize::MAX,
            self@.logs.len() == res - 1,
            logs_numbered(self@.logs),
    {
        proof {
            use_type_invariant(self);
        }
        self.iteration
    }

    /// The most patches the loop asks for.
    pub fn max_iterations(&self) -> (res: usize)
        ensures
            res == self@.max_iterations,
    {
        self.max_iterations
    }

    /// Takes the result of compiling the candidate file and what reading the
    /// file back gave. A success ends the loop with the file's code; so does
    /// the final check, with its outcome, after `max_iterations` patches.
    /// Otherwise the loop asks for a patch to the packaged diagnostics.
    pub fn on_compiled(self, comp: &CompilationResult, reread: Option<String>) -> (res: RepairStep)
        ensures
            match res {
                RepairStep::Done(r) => {
                    &&& comp.success || self@.iteration > self@.max_iterations
                    &&& (r.deep_view().final_success && 1 <= r.deep_view().iterations_used
                        <= self@.max_iterations && r.deep_view().repair_logs.len()
                        == r.deep_view().iterations_used - 1) || (r.deep_view().iterations_used
                        == self@.max_iterations && r.deep_view().repair_logs.len()
                        == self@.max_iterations)
                    &&& r.deep_view().iterations_used <= self@.max_iterations
                    &&& logs_numbered(r.deep_view().repair_logs)
                    &&& r.deep_view().repair_logs.len() == if self@.iteration
                        > self@.max_iterations {
                        self@.max_iterations as int
                    } else {
                        self@.iteration - 1
                    }
                    &&& r.deep_view() == (RepairResultModel {
                        final_success: comp.success,
                        iterations_used: if self@.iteration > self@.max_iterations {
                            self@.max_iterations
                        } else {
                            self@.iteration
                        },
                        repair_logs: self@.logs,
                        final_rust_code: match reread {
                            Some(code) => code@,
                            None => self@.current_rust,
                        },
                    })
                },
                RepairStep::Patch(p) => {
                    &&& !comp.success && self@.iteration <= self@.max_iterations
                    &&& p@.0 == self@
                    &&& p@.1 == request_of(self@, comp.diagnostics.deep_view())
                },
            },
    {
        proof {
            use_type_invariant(&self);
        }
        if comp.success || self.iteration > self.max_iterations {
            let iterations_used = if self.iteration > self.max_iterations {
                self.max_iterations
            } else {
                self.iteration
            };
            let final_rust_code = match reread {
                Some(code) => code,
                None => self.current_rust,
            };
            return RepairStep::Done(
                RepairResult {
                    final_success: comp.success,
                    iterations_used,
                    repair_logs: self.logs,
                    final_rust_code,
                },
            );
        }
        let request = package_diagnostics(
            self.c_source.as_str(),
            self.current_rust.as_str(),
            comp.diagnostics.as_slice(),
            self.iteration,
        );
        RepairStep::Patch(PendingRepair { state: self, request })
    }
}

impl View for PendingRepair {
    type V = (RepairLoopModel, PackageModel);

    closed spec fn view(&self) -> (RepairLoopModel, PackageModel) {
        (self.state@, self.request.deep_view())
    }
}

impl PendingRepair {
    #[verifier::type_invariant]
    spec fn pending_inv(self) -> bool {
        self.state.iteration <= self.state.max_iterations
    }

    /// The request to answer.
    pub fn request(&self) -> (res: &RepairRequestPackage)
        ensures
            res.deep_view() == self@.1,
    {
        &self.request
    }

    /// Resumes the loop once `proposal` is written to the candidate file:
    /// the patch is logged, becomes the current code, and the next
    /// iteration begins.
    pub fn apply(self, proposal: &PatchProposal) -> (res: RepairLoop)
        ensures
            res@ == (RepairLoopModel {
                c_source: self@.0.c_source,
                max_iterations: self@.0.max_iterations,
                iteration: (self@.0.iteration + 1) as usize,
                logs: self@.0.logs.push(log_of(proposal.deep_view(), self@.0.iteration)),
                current_rust: proposal.patched_rust_code@,
            }),
    {
        proof {
            use_type_invariant(&self);
            use_type_invariant(&self.state);
        }
        let PendingRepair { state, request: _ } = self;
        let RepairLoop { c_source, max_iterations, iteration, mut logs, current_rust: _ } = state;
        let ghost old_logs = logs.deep_view();
        let entry = patch_log_entry(proposal, iteration);
        logs.push(entry);
        assert(logs.deep_view() =~= old_logs.push(entry.deep_view()));
        RepairLoop {
            c_source,
            max_iterations,
            iteration: iteration + 1,
            logs,
            current_rust: proposal.patched_rust_code.clone(),
        }
    }
}

} // verus!
