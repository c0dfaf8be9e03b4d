//! The log of applied repairs.
use vstd::prelude::*;

use crate::module6_repair::llm_client::{PatchProposal, ProposalModel};

verus! {

broadcast use vstd::string::group_string_axioms;

/// One applied repair: its iteration, where the patch came from, and why.
#[derive(Debug)]
pub struct RepairLogEntry {
    pub iteration: usize,
    pub patch_source: String,
    pub explanation: String,
    pub compilation_successful: bool,
}

/// The value a `RepairLogEntry` stands for.
pub ghost struct LogModel {
    pub iteration: usize,
    pub patch_source: Seq<char>,
    pub explanation: Seq<char>,
    pub compilation_successful: bool,
}

impl DeepView for RepairLogEntry {
    type V = LogModel;

    open spec fn deep_view(&self) -> LogModel {
        LogModel {
            iteration: self.iteration,
            patch_source: self.patch_source@,
            explanation: self.explanation@,
            compilation_successful: self.compilation_successful,
        }
    }
}

impl RepairLogEntry {
    /// A copy of this entry.
    pub fn duplicate(&self) -> (res: Self)
        ensures
            res.deep_view() == self.deep_view(),
    {
        RepairLogEntry {
            iteration: self.iteration,
            patch_source: self.patch_source.clone(),
            explanation: self.explanation.clone(),
            compilation_successful: self.compilation_successful,
        }
    }
}

/// The entry logged for the proposal `p` applied at iteration `iteration`.
pub open spec fn log_of(p: ProposalModel, iteration: usize) -> LogModel {
    LogModel {
        iteration,
        patch_source: p.source,
        explanation: p.explanation,
        compilation_successful: false,
    }
}

/// The log entry of a patch written at iteration `iteration`: the
/// proposal's source and explanation, not yet known to compile.
pub fn patch_log_entry(proposal: &PatchProposal, iteration: usize) -> (res: RepairLogEntry)
    ensures
        res.deep_view() == log_of(proposal.deep_view(), iteration),
{
    RepairLogEntry {
        iteration,
        patch_source: proposal.source.clone(),
        explanation: proposal.explanation.clone(),
        compilation_successful: false,
    }
}

} // verus!
