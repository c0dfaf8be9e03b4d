//! The translation report: metrics, the six C idioms, and the repair
//! history, with its Markdown rendering.
use vstd::prelude::*;

use crate::data_stores::interprocedural_summaries::{
    call_graph_edge_count, call_graph_node_count, AliasingVerdict, InterproceduralSummaries,
    OwnershipTransferType, SummariesModel,
};
use crate::data_stores::semantic_models::SemanticModel;
use crate::module1_validation::{ValidatedCSource, ValidatedModel};
use crate::module2_ast::ast_parser::{TranslationUnitAST, TranslationUnitModel};
use crate::module6_repair::patch_applier::LogModel;
use crate::module6_repair::{RepairResult, RepairResultModel};
use crate::name_map::NameMap;
use crate::text::{chars_of, contains, decimal, decimal_exec, has_char, push_all, string_of};

verus! {

broadcast use vstd::string::group_string_axioms;

/// Whether one of the six C idioms was found, and how it is handled.
#[derive(Debug)]
pub struct IdiomStatus {
    pub idiom_number: usize,
    pub name: String,
    pub detected: bool,
    pub resolution: String,
}

/// The value an `IdiomStatus` stands for.
pub ghost struct IdiomModel {
    pub idiom_number: usize,
    pub name: Seq<char>,
    pub detected: bool,
    pub resolution: Seq<char>,
}

impl DeepView for IdiomStatus {
    type V = IdiomModel;

    open spec fn deep_view(&self) -> IdiomModel {
        IdiomModel {
            idiom_number: self.idiom_number,
            name: self.name@,
            detected: self.detected,
            resolution: self.resolution@,
        }
    }
}

/// The report on one translation.
#[derive(Debug)]
pub struct TranslationReport {
    pub source_file_name: String,
    pub c_lines: usize,
    pub c_bytes: usize,
    pub functions_count: usize,
    pub call_graph_nodes: usize,
    pub call_graph_edges: usize,
    pub idioms_summary: Vec<IdiomStatus>,
    pub repair_iterations: usize,
    pub compilation_successful: bool,
    pub final_rust_code: String,
    pub formatted_markdown_report: String,
}

/// The value a `TranslationReport` stands for.
pub ghost struct ReportModel {
    pub source_file_name: Seq<char>,
    pub c_lines: usize,
    pub c_bytes: usize,
    pub functions_count: usize,
    pub call_graph_nodes: usize,
    pub call_graph_edges: usize,
    pub idioms_summary: Seq<IdiomModel>,
    pub repair_iterations: usize,
    pub compilation_successful: bool,
    pub final_rust_code: Seq<char>,
    pub formatted_markdown_report: Seq<char>,
}

impl DeepView for TranslationReport {
    type V = ReportModel;

    open spec fn deep_view(&self) -> ReportModel {
        ReportModel {
            source_file_name: self.source_file_name@,
            c_lines: self.c_lines,
            c_bytes: self.c_bytes,
            functions_count: self.functions_count,
            call_graph_nodes: self.call_graph_nodes,
            call_graph_edges: self.call_graph_edges,
            idioms_summary: self.idioms_summary.deep_view(),
            repair_iterations: self.repair_iterations,
            compilation_successful: self.compilation_successful,
            final_rust_code: self.final_rust_code@,
            formatted_markdown_report: self.formatted_markdown_report@,
        }
    }
}

// ---------------------------------------------------------------------
// The file name
// ---------------------------------------------------------------------

/// The text of `Path::new(path).file_name()`, empty when there is none.
pub uninterp spec fn file_name_text(path: Seq<char>) -> Seq<char>;

/// The text that `{:?}` writes of `Path::new(path).file_name()`, with an
/// empty name when there is none.
pub uninterp spec fn file_name_debug_text(path: Seq<char>) -> Seq<char>;

/// `Path::file_name`, as text, empty when the path has none. The result is
/// named by `file_name_text`; no more of it is stated.
#[verifier::external_body]
fn path_file_name(path: &str) -> (res: String)
    ensures
        res@ == file_name_text(path@),
{
    std::path::Path::new(path).file_name().unwrap_or_default().to_string_lossy().to_string()
}

/// The `Debug` form of `Path::file_name`, with an empty name when the path
/// has none. The result is named by `file_name_debug_text`; no more of it
/// is stated.
#[verifier::external_body]
fn path_file_name_debug(path: &str) -> (res: String)
    ensures
        res@ == file_name_debug_text(path@),
{
    format!("{:?}", std::path::Path::new(path).file_name().unwrap_or_default())
}

// ---------------------------------------------------------------------
// The six idioms
// ---------------------------------------------------------------------

/// Idiom 1: some call passes two aliasing arguments.
pub open spec fn aliasing_detected(s: SummariesModel) -> bool {
    exists|i: int, j: int|
        0 <= i < s.alias_verdicts.len() && 0 <= j < s.alias_verdicts[i].1.len()
            && (#[trigger] s.alias_verdicts[i].1[j]).aliases
}

/// Idiom 4: some call passes a pointer-arithmetic argument (one holding
/// `+`).
pub open spec fn slices_detected(s: SummariesModel) -> bool {
    exists|i: int, j: int|
        0 <= i < s.alias_verdicts.len() && 0 <= j < s.alias_verdicts[i].1.len() && (has_plus(
            (#[trigger] s.alias_verdicts[i].1[j]).arg1,
        ) || has_plus(s.alias_verdicts[i].1[j].arg2))
}

/// Idioms 2 and 3: some summary has the transfer `t`.
pub open spec fn transfer_detected(s: SummariesModel, t: OwnershipTransferType) -> bool {
    exists|i: int|
        0 <= i < s.ownership_transfer_summaries.len()
            && (#[trigger] s.ownership_transfer_summaries[i]).1.transfer_type == t
}

/// An idiom with its resolution when detected, else `no`.
pub open spec fn idiom_of(
    n: usize,
    name: Seq<char>,
    detected: bool,
    yes: Seq<char>,
    no: Seq<char>,
) -> IdiomModel {
    IdiomModel { idiom_number: n, name, detected, resolution: if detected { yes } else { no } }
}

/// The status of the six idioms, in order.
pub open spec fn spec_idioms(s: SummariesModel) -> Seq<IdiomModel> {
    seq![
        idiom_of(
            1,
            "Aliased &mut parameters"@,
            aliasing_detected(s),
            "Interprocedural points-to alias analysis over call-site arguments"@,
            "No call-site aliasing detected"@,
        ),
        idiom_of(
            2,
            "Ownership consumed through T** argument"@,
            transfer_detected(s, OwnershipTransferType::ConsumesOwnership),
            "Def-use link from callee's write-through pointer back to caller's variable"@,
            "None detected"@,
        ),
        idiom_of(
            3,
            "Ownership created through T** out-parameter"@,
            transfer_detected(s, OwnershipTransferType::CreatesOwnership),
            "Callee heap allocation linked back to caller's local variable"@,
            "None detected"@,
        ),
        idiom_of(
            4,
            "Overlapping pointer-arithmetic slices"@,
            slices_detected(s),
            "Call-site range offset overlap check"@,
            "None detected"@,
        ),
        idiom_of(
            5,
            "Union's active variant carried across call boundary"@,
            s.cross_function_union_resolutions.len() > 0,
            "Interprocedural reaching-definitions over tag/variant state"@,
            "None detected"@,
        ),
        idiom_of(
            6,
            "Data-dependent ownership (run-time)"@,
            s.data_dependent_ownership_flags.len() > 0,
            "Routed to Option<Box<T>> fallback or LLM repair agent"@,
            "None detected"@,
        ),
    ]
}

fn aliasing_pass(verdicts: &NameMap<Vec<AliasingVerdict>>) -> (res: bool)
    ensures
        res == exists|i: int, j: int|
            0 <= i < verdicts@.len() && 0 <= j < verdicts@[i].1.len()
                && (#[trigger] verdicts@[i].1[j]).aliases,
{
    let ghost m = verdicts@;
    let mut i: usize = 0;
    while i < verdicts.len()
        invariant
            i <= m.len(),
            m == verdicts@,
            forall|a: int, b: int| 0 <= a < i && 0 <= b < m[a].1.len() ==> !(#[trigger] m[a].1[b]).aliases,
        decreases m.len() - i,
    {
        let row = verdicts.value_at(i);
        let mut j: usize = 0;
        while j < row.len()
            invariant
                i < m.len(),
                j <= m[i as int].1.len(),
                m == verdicts@,
                row.deep_view() == m[i as int].1,
                forall|a: int, b: int| 0 <= a < i && 0 <= b < m[a].1.len() ==> !(#[trigger] m[a].1[b]).aliases,
                forall|b: int| 0 <= b < j ==> !(#[trigger] m[i as int].1[b]).aliases,
            decreases m[i as int].1.len() - j,
        {
            assert(row[j as int].deep_view() == m[i as int].1[j as int]);
            if row[j].aliases {
                return true;
            }
            j += 1;
        }
        i += 1;
    }
    false
}

/// The argument holds `+`.
pub open spec fn has_plus(a: Seq<char>) -> bool {
    contains(a, seq!['+'])
}

fn slices_pass(verdicts: &NameMap<Vec<AliasingVerdict>>) -> (res: bool)
    ensures
        res == exists|i: int, j: int|
            0 <= i < verdicts@.len() && 0 <= j < verdicts@[i].1.len() && (has_plus(
                (#[trigger] verdicts@[i].1[j]).arg1,
            ) || has_plus(verdicts@[i].1[j].arg2)),
{
    let ghost m = verdicts@;
    let mut i: usize = 0;
    while i < verdicts.len()
        invariant
            i <= m.len(),
            m == verdicts@,
            forall|a: int, b: int|
                0 <= a < i && 0 <= b < m[a].1.len() ==> !(has_plus((#[trigger] m[a].1[b]).arg1)
                    || has_plus(m[a].1[b].arg2)),
        decreases m.len() - i,
    {
        let row = verdicts.value_at(i);
        let mut j: usize = 0;
        while j < row.len()
            invariant
                i < m.len(),
                j <= m[i as int].1.len(),
                m == verdicts@,
                row.deep_view() == m[i as int].1,
                forall|a: int, b: int|
                    0 <= a < i && 0 <= b < m[a].1.len() ==> !(has_plus((#[trigger] m[a].1[b]).arg1)
                        || has_plus(m[a].1[b].arg2)),
                forall|b: int|
                    0 <= b < j ==> !(has_plus((#[trigger] m[i as int].1[b]).arg1) || has_plus(
                        m[i as int].1[b].arg2,
                    )),
            decreases m[i as int].1.len() - j,
        {
            let v = &row[j];
            assert(v.deep_view() == m[i as int].1[j as int]);
            let a1 = chars_of(v.arg1.as_str());
            let a2 = chars_of(v.arg2.as_str());
            proof {
                crate::text::lemma_contains_one(a1@, '+');
                crate::text::lemma_contains_one(a2@, '+');
            }
            if has_char(&a1, '+') || has_char(&a2, '+') {
                return true;
            }
            j += 1;
        }
        i += 1;
    }
    false
}

fn transfer_pass(
    summaries: &NameMap<crate::data_stores::interprocedural_summaries::OwnershipTransferSummary>,
    t: OwnershipTransferType,
) -> (res: bool)
    ensures
        res == exists|i: int|
            0 <= i < summaries@.len() && (#[trigger] summaries@[i]).1.transfer_type == t,
{
    let mut i: usize = 0;
    while i < summaries.len()
        invariant
            i <= summaries@.len(),
            forall|a: int| 0 <= a < i ==> (#[trigger] summaries@[a]).1.transfer_type != t,
        decreases summaries@.len() - i,
    {
        if summaries.value_at(i).transfer_type == t {
            assert(summaries@[i as int].1.transfer_type == t);
            return true;
        }
        i += 1;
    }
    false
}

fn idiom(n: usize, name: &str, detected: bool, yes: &str, no: &str) -> (res: IdiomStatus)
    ensures
        res.deep_view() == idiom_of(n, name@, detected, yes@, no@),
{
    IdiomStatus {
        idiom_number: n,
        name: String::from_str(name),
        detected,
        resolution: if detected {
            String::from_str(yes)
        } else {
            String::from_str(no)
        },
    }
}

fn idioms_of(summaries: &InterproceduralSummaries) -> (res: Vec<IdiomStatus>)
    ensures
        res.deep_view() == spec_idioms(summaries.deep_view()),
{
    let ghost s = summaries.deep_view();
    let d1 = aliasing_pass(&summaries.alias_verdicts);
    let d2 = transfer_pass(
        &summaries.ownership_transfer_summaries,
        OwnershipTransferType::ConsumesOwnership,
    );
    let d3 = transfer_pass(
        &summaries.ownership_transfer_summaries,
        OwnershipTransferType::CreatesOwnership,
    );
    let d4 = slices_pass(&summaries.alias_verdicts);
    let d5 = !summaries.cross_function_union_resolutions.is_empty();
    let d6 = summaries.data_dependent_ownership_flags.len() != 0;
    assert(summaries.data_dependent_ownership_flags.deep_view().len()
        == summaries.data_dependent_ownership_flags@.len());
    let mut v: Vec<IdiomStatus> = Vec::new();
    v.push(idiom(
        1,
        "Aliased &mut parameters",
        d1,
        "Interprocedural points-to alias analysis over call-site arguments",
        "No call-site aliasing detected",
    ));
    v.push(idiom(
        2,
        "Ownership consumed through T** argument",
        d2,
        "Def-use link from callee's write-through pointer back to caller's variable",
        "None detected",
    ));
    v.push(idiom(
        3,
        "Ownership created through T** out-parameter",
        d3,
        "Callee heap allocation linked back to caller's local variable",
        "None detected",
    ));
    v.push(idiom(
        4,
        "Overlapping pointer-arithmetic slices",
        d4,
        "Call-site range offset overlap check",
        "None detected",
    ));
    v.push(idiom(
        5,
        "Union's active variant carried across call boundary",
        d5,
        "Interprocedural reaching-definitions over tag/variant state",
        "None detected",
    ));
    v.push(idiom(
        6,
        "Data-dependent ownership (run-time)",
        d6,
        "Routed to Option<Box<T>> fallback or LLM repair agent",
        "None detected",
    ));
    assert(d1 == aliasing_detected(s));
    assert(d4 == slices_detected(s));
    assert(v.deep_view() =~= spec_idioms(s));
    v
}

// ---------------------------------------------------------------------
// The Markdown rendering
// ---------------------------------------------------------------------

/// `true` or `false`, as `{}` writes a `bool`.
pub open spec fn bool_text(b: bool) -> Seq<char> {
    if b {
        "true"@
    } else {
        "false"@
    }
}

/// The report line of an idiom.
pub open spec fn idiom_line(i: IdiomModel) -> Seq<char> {
    "- **Idiom "@ + decimal(i.idiom_number as nat) + " ("@ + i.name + ")**: ["@ + (if i.detected {
        "DETECTED"@
    } else {
        "NOT DETECTED"@
    }) + "] — "@ + i.resolution + "\n"@
}

/// The report line of a repair.
pub open spec fn log_line(l: LogModel) -> Seq<char> {
    "- Iteration "@ + decimal(l.iteration as nat) + ": Source: "@ + l.patch_source + " | Note: "@
        + l.explanation + "\n"@
}

/// The repair history section's body.
pub open spec fn history_text(logs: Seq<LogModel>) -> Seq<char> {
    if logs.len() == 0 {
        "No repair iterations required (clean translation on initial synthesis).\n"@
    } else {
        logs.map_values(|l: LogModel| log_line(l)).flatten()
    }
}

/// The Markdown report: a title with the file name, the metrics, one line
/// per idiom, and the repair history.
pub open spec fn spec_markdown(
    file_debug: Seq<char>,
    v: ValidatedModel,
    functions: nat,
    nodes: nat,
    edges: nat,
    r: RepairResultModel,
    idioms: Seq<IdiomModel>,
) -> Seq<char> {
    "# Translation Report for "@ + file_debug + "\n\n"@ + "- **Input C File**: "@ + decimal(
        v.byte_size as nat,
    ) + " bytes, "@ + decimal(v.line_count as nat) + " lines\n"@ + "- **Parsed Functions**: "@
        + decimal(functions) + "\n"@ + "- **Call Graph**: "@ + decimal(nodes) + " nodes, "@
        + decimal(edges) + " edges\n"@ + "- **Final Compilation Success**: "@ + bool_text(
        r.final_success,
    ) + "\n"@ + "- **Repair Iterations Used**: "@ + decimal(r.iterations_used as nat) + "\n\n"@
        + "## 6 C Idioms Taxonomy Summary\n\n"@ + idioms.map_values(
        |i: IdiomModel| idiom_line(i),
    ).flatten() + "\n## Repair History\n\n"@ + history_text(r.repair_logs)
}

fn push_str(v: &mut Vec<char>, s: &str)
    ensures
        final(v)@ == old(v)@ + s@,
{
    let c = chars_of(s);
    push_all(v, &c);
}

fn push_decimal(v: &mut Vec<char>, n: usize)
    ensures
        final(v)@ == old(v)@ + decimal(n as nat),
{
    let d = decimal_exec(n);
    push_all(v, &d);
}

fn idioms_text(idioms: &Vec<IdiomStatus>) -> (res: Vec<char>)
    ensures
        res@ == idioms.deep_view().map_values(|i: IdiomModel| idiom_line(i)).flatten(),
{
    let ghost ls = idioms.deep_view().map_values(|i: IdiomModel| idiom_line(i));
    let mut v: Vec<char> = Vec::new();
    let mut k: usize = 0;
    assert(ls.take(0) =~= Seq::<Seq<char>>::empty());
    while k < idioms.len()
        invariant
            k <= idioms@.len(),
            ls == idioms.deep_view().map_values(|i: IdiomModel| idiom_line(i)),
            v@ == ls.take(k as int).flatten(),
        decreases idioms@.len() - k,
    {
        let ghost before = v@;
        let i = &idioms[k];
        push_str(&mut v, "- **Idiom ");
        push_decimal(&mut v, i.idiom_number);
        push_str(&mut v, " (");
        push_str(&mut v, i.name.as_str());
        push_str(&mut v, ")**: [");
        if i.detected {
            push_str(&mut v, "DETECTED");
        } else {
            push_str(&mut v, "NOT DETECTED");
        }
        push_str(&mut v, "] — ");
        push_str(&mut v, i.resolution.as_str());
        push_str(&mut v, "\n");
        proof {
            assert(ls.take(k + 1) =~= ls.take(k as int).push(ls[k as int]));
            ls.take(k as int).lemma_flatten_push(ls[k as int]);
            assert(v@ =~= before + idiom_line(i.deep_view()));
        }
        k += 1;
    }
    assert(ls.take(idioms@.len() as int) =~= ls);
    v
}

fn history_exec(logs: &Vec<crate::module6_repair::RepairLogEntry>) -> (res: Vec<char>)
    ensures
        res@ == history_text(logs.deep_view()),
{
    if logs.len() == 0 {
        return chars_of("No repair iterations required (clean translation on initial synthesis).\n");
    }
    let ghost ls = logs.deep_view().map_values(|l: LogModel| log_line(l));
    let mut v: Vec<char> = Vec::new();
    let mut k: usize = 0;
    assert(ls.take(0) =~= Seq::<Seq<char>>::empty());
    while k < logs.len()
        invariant
            k <= logs@.len(),
            ls == logs.deep_view().map_values(|l: LogModel| log_line(l)),
            v@ == ls.take(k as int).flatten(),
        decreases logs@.len() - k,
    {
        let ghost before = v@;
        let l = &logs[k];
        push_str(&mut v, "- Iteration ");
        push_decimal(&mut v, l.iteration);
        push_str(&mut v, ": Source: ");
        push_str(&mut v, l.patch_source.as_str());
        push_str(&mut v, " | Note: ");
        push_str(&mut v, l.explanation.as_str());
        push_str(&mut v, "\n");
        proof {
            assert(ls.take(k + 1) =~= ls.take(k as int).push(ls[k as int]));
            ls.take(k as int).lemma_flatten_push(ls[k as int]);
            assert(v@ =~= before + log_line(l.deep_view()));
        }
        k += 1;
    }
    assert(ls.take(logs@.len() as int) =~= ls);
    v
}

/// The report of a translation.
pub open spec fn spec_report(
    v: ValidatedModel,
    tu: TranslationUnitModel,
    s: SummariesModel,
    r: RepairResultModel,
) -> ReportModel {
    ReportModel {
        source_file_name: file_name_text(v.file_path),
        c_lines: v.line_count,
        c_bytes: v.byte_size,
        functions_count: tu.functions.len() as usize,
        call_graph_nodes: s.call_graph_nodes.len() as usize,
        call_graph_edges: s.call_graph_edges.len() as usize,
        idioms_summary: spec_idioms(s),
        repair_iterations: r.iterations_used,
        compilation_successful: r.final_success,
        final_rust_code: r.final_rust_code,
        formatted_markdown_report: spec_markdown(
            file_name_debug_text(v.file_path),
            v,
            tu.functions.len(),
            s.call_graph_nodes.len(),
            s.call_graph_edges.len(),
            r,
            spec_idioms(s),
        ),
    }
}

/// Assembles the report of a translation: the file's metrics, the size of
/// the call graph, the six idioms as the summaries show them, the repair
/// outcome, and the Markdown rendering of all of it.
pub fn assemble_translation_report(
    validated: &ValidatedCSource,
    tu_ast: &TranslationUnitAST,
    _semantic_models: &NameMap<SemanticModel>,
    summaries: &InterproceduralSummaries,
    repair_res: &RepairResult,
) -> (res: TranslationReport)
    ensures
        res.deep_view() == spec_report(
            validated.deep_view(),
            tu_ast.deep_view(),
            summaries.deep_view(),
            repair_res.deep_view(),
        ),
{
    let idioms = idioms_of(summaries);
    let nodes = call_graph_node_count(&summaries.call_graph);
    let edges = call_graph_edge_count(&summaries.call_graph);
    let functions = tu_ast.functions.len();
    let mut md: Vec<char> = Vec::new();
    push_str(&mut md, "# Translation Report for ");
    let fname_debug = path_file_name_debug(validated.file_path.as_str());
    push_str(&mut md, fname_debug.as_str());
    push_str(&mut md, "\n\n");
    push_str(&mut md, "- **Input C File**: ");
    push_decimal(&mut md, validated.byte_size);
    push_str(&mut md, " bytes, ");
    push_decimal(&mut md, validated.line_count);
    push_str(&mut md, " lines\n");
    push_str(&mut md, "- **Parsed Functions**: ");
    push_decimal(&mut md, functions);
    push_str(&mut md, "\n");
    push_str(&mut md, "- **Call Graph**: ");
    push_decimal(&mut md, nodes);
    push_str(&mut md, " nodes, ");
    push_decimal(&mut md, edges);
    push_str(&mut md, " edges\n");
    push_str(&mut md, "- **Final Compilation Success**: ");
    if repair_res.final_success {
        push_str(&mut md, "true");
    } else {
        push_str(&mut md, "false");
    }
    push_str(&mut md, "\n");
    push_str(&mut md, "- **Repair Iterations Used**: ");
    push_decimal(&mut md, repair_res.iterations_used);
    push_str(&mut md, "\n\n");
    push_str(&mut md, "## 6 C Idioms Taxonomy Summary\n\n");
    let it = idioms_text(&idioms);
    push_all(&mut md, &it);
    push_str(&mut md, "\n## Repair History\n\n");
    let h = history_exec(&repair_res.repair_logs);
    push_all(&mut md, &h);
    assert(md@ =~= spec_report(
        validated.deep_view(),
        tu_ast.deep_view(),
        summaries.deep_view(),
        repair_res.deep_view(),
    ).formatted_markdown_report);
    TranslationReport {
        source_file_name: path_file_name(validated.file_path.as_str()),
        c_lines: validated.line_count,
        c_bytes: validated.byte_size,
        functions_count: functions,
        call_graph_nodes: nodes,
        call_graph_edges: edges,
        idioms_summary: idioms,
        repair_iterations: repair_res.iterations_used,
        compilation_successful: repair_res.final_success,
        final_rust_code: repair_res.final_rust_code.clone(),
        formatted_markdown_report: string_of(&md),
    }
}

} // verus!
