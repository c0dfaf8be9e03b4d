//! Repair proposals: from a language model's reply, or from the rule-based
//! fallback, and the request sent to the model.
use vstd::prelude::*;

use crate::module6_repair::diagnostic_packager::{PackageModel, RepairRequestPackage};
use crate::text::{
    chars_of, copy_range, find, find_chars, join, join_chars, lemma_find_from, lines, lines_of_str,
    push_all, seqs_of, starts_with, str_starts_with, string_of, trim, trim_chars, trim_start_pat,
    trim_start_pat_exec,
};

verus! {

broadcast use vstd::string::group_string_axioms;

/// A proposed repair of the candidate Rust code.
#[derive(Debug)]
pub struct PatchProposal {
    pub patched_rust_code: String,
    pub explanation: String,
    /// `Gemini-LLM-API` or `Rule-Based-Fallback`.
    pub source: String,
}

/// The value a `PatchProposal` stands for.
pub ghost struct ProposalModel {
    pub patched_rust_code: Seq<char>,
    pub explanation: Seq<char>,
    pub source: Seq<char>,
}

impl DeepView for PatchProposal {
    type V = ProposalModel;

    open spec fn deep_view(&self) -> ProposalModel {
        ProposalModel {
            patched_rust_code: self.patched_rust_code@,
            explanation: self.explanation@,
            source: self.source@,
        }
    }
}

// ---------------------------------------------------------------------
// Rule-based fallback
// ---------------------------------------------------------------------

/// A line the fallback keeps: its trimmed form starts neither with `void `
/// nor with `int main()`, which mark C headers left in the Rust code.
pub open spec fn keeps_line(l: Seq<char>) -> bool {
    !(starts_with(trim(l), "void "@) || starts_with(trim(l), "int main()"@))
}

/// The lines of `code` that the fallback keeps, in order.
pub open spec fn kept_lines(ls: Seq<Seq<char>>) -> Seq<Seq<char>>
    decreases ls.len(),
{
    if ls.len() == 0 {
        seq![]
    } else if keeps_line(ls.last()) {
        kept_lines(ls.drop_last()).push(ls.last())
    } else {
        kept_lines(ls.drop_last())
    }
}

/// The fallback's repair of `code`: its kept lines joined by newlines.
pub open spec fn spec_fallback_code(code: Seq<char>) -> Seq<char> {
    join(kept_lines(lines(code)), "\n"@)
}

/// The rule-based repair: drops the lines that are C function headers
/// (`void ...`, `int main()...`) from the candidate code.
pub fn fallback_rule_based_repair(pkg: &RepairRequestPackage) -> (res: PatchProposal)
    ensures
        res.deep_view() == (ProposalModel {
            patched_rust_code: spec_fallback_code(pkg.candidate_rust_code@),
            explanation: "Applied syntax normalization and rule-based repair fallback."@,
            source: "Rule-Based-Fallback"@,
        }),
{
    let ls = lines_of_str(pkg.candidate_rust_code.as_str());
    let ghost all = seqs_of(ls@);
    let mut kept: Vec<Vec<char>> = Vec::new();
    let mut i: usize = 0;
    assert(all.take(0) =~= Seq::<Seq<char>>::empty());
    while i < ls.len()
        invariant
            i <= ls@.len(),
            all == seqs_of(ls@),
            seqs_of(kept@) == kept_lines(all.take(i as int)),
        decreases ls@.len() - i,
    {
        assert(all.take(i + 1).drop_last() =~= all.take(i as int));
        let t = trim_chars(&ls[i]);
        if !(str_starts_with(&t, "void ") || str_starts_with(&t, "int main()")) {
            let line = ls[i].clone();
            proof {
                crate::text::lemma_seqs_of_push(kept@, line);
            }
            kept.push(line);
        }
        i += 1;
    }
    assert(all.take(all.len() as int) =~= all);
    let nl = chars_of("\n");
    let patched = join_chars(&kept, &nl);
    PatchProposal {
        patched_rust_code: string_of(&patched),
        explanation: String::from_str("Applied syntax normalization and rule-based repair fallback."),
        source: String::from_str("Rule-Based-Fallback"),
    }
}

// ---------------------------------------------------------------------
// Code blocks in a reply
// ---------------------------------------------------------------------

/// The trimmed text between the end of an opening fence at `start`
/// (`len` characters long) and the next fence.
pub open spec fn fenced_after(t: Seq<char>, start: int, len: int) -> Option<Seq<char>> {
    let after = t.skip(start + len);
    match find(after, "```"@) {
        Some(e) => Some(trim(after.take(e))),
        None => None,
    }
}

/// The code of the first fenced block of `t`: after the first ` ```rust `
/// when there is one, else after the first ` ``` `, up to the next fence,
/// trimmed; nothing when the block is not closed.
pub open spec fn spec_extract_code_block(t: Seq<char>) -> Option<Seq<char>> {
    match find(t, "```rust"@) {
        Some(s) => fenced_after(t, s, 7),
        None => match find(t, "```"@) {
            Some(s) => fenced_after(t, s, 3),
            None => None,
        },
    }
}

fn fenced_after_exec(t: &Vec<char>, start: usize, len: usize) -> (res: Option<String>)
    requires
        start + len <= t@.len(),
    ensures
        res.deep_view() == fenced_after(t@, start as int, len as int),
{
    let n = t.len();
    let after = copy_range(t, start + len, n);
    assert(after@ =~= t@.skip(start + len));
    let fence = chars_of("```");
    proof {
        lemma_find_from(after@, fence@, 0);
    }
    match find_chars(&after, &fence) {
        Some(e) => {
            let body = copy_range(&after, 0, e);
            assert(body@ =~= after@.take(e as int));
            let trimmed = trim_chars(&body);
            Some(string_of(&trimmed))
        },
        None => None,
    }
}

/// The code of the first fenced block of a model's reply.
pub fn extract_rust_code_block(text: &str) -> (res: Option<String>)
    ensures
        res.deep_view() == spec_extract_code_block(text@),
{
    let t = chars_of(text);
    let open_rust = chars_of("```rust");
    let fence = chars_of("```");
    proof {
        reveal_strlit("```rust");
        reveal_strlit("```");
        lemma_find_from(t@, open_rust@, 0);
        lemma_find_from(t@, fence@, 0);
    }
    match find_chars(&t, &open_rust) {
        Some(s) => fenced_after_exec(&t, s, 7),
        None => match find_chars(&t, &fence) {
            Some(s) => fenced_after_exec(&t, s, 3),
            None => None,
        },
    }
}

// ---------------------------------------------------------------------
// The request to the model and its reply
// ---------------------------------------------------------------------

/// The endpoint of the Gemini API for the key `key`.
pub open spec fn spec_gemini_endpoint(key: Seq<char>) -> Seq<char> {
    "https://generativelanguage.googleapis.com/v1beta/models/gemini-3.6-flash:generateContent?key="@
        + key
}

/// The endpoint of the Gemini API for the key `api_key`.
pub fn gemini_endpoint(api_key: &str) -> (res: String)
    ensures
        res@ == spec_gemini_endpoint(api_key@),
{
    let mut v = chars_of(
        "https://generativelanguage.googleapis.com/v1beta/models/gemini-3.6-flash:generateContent?key=",
    );
    let k = chars_of(api_key);
    push_all(&mut v, &k);
    string_of(&v)
}

/// The prompt that asks the model to repair the candidate of `pkg`: the C
/// source, the candidate and the compiler's messages (one per line), framed
/// by fixed instructions.
pub open spec fn spec_repair_prompt(pkg: PackageModel) -> Seq<char> {
    "You are an expert Rust compiler repair agent for C-to-Rust transpilation.\nThe following Rust code was synthesized from C, but failed to compile with rustc.\n\n=== Original C Source ===\n"@
        + pkg.original_c_source + "\n\n=== Candidate Rust Code ===\n"@ + pkg.candidate_rust_code
        + "\n\n=== rustc Diagnostic Errors ===\n"@ + join(pkg.compiler_error_messages, "\n"@)
        + "\n\nPlease provide the REPAIRED valid Rust code only enclosed in ```rust ... ``` blocks, preserving memory safety and ownership intent."@
}

/// The prompt that asks the model to repair the candidate of `pkg`.
pub fn repair_prompt(pkg: &RepairRequestPackage) -> (res: String)
    ensures
        res@ == spec_repair_prompt(pkg.deep_view()),
{
    let mut v = chars_of(
        "You are an expert Rust compiler repair agent for C-to-Rust transpilation.\nThe following Rust code was synthesized from C, but failed to compile with rustc.\n\n=== Original C Source ===\n",
    );
    let a = chars_of(pkg.original_c_source.as_str());
    push_all(&mut v, &a);
    let b = chars_of("\n\n=== Candidate Rust Code ===\n");
    push_all(&mut v, &b);
    let c = chars_of(pkg.candidate_rust_code.as_str());
    push_all(&mut v, &c);
    let d = chars_of("\n\n=== rustc Diagnostic Errors ===\n");
    push_all(&mut v, &d);
    let mut msgs: Vec<Vec<char>> = Vec::new();
    let mut i: usize = 0;
    while i < pkg.compiler_error_messages.len()
        invariant
            i <= pkg.compiler_error_messages@.len(),
            seqs_of(msgs@) == pkg.compiler_error_messages.deep_view().take(i as int),
        decreases pkg.compiler_error_messages@.len() - i,
    {
        let m = chars_of(pkg.compiler_error_messages[i].as_str());
        proof {
            crate::text::lemma_seqs_of_push(msgs@, m);
        }
        msgs.push(m);
        assert(pkg.compiler_error_messages.deep_view().take(i + 1) =~= pkg.compiler_error_messages.deep_view().take(
            i as int,
        ).push(pkg.compiler_error_messages[i as int]@));
        i += 1;
    }
    assert(pkg.compiler_error_messages.deep_view().take(
        pkg.compiler_error_messages@.len() as int,
    ) =~= pkg.compiler_error_messages.deep_view());
    let nl = chars_of("\n");
    let joined = join_chars(&msgs, &nl);
    push_all(&mut v, &joined);
    let e = chars_of(
        "\n\nPlease provide the REPAIRED valid Rust code only enclosed in ```rust ... ``` blocks, preserving memory safety and ownership intent.",
    );
    push_all(&mut v, &e);
    string_of(&v)
}

/// The proposal made from the text of a model's reply: an empty reply is
/// refused; otherwise the code of its first fenced block, or the whole
/// reply when it has none.
pub fn proposal_from_reply(text: String) -> (res: Result<PatchProposal, String>)
    ensures
        text@.len() == 0 <==> res is Err,
        res matches Err(e) ==> e@ == "Gemini API returned empty text response."@,
        res matches Ok(p) ==> p.deep_view() == (ProposalModel {
            patched_rust_code: match spec_extract_code_block(text@) {
                Some(c) => c,
                None => text@,
            },
            explanation: "Patched via Gemini LLM API"@,
            source: "Gemini-LLM-API"@,
        }),
{
    let t = chars_of(text.as_str());
    if t.len() == 0 {
        return Err(String::from_str("Gemini API returned empty text response."));
    }
    let patched = match extract_rust_code_block(text.as_str()) {
        Some(c) => c,
        None => text,
    };
    Ok(
        PatchProposal {
            patched_rust_code: patched,
            explanation: String::from_str("Patched via Gemini LLM API"),
            source: String::from_str("Gemini-LLM-API"),
        },
    )
}

/// The proposal used for a repair request: the model's when it was asked
/// and answered, else the rule-based fallback's.
pub fn choose_proposal(pkg: &RepairRequestPackage, reply: Option<Result<PatchProposal, String>>) -> (res:
    PatchProposal)
    ensures
        reply matches Some(Ok(p)) ==> res.deep_view() == p.deep_view(),
        !(reply matches Some(Ok(_))) ==> res.deep_view() == (ProposalModel {
            patched_rust_code: spec_fallback_code(pkg.candidate_rust_code@),
            explanation: "Applied syntax normalization and rule-based repair fallback."@,
            source: "Rule-Based-Fallback"@,
        }),
{
    match reply {
        Some(Ok(p)) => p,
        _ => fallback_rule_based_repair(pkg),
    }
}

// ---------------------------------------------------------------------
// The API key
// ---------------------------------------------------------------------

/// The value of the first line of a `.env` file that, trimmed, starts with
/// `GEMINI_API_KEY=` and gives a non-empty value once every leading copy of
/// that prefix is removed and the rest trimmed.
pub open spec fn spec_dotenv_key(ls: Seq<Seq<char>>) -> Option<Seq<char>>
    decreases ls.len(),
{
    if ls.len() == 0 {
        None
    } else {
        let t = trim(ls[0]);
        let v = trim(trim_start_pat(t, "GEMINI_API_KEY="@));
        if starts_with(t, "GEMINI_API_KEY="@) && v.len() > 0 {
            Some(v)
        } else {
            spec_dotenv_key(ls.drop_first())
        }
    }
}

/// The Gemini API key that a `.env` file's content gives.
pub fn key_from_dotenv(content: &str) -> (res: Option<String>)
    ensures
        res.deep_view() == spec_dotenv_key(lines(content@)),
{
    let ls = lines_of_str(content);
    let ghost all = seqs_of(ls@);
    let prefix = chars_of("GEMINI_API_KEY=");
    let mut i: usize = 0;
    assert(all.skip(0) =~= all);
    while i < ls.len()
        invariant
            i <= ls@.len(),
            all == seqs_of(ls@),
            all == lines(content@),
            prefix@ == "GEMINI_API_KEY="@,
            spec_dotenv_key(all) == spec_dotenv_key(all.skip(i as int)),
        decreases ls@.len() - i,
    {
        assert(all.skip(i as int).drop_first() =~= all.skip(i + 1));
        assert(all.skip(i as int)[0] == ls@[i as int]@);
        let t = trim_chars(&ls[i]);
        if crate::text::starts_with_chars(&t, &prefix) {
            let rest = trim_start_pat_exec(&t, &prefix);
            let v = trim_chars(&rest);
            if v.len() > 0 {
                return Some(string_of(&v));
            }
        }
        i += 1;
    }
    None
}

/// The key with which to ask the model: the `GEMINI_API_KEY` variable when
/// it is set, else the `.env` file's key; none when that is blank.
pub open spec fn spec_api_key(env_value: Option<Seq<char>>, dotenv: Option<Seq<char>>) -> Option<
    Seq<char>,
> {
    let key = match env_value {
        Some(v) => Some(v),
        None => match dotenv {
            Some(c) => spec_dotenv_key(lines(c)),
            None => None,
        },
    };
    match key {
        Some(k) => if trim(k).len() > 0 {
            Some(k)
        } else {
            None
        },
        None => None,
    }
}

/// The key with which to ask the model, given the value of the
/// `GEMINI_API_KEY` variable and the content of the `.env` file, where
/// they could be read.
pub fn repair_api_key(env_value: Option<String>, dotenv_content: Option<String>) -> (res: Option<
    String,
>)
    ensures
        res.deep_view() == spec_api_key(env_value.deep_view(), dotenv_content.deep_view()),
{
    let key = match env_value {
        Some(v) => Some(v),
        None => match dotenv_content {
            Some(c) => key_from_dotenv(c.as_str()),
            None => None,
        },
    };
    match key {
        Some(k) => {
            let t = crate::text::trim_str(k.as_str());
            if t.len() > 0 {
                Some(k)
            } else {
                None
            }
        },
        None => None,
    }
}

} // verus!
