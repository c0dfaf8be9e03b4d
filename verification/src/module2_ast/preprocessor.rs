//! Preprocessor expansion: an external `gcc -E` run, or an internal
//! resolution of `#define`, `#ifdef`/`#ifndef`/`#else`/`#endif` and
//! `#include` lines.
use vstd::prelude::*;

use crate::module1_validation::{ValidatedCSource, ValidatedModel};
use crate::name_map::{assoc_find, assoc_insert, lemma_assoc_insert_keys, NameMap};
use crate::text::{
    chars_of, join, join_chars, lemma_lines_lack, lemma_seqs_of_push, lemma_trim_lack,
    lemma_words_nonempty, lines, lines_of,
    replace_all, replace_all_exec, seqs_of, starts_with, str_starts_with, string_of, trim,
    trim_chars, trim_start_pat, trim_start_pat_exec, words, words_of,
};

verus! {

broadcast use vstd::string::group_string_axioms;

/// The source after preprocessing.
#[derive(Debug)]
pub struct ExpandedCSource {
    pub raw_input: ValidatedCSource,
    pub expanded_content: String,
    pub used_external_preprocessor: bool,
}

/// The value an `ExpandedCSource` stands for.
pub ghost struct ExpandedModel {
    pub raw_input: ValidatedModel,
    pub expanded_content: Seq<char>,
    pub used_external_preprocessor: bool,
}

impl DeepView for ExpandedCSource {
    type V = ExpandedModel;

    open spec fn deep_view(&self) -> ExpandedModel {
        ExpandedModel {
            raw_input: self.raw_input.deep_view(),
            expanded_content: self.expanded_content@,
            used_external_preprocessor: self.used_external_preprocessor,
        }
    }
}

/// Errors of preprocessing.
#[derive(Debug)]
pub enum PreprocessorError {
    ExpansionFailed(String),
}

impl PreprocessorError {
    /// The message the error displays: `Preprocessor Expansion Error: <detail>`.
    pub fn message(&self) -> (res: String)
        ensures
            match self {
                PreprocessorError::ExpansionFailed(m) => res@ == "Preprocessor Expansion Error: "@
                    + m@,
            },
    {
        match self {
            PreprocessorError::ExpansionFailed(m) => {
                let mut res = String::from_str("Preprocessor Expansion Error: ");
                res.append(m.as_str());
                res
            },
        }
    }
}

/// `line` with each macro of `ms`, in order, replaced by its value.
pub open spec fn substitute_macros(line: Seq<char>, ms: Seq<(Seq<char>, Seq<char>)>) -> Seq<char>
    decreases ms.len(),
{
    if ms.len() == 0 {
        line
    } else {
        substitute_macros(replace_all(line, ms[0].0, ms[0].1), ms.drop_first())
    }
}

/// The state of the internal preprocessor: the macros defined so far (in
/// definition order), the lines kept, and the stack of conditional blocks
/// (`true` for a block whose lines are skipped).
pub ghost struct PreState {
    pub macros: Seq<(Seq<char>, Seq<char>)>,
    pub out: Seq<Seq<char>>,
    pub skip: Seq<bool>,
}

/// The internal preprocessor after one more line.
pub open spec fn pre_step(st: PreState, line: Seq<char>) -> PreState {
    let t = trim(line);
    if starts_with(t, "#ifdef"@) {
        let name = trim(trim_start_pat(t, "#ifdef"@));
        PreState { skip: st.skip.push(!(assoc_find(st.macros, name) is Some)), ..st }
    } else if starts_with(t, "#ifndef"@) {
        let name = trim(trim_start_pat(t, "#ifndef"@));
        PreState { skip: st.skip.push(assoc_find(st.macros, name) is Some), ..st }
    } else if starts_with(t, "#else"@) {
        if st.skip.len() > 0 {
            PreState { skip: st.skip.drop_last().push(!st.skip.last()), ..st }
        } else {
            st
        }
    } else if starts_with(t, "#endif"@) {
        if st.skip.len() > 0 {
            PreState { skip: st.skip.drop_last(), ..st }
        } else {
            st
        }
    } else if st.skip.contains(true) {
        st
    } else if starts_with(t, "#define"@) {
        let parts = words(t);
        if parts.len() >= 2 {
            let val = if parts.len() >= 3 {
                join(parts.skip(2), " "@)
            } else {
                "1"@
            };
            PreState { macros: assoc_insert(st.macros, parts[1], val), ..st }
        } else {
            st
        }
    } else if starts_with(t, "#include"@) {
        st
    } else {
        PreState { out: st.out.push(substitute_macros(line, st.macros)), ..st }
    }
}

/// The internal preprocessor after the lines `ls`.
pub open spec fn pre_scan(ls: Seq<Seq<char>>) -> PreState
    decreases ls.len(),
{
    if ls.len() == 0 {
        PreState { macros: seq![], out: seq![], skip: seq![] }
    } else {
        pre_step(pre_scan(ls.drop_last()), ls.last())
    }
}

/// The text the internal preprocessor makes of `code`: the kept lines,
/// joined with newlines.
pub open spec fn spec_internal_preprocess(code: Seq<char>) -> Seq<char> {
    join(pre_scan(lines(code)).out, "\n"@)
}

/// Every macro name is non-empty.
pub open spec fn macro_names_nonempty(ms: Seq<(Seq<char>, Seq<char>)>) -> bool {
    forall|k: int| 0 <= k < ms.len() ==> #[trigger] ms[k].0.len() > 0
}

proof fn lemma_pre_scan_names(ls: Seq<Seq<char>>)
    ensures
        macro_names_nonempty(pre_scan(ls).macros),
    decreases ls.len(),
{
    if ls.len() > 0 {
        lemma_pre_scan_names(ls.drop_last());
        let st = pre_scan(ls.drop_last());
        let t = trim(ls.last());
        let parts = words(t);
        lemma_words_nonempty(t);
        if parts.len() >= 2 {
            let val = if parts.len() >= 3 {
                join(parts.skip(2), " "@)
            } else {
                "1"@
            };
            let m2 = assoc_insert(st.macros, parts[1], val);
            assert(parts[1].len() > 0);
            lemma_assoc_insert_keys(st.macros, parts[1], val);
            assert forall|k: int| 0 <= k < m2.len() implies #[trigger] m2[k].0.len() > 0 by {
                if m2[k].0 != parts[1] {
                    assert(st.macros[k].0.len() > 0);
                }
            }
        }
    }
}

fn substitute_line(line: &Vec<char>, macros: &NameMap<String>) -> (res: Vec<char>)
    requires
        macro_names_nonempty(macros@),
    ensures
        res@ == substitute_macros(line@, macros@),
{
    let mut cur: Vec<char> = line.clone();
    assert(cur@ =~= line@);
    let ghost ms = macros@;
    let mut k: usize = 0;
    assert(ms.skip(0) =~= ms);
    while k < macros.len()
        invariant
            k <= ms.len(),
            ms == macros@,
            macro_names_nonempty(ms),
            substitute_macros(line@, ms) == substitute_macros(cur@, ms.skip(k as int)),
        decreases ms.len() - k,
    {
        let name = chars_of(macros.key_at(k).as_str());
        let val = chars_of(macros.value_at(k).as_str());
        assert(ms[k as int].0.len() > 0);
        assert(ms.skip(k as int).drop_first() =~= ms.skip(k + 1));
        cur = replace_all_exec(&cur, &name, &val);
        k += 1;
    }
    cur
}

/// Resolves `#define`, `#ifdef`/`#ifndef`/`#else`/`#endif`, drops
/// `#include` lines and substitutes the defined macros in the other lines.
pub fn fallback_internal_preprocessor(c_code: &str) -> (res: Result<String, PreprocessorError>)
    ensures
        res matches Ok(s) && s@ == spec_internal_preprocess(c_code@),
{
    let code = chars_of(c_code);
    let all_lines = lines_of(&code);
    let ghost ls = seqs_of(all_lines@);
    let mut macros: NameMap<String> = NameMap::new();
    let mut processed: Vec<Vec<char>> = Vec::new();
    let mut skip_stack: Vec<bool> = Vec::new();
    let ifdef_kw = chars_of("#ifdef");
    let ifndef_kw = chars_of("#ifndef");
    let mut i: usize = 0;
    assert(seqs_of(processed@) =~= Seq::<Seq<char>>::empty());
    assert(ls.take(0) =~= Seq::<Seq<char>>::empty());
    while i < all_lines.len()
        invariant
            i <= ls.len(),
            ls == seqs_of(all_lines@),
            ifdef_kw@ == "#ifdef"@,
            ifndef_kw@ == "#ifndef"@,
            pre_scan(ls.take(i as int)) == (PreState {
                macros: macros@,
                out: seqs_of(processed@),
                skip: skip_stack@,
            }),
        decreases ls.len() - i,
    {
        proof {
            assert(ls.take(i + 1).drop_last() =~= ls.take(i as int));
            lemma_pre_scan_names(ls.take(i as int));
        }
        let line = &all_lines[i];
        let trimmed = trim_chars(line);
        if str_starts_with(&trimmed, "#ifdef") {
            let rest = trim_start_pat_exec(&trimmed, &ifdef_kw);
            let name = trim_chars(&rest);
            let name_s = string_of(&name);
            let is_defined = macros.contains_key(name_s.as_str());
            skip_stack.push(!is_defined);
        } else if str_starts_with(&trimmed, "#ifndef") {
            let rest = trim_start_pat_exec(&trimmed, &ifndef_kw);
            let name = trim_chars(&rest);
            let name_s = string_of(&name);
            let is_defined = macros.contains_key(name_s.as_str());
            skip_stack.push(is_defined);
        } else if str_starts_with(&trimmed, "#else") {
            if skip_stack.len() > 0 {
                let top = skip_stack.pop().unwrap();
                skip_stack.push(!top);
            }
        } else if str_starts_with(&trimmed, "#endif") {
            if skip_stack.len() > 0 {
                skip_stack.pop();
            }
        } else if stack_has_true(&skip_stack) {
        } else if str_starts_with(&trimmed, "#define") {
            let parts = words_of(&trimmed);
            if parts.len() >= 2 {
                let name = string_of(&parts[1]);
                let val = if parts.len() >= 3 {
                    let mut tail: Vec<Vec<char>> = Vec::new();
                    let mut k: usize = 2;
                    while k < parts.len()
                        invariant
                            2 <= k <= parts@.len(),
                            seqs_of(tail@) == seqs_of(parts@).skip(2).take(k - 2),
                        decreases parts@.len() - k,
                    {
                        let piece = parts[k].clone();
                        proof {
                            lemma_seqs_of_push(tail@, piece);
                            assert(seqs_of(parts@).skip(2).take(k - 1) =~= seqs_of(parts@).skip(
                                2,
                            ).take(k - 2).push(parts@[k as int]@));
                        }
                        tail.push(piece);
                        k += 1;
                    }
                    assert(seqs_of(parts@).skip(2).take(parts@.len() - 2) =~= seqs_of(
                        parts@,
                    ).skip(2));
                    let space = chars_of(" ");
                    let v = join_chars(&tail, &space);
                    string_of(&v)
                } else {
                    String::from_str("1")
                };
                macros.insert(name, val);
            }
        } else if str_starts_with(&trimmed, "#include") {
        } else {
            let expanded = substitute_line(line, &macros);
            proof {
                lemma_seqs_of_push(processed@, expanded);
            }
            processed.push(expanded);
        }
        i += 1;
    }
    assert(ls.take(ls.len() as int) =~= ls);
    let newline = chars_of("\n");
    let joined = join_chars(&processed, &newline);
    Ok(string_of(&joined))
}

fn stack_has_true(v: &Vec<bool>) -> (res: bool)
    ensures
        res == v@.contains(true),
{
    let mut i: usize = 0;
    while i < v.len()
        invariant
            i <= v@.len(),
            forall|k: int| 0 <= k < i ==> !v@[k],
        decreases v@.len() - i,
    {
        if v[i] {
            assert(v@[i as int]);
            return true;
        }
        i += 1;
    }
    false
}

/// The expansion of `input`: the output of the external preprocessor when
/// it ran successfully (`gcc_stdout` is its standard output) and produced
/// more than whitespace, else the internal preprocessor's.
pub open spec fn spec_preprocess(input: ValidatedModel, gcc_stdout: Option<Seq<char>>) -> ExpandedModel {
    match gcc_stdout {
        Some(out) if trim(out).len() != 0 => ExpandedModel {
            raw_input: input,
            expanded_content: out,
            used_external_preprocessor: true,
        },
        _ => ExpandedModel {
            raw_input: input,
            expanded_content: spec_internal_preprocess(input.raw_content),
            used_external_preprocessor: false,
        },
    }
}

/// Preprocessor expansion of `input`, given the standard output of a
/// successful `gcc -E -P` run on its file, if there was one.
pub fn preprocess_c_code(input: &ValidatedCSource, gcc_stdout: Option<String>) -> (res: Result<
    ExpandedCSource,
    PreprocessorError,
>)
    ensures
        res matches Ok(e) && e.deep_view() == spec_preprocess(
            input.deep_view(),
            gcc_stdout.deep_view(),
        ),
{
    if let Some(out) = gcc_stdout {
        let out_chars = chars_of(out.as_str());
        let t = trim_chars(&out_chars);
        if t.len() != 0 {
            return Ok(
                ExpandedCSource {
                    raw_input: input.duplicate(),
                    expanded_content: out,
                    used_external_preprocessor: true,
                },
            );
        }
    }
    let expanded = fallback_internal_preprocessor(input.raw_content.as_str())?;
    Ok(
        ExpandedCSource {
            raw_input: input.duplicate(),
            expanded_content: expanded,
            used_external_preprocessor: false,
        },
    )
}

/// A line without `#` is no directive: the preprocessor keeps it as it is.
proof fn lemma_plain_line(st: PreState, line: Seq<char>)
    requires
        !line.contains('#'),
        st.macros.len() == 0,
        st.skip.len() == 0,
    ensures
        pre_step(st, line) == (PreState { out: st.out.push(line), ..st }),
{
    let t = trim(line);
    lemma_trim_lack(line, '#');
    reveal_strlit("#ifdef");
    reveal_strlit("#ifndef");
    reveal_strlit("#else");
    reveal_strlit("#endif");
    reveal_strlit("#define");
    reveal_strlit("#include");
    if t.len() > 0 {
        assert(t[0] != '#');
        assert(t.subrange(0, 1)[0] == t[0]);
    }
    assert(!starts_with(t, "#ifdef"@));
    assert(!starts_with(t, "#ifndef"@));
    assert(!starts_with(t, "#else"@));
    assert(!starts_with(t, "#endif"@));
    assert(!starts_with(t, "#define"@));
    assert(!starts_with(t, "#include"@));
    assert(!st.skip.contains(true));
}

proof fn lemma_pre_scan_plain(ls: Seq<Seq<char>>)
    requires
        forall|k: int| 0 <= k < ls.len() ==> !(#[trigger] ls[k]).contains('#'),
    ensures
        pre_scan(ls) == (PreState { macros: seq![], out: ls, skip: seq![] }),
    decreases ls.len(),
{
    if ls.len() > 0 {
        let init = ls.drop_last();
        assert forall|k: int| 0 <= k < init.len() implies !(#[trigger] init[k]).contains('#') by {
            assert(init[k] == ls[k]);
        }
        lemma_pre_scan_plain(init);
        assert(ls[ls.len() - 1] == ls.last());
        lemma_plain_line(pre_scan(init), ls.last());
        assert(init.push(ls.last()) =~= ls);
    } else {
        assert(ls =~= Seq::<Seq<char>>::empty());
    }
}

/// Code without `#` passes through the internal preprocessor unchanged, up
/// to its line breaks: the result is its lines joined by newlines.
pub proof fn lemma_plain_code_passes(code: Seq<char>)
    requires
        !code.contains('#'),
    ensures
        spec_internal_preprocess(code) == join(lines(code), "\n"@),
{
    lemma_lines_lack(code, '#');
    lemma_pre_scan_plain(lines(code));
}

} // verus!
