//! Detection of data-dependent ownership: an allocation or release whose
//! execution depends on run-time control flow.
use vstd::prelude::*;

use crate::data_stores::interprocedural_summaries::{DataDepFlag, DataDepModel};
use crate::data_stores::semantic_models::{MemoryPattern, SemanticModel, SemanticView};
use crate::module2_ast::ast_parser::{FunctionModel, TranslationUnitAST};
use crate::name_map::{assoc_get, NameMap};
use crate::text::{
    chars_of, contains, contains_chars, count_char, count_char_exec, ends_with, ends_with_chars,
    lemma_count_char_le, lemma_total_len_lines, lemma_total_len_skip, lemma_total_len_skip_le,
    lines, lines_of_str, push_all, seqs_of, string_of, total_len, trim, trim_chars,
};

verus! {

broadcast use vstd::string::group_string_axioms;

/// A trimmed line that opens a run-time conditional: an `if (`, `if(`,
/// `else if` or `switch`. (The `else` branch of a braced `if` stays inside
/// the block that the `if` line opened, so it is guarded by that line.)
pub open spec fn is_conditional(t: Seq<char>) -> bool {
    contains(t, "if ("@) || contains(t, "if("@) || contains(t, "else if"@) || contains(
        t,
        "switch"@,
    )
}

/// The scan for a use of one variable under a conditional: the brace depth
/// so far, the conditional block being read (the depth it opened at and its
/// opening line), a conditional line whose body is the next line, and the
/// guarding line of the first guarded use.
pub ghost struct GuardScan {
    pub depth: int,
    pub guard: Option<(int, Seq<char>)>,
    pub pending: Option<Seq<char>>,
    pub found: Option<Seq<char>>,
}

/// The scan when the trimmed line `t` (with brace depth `d2` after it, and
/// `uses` telling whether it mentions the variable) opens a conditional.
pub open spec fn open_conditional(st: GuardScan, t: Seq<char>, d2: int, uses: bool) -> GuardScan {
    GuardScan {
        depth: d2,
        guard: if d2 > st.depth {
            Some((st.depth, t))
        } else {
            None
        },
        pending: if d2 <= st.depth && !ends_with(t, ";"@) && !ends_with(t, "}"@) {
            Some(t)
        } else {
            None
        },
        found: if uses {
            Some(t)
        } else {
            None
        },
    }
}

/// The scan after one more line `l`, for the variable `var`. A
/// conditional line guards itself; when it opens braces it guards every
/// line until they close; when it opens none and does not end its
/// statement (no trailing `;` or `}`), it guards the next line, and the
/// block that line opens. A use on a guarded line is found with the line
/// of its conditional. A conditional line on which the guard before it
/// ends opens a guard of its own. Blank lines change nothing.
pub open spec fn guard_step(st: GuardScan, l: Seq<char>, var: Seq<char>) -> GuardScan {
    let t = trim(l);
    let d2 = st.depth + count_char(l, '{') - count_char(l, '}');
    let uses = contains(t, var);
    let cover: Option<Seq<char>> = match st.guard {
        Some((b, g)) => Some(g),
        None => st.pending,
    };
    let kept: Option<(int, Seq<char>)> = match st.guard {
        Some((b, g)) => if d2 > b {
            st.guard
        } else {
            None
        },
        None => match st.pending {
            Some(g) => if d2 > st.depth {
                Some((st.depth, g))
            } else {
                None
            },
            None => None,
        },
    };
    if st.found is Some || t.len() == 0 {
        st
    } else {
        match cover {
            Some(g) => if uses {
                GuardScan { depth: d2, guard: kept, pending: None, found: Some(g) }
            } else if kept is None && is_conditional(t) {
                open_conditional(st, t, d2, false)
            } else {
                GuardScan { depth: d2, guard: kept, pending: None, found: None }
            },
            None => if is_conditional(t) {
                open_conditional(st, t, d2, uses)
            } else {
                GuardScan { depth: d2, ..st }
            },
        }
    }
}

/// The scan before any line.
pub open spec fn guard_init() -> GuardScan {
    GuardScan { depth: 0, guard: None, pending: None, found: None }
}

/// The scan after the lines `ls`.
pub open spec fn guard_fold(ls: Seq<Seq<char>>, var: Seq<char>) -> GuardScan
    decreases ls.len(),
{
    if ls.len() == 0 {
        guard_init()
    } else {
        guard_step(guard_fold(ls.drop_last(), var), ls.last(), var)
    }
}

/// The conditional line that guards the first use of `var` in `body`, if
/// a use is guarded.
pub open spec fn guarding_line(body: Seq<char>, var: Seq<char>) -> Option<Seq<char>> {
    guard_fold(lines(body), var).found
}

/// The name that `{:?}` gives an allocating or releasing pattern.
pub open spec fn pattern_name(p: MemoryPattern) -> Seq<char> {
    if p is Free {
        "Free"@
    } else {
        "Allocate"@
    }
}

/// The reason given for a flag on variable `v` with pattern `p`, guarded
/// by the line `t`.
pub open spec fn flag_reason(p: MemoryPattern, v: Seq<char>, t: Seq<char>) -> Seq<char> {
    "Ownership pattern '"@ + pattern_name(p) + "' for variable '"@ + v
        + "' is conditioned on runtime control flow: '"@ + t + "'"@
}

/// The flags for the memory patterns `mps` of function `f`, appended to
/// `flags`: one for each allocating or releasing variable with a guarding
/// line.
pub open spec fn patterns_fold(
    flags: Seq<DataDepModel>,
    f: FunctionModel,
    mps: Seq<(Seq<char>, MemoryPattern)>,
) -> Seq<DataDepModel>
    decreases mps.len(),
{
    if mps.len() == 0 {
        flags
    } else {
        let prev = patterns_fold(flags, f, mps.drop_last());
        let v = mps.last().0;
        let p = mps.last().1;
        if p is Free || p is Allocate {
            match guarding_line(f.body_code, v) {
                Some(t) => prev.push(
                    DataDepModel { function_name: f.name, variable_name: v, reason: flag_reason(p, v, t) },
                ),
                None => prev,
            }
        } else {
            prev
        }
    }
}

/// The flags of the functions `fs` that have a semantic model, in order.
pub open spec fn flags_fold(models: Seq<(Seq<char>, SemanticView)>, fs: Seq<FunctionModel>) -> Seq<
    DataDepModel,
>
    decreases fs.len(),
{
    if fs.len() == 0 {
        seq![]
    } else {
        let prev = flags_fold(models, fs.drop_last());
        let f = fs.last();
        match assoc_get(models, f.name) {
            Some(model) => patterns_fold(prev, f, model.memory_patterns),
            None => prev,
        }
    }
}

/// Once a guarded use is found, later lines keep it.
proof fn lemma_found_stays(ls: Seq<Seq<char>>, k: int, var: Seq<char>)
    requires
        0 <= k <= ls.len(),
        guard_fold(ls.take(k), var).found is Some,
    ensures
        guard_fold(ls, var).found == guard_fold(ls.take(k), var).found,
    decreases ls.len() - k,
{
    if k < ls.len() {
        assert(ls.take(k + 1).drop_last() =~= ls.take(k));
        lemma_found_stays(ls, k + 1, var);
    } else {
        assert(ls.take(k) =~= ls);
    }
}

fn is_conditional_exec(t: &Vec<char>) -> (res: bool)
    ensures
        res == is_conditional(t@),
{
    let a = chars_of("if (");
    let b = chars_of("if(");
    let c = chars_of("else if");
    let d = chars_of("switch");
    contains_chars(t, &a) || contains_chars(t, &b) || contains_chars(t, &c) || contains_chars(t, &d)
}

fn guarding_line_exec(ls: &Vec<Vec<char>>, var: &Vec<char>, body: &Vec<char>) -> (res: Option<
    Vec<char>,
>)
    requires
        seqs_of(ls@) == lines(body@),
    ensures
        res matches Some(t) ==> guarding_line(body@, var@) == Some(t@),
        res is None ==> guarding_line(body@, var@) is None,
{
    let ghost all = seqs_of(ls@);
    let ghost total = total_len(all);
    proof {
        lemma_total_len_lines(body@);
        lemma_total_len_skip_le(all, 0);
        assert(all.skip(0) =~= all);
    }
    let blen = body.len();
    let mut depth: i128 = 0;
    let mut guard: Option<(i128, Vec<char>)> = None;
    let mut pending: Option<Vec<char>> = None;
    let mut i: usize = 0;
    let semi = chars_of(";");
    let close = chars_of("}");
    assert(all.take(0) =~= Seq::<Seq<char>>::empty());
    while i < ls.len()
        invariant
            i <= ls@.len(),
            all == seqs_of(ls@),
            all == lines(body@),
            total == total_len(all),
            total <= body@.len(),
            body@.len() == blen,
            total_len(all.skip(i as int)) <= total,
            semi@ == ";"@,
            close@ == "}"@,
            -(total - total_len(all.skip(i as int))) <= depth <= total - total_len(
                all.skip(i as int),
            ),
            guard_fold(all.take(i as int), var@) == (GuardScan {
                depth: depth as int,
                guard: match guard {
                    Some((b, g)) => Some((b as int, g@)),
                    None => None,
                },
                pending: match pending {
                    Some(g) => Some(g@),
                    None => None,
                },
                found: None,
            }),
        decreases ls@.len() - i,
    {
        let l = &ls[i];
        proof {
            assert(all.take(i + 1).drop_last() =~= all.take(i as int));
            assert(all[i as int] == l@);
            lemma_total_len_skip(all, i as int);
            lemma_count_char_le(l@, '{');
            lemma_count_char_le(l@, '}');
        }
        let t = trim_chars(l);
        let opens = count_char_exec(l, '{');
        let closes = count_char_exec(l, '}');
        let d2: i128 = depth + opens as i128 - closes as i128;
        if t.len() != 0 {
            let uses = contains_chars(&t, var);
            match guard {
                Some((base, g)) => {
                    if uses {
                        proof {
                            lemma_found_stays(all, i + 1, var@);
                        }
                        return Some(g);
                    }
                    if d2 > base {
                        guard = Some((base, g));
                        pending = None;
                    } else if is_conditional_exec(&t) {
                        let ends = ends_with_chars(&t, &semi) || ends_with_chars(&t, &close);
                        if d2 > depth {
                            guard = Some((depth, t));
                            pending = None;
                        } else {
                            guard = None;
                            pending = if !ends {
                                Some(t)
                            } else {
                                None
                            };
                        }
                    } else {
                        guard = None;
                        pending = None;
                    }
                },
                None => match pending {
                    Some(g) => {
                        if uses {
                            proof {
                                lemma_found_stays(all, i + 1, var@);
                            }
                            return Some(g);
                        }
                        if d2 > depth {
                            guard = Some((depth, g));
                            pending = None;
                        } else if is_conditional_exec(&t) {
                            let ends = ends_with_chars(&t, &semi) || ends_with_chars(&t, &close);
                            if d2 > depth {
                                guard = Some((depth, t));
                                pending = None;
                            } else {
                                guard = None;
                                pending = if !ends {
                                    Some(t)
                                } else {
                                    None
                                };
                            }
                        } else {
                            guard = None;
                            pending = None;
                        }
                    },
                    None => {
                        if is_conditional_exec(&t) {
                            if uses {
                                proof {
                                    lemma_found_stays(all, i + 1, var@);
                                }
                                return Some(t);
                            }
                            let ends = ends_with_chars(&t, &semi) || ends_with_chars(&t, &close);
                            if d2 > depth {
                                guard = Some((depth, t));
                            } else if !ends {
                                pending = Some(t);
                            }
                        }
                    },
                },
            }
            depth = d2;
        }
        i += 1;
    }
    proof {
        assert(all.take(all.len() as int) =~= all);
    }
    None
}

fn reason_exec(p: MemoryPattern, v: &String, t: &Vec<char>) -> (res: String)
    requires
        p is Free || p is Allocate,
    ensures
        res@ == flag_reason(p, v@, t@),
{
    let mut r = chars_of("Ownership pattern '");
    let name = match p {
        MemoryPattern::Free => chars_of("Free"),
        _ => chars_of("Allocate"),
    };
    push_all(&mut r, &name);
    let a = chars_of("' for variable '");
    push_all(&mut r, &a);
    let vc = chars_of(v.as_str());
    push_all(&mut r, &vc);
    let b = chars_of("' is conditioned on runtime control flow: '");
    push_all(&mut r, &b);
    push_all(&mut r, t);
    let q = chars_of("'");
    push_all(&mut r, &q);
    string_of(&r)
}

/// Flags each variable whose allocation or release a semantic model records
/// and whose function guards it by a run-time conditional: the first
/// trimmed line of the body that opens an `if`, `else if` or `switch` and
/// mentions the variable (any such line, when the body holds `if` at all).
/// Functions are visited in order, variables in the order of their model.
pub fn detect_data_dependent_ownership(
    tu_ast: &TranslationUnitAST,
    semantic_models: &NameMap<SemanticModel>,
) -> (res: Vec<DataDepFlag>)
    ensures
        res.deep_view() == flags_fold(semantic_models@, tu_ast.deep_view().functions),
{
    let mut flags: Vec<DataDepFlag> = Vec::new();
    let ghost fs = tu_ast.deep_view().functions;
    let ghost models = semantic_models@;
    let mut f: usize = 0;
    assert(fs.take(0) =~= Seq::<FunctionModel>::empty());
    assert(flags.deep_view() =~= Seq::<DataDepModel>::empty());
    while f < tu_ast.functions.len()
        invariant
            f <= fs.len(),
            fs == tu_ast.deep_view().functions,
            models == semantic_models@,
            flags.deep_view() == flags_fold(models, fs.take(f as int)),
        decreases fs.len() - f,
    {
        assert(fs.take(f + 1).drop_last() =~= fs.take(f as int));
        let func = &tu_ast.functions[f];
        match semantic_models.get(func.name.as_str()) {
            Some(model) => {
                let ghost mps = model.deep_view().memory_patterns;
                let ghost f0 = flags.deep_view();
                let body = chars_of(func.body_code.as_str());
                let ls = lines_of_str(func.body_code.as_str());
                let mut i: usize = 0;
                assert(mps.take(0) =~= Seq::<(Seq<char>, MemoryPattern)>::empty());
                while i < model.memory_patterns.len()
                    invariant
                        i <= mps.len(),
                        mps == model.memory_patterns@,
                        mps == model.deep_view().memory_patterns,
                        body@ == func.deep_view().body_code,
                        seqs_of(ls@) == lines(body@),
                        flags.deep_view() == patterns_fold(f0, func.deep_view(), mps.take(i as int)),
                    decreases mps.len() - i,
                {
                    assert(mps.take(i + 1).drop_last() =~= mps.take(i as int));
                    let var = model.memory_patterns.key_at(i);
                    let p = *model.memory_patterns.value_at(i);
                    match p {
                        MemoryPattern::Free | MemoryPattern::Allocate => {
                            let vc = chars_of(var.as_str());
                            match guarding_line_exec(&ls, &vc, &body) {
                                Some(t) => {
                                    let reason = reason_exec(p, var, &t);
                                    let flag = DataDepFlag {
                                        function_name: func.name.clone(),
                                        variable_name: var.clone(),
                                        reason,
                                    };
                                    let ghost before = flags.deep_view();
                                    flags.push(flag);
                                    assert(flags.deep_view() =~= before.push(flag.deep_view()));
                                },
                                None => {},
                            }
                        },
                        _ => {},
                    }
                    i += 1;
                }
                assert(mps.take(mps.len() as int) =~= mps);
            },
            None => {},
        }
        f += 1;
    }
    assert(fs.take(fs.len() as int) =~= fs);
    flags
}

/// The model `m` records that variable `v` is allocated or freed.
pub open spec fn records_release(m: SemanticView, v: Seq<char>) -> bool {
    exists|j: int|
        0 <= j < m.memory_patterns.len() && (#[trigger] m.memory_patterns[j]).0 == v && (
        m.memory_patterns[j].1 is Free || m.memory_patterns[j].1 is Allocate)
}

/// The model of `f` records that `v` is allocated or freed, and a
/// conditional line of `f`'s body guards a use of `v`.
pub open spec fn guarded_release(
    models: Seq<(Seq<char>, SemanticView)>,
    f: FunctionModel,
    v: Seq<char>,
) -> bool {
    match assoc_get(models, f.name) {
        Some(m) => records_release(m, v) && guarding_line(f.body_code, v) is Some,
        None => false,
    }
}

/// The flag `fl` names a function of `fs` whose model records its variable
/// as allocated or freed, with a use of it under a conditional.
pub open spec fn flag_justified(
    models: Seq<(Seq<char>, SemanticView)>,
    fs: Seq<FunctionModel>,
    fl: DataDepModel,
) -> bool {
    exists|i: int|
        0 <= i < fs.len() && (#[trigger] fs[i]).name == fl.function_name && guarded_release(
            models,
            fs[i],
            fl.variable_name,
        )
}

proof fn lemma_patterns_fold(
    flags: Seq<DataDepModel>,
    f: FunctionModel,
    mps: Seq<(Seq<char>, MemoryPattern)>,
)
    ensures
        patterns_fold(flags, f, mps).len() >= flags.len(),
        forall|k: int| 0 <= k < flags.len() ==> #[trigger] patterns_fold(flags, f, mps)[k] == flags[k],
        forall|k: int|
            flags.len() <= k < patterns_fold(flags, f, mps).len() ==> {
                let fl = #[trigger] patterns_fold(flags, f, mps)[k];
                &&& fl.function_name == f.name
                &&& guarding_line(f.body_code, fl.variable_name) is Some
                &&& exists|j: int|
                    0 <= j < mps.len() && (#[trigger] mps[j]).0 == fl.variable_name && (mps[j].1 is Free
                        || mps[j].1 is Allocate)
            },
    decreases mps.len(),
{
    if mps.len() > 0 {
        let init = mps.drop_last();
        lemma_patterns_fold(flags, f, init);
        let prev = patterns_fold(flags, f, init);
        let res = patterns_fold(flags, f, mps);
        assert forall|k: int| flags.len() <= k < res.len() implies {
            let fl = #[trigger] res[k];
            &&& fl.function_name == f.name
            &&& guarding_line(f.body_code, fl.variable_name) is Some
            &&& exists|j: int|
                0 <= j < mps.len() && (#[trigger] mps[j]).0 == fl.variable_name && (mps[j].1 is Free
                    || mps[j].1 is Allocate)
        } by {
            if k < prev.len() {
                assert(res[k] == prev[k]);
                let j = choose|j: int|
                    0 <= j < init.len() && (#[trigger] init[j]).0 == res[k].variable_name && (
                    init[j].1 is Free || init[j].1 is Allocate);
                assert(mps[j] == init[j]);
            } else {
                assert(mps[mps.len() - 1] == mps.last());
            }
        }
    }
}

/// Every flag that the detector raises names a function of the translation
/// unit whose semantic model records the flagged variable as allocated or
/// freed, and whose body uses that variable under a conditional line (see
/// `lemma_guarding_line_sound`).
pub proof fn lemma_flags_justified(models: Seq<(Seq<char>, SemanticView)>, fs: Seq<FunctionModel>)
    ensures
        forall|k: int|
            0 <= k < flags_fold(models, fs).len() ==> flag_justified(
                models,
                fs,
                #[trigger] flags_fold(models, fs)[k],
            ),
    decreases fs.len(),
{
    if fs.len() > 0 {
        let init = fs.drop_last();
        let f = fs.last();
        lemma_flags_justified(models, init);
        let prev = flags_fold(models, init);
        assert forall|k: int| 0 <= k < flags_fold(models, fs).len() implies flag_justified(
            models,
            fs,
            #[trigger] flags_fold(models, fs)[k],
        ) by {
            match assoc_get(models, f.name) {
                Some(model) => {
                    lemma_patterns_fold(prev, f, model.memory_patterns);
                    let fl = flags_fold(models, fs)[k];
                    if k < prev.len() {
                        assert(flag_justified(models, init, prev[k]));
                        let i = choose|i: int|
                            0 <= i < init.len() && (#[trigger] init[i]).name == prev[k].function_name
                                && guarded_release(models, init[i], prev[k].variable_name);
                        assert(fs[i] == init[i]);
                    } else {
                        let j = choose|j: int|
                            0 <= j < model.memory_patterns.len() && (
                            #[trigger] model.memory_patterns[j]).0 == fl.variable_name && (
                            model.memory_patterns[j].1 is Free || model.memory_patterns[j].1 is Allocate);
                        assert(records_release(model, fl.variable_name));
                        assert(fs[fs.len() - 1] == f);
                    }
                },
                None => {
                    assert(flags_fold(models, fs) == prev);
                    let i = choose|i: int|
                        0 <= i < init.len() && (#[trigger] init[i]).name == prev[k].function_name
                            && guarded_release(models, init[i], prev[k].variable_name);
                    assert(fs[i] == init[i]);
                },
            }
        }
    }
}

/// `g` is a conditional line of `ls`, trimmed.
pub open spec fn conditional_line_of(ls: Seq<Seq<char>>, g: Seq<char>) -> bool {
    is_conditional(g) && exists|k: int| 0 <= k < ls.len() && trim(#[trigger] ls[k]) == g
}

/// Some line of `ls`, trimmed, mentions `var`.
pub open spec fn mentioned_in(ls: Seq<Seq<char>>, var: Seq<char>) -> bool {
    exists|k: int| 0 <= k < ls.len() && contains(trim(#[trigger] ls[k]), var)
}

proof fn lemma_guard_fold(ls: Seq<Seq<char>>, var: Seq<char>)
    ensures
        guard_fold(ls, var).guard matches Some((b, g)) ==> conditional_line_of(ls, g),
        guard_fold(ls, var).pending matches Some(g) ==> conditional_line_of(ls, g),
        guard_fold(ls, var).found matches Some(g) ==> conditional_line_of(ls, g) && mentioned_in(
            ls,
            var,
        ),
    decreases ls.len(),
{
    if ls.len() > 0 {
        let init = ls.drop_last();
        lemma_guard_fold(init, var);
        let st = guard_fold(init, var);
        let last = ls.len() - 1;
        assert(ls[last] == ls.last());
        assert forall|g: Seq<char>| conditional_line_of(init, g) implies conditional_line_of(ls, g) by {
            let k = choose|k: int| 0 <= k < init.len() && trim(#[trigger] init[k]) == g;
            assert(ls[k] == init[k]);
        }
        if mentioned_in(init, var) {
            let k = choose|k: int| 0 <= k < init.len() && contains(trim(#[trigger] init[k]), var);
            assert(ls[k] == init[k]);
        }
        if is_conditional(trim(ls.last())) {
            assert(conditional_line_of(ls, trim(ls[last])));
        }
        if contains(trim(ls.last()), var) {
            assert(mentioned_in(ls, var));
        }
    }
}

/// A guarded use is a use under a conditional: the guarding line is a
/// conditional line of the body (an `if`, `else` or `switch`), and some
/// line of the body mentions the variable.
pub proof fn lemma_guarding_line_sound(body: Seq<char>, var: Seq<char>)
    ensures
        guarding_line(body, var) matches Some(g) ==> conditional_line_of(lines(body), g)
            && mentioned_in(lines(body), var),
{
    lemma_guard_fold(lines(body), var);
}

/// A function adds at most one flag per entry of its model's memory
/// patterns.
pub proof fn lemma_patterns_fold_len(
    flags: Seq<DataDepModel>,
    f: FunctionModel,
    mps: Seq<(Seq<char>, MemoryPattern)>,
)
    ensures
        patterns_fold(flags, f, mps).len() <= flags.len() + mps.len(),
    decreases mps.len(),
{
    if mps.len() > 0 {
        lemma_patterns_fold_len(flags, f, mps.drop_last());
    }
}

/// Some line of `body`, trimmed, contains `if (`, `if(`, `else if` or
/// `switch`.
pub open spec fn has_conditional_line(body: Seq<char>) -> bool {
    exists|k: int| 0 <= k < lines(body).len() && is_conditional(trim(#[trigger] lines(body)[k]))
}

/// The flag `fl` names a function of `fs` that has a semantic model and a
/// conditional line.
pub open spec fn flag_has_conditional(
    models: Seq<(Seq<char>, SemanticView)>,
    fs: Seq<FunctionModel>,
    fl: DataDepModel,
) -> bool {
    exists|i: int|
        0 <= i < fs.len() && (#[trigger] fs[i]).name == fl.function_name && assoc_get(
            models,
            fs[i].name,
        ) is Some && has_conditional_line(fs[i].body_code)
}

/// Each flag names a function of the unit that has a semantic model and a
/// line with `if (`, `if(`, `else if` or `switch`: a function without such a
/// line, or without a model, gets no flag.
pub proof fn lemma_flags_need_conditional(
    models: Seq<(Seq<char>, SemanticView)>,
    fs: Seq<FunctionModel>,
)
    ensures
        forall|k: int|
            0 <= k < flags_fold(models, fs).len() ==> flag_has_conditional(
                models,
                fs,
                #[trigger] flags_fold(models, fs)[k],
            ),
{
    lemma_flags_justified(models, fs);
    assert forall|k: int| 0 <= k < flags_fold(models, fs).len() implies flag_has_conditional(
        models,
        fs,
        #[trigger] flags_fold(models, fs)[k],
    ) by {
        let fl = flags_fold(models, fs)[k];
        assert(flag_justified(models, fs, fl));
        let i = choose|i: int|
            0 <= i < fs.len() && (#[trigger] fs[i]).name == fl.function_name && guarded_release(
                models,
                fs[i],
                fl.variable_name,
            );
        lemma_guarding_line_sound(fs[i].body_code, fl.variable_name);
        let g = guarding_line(fs[i].body_code, fl.variable_name)->0;
        let ls = lines(fs[i].body_code);
        let j = choose|j: int| 0 <= j < ls.len() && trim(#[trigger] ls[j]) == g;
        assert(is_conditional(trim(ls[j])));
        assert(has_conditional_line(fs[i].body_code));
    }
}

} // verus!
