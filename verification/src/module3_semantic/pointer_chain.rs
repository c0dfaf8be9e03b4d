//! Multi-level pointer chain analysis (`T**` and deeper).
use vstd::prelude::*;

use crate::data_stores::semantic_models::{
    MemoryPattern, PointerDepthClassification, SemanticModel, SemanticView,
};
use crate::module2_ast::ast_parser::{FunctionAST, ParameterModel};
use crate::name_map::{assoc_get, assoc_insert, lemma_assoc_insert_get};
use crate::text::{
    chars_of, contains, contains_chars, has_char, lines, lines_of, push_all, seqs_of, trim,
    trim_chars,
};

verus! {

broadcast use vstd::string::group_string_axioms;

/// The classification of a parameter with `d` levels of indirection.
pub open spec fn depth_class(d: usize) -> PointerDepthClassification {
    if d >= 2 {
        PointerDepthClassification::MultiLevel { depth: d }
    } else {
        PointerDepthClassification::SingleLevel
    }
}

/// `pdc` with each parameter of `ps` classified by its depth.
pub open spec fn classify_params(
    pdc: Seq<(Seq<char>, PointerDepthClassification)>,
    ps: Seq<ParameterModel>,
) -> Seq<(Seq<char>, PointerDepthClassification)>
    decreases ps.len(),
{
    if ps.len() == 0 {
        pdc
    } else {
        assoc_insert(
            classify_params(pdc, ps.drop_last()),
            ps.last().name,
            depth_class(ps.last().pointer_depth),
        )
    }
}

/// The memory pattern of a multi-level pointer after the (trimmed) line
/// `t`: `free(*p)` frees its pointee, and an assignment line with `**p`
/// writes through it.
pub open spec fn chain_var_step(
    mem: Seq<(Seq<char>, MemoryPattern)>,
    t: Seq<char>,
    e: (Seq<char>, PointerDepthClassification),
) -> Seq<(Seq<char>, MemoryPattern)> {
    match e.1 {
        PointerDepthClassification::MultiLevel { .. } => if contains(t, "free(*"@ + e.0 + ")"@) {
            assoc_insert(mem, e.0, MemoryPattern::Free)
        } else if contains(t, "**"@ + e.0) && t.contains('=') {
            assoc_insert(mem, e.0, MemoryPattern::Write)
        } else {
            mem
        },
        PointerDepthClassification::SingleLevel => mem,
    }
}

/// The memory patterns after the line `t`, for each classified variable.
pub open spec fn chain_line_fold(
    mem: Seq<(Seq<char>, MemoryPattern)>,
    t: Seq<char>,
    es: Seq<(Seq<char>, PointerDepthClassification)>,
) -> Seq<(Seq<char>, MemoryPattern)>
    decreases es.len(),
{
    if es.len() == 0 {
        mem
    } else {
        chain_var_step(chain_line_fold(mem, t, es.drop_last()), t, es.last())
    }
}

/// The memory patterns after the body lines `ls`.
pub open spec fn chain_scan(
    mem: Seq<(Seq<char>, MemoryPattern)>,
    ls: Seq<Seq<char>>,
    es: Seq<(Seq<char>, PointerDepthClassification)>,
) -> Seq<(Seq<char>, MemoryPattern)>
    decreases ls.len(),
{
    if ls.len() == 0 {
        mem
    } else {
        chain_line_fold(chain_scan(mem, ls.drop_last(), es), trim(ls.last()), es)
    }
}

fn framed(head: &str, var: &[char], tail: &str) -> (res: Vec<char>)
    ensures
        res@ == head@ + var@ + tail@,
{
    let mut v = chars_of(head);
    push_all(&mut v, var);
    let t = chars_of(tail);
    push_all(&mut v, &t);
    v
}

/// Classifies the parameters of `func` by pointer depth and records where
/// its body frees or writes through a multi-level pointer.
pub fn analyze_pointer_chains(func: &FunctionAST, model: &mut SemanticModel)
    ensures
        ({
            let old_v = old(model).deep_view();
            let pdc = classify_params(old_v.pointer_depth_classifications, func.deep_view().parameters);
            final(model).deep_view() == SemanticView {
                pointer_depth_classifications: pdc,
                memory_patterns: chain_scan(old_v.memory_patterns, lines(func.deep_view().body_code), pdc),
                ..old_v
            }
        }),
{
    let ghost old_v = model.deep_view();
    let ghost params = func.deep_view().parameters;
    let mut p: usize = 0;
    assert(params.take(0) =~= Seq::<ParameterModel>::empty());
    while p < func.parameters.len()
        invariant
            p <= params.len(),
            params == func.deep_view().parameters,
            model.deep_view() == (SemanticView {
                pointer_depth_classifications: classify_params(
                    old_v.pointer_depth_classifications,
                    params.take(p as int),
                ),
                ..old_v
            }),
        decreases params.len() - p,
    {
        let param = &func.parameters[p];
        let class = if param.pointer_depth >= 2 {
            PointerDepthClassification::MultiLevel { depth: param.pointer_depth }
        } else {
            PointerDepthClassification::SingleLevel
        };
        assert(params.take(p + 1).drop_last() =~= params.take(p as int));
        model.pointer_depth_classifications.insert(param.name.clone(), class);
        p += 1;
    }
    assert(params.take(params.len() as int) =~= params);
    let ghost pdc = model.pointer_depth_classifications@;
    let body = chars_of(func.body_code.as_str());
    let body_lines = lines_of(&body);
    let ghost ls = seqs_of(body_lines@);
    let mut i: usize = 0;
    assert(ls.take(0) =~= Seq::<Seq<char>>::empty());
    while i < body_lines.len()
        invariant
            i <= ls.len(),
            ls == seqs_of(body_lines@),
            ls == lines(func.deep_view().body_code),
            pdc == model.pointer_depth_classifications@,
            pdc == classify_params(old_v.pointer_depth_classifications, params),
            params == func.deep_view().parameters,
            model.deep_view() == (SemanticView {
                pointer_depth_classifications: pdc,
                memory_patterns: chain_scan(old_v.memory_patterns, ls.take(i as int), pdc),
                ..old_v
            }),
        decreases ls.len() - i,
    {
        assert(ls.take(i + 1).drop_last() =~= ls.take(i as int));
        let trimmed = trim_chars(&body_lines[i]);
        let ghost mem0 = model.memory_patterns@;
        let mut j: usize = 0;
        assert(pdc.take(0) =~= Seq::<(Seq<char>, PointerDepthClassification)>::empty());
        while j < model.pointer_depth_classifications.len()
            invariant
                j <= pdc.len(),
                pdc == model.pointer_depth_classifications@,
                model.deep_view() == (SemanticView {
                    pointer_depth_classifications: pdc,
                    memory_patterns: chain_line_fold(mem0, trimmed@, pdc.take(j as int)),
                    ..old_v
                }),
            decreases pdc.len() - j,
        {
            assert(pdc.take(j + 1).drop_last() =~= pdc.take(j as int));
            let class = *model.pointer_depth_classifications.value_at(j);
            if let PointerDepthClassification::MultiLevel { depth: _ } = class {
                let var = chars_of(model.pointer_depth_classifications.key_at(j).as_str());
                let free_pat = framed("free(*", &var, ")");
                let deref2 = framed("**", &var, "");
                assert(""@ =~= Seq::<char>::empty()) by {
                    reveal_strlit("");
                }
                assert(deref2@ =~= "**"@ + var@);
                if contains_chars(&trimmed, &free_pat) {
                    let key = model.pointer_depth_classifications.key_at(j).clone();
                    model.memory_patterns.insert(key, MemoryPattern::Free);
                } else if contains_chars(&trimmed, &deref2) && has_char(&trimmed, '=') {
                    let key = model.pointer_depth_classifications.key_at(j).clone();
                    model.memory_patterns.insert(key, MemoryPattern::Write);
                }
            }
            j += 1;
        }
        assert(pdc.take(pdc.len() as int) =~= pdc);
        i += 1;
    }
    assert(ls.take(ls.len() as int) =~= ls);
}

/// Classifying parameters with distinct names gives each parameter the
/// class of its depth (multi-level from depth two) and leaves every other
/// name's class as it was.
pub proof fn lemma_classify_params(
    pdc: Seq<(Seq<char>, PointerDepthClassification)>,
    ps: Seq<ParameterModel>,
    k: Seq<char>,
)
    requires
        forall|a: int, b: int| 0 <= a < b < ps.len() ==> ps[a].name != ps[b].name,
    ensures
        forall|j: int|
            0 <= j < ps.len() && #[trigger] ps[j].name == k ==> assoc_get(classify_params(pdc, ps), k)
                == Some(depth_class(ps[j].pointer_depth)),
        (forall|j: int| 0 <= j < ps.len() ==> #[trigger] ps[j].name != k) ==> assoc_get(
            classify_params(pdc, ps),
            k,
        ) == assoc_get(pdc, k),
    decreases ps.len(),
{
    if ps.len() > 0 {
        let init = ps.drop_last();
        lemma_classify_params(pdc, init, k);
        lemma_assoc_insert_get(
            classify_params(pdc, init),
            ps.last().name,
            depth_class(ps.last().pointer_depth),
            k,
        );
        assert forall|j: int| 0 <= j < ps.len() && #[trigger] ps[j].name == k implies assoc_get(
            classify_params(pdc, ps),
            k,
        ) == Some(depth_class(ps[j].pointer_depth)) by {
            if j < ps.len() - 1 {
                assert(init[j] == ps[j]);
                assert(ps[ps.len() - 1].name != k);
            }
        }
        if forall|j: int| 0 <= j < ps.len() ==> #[trigger] ps[j].name != k {
            assert(ps[ps.len() - 1].name != k);
            assert forall|j: int| 0 <= j < init.len() implies #[trigger] init[j].name != k by {
                assert(init[j] == ps[j]);
            }
        }
    }
}

/// The classifications `es` hold a multi-level entry for `k`.
pub open spec fn multi_level_entry(
    es: Seq<(Seq<char>, PointerDepthClassification)>,
    k: Seq<char>,
) -> bool {
    exists|j: int| 0 <= j < es.len() && (#[trigger] es[j]).0 == k && es[j].1 is MultiLevel
}

/// `k`'s pattern in `res` is the one in `mem`, or `k` has a multi-level
/// entry in `es` and is now freed or written.
pub open spec fn chain_change_ok(
    mem: Seq<(Seq<char>, MemoryPattern)>,
    res: Seq<(Seq<char>, MemoryPattern)>,
    es: Seq<(Seq<char>, PointerDepthClassification)>,
    k: Seq<char>,
) -> bool {
    assoc_get(res, k) == assoc_get(mem, k) || (multi_level_entry(es, k) && (assoc_get(res, k)
        == Some(MemoryPattern::Free) || assoc_get(res, k) == Some(MemoryPattern::Write)))
}

proof fn lemma_chain_line_fold(
    mem: Seq<(Seq<char>, MemoryPattern)>,
    t: Seq<char>,
    es: Seq<(Seq<char>, PointerDepthClassification)>,
    k: Seq<char>,
)
    ensures
        chain_change_ok(mem, chain_line_fold(mem, t, es), es, k),
    decreases es.len(),
{
    if es.len() > 0 {
        let init = es.drop_last();
        let prev = chain_line_fold(mem, t, init);
        lemma_chain_line_fold(mem, t, init, k);
        let e = es.last();
        lemma_assoc_insert_get(prev, e.0, MemoryPattern::Free, k);
        lemma_assoc_insert_get(prev, e.0, MemoryPattern::Write, k);
        if multi_level_entry(init, k) {
            let j = choose|j: int| 0 <= j < init.len() && (#[trigger] init[j]).0 == k && init[j].1 is MultiLevel;
            assert(es[j] == init[j]);
        }
        if e.0 == k && e.1 is MultiLevel {
            assert(es[es.len() - 1] == e);
        }
    }
}

/// Scanning a body for multi-level pointer uses changes the memory pattern
/// of a name only where the classifications hold a multi-level entry for
/// it, and then to freed or written.
pub proof fn lemma_chain_scan_changes(
    mem: Seq<(Seq<char>, MemoryPattern)>,
    ls: Seq<Seq<char>>,
    es: Seq<(Seq<char>, PointerDepthClassification)>,
    k: Seq<char>,
)
    ensures
        chain_change_ok(mem, chain_scan(mem, ls, es), es, k),
    decreases ls.len(),
{
    if ls.len() > 0 {
        let prev = chain_scan(mem, ls.drop_last(), es);
        lemma_chain_scan_changes(mem, ls.drop_last(), es, k);
        lemma_chain_line_fold(prev, trim(ls.last()), es, k);
    }
}

/// For a classified variable `e.0` and a trimmed line `t`: a multi-level
/// pointer whose pointee the line frees (`free(*p)`) becomes freed;
/// otherwise one written through two levels (`**p` with `=`) becomes
/// written; any other line, or a single-level pointer, leaves the patterns
/// as they were.
pub proof fn lemma_chain_var_step_law(
    mem: Seq<(Seq<char>, MemoryPattern)>,
    t: Seq<char>,
    e: (Seq<char>, PointerDepthClassification),
    k: Seq<char>,
)
    ensures
        ({
            let got = chain_var_step(mem, t, e);
            let frees = contains(t, "free(*"@ + e.0 + ")"@);
            let writes = contains(t, "**"@ + e.0) && t.contains('=');
            &&& e.1 is MultiLevel && frees ==> assoc_get(got, e.0) == Some(MemoryPattern::Free)
            &&& e.1 is MultiLevel && !frees && writes ==> assoc_get(got, e.0) == Some(
                MemoryPattern::Write,
            )
            &&& (e.1 is SingleLevel || (!frees && !writes)) ==> got == mem
            &&& k != e.0 ==> assoc_get(got, k) == assoc_get(mem, k)
        }),
{
    lemma_assoc_insert_get(mem, e.0, MemoryPattern::Free, k);
    lemma_assoc_insert_get(mem, e.0, MemoryPattern::Write, k);
}

} // verus!
