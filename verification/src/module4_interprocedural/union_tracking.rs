//! Cross-function union variant tracking: a union whose variant a function
//! leaves open takes the variant that another function resolves.
use vstd::prelude::*;

use crate::data_stores::semantic_models::{
    SemanticModel, SemanticView, UnionTransformModel, UnresolvedUnionModel,
};
use crate::module2_ast::ast_parser::{FunctionModel, TranslationUnitAST};
use crate::name_map::{assoc_get, assoc_insert, lemma_assoc_insert_get, NameMap};
use crate::text::{chars_of, push_all, string_of};

verus! {

broadcast use vstd::string::group_string_axioms;

/// The variant of the first transform of `ts` that turns the union `u` into
/// an enum with a resolved variant.
pub open spec fn first_variant_in(ts: Seq<UnionTransformModel>, u: Seq<char>) -> Option<Seq<char>>
    decreases ts.len(),
{
    if ts.len() == 0 {
        None
    } else if ts[0].union_name == u && ts[0].local_variant_resolved is Some {
        ts[0].local_variant_resolved
    } else {
        first_variant_in(ts.drop_first(), u)
    }
}

/// The variant of union `u` resolved by the first function of `fs` other
/// than `fname` whose semantic model resolves it.
pub open spec fn variant_elsewhere(
    models: Seq<(Seq<char>, SemanticView)>,
    fs: Seq<FunctionModel>,
    fname: Seq<char>,
    u: Seq<char>,
) -> Option<Seq<char>>
    decreases fs.len(),
{
    if fs.len() == 0 {
        None
    } else {
        let here = if fs[0].name != fname {
            match assoc_get(models, fs[0].name) {
                Some(m) => first_variant_in(m.local_union_transforms, u),
                None => None,
            }
        } else {
            None
        };
        if here is Some {
            here
        } else {
            variant_elsewhere(models, fs.drop_first(), fname, u)
        }
    }
}

/// The resolutions of the unresolved cases `cs` of function `fname`, added
/// to `r`, keyed by `function:union`.
pub open spec fn cases_fold(
    r: Seq<(Seq<char>, Seq<char>)>,
    models: Seq<(Seq<char>, SemanticView)>,
    fs: Seq<FunctionModel>,
    fname: Seq<char>,
    cs: Seq<UnresolvedUnionModel>,
) -> Seq<(Seq<char>, Seq<char>)>
    decreases cs.len(),
{
    if cs.len() == 0 {
        r
    } else {
        let prev = cases_fold(r, models, fs, fname, cs.drop_last());
        let u = cs.last().union_name;
        match variant_elsewhere(models, fs, fname, u) {
            Some(v) => assoc_insert(prev, fname + ":"@ + u, v),
            None => prev,
        }
    }
}

/// The resolutions of the unresolved cases of the first `k` semantic models.
pub open spec fn resolutions_fold(
    models: Seq<(Seq<char>, SemanticView)>,
    fs: Seq<FunctionModel>,
    k: int,
) -> Seq<(Seq<char>, Seq<char>)>
    decreases k,
{
    if k <= 0 {
        seq![]
    } else {
        cases_fold(
            resolutions_fold(models, fs, k - 1),
            models,
            fs,
            models[k - 1].0,
            models[k - 1].1.unresolved_union_cases,
        )
    }
}

fn first_variant_exec(model: &SemanticModel, u: &String) -> (res: Option<String>)
    ensures
        res.deep_view() == first_variant_in(model.deep_view().local_union_transforms, u@),
{
    let ghost ts = model.deep_view().local_union_transforms;
    let mut i: usize = 0;
    assert(ts.skip(0) =~= ts);
    while i < model.local_union_transforms.len()
        invariant
            i <= ts.len(),
            ts == model.deep_view().local_union_transforms,
            first_variant_in(ts, u@) == first_variant_in(ts.skip(i as int), u@),
        decreases ts.len() - i,
    {
        let t = &model.local_union_transforms[i];
        assert(ts.skip(i as int).drop_first() =~= ts.skip(i + 1));
        if t.union_name == *u {
            match &t.local_variant_resolved {
                Some(v) => {
                    return Some(v.clone());
                },
                None => {},
            }
        }
        i += 1;
    }
    None
}

fn variant_elsewhere_exec(
    tu_ast: &TranslationUnitAST,
    models: &NameMap<SemanticModel>,
    fname: &String,
    u: &String,
) -> (res: Option<String>)
    ensures
        res.deep_view() == variant_elsewhere(models@, tu_ast.deep_view().functions, fname@, u@),
{
    let ghost fs = tu_ast.deep_view().functions;
    let mut i: usize = 0;
    assert(fs.skip(0) =~= fs);
    while i < tu_ast.functions.len()
        invariant
            i <= fs.len(),
            fs == tu_ast.deep_view().functions,
            variant_elsewhere(models@, fs, fname@, u@) == variant_elsewhere(
                models@,
                fs.skip(i as int),
                fname@,
                u@,
            ),
        decreases fs.len() - i,
    {
        let other = &tu_ast.functions[i];
        assert(fs.skip(i as int).drop_first() =~= fs.skip(i + 1));
        assert(fs.skip(i as int)[0] == fs[i as int]);
        if other.name != *fname {
            match models.get(other.name.as_str()) {
                Some(m) => {
                    let found = first_variant_exec(m, u);
                    if found.is_some() {
                        return found;
                    }
                },
                None => {},
            }
        }
        i += 1;
    }
    None
}

/// Resolves, for every union case that a function's model leaves open, the
/// variant that the first other function of the translation unit resolves
/// for that union, keyed by `function:union`. Models are visited in map
/// order; a case that no other function resolves gets no entry.
pub fn track_cross_function_union_variants(
    tu_ast: &TranslationUnitAST,
    semantic_models: &NameMap<SemanticModel>,
) -> (res: NameMap<String>)
    ensures
        res@ == resolutions_fold(
            semantic_models@,
            tu_ast.deep_view().functions,
            semantic_models@.len() as int,
        ),
{
    let ghost models = semantic_models@;
    let ghost fs = tu_ast.deep_view().functions;
    let mut resolved: NameMap<String> = NameMap::new();
    let mut k: usize = 0;
    while k < semantic_models.len()
        invariant
            k <= models.len(),
            models == semantic_models@,
            fs == tu_ast.deep_view().functions,
            resolved@ == resolutions_fold(models, fs, k as int),
        decreases models.len() - k,
    {
        let fname = semantic_models.key_at(k);
        let model = semantic_models.value_at(k);
        let ghost cs = model.deep_view().unresolved_union_cases;
        let ghost r0 = resolved@;
        let mut c: usize = 0;
        assert(cs.take(0) =~= Seq::<UnresolvedUnionModel>::empty());
        while c < model.unresolved_union_cases.len()
            invariant
                c <= cs.len(),
                cs == model.deep_view().unresolved_union_cases,
                models == semantic_models@,
                fs == tu_ast.deep_view().functions,
                resolved@ == cases_fold(r0, models, fs, fname@, cs.take(c as int)),
            decreases cs.len() - c,
        {
            assert(cs.take(c + 1).drop_last() =~= cs.take(c as int));
            let case = &model.unresolved_union_cases[c];
            match variant_elsewhere_exec(tu_ast, semantic_models, fname, &case.union_name) {
                Some(v) => {
                    let mut key = chars_of(fname.as_str());
                    let colon = chars_of(":");
                    push_all(&mut key, &colon);
                    let un = chars_of(case.union_name.as_str());
                    push_all(&mut key, &un);
                    resolved.insert(string_of(&key), v);
                },
                None => {},
            }
            c += 1;
        }
        assert(cs.take(cs.len() as int) =~= cs);
        k += 1;
    }
    resolved
}

/// The entry `e` at key `k` resolves the unresolved union `u` of the
/// function `fname`: the key is `fname:u` and the variant is the one that
/// another function resolves.
pub open spec fn resolution_ok(
    models: Seq<(Seq<char>, SemanticView)>,
    fs: Seq<FunctionModel>,
    fname: Seq<char>,
    u: Seq<char>,
    k: Seq<char>,
    e: Option<Seq<char>>,
) -> bool {
    &&& k == fname + ":"@ + u
    &&& e is Some
    &&& variant_elsewhere(models, fs, fname, u) == e
}

proof fn lemma_cases_sound(
    r: Seq<(Seq<char>, Seq<char>)>,
    models: Seq<(Seq<char>, SemanticView)>,
    fs: Seq<FunctionModel>,
    fname: Seq<char>,
    cs: Seq<UnresolvedUnionModel>,
    k: Seq<char>,
)
    ensures
        assoc_get(cases_fold(r, models, fs, fname, cs), k) == assoc_get(r, k) || exists|c: int|
            0 <= c < cs.len() && resolution_ok(
                models,
                fs,
                fname,
                (#[trigger] cs[c]).union_name,
                k,
                assoc_get(cases_fold(r, models, fs, fname, cs), k),
            ),
    decreases cs.len(),
{
    if cs.len() > 0 {
        let init = cs.drop_last();
        let prev = cases_fold(r, models, fs, fname, init);
        lemma_cases_sound(r, models, fs, fname, init, k);
        let u = cs.last().union_name;
        if let Some(v) = variant_elsewhere(models, fs, fname, u) {
            lemma_assoc_insert_get(prev, fname + ":"@ + u, v, k);
            if k == fname + ":"@ + u {
                assert(cs[cs.len() - 1].union_name == u);
            }
        }
        if assoc_get(cases_fold(r, models, fs, fname, cs), k) == assoc_get(prev, k)
            && assoc_get(prev, k) != assoc_get(r, k) {
            let c = choose|c: int|
                0 <= c < init.len() && resolution_ok(
                    models,
                    fs,
                    fname,
                    (#[trigger] init[c]).union_name,
                    k,
                    assoc_get(prev, k),
                );
            assert(cs[c] == init[c]);
        }
    }
}

/// Every resolution is keyed `function:union` for a union that the
/// function's model leaves unresolved, and holds the variant that the first
/// other function of the unit resolves for that union.
pub proof fn lemma_resolutions_sound(
    models: Seq<(Seq<char>, SemanticView)>,
    fs: Seq<FunctionModel>,
    n: int,
    k: Seq<char>,
)
    requires
        0 <= n <= models.len(),
    ensures
        assoc_get(resolutions_fold(models, fs, n), k) is Some ==> exists|i: int, c: int|
            0 <= i < n && 0 <= c < models[i].1.unresolved_union_cases.len() && resolution_ok(
                models,
                fs,
                models[i].0,
                (#[trigger] models[i].1.unresolved_union_cases[c]).union_name,
                k,
                assoc_get(resolutions_fold(models, fs, n), k),
            ),
    decreases n,
{
    if n > 0 {
        let prev = resolutions_fold(models, fs, n - 1);
        let cs = models[n - 1].1.unresolved_union_cases;
        lemma_resolutions_sound(models, fs, n - 1, k);
        lemma_cases_sound(prev, models, fs, models[n - 1].0, cs, k);
        let res = resolutions_fold(models, fs, n);
        if assoc_get(res, k) is Some {
            if assoc_get(res, k) == assoc_get(prev, k) {
                let (i, c) = choose|i: int, c: int|
                    0 <= i < n - 1 && 0 <= c < models[i].1.unresolved_union_cases.len()
                        && resolution_ok(
                        models,
                        fs,
                        models[i].0,
                        (#[trigger] models[i].1.unresolved_union_cases[c]).union_name,
                        k,
                        assoc_get(prev, k),
                    );
            } else {
                let c = choose|c: int|
                    0 <= c < cs.len() && resolution_ok(
                        models,
                        fs,
                        models[n - 1].0,
                        (#[trigger] cs[c]).union_name,
                        k,
                        assoc_get(res, k),
                    );
                assert(models[n - 1].1.unresolved_union_cases[c] == cs[c]);
            }
        }
    }
}

proof fn lemma_cases_complete(
    r: Seq<(Seq<char>, Seq<char>)>,
    models: Seq<(Seq<char>, SemanticView)>,
    fs: Seq<FunctionModel>,
    fname: Seq<char>,
    cs: Seq<UnresolvedUnionModel>,
    k: Seq<char>,
)
    ensures
        (assoc_get(r, k) is Some || exists|c: int|
            0 <= c < cs.len() && k == fname + ":"@ + (#[trigger] cs[c]).union_name
                && variant_elsewhere(models, fs, fname, cs[c].union_name) is Some) ==> assoc_get(
            cases_fold(r, models, fs, fname, cs),
            k,
        ) is Some,
    decreases cs.len(),
{
    if cs.len() > 0 {
        let init = cs.drop_last();
        let prev = cases_fold(r, models, fs, fname, init);
        lemma_cases_complete(r, models, fs, fname, init, k);
        let u = cs.last().union_name;
        if let Some(v) = variant_elsewhere(models, fs, fname, u) {
            lemma_assoc_insert_get(prev, fname + ":"@ + u, v, k);
        }
        if exists|c: int|
            0 <= c < cs.len() && k == fname + ":"@ + (#[trigger] cs[c]).union_name
                && variant_elsewhere(models, fs, fname, cs[c].union_name) is Some {
            let c = choose|c: int|
                0 <= c < cs.len() && k == fname + ":"@ + (#[trigger] cs[c]).union_name
                    && variant_elsewhere(models, fs, fname, cs[c].union_name) is Some;
            if c < cs.len() - 1 {
                assert(init[c] == cs[c]);
            }
        }
    }
}

proof fn lemma_resolutions_complete(
    models: Seq<(Seq<char>, SemanticView)>,
    fs: Seq<FunctionModel>,
    n: int,
    k: Seq<char>,
)
    requires
        0 <= n <= models.len(),
    ensures
        (exists|i: int, c: int|
            0 <= i < n && 0 <= c < models[i].1.unresolved_union_cases.len() && k == models[i].0
                + ":"@ + (#[trigger] models[i].1.unresolved_union_cases[c]).union_name
                && variant_elsewhere(models, fs, models[i].0, models[i].1.unresolved_union_cases[c].union_name)
                is Some) ==> assoc_get(resolutions_fold(models, fs, n), k) is Some,
    decreases n,
{
    if n > 0 {
        let prev = resolutions_fold(models, fs, n - 1);
        let cs = models[n - 1].1.unresolved_union_cases;
        lemma_resolutions_complete(models, fs, n - 1, k);
        lemma_cases_complete(prev, models, fs, models[n - 1].0, cs, k);
        if exists|i: int, c: int|
            0 <= i < n && 0 <= c < models[i].1.unresolved_union_cases.len() && k == models[i].0
                + ":"@ + (#[trigger] models[i].1.unresolved_union_cases[c]).union_name
                && variant_elsewhere(models, fs, models[i].0, models[i].1.unresolved_union_cases[c].union_name)
                is Some {
            let (i, c) = choose|i: int, c: int|
                0 <= i < n && 0 <= c < models[i].1.unresolved_union_cases.len() && k == models[i].0
                    + ":"@ + (#[trigger] models[i].1.unresolved_union_cases[c]).union_name
                    && variant_elsewhere(
                    models,
                    fs,
                    models[i].0,
                    models[i].1.unresolved_union_cases[c].union_name,
                ) is Some;
            if i == n - 1 {
                assert(cs[c] == models[i].1.unresolved_union_cases[c]);
            }
        }
    }
}

/// The keys of the cross-function resolutions are exactly the keys
/// `function:union` of the unresolved cases of the models for which another
/// function of the unit resolves the union.
pub proof fn lemma_resolution_keys(
    models: Seq<(Seq<char>, SemanticView)>,
    fs: Seq<FunctionModel>,
    k: Seq<char>,
)
    ensures
        assoc_get(resolutions_fold(models, fs, models.len() as int), k) is Some <==> exists|i: int, c: int|
            0 <= i < models.len() && 0 <= c < models[i].1.unresolved_union_cases.len() && k
                == models[i].0 + ":"@ + (#[trigger] models[i].1.unresolved_union_cases[c]).union_name
                && variant_elsewhere(models, fs, models[i].0, models[i].1.unresolved_union_cases[c].union_name)
                is Some,
{
    lemma_resolutions_sound(models, fs, models.len() as int, k);
    lemma_resolutions_complete(models, fs, models.len() as int, k);
}

/// The variant found for a function's union comes from another function:
/// one of the unit, not the function itself, whose model turns the union
/// into an enum with that resolved variant.
pub proof fn lemma_variant_from_other_function(
    models: Seq<(Seq<char>, SemanticView)>,
    fs: Seq<FunctionModel>,
    fname: Seq<char>,
    u: Seq<char>,
)
    ensures
        variant_elsewhere(models, fs, fname, u) is Some ==> exists|i: int|
            0 <= i < fs.len() && (#[trigger] fs[i]).name != fname && (match assoc_get(
                models,
                fs[i].name,
            ) {
                Some(m) => first_variant_in(m.local_union_transforms, u) == variant_elsewhere(
                    models,
                    fs,
                    fname,
                    u,
                ),
                None => false,
            }),
    decreases fs.len(),
{
    if fs.len() > 0 {
        let rest = fs.drop_first();
        lemma_variant_from_other_function(models, rest, fname, u);
        let here = if fs[0].name != fname {
            match assoc_get(models, fs[0].name) {
                Some(m) => first_variant_in(m.local_union_transforms, u),
                None => None,
            }
        } else {
            None
        };
        if here is None && variant_elsewhere(models, fs, fname, u) is Some {
            let i = choose|i: int|
                0 <= i < rest.len() && (#[trigger] rest[i]).name != fname && (match assoc_get(
                    models,
                    rest[i].name,
                ) {
                    Some(m) => first_variant_in(m.local_union_transforms, u) == variant_elsewhere(
                        models,
                        rest,
                        fname,
                        u,
                    ),
                    None => false,
                });
            assert(fs[i + 1] == rest[i]);
        }
    }
}

/// The variant that function `g` resolves for the union `u`, when `g` is
/// not `fname` and has a semantic model: that of its first transform of
/// `u` with a resolved variant.
pub open spec fn resolves_here(
    models: Seq<(Seq<char>, SemanticView)>,
    g: FunctionModel,
    fname: Seq<char>,
    u: Seq<char>,
) -> Option<Seq<char>> {
    if g.name != fname {
        match assoc_get(models, g.name) {
            Some(m) => first_variant_in(m.local_union_transforms, u),
            None => None,
        }
    } else {
        None
    }
}

/// `j` is the first transform of `ts` that turns `u` into an enum with a
/// resolved variant.
pub open spec fn first_transform(ts: Seq<UnionTransformModel>, u: Seq<char>, j: int) -> bool {
    &&& 0 <= j < ts.len()
    &&& ts[j].union_name == u && ts[j].local_variant_resolved is Some
    &&& forall|l: int|
        0 <= l < j ==> !((#[trigger] ts[l]).union_name == u && ts[l].local_variant_resolved is Some)
}

/// `j` is the first function of `fs`, other than `fname`, that resolves `u`.
pub open spec fn first_resolver(
    models: Seq<(Seq<char>, SemanticView)>,
    fs: Seq<FunctionModel>,
    fname: Seq<char>,
    u: Seq<char>,
    j: int,
) -> bool {
    &&& 0 <= j < fs.len()
    &&& resolves_here(models, fs[j], fname, u) is Some
    &&& forall|l: int| 0 <= l < j ==> resolves_here(models, #[trigger] fs[l], fname, u) is None
}

/// The variant found in a list of transforms is that of its first transform
/// of the union with a resolved variant; there is none when no transform
/// of the union has one.
pub proof fn lemma_first_variant(ts: Seq<UnionTransformModel>, u: Seq<char>)
    ensures
        first_variant_in(ts, u) is Some ==> exists|j: int|
            first_transform(ts, u, j) && first_variant_in(ts, u) == (#[trigger] ts[j]).local_variant_resolved,
        first_variant_in(ts, u) is None ==> forall|j: int|
            0 <= j < ts.len() ==> !((#[trigger] ts[j]).union_name == u
                && ts[j].local_variant_resolved is Some),
    decreases ts.len(),
{
    if ts.len() > 0 {
        let rest = ts.drop_first();
        lemma_first_variant(rest, u);
        if ts[0].union_name == u && ts[0].local_variant_resolved is Some {
            assert(first_transform(ts, u, 0));
        } else {
            if first_variant_in(ts, u) is Some {
                let j = choose|j: int|
                    first_transform(rest, u, j) && first_variant_in(rest, u) == (
                    #[trigger] rest[j]).local_variant_resolved;
                assert forall|l: int| 0 <= l < j + 1 implies !((#[trigger] ts[l]).union_name == u
                    && ts[l].local_variant_resolved is Some) by {
                    if l > 0 {
                        assert(ts[l] == rest[l - 1]);
                    }
                }
                assert(ts[j + 1] == rest[j]);
                assert(first_transform(ts, u, j + 1));
            } else {
                assert forall|j: int| 0 <= j < ts.len() implies !((#[trigger] ts[j]).union_name == u
                    && ts[j].local_variant_resolved is Some) by {
                    if j > 0 {
                        assert(ts[j] == rest[j - 1]);
                    }
                }
            }
        }
    }
}

/// The variant found for a union of `fname` is the one that the first other
/// function of the unit resolves; there is none when no other function
/// resolves it.
pub proof fn lemma_variant_elsewhere_first(
    models: Seq<(Seq<char>, SemanticView)>,
    fs: Seq<FunctionModel>,
    fname: Seq<char>,
    u: Seq<char>,
)
    ensures
        variant_elsewhere(models, fs, fname, u) is Some ==> exists|j: int|
            first_resolver(models, fs, fname, u, j) && variant_elsewhere(models, fs, fname, u)
                == resolves_here(models, #[trigger] fs[j], fname, u),
        variant_elsewhere(models, fs, fname, u) is None ==> forall|j: int|
            0 <= j < fs.len() ==> resolves_here(models, #[trigger] fs[j], fname, u) is None,
    decreases fs.len(),
{
    if fs.len() > 0 {
        let rest = fs.drop_first();
        lemma_variant_elsewhere_first(models, rest, fname, u);
        if resolves_here(models, fs[0], fname, u) is Some {
            assert(first_resolver(models, fs, fname, u, 0));
        } else {
            if variant_elsewhere(models, fs, fname, u) is Some {
                let j = choose|j: int|
                    first_resolver(models, rest, fname, u, j) && variant_elsewhere(
                        models,
                        rest,
                        fname,
                        u,
                    ) == resolves_here(models, #[trigger] rest[j], fname, u);
                assert forall|l: int| 0 <= l < j + 1 implies resolves_here(
                    models,
                    #[trigger] fs[l],
                    fname,
                    u,
                ) is None by {
                    if l > 0 {
                        assert(fs[l] == rest[l - 1]);
                    }
                }
                assert(fs[j + 1] == rest[j]);
                assert(first_resolver(models, fs, fname, u, j + 1));
            } else {
                assert forall|j: int| 0 <= j < fs.len() implies resolves_here(
                    models,
                    #[trigger] fs[j],
                    fname,
                    u,
                ) is None by {
                    if j > 0 {
                        assert(fs[j] == rest[j - 1]);
                    }
                }
            }
        }
    }
}

/// In the model of `g`, `t` is the first transform of the union `u` with a
/// resolved variant, and that variant is `v`.
pub open spec fn picks_variant(
    models: Seq<(Seq<char>, SemanticView)>,
    g: FunctionModel,
    u: Seq<char>,
    t: int,
    v: Seq<char>,
) -> bool {
    assoc_get(models, g.name) matches Some(m) && first_transform(m.local_union_transforms, u, t)
        && m.local_union_transforms[t].local_variant_resolved == Some(v)
}

/// Cross-function union tracking: the result has an entry exactly for the
/// keys `function:union` of unresolved cases that another function of the
/// unit resolves; the entry holds the variant of the first transform of the
/// union, with a resolved variant, in the model of the first other
/// function (in the unit's order) that has one.
pub proof fn lemma_union_tracking_law(
    models: Seq<(Seq<char>, SemanticView)>,
    fs: Seq<FunctionModel>,
    k: Seq<char>,
)
    ensures
        assoc_get(resolutions_fold(models, fs, models.len() as int), k) is Some <==> exists|i: int, c: int|
            0 <= i < models.len() && 0 <= c < models[i].1.unresolved_union_cases.len() && k
                == models[i].0 + ":"@ + (#[trigger] models[i].1.unresolved_union_cases[c]).union_name
                && variant_elsewhere(models, fs, models[i].0, models[i].1.unresolved_union_cases[c].union_name)
                is Some,
        assoc_get(resolutions_fold(models, fs, models.len() as int), k) matches Some(v) ==> exists|
            i: int,
            c: int,
            j: int,
            t: int,
        |
            0 <= i < models.len() && 0 <= c < models[i].1.unresolved_union_cases.len() && k
                == models[i].0 + ":"@ + (#[trigger] models[i].1.unresolved_union_cases[c]).union_name
                && first_resolver(
                models,
                fs,
                models[i].0,
                models[i].1.unresolved_union_cases[c].union_name,
                j,
            ) && #[trigger] picks_variant(
                models,
                fs[j],
                models[i].1.unresolved_union_cases[c].union_name,
                t,
                v,
            ),
{
    lemma_resolution_keys(models, fs, k);
    lemma_resolutions_sound(models, fs, models.len() as int, k);
    if let Some(v) = assoc_get(resolutions_fold(models, fs, models.len() as int), k) {
        let (i, c) = choose|i: int, c: int|
            0 <= i < models.len() && 0 <= c < models[i].1.unresolved_union_cases.len()
                && resolution_ok(
                models,
                fs,
                models[i].0,
                (#[trigger] models[i].1.unresolved_union_cases[c]).union_name,
                k,
                assoc_get(resolutions_fold(models, fs, models.len() as int), k),
            );
        let fname = models[i].0;
        let u = models[i].1.unresolved_union_cases[c].union_name;
        lemma_variant_elsewhere_first(models, fs, fname, u);
        let j = choose|j: int|
            first_resolver(models, fs, fname, u, j) && variant_elsewhere(models, fs, fname, u)
                == resolves_here(models, #[trigger] fs[j], fname, u);
        let m = assoc_get(models, fs[j].name)->0;
        lemma_first_variant(m.local_union_transforms, u);
        let t = choose|t: int|
            first_transform(m.local_union_transforms, u, t) && first_variant_in(
                m.local_union_transforms,
                u,
            ) == (#[trigger] m.local_union_transforms[t]).local_variant_resolved;
        assert(m.local_union_transforms[t].local_variant_resolved == Some(v));
        assert(picks_variant(models, fs[j], u, t, v));
    }
}

} // verus!
