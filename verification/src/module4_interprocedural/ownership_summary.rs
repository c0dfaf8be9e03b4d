//! Ownership-transfer summaries for `T**` parameters: a callee that frees
//! the caller's pointee consumes ownership, one that allocates into it
//! creates ownership.
use vstd::prelude::*;

use crate::data_stores::interprocedural_summaries::{
    OwnershipTransferSummary, OwnershipTransferType, TransferModel,
};
use crate::data_stores::semantic_models::{PointerDepthClassification, SemanticModel, SemanticView};
use crate::module2_ast::ast_parser::{FunctionModel, ParameterModel, TranslationUnitAST};
use crate::name_map::{assoc_get, assoc_insert, lemma_assoc_insert_get, NameMap};
use crate::text::{chars_of, contains, contains_chars, push_all, string_of};

verus! {

broadcast use vstd::string::group_string_axioms;

/// What a body that handles the `T**` parameter `p` does with ownership:
/// `free(*p)` (or `free( *p)`) consumes it; `*p = malloc` or `*p = (` in a
/// body that calls `malloc` creates it.
pub open spec fn transfer_of(body: Seq<char>, p: Seq<char>) -> Option<OwnershipTransferType> {
    if contains(body, "free(*"@ + p + ")"@) || contains(body, "free( *"@ + p + ")"@) {
        Some(OwnershipTransferType::ConsumesOwnership)
    } else if (contains(body, "*"@ + p + " = malloc"@) || contains(body, "*"@ + p + " = ("@))
        && contains(body, "malloc"@) {
        Some(OwnershipTransferType::CreatesOwnership)
    } else {
        None
    }
}

/// The key of a summary: `function:parameter`.
pub open spec fn summary_key(f: Seq<char>, p: Seq<char>) -> Seq<char> {
    f + ":"@ + p
}

/// The summaries of the parameters `ps` of function `f`, added to `m`: one
/// for each parameter that the model classifies as multi-level and whose
/// ownership the body transfers.
pub open spec fn params_fold(
    m: Seq<(Seq<char>, TransferModel)>,
    f: FunctionModel,
    pdc: Seq<(Seq<char>, PointerDepthClassification)>,
    ps: Seq<ParameterModel>,
) -> Seq<(Seq<char>, TransferModel)>
    decreases ps.len(),
{
    if ps.len() == 0 {
        m
    } else {
        let prev = params_fold(m, f, pdc, ps.drop_last());
        let p = ps.last().name;
        if assoc_get(pdc, p) matches Some(PointerDepthClassification::MultiLevel { .. }) {
            match transfer_of(f.body_code, p) {
                Some(t) => assoc_insert(
                    prev,
                    summary_key(f.name, p),
                    TransferModel { param_name: p, transfer_type: t },
                ),
                None => prev,
            }
        } else {
            prev
        }
    }
}

/// The summaries of the functions `fs` that have a semantic model.
pub open spec fn summaries_fold(
    models: Seq<(Seq<char>, SemanticView)>,
    fs: Seq<FunctionModel>,
) -> Seq<(Seq<char>, TransferModel)>
    decreases fs.len(),
{
    if fs.len() == 0 {
        seq![]
    } else {
        let prev = summaries_fold(models, fs.drop_last());
        let f = fs.last();
        match assoc_get(models, f.name) {
            Some(model) => params_fold(prev, f, model.pointer_depth_classifications, f.parameters),
            None => prev,
        }
    }
}

/// `pre + mid + post` as characters.
fn wrapped(pre: &str, mid: &str, post: &str) -> (res: Vec<char>)
    ensures
        res@ == pre@ + mid@ + post@,
{
    let mut v = chars_of(pre);
    let m = chars_of(mid);
    push_all(&mut v, &m);
    let p = chars_of(post);
    push_all(&mut v, &p);
    v
}

/// What the body does with ownership through the `T**` parameter `p`.
fn transfer_of_exec(body: &Vec<char>, p: &str) -> (res: Option<OwnershipTransferType>)
    ensures
        res == transfer_of(body@, p@),
{
    let free1 = wrapped("free(*", p, ")");
    let free2 = wrapped("free( *", p, ")");
    if contains_chars(body, &free1) || contains_chars(body, &free2) {
        return Some(OwnershipTransferType::ConsumesOwnership);
    }
    let alloc1 = wrapped("*", p, " = malloc");
    let alloc2 = wrapped("*", p, " = (");
    let malloc = chars_of("malloc");
    if (contains_chars(body, &alloc1) || contains_chars(body, &alloc2)) && contains_chars(
        body,
        &malloc,
    ) {
        Some(OwnershipTransferType::CreatesOwnership)
    } else {
        None
    }
}

/// Summarises, for every multi-level pointer parameter of every function
/// with a semantic model, whether the function consumes or creates the
/// ownership of the caller's pointee, keyed by `function:parameter`.
pub fn generate_ownership_transfer_summaries(
    tu_ast: &TranslationUnitAST,
    semantic_models: &NameMap<SemanticModel>,
) -> (res: NameMap<OwnershipTransferSummary>)
    ensures
        res@ == summaries_fold(semantic_models@, tu_ast.deep_view().functions),
{
    let mut summaries: NameMap<OwnershipTransferSummary> = NameMap::new();
    let ghost fs = tu_ast.deep_view().functions;
    let ghost models = semantic_models@;
    let mut f: usize = 0;
    assert(fs.take(0) =~= Seq::<FunctionModel>::empty());
    while f < tu_ast.functions.len()
        invariant
            f <= fs.len(),
            fs == tu_ast.deep_view().functions,
            models == semantic_models@,
            summaries@ == summaries_fold(models, fs.take(f as int)),
        decreases fs.len() - f,
    {
        assert(fs.take(f + 1).drop_last() =~= fs.take(f as int));
        let func = &tu_ast.functions[f];
        match semantic_models.get(func.name.as_str()) {
            Some(model) => {
                let ghost ps = func.deep_view().parameters;
                let ghost m0 = summaries@;
                let body = chars_of(func.body_code.as_str());
                let mut i: usize = 0;
                assert(ps.take(0) =~= Seq::<ParameterModel>::empty());
                while i < func.parameters.len()
                    invariant
                        i <= ps.len(),
                        ps == func.deep_view().parameters,
                        body@ == func.deep_view().body_code,
                        summaries@ == params_fold(
                            m0,
                            func.deep_view(),
                            model.deep_view().pointer_depth_classifications,
                            ps.take(i as int),
                        ),
                    decreases ps.len() - i,
                {
                    assert(ps.take(i + 1).drop_last() =~= ps.take(i as int));
                    let param = &func.parameters[i];
                    let multi = match model.pointer_depth_classifications.get(
                        param.name.as_str(),
                    ) {
                        Some(PointerDepthClassification::MultiLevel { .. }) => true,
                        _ => false,
                    };
                    if multi {
                        match transfer_of_exec(&body, param.name.as_str()) {
                            Some(t) => {
                                let mut key = chars_of(func.name.as_str());
                                let rest = wrapped(":", param.name.as_str(), "");
                                push_all(&mut key, &rest);
                                proof {
                                    reveal_strlit("");
                                    assert(key@ =~= summary_key(func.name@, param.name@));
                                }
                                let summary = OwnershipTransferSummary {
                                    param_name: param.name.clone(),
                                    transfer_type: t,
                                };
                                summaries.insert(string_of(&key), summary);
                            },
                            None => {},
                        }
                    }
                    i += 1;
                }
                assert(ps.take(ps.len() as int) =~= ps);
            },
            None => {},
        }
        f += 1;
    }
    assert(fs.take(fs.len() as int) =~= fs);
    summaries
}

/// Every summary in `params_fold(m, f, pdc, ps)` that `m` lacks or changes
/// belongs to a parameter of `ps` classified as multi-level, is keyed
/// `f:p`, and records what the body does with it.
proof fn lemma_params_fold_sound(
    m: Seq<(Seq<char>, TransferModel)>,
    f: FunctionModel,
    pdc: Seq<(Seq<char>, PointerDepthClassification)>,
    ps: Seq<ParameterModel>,
    k: Seq<char>,
)
    ensures
        assoc_get(params_fold(m, f, pdc, ps), k) == assoc_get(m, k) || exists|j: int|
            0 <= j < ps.len() && transfer_ok(f, pdc, (#[trigger] ps[j]).name, k, assoc_get(
                params_fold(m, f, pdc, ps),
                k,
            )),
    decreases ps.len(),
{
    if ps.len() > 0 {
        let init = ps.drop_last();
        let prev = params_fold(m, f, pdc, init);
        lemma_params_fold_sound(m, f, pdc, init, k);
        let p = ps.last().name;
        if assoc_get(pdc, p) matches Some(PointerDepthClassification::MultiLevel { .. }) {
            if let Some(t) = transfer_of(f.body_code, p) {
                lemma_assoc_insert_get(
                    prev,
                    summary_key(f.name, p),
                    TransferModel { param_name: p, transfer_type: t },
                    k,
                );
                if k == summary_key(f.name, p) {
                    assert(transfer_ok(f, pdc, ps[ps.len() - 1].name, k, assoc_get(
                        params_fold(m, f, pdc, ps),
                        k,
                    )));
                }
            }
        }
        if assoc_get(params_fold(m, f, pdc, ps), k) == assoc_get(prev, k) && assoc_get(prev, k)
            != assoc_get(m, k) {
            let j = choose|j: int|
                0 <= j < init.len() && transfer_ok(f, pdc, (#[trigger] init[j]).name, k, assoc_get(
                    prev,
                    k,
                ));
            assert(ps[j] == init[j]);
        }
    }
}

/// The entry `e` at key `k` is the summary of parameter `p` of `f`: the
/// key is `f:p`, `p` is classified multi-level, and the summary records the
/// transfer the body makes.
pub open spec fn transfer_ok(
    f: FunctionModel,
    pdc: Seq<(Seq<char>, PointerDepthClassification)>,
    p: Seq<char>,
    k: Seq<char>,
    e: Option<TransferModel>,
) -> bool {
    &&& k == summary_key(f.name, p)
    &&& assoc_get(pdc, p) matches Some(PointerDepthClassification::MultiLevel { .. })
    &&& e matches Some(tm) && tm.param_name == p && transfer_of(f.body_code, p) == Some(
        tm.transfer_type,
    )
}

/// Every ownership-transfer summary belongs to a parameter of a function
/// of the unit that has a semantic model classifying it as multi-level; it
/// is keyed `function:parameter` and records whether the body frees
/// (`free(*p)`) or allocates into (`*p = malloc`) the caller's pointee.
pub proof fn lemma_summaries_sound(
    models: Seq<(Seq<char>, SemanticView)>,
    fs: Seq<FunctionModel>,
    k: Seq<char>,
)
    ensures
        assoc_get(summaries_fold(models, fs), k) is Some ==> exists|i: int, j: int|
            0 <= i < fs.len() && 0 <= j < fs[i].parameters.len() && (match assoc_get(
                models,
                fs[i].name,
            ) {
                Some(model) => transfer_ok(
                    fs[i],
                    model.pointer_depth_classifications,
                    (#[trigger] fs[i].parameters[j]).name,
                    k,
                    assoc_get(summaries_fold(models, fs), k),
                ),
                None => false,
            }),
    decreases fs.len(),
{
    if fs.len() > 0 {
        let init = fs.drop_last();
        let f = fs.last();
        let prev = summaries_fold(models, init);
        lemma_summaries_sound(models, init, k);
        let res = summaries_fold(models, fs);
        if res == prev {
            if assoc_get(res, k) is Some {
                let (i, j) = choose|i: int, j: int|
                    0 <= i < init.len() && 0 <= j < init[i].parameters.len() && (match assoc_get(
                        models,
                        init[i].name,
                    ) {
                        Some(model) => transfer_ok(
                            init[i],
                            model.pointer_depth_classifications,
                            (#[trigger] init[i].parameters[j]).name,
                            k,
                            assoc_get(prev, k),
                        ),
                        None => false,
                    });
                assert(fs[i] == init[i]);
            }
        } else {
            let model = assoc_get(models, f.name).unwrap();
            let pdc = model.pointer_depth_classifications;
            lemma_params_fold_sound(prev, f, pdc, f.parameters, k);
            if assoc_get(res, k) is Some {
                if assoc_get(res, k) == assoc_get(prev, k) {
                    let (i, j) = choose|i: int, j: int|
                        0 <= i < init.len() && 0 <= j < init[i].parameters.len() && (
                        match assoc_get(models, init[i].name) {
                            Some(model) => transfer_ok(
                                init[i],
                                model.pointer_depth_classifications,
                                (#[trigger] init[i].parameters[j]).name,
                                k,
                                assoc_get(prev, k),
                            ),
                            None => false,
                        });
                    assert(fs[i] == init[i]);
                } else {
                    let j = choose|j: int|
                        0 <= j < f.parameters.len() && transfer_ok(
                            f,
                            pdc,
                            (#[trigger] f.parameters[j]).name,
                            k,
                            assoc_get(res, k),
                        );
                    assert(fs[fs.len() - 1] == f);
                    assert(fs[fs.len() - 1].parameters[j] == f.parameters[j]);
                }
            }
        }
    }
}

/// The parameter `p` of `f` transfers ownership: its class in `pdc` is
/// multi-level and the body frees or allocates into its pointee.
pub open spec fn transfers(
    f: FunctionModel,
    pdc: Seq<(Seq<char>, PointerDepthClassification)>,
    p: Seq<char>,
) -> bool {
    &&& assoc_get(pdc, p) matches Some(PointerDepthClassification::MultiLevel { .. })
    &&& transfer_of(f.body_code, p) is Some
}

proof fn lemma_params_complete(
    m: Seq<(Seq<char>, TransferModel)>,
    f: FunctionModel,
    pdc: Seq<(Seq<char>, PointerDepthClassification)>,
    ps: Seq<ParameterModel>,
    k: Seq<char>,
)
    ensures
        (assoc_get(m, k) is Some || exists|j: int|
            0 <= j < ps.len() && transfers(f, pdc, (#[trigger] ps[j]).name) && k == summary_key(
                f.name,
                ps[j].name,
            )) ==> assoc_get(params_fold(m, f, pdc, ps), k) is Some,
    decreases ps.len(),
{
    if ps.len() > 0 {
        let init = ps.drop_last();
        let prev = params_fold(m, f, pdc, init);
        lemma_params_complete(m, f, pdc, init, k);
        let p = ps.last().name;
        if let Some(t) = transfer_of(f.body_code, p) {
            lemma_assoc_insert_get(
                prev,
                summary_key(f.name, p),
                TransferModel { param_name: p, transfer_type: t },
                k,
            );
        }
        if exists|j: int|
            0 <= j < ps.len() && transfers(f, pdc, (#[trigger] ps[j]).name) && k == summary_key(
                f.name,
                ps[j].name,
            ) {
            let j = choose|j: int|
                0 <= j < ps.len() && transfers(f, pdc, (#[trigger] ps[j]).name) && k == summary_key(
                    f.name,
                    ps[j].name,
                );
            if j < ps.len() - 1 {
                assert(init[j] == ps[j]);
            }
        }
    }
}

proof fn lemma_summaries_complete(
    models: Seq<(Seq<char>, SemanticView)>,
    fs: Seq<FunctionModel>,
    k: Seq<char>,
)
    ensures
        (exists|i: int, j: int|
            0 <= i < fs.len() && 0 <= j < fs[i].parameters.len() && (match assoc_get(
                models,
                fs[i].name,
            ) {
                Some(model) => transfers(
                    fs[i],
                    model.pointer_depth_classifications,
                    (#[trigger] fs[i].parameters[j]).name,
                ),
                None => false,
            }) && k == summary_key(fs[i].name, fs[i].parameters[j].name)) ==> assoc_get(
            summaries_fold(models, fs),
            k,
        ) is Some,
    decreases fs.len(),
{
    if fs.len() > 0 {
        let init = fs.drop_last();
        let f = fs.last();
        let prev = summaries_fold(models, init);
        lemma_summaries_complete(models, init, k);
        if let Some(model) = assoc_get(models, f.name) {
            lemma_params_complete(prev, f, model.pointer_depth_classifications, f.parameters, k);
        }
        if exists|i: int, j: int|
            0 <= i < fs.len() && 0 <= j < fs[i].parameters.len() && (match assoc_get(
                models,
                fs[i].name,
            ) {
                Some(model) => transfers(
                    fs[i],
                    model.pointer_depth_classifications,
                    (#[trigger] fs[i].parameters[j]).name,
                ),
                None => false,
            }) && k == summary_key(fs[i].name, fs[i].parameters[j].name) {
            let (i, j) = choose|i: int, j: int|
                0 <= i < fs.len() && 0 <= j < fs[i].parameters.len() && (match assoc_get(
                    models,
                    fs[i].name,
                ) {
                    Some(model) => transfers(
                        fs[i],
                        model.pointer_depth_classifications,
                        (#[trigger] fs[i].parameters[j]).name,
                    ),
                    None => false,
                }) && k == summary_key(fs[i].name, fs[i].parameters[j].name);
            if i < fs.len() - 1 {
                assert(init[i] == fs[i]);
            } else {
                assert(fs[i] == f);
                assert(f.parameters[j] == fs[i].parameters[j]);
            }
        }
    }
}

/// The summaries hold exactly the keys `function:parameter` of the
/// parameters through which a function with a semantic model transfers
/// ownership (multi-level, with `free(*p)` in the body for consumption or
/// `*p = malloc` for creation); each summary holds the parameter's name and
/// the kind of transfer its function's body shows.
pub proof fn lemma_summary_keys(
    models: Seq<(Seq<char>, SemanticView)>,
    fs: Seq<FunctionModel>,
    k: Seq<char>,
)
    ensures
        assoc_get(summaries_fold(models, fs), k) is Some <==> exists|i: int, j: int|
            0 <= i < fs.len() && 0 <= j < fs[i].parameters.len() && (match assoc_get(
                models,
                fs[i].name,
            ) {
                Some(model) => transfers(
                    fs[i],
                    model.pointer_depth_classifications,
                    (#[trigger] fs[i].parameters[j]).name,
                ),
                None => false,
            }) && k == summary_key(fs[i].name, fs[i].parameters[j].name),
        assoc_get(summaries_fold(models, fs), k) is Some ==> exists|i: int, j: int|
            0 <= i < fs.len() && 0 <= j < fs[i].parameters.len() && (match assoc_get(
                models,
                fs[i].name,
            ) {
                Some(model) => transfer_ok(
                    fs[i],
                    model.pointer_depth_classifications,
                    (#[trigger] fs[i].parameters[j]).name,
                    k,
                    assoc_get(summaries_fold(models, fs), k),
                ),
                None => false,
            }),
{
    lemma_summaries_sound(models, fs, k);
    lemma_summaries_complete(models, fs, k);
    if assoc_get(summaries_fold(models, fs), k) is Some {
        let (i, j) = choose|i: int, j: int|
            0 <= i < fs.len() && 0 <= j < fs[i].parameters.len() && (match assoc_get(
                models,
                fs[i].name,
            ) {
                Some(model) => transfer_ok(
                    fs[i],
                    model.pointer_depth_classifications,
                    (#[trigger] fs[i].parameters[j]).name,
                    k,
                    assoc_get(summaries_fold(models, fs), k),
                ),
                None => false,
            });
        let model = assoc_get(models, fs[i].name)->0;
        assert(transfers(fs[i], model.pointer_depth_classifications, fs[i].parameters[j].name));
    }
}

/// The summary of a multi-level parameter `p` of `fs[i]` (whose key
/// `function:p` no other parameter of the unit shares): a body that frees
/// the pointee (`free(*p)` or `free( *p)`) consumes ownership; otherwise a
/// body that allocates into it (`*p = malloc`, or `*p = (` as in a cast of
/// `malloc`, with `malloc` in the body) creates it; otherwise there is no
/// summary for `p`.
pub proof fn lemma_transfer_kinds(
    models: Seq<(Seq<char>, SemanticView)>,
    fs: Seq<FunctionModel>,
    i: int,
    j: int,
)
    requires
        0 <= i < fs.len(),
        0 <= j < fs[i].parameters.len(),
        assoc_get(models, fs[i].name) matches Some(model) && assoc_get(
            model.pointer_depth_classifications,
            fs[i].parameters[j].name,
        ) matches Some(PointerDepthClassification::MultiLevel { .. }),
        forall|i2: int, j2: int|
            0 <= i2 < fs.len() && 0 <= j2 < fs[i2].parameters.len() && fs[i2].name + ":"@
                + (#[trigger] fs[i2].parameters[j2]).name == fs[i].name + ":"@
                + fs[i].parameters[j].name ==> fs[i2] == fs[i] && fs[i2].parameters[j2].name
                == fs[i].parameters[j].name,
    ensures
        ({
            let p = fs[i].parameters[j].name;
            let b = fs[i].body_code;
            let got = assoc_get(summaries_fold(models, fs), fs[i].name + ":"@ + p);
            let frees = contains(b, "free(*"@ + p + ")"@) || contains(b, "free( *"@ + p + ")"@);
            let allocs = (contains(b, "*"@ + p + " = malloc"@) || contains(b, "*"@ + p + " = ("@))
                && contains(b, "malloc"@);
            &&& frees ==> got == Some(
                TransferModel { param_name: p, transfer_type: OwnershipTransferType::ConsumesOwnership },
            )
            &&& !frees && allocs ==> got == Some(
                TransferModel { param_name: p, transfer_type: OwnershipTransferType::CreatesOwnership },
            )
            &&& !frees && !allocs ==> got is None
        }),
{
    let p = fs[i].parameters[j].name;
    let k = fs[i].name + ":"@ + p;
    lemma_summaries_sound(models, fs, k);
    lemma_summaries_complete(models, fs, k);
    let model = assoc_get(models, fs[i].name)->0;
    if transfer_of(fs[i].body_code, p) is Some {
        assert(transfers(fs[i], model.pointer_depth_classifications, fs[i].parameters[j].name));
    }
    if assoc_get(summaries_fold(models, fs), k) is Some {
        let (i2, j2) = choose|i2: int, j2: int|
            0 <= i2 < fs.len() && 0 <= j2 < fs[i2].parameters.len() && (match assoc_get(
                models,
                fs[i2].name,
            ) {
                Some(model) => transfer_ok(
                    fs[i2],
                    model.pointer_depth_classifications,
                    (#[trigger] fs[i2].parameters[j2]).name,
                    k,
                    assoc_get(summaries_fold(models, fs), k),
                ),
                None => false,
            });
        assert(fs[i2] == fs[i]);
    }
}

} // verus!
