//! Ownership classification: the Rust ownership form of every parameter and
//! local variable, from the semantic models and interprocedural summaries.
use vstd::prelude::*;

use crate::data_stores::interprocedural_summaries::{
    DataDepFlag, DataDepModel, InterproceduralSummaries, OwnershipKind, OwnershipTransferType,
    SummariesModel,
};
use crate::data_stores::semantic_models::{MemoryPattern, SemanticModel, SemanticView};
use crate::module2_ast::ast_parser::{FunctionModel, ParameterModel, TranslationUnitAST};
use crate::name_map::{assoc_find, assoc_get, assoc_insert, lemma_assoc_insert_get, NameMap};
use crate::text::{chars_of, push_all, string_of};

verus! {

broadcast use vstd::string::group_string_axioms;

/// The ownership form of each variable of one function.
#[derive(Debug)]
pub struct FunctionOwnershipMap {
    pub function_name: String,
    pub variable_ownership: NameMap<OwnershipKind>,
}

/// The value a `FunctionOwnershipMap` stands for.
pub ghost struct OwnershipMapModel {
    pub function_name: Seq<char>,
    pub variable_ownership: Seq<(Seq<char>, OwnershipKind)>,
}

impl DeepView for FunctionOwnershipMap {
    type V = OwnershipMapModel;

    open spec fn deep_view(&self) -> OwnershipMapModel {
        OwnershipMapModel {
            function_name: self.function_name@,
            variable_ownership: self.variable_ownership@,
        }
    }
}

/// Some flag marks variable `v` of function `f` as data-dependent.
pub open spec fn is_flagged(flags: Seq<DataDepModel>, f: Seq<char>, v: Seq<char>) -> bool {
    exists|i: int| 0 <= i < flags.len() && #[trigger] flags[i].function_name == f && flags[i].variable_name == v
}

/// The form of parameter `p` of function `f` with pointer depth `depth`:
/// data-dependent ownership falls back to `Option<Box<T>>`; a parameter
/// through which ownership is consumed or created is a `Box<T>`; a
/// non-pointer is a shared borrow; otherwise the memory pattern decides,
/// and a pointer only read is a mutable borrow from depth two on.
pub open spec fn spec_classify_parameter(
    f: Seq<char>,
    p: Seq<char>,
    depth: usize,
    model: SemanticView,
    s: SummariesModel,
) -> OwnershipKind {
    if is_flagged(s.data_dependent_ownership_flags, f, p) {
        OwnershipKind::ConservativeFallback
    } else if assoc_get(s.ownership_transfer_summaries, f + ":"@ + p) matches Some(t)
        && t.transfer_type != OwnershipTransferType::NoTransfer {
        OwnershipKind::UniqueHeapOwner
    } else if depth == 0 {
        OwnershipKind::SharedBorrow
    } else {
        match assoc_get(model.memory_patterns, p) {
            Some(MemoryPattern::Allocate) => OwnershipKind::UniqueHeapOwner,
            Some(MemoryPattern::Free) => OwnershipKind::UniqueHeapOwner,
            Some(MemoryPattern::Write) => OwnershipKind::MutableBorrow,
            _ => if depth >= 2 {
                OwnershipKind::MutableBorrow
            } else {
                OwnershipKind::SharedBorrow
            },
        }
    }
}

/// The form of local variable `v` of function `f`: data-dependent
/// ownership falls back to `Option<Box<T>>`; allocated or freed memory is a
/// `Box<T>`; written memory a mutable borrow; anything else a shared borrow.
pub open spec fn spec_classify_local(
    f: Seq<char>,
    v: Seq<char>,
    model: SemanticView,
    s: SummariesModel,
) -> OwnershipKind {
    if is_flagged(s.data_dependent_ownership_flags, f, v) {
        OwnershipKind::ConservativeFallback
    } else {
        match assoc_get(model.memory_patterns, v) {
            Some(MemoryPattern::Allocate) => OwnershipKind::UniqueHeapOwner,
            Some(MemoryPattern::Free) => OwnershipKind::UniqueHeapOwner,
            Some(MemoryPattern::Write) => OwnershipKind::MutableBorrow,
            _ => OwnershipKind::SharedBorrow,
        }
    }
}

/// The parameters `ps` of `f`, classified and added to `m`.
pub open spec fn params_kinds(
    m: Seq<(Seq<char>, OwnershipKind)>,
    f: Seq<char>,
    model: SemanticView,
    s: SummariesModel,
    ps: Seq<ParameterModel>,
) -> Seq<(Seq<char>, OwnershipKind)>
    decreases ps.len(),
{
    if ps.len() == 0 {
        m
    } else {
        let p = ps.last();
        assoc_insert(
            params_kinds(m, f, model, s, ps.drop_last()),
            p.name,
            spec_classify_parameter(f, p.name, p.pointer_depth, model, s),
        )
    }
}

/// The symbols `syms` of `f` that are not yet classified, classified as
/// locals and added to `m`.
pub open spec fn locals_kinds(
    m: Seq<(Seq<char>, OwnershipKind)>,
    f: Seq<char>,
    model: SemanticView,
    s: SummariesModel,
    syms: Seq<(Seq<char>, Seq<char>)>,
) -> Seq<(Seq<char>, OwnershipKind)>
    decreases syms.len(),
{
    if syms.len() == 0 {
        m
    } else {
        let prev = locals_kinds(m, f, model, s, syms.drop_last());
        let v = syms.last().0;
        if assoc_find(prev, v) is Some {
            prev
        } else {
            assoc_insert(prev, v, spec_classify_local(f, v, model, s))
        }
    }
}

/// The ownership map of function `f`: its parameters, then the other
/// symbols of its model; nothing when it has no model.
pub open spec fn spec_function_ownership(
    f: FunctionModel,
    models: Seq<(Seq<char>, SemanticView)>,
    s: SummariesModel,
) -> OwnershipMapModel {
    OwnershipMapModel {
        function_name: f.name,
        variable_ownership: match assoc_get(models, f.name) {
            Some(model) => locals_kinds(
                params_kinds(seq![], f.name, model, s, f.parameters),
                f.name,
                model,
                s,
                model.symbol_table,
            ),
            None => seq![],
        },
    }
}

/// The ownership maps of the functions `fs`, keyed by function name.
pub open spec fn ownership_fold(
    models: Seq<(Seq<char>, SemanticView)>,
    s: SummariesModel,
    fs: Seq<FunctionModel>,
) -> Seq<(Seq<char>, OwnershipMapModel)>
    decreases fs.len(),
{
    if fs.len() == 0 {
        seq![]
    } else {
        assoc_insert(
            ownership_fold(models, s, fs.drop_last()),
            fs.last().name,
            spec_function_ownership(fs.last(), models, s),
        )
    }
}

fn is_flagged_exec(flags: &Vec<DataDepFlag>, f: &String, v: &String) -> (res: bool)
    ensures
        res == is_flagged(flags.deep_view(), f@, v@),
{
    let ghost fl = flags.deep_view();
    let mut i: usize = 0;
    while i < flags.len()
        invariant
            i <= fl.len(),
            fl == flags.deep_view(),
            forall|k: int|
                0 <= k < i ==> !(#[trigger] fl[k].function_name == f@ && fl[k].variable_name == v@),
        decreases fl.len() - i,
    {
        if flags[i].function_name == *f && flags[i].variable_name == *v {
            assert(fl[i as int].function_name == f@);
            return true;
        }
        i += 1;
    }
    false
}

fn pattern_kind(model: &SemanticModel, v: &String, depth_fallback: OwnershipKind) -> (res:
    OwnershipKind)
    ensures
        res == match assoc_get(model.deep_view().memory_patterns, v@) {
            Some(MemoryPattern::Allocate) => OwnershipKind::UniqueHeapOwner,
            Some(MemoryPattern::Free) => OwnershipKind::UniqueHeapOwner,
            Some(MemoryPattern::Write) => OwnershipKind::MutableBorrow,
            _ => depth_fallback,
        },
{
    match model.memory_patterns.get(v.as_str()) {
        Some(MemoryPattern::Allocate) => OwnershipKind::UniqueHeapOwner,
        Some(MemoryPattern::Free) => OwnershipKind::UniqueHeapOwner,
        Some(MemoryPattern::Write) => OwnershipKind::MutableBorrow,
        _ => depth_fallback,
    }
}

/// The ownership form of a parameter.
pub fn classify_parameter(
    func_name: &String,
    param_name: &String,
    pointer_depth: usize,
    model: &SemanticModel,
    summaries: &InterproceduralSummaries,
) -> (res: OwnershipKind)
    ensures
        res == spec_classify_parameter(
            func_name@,
            param_name@,
            pointer_depth,
            model.deep_view(),
            summaries.deep_view(),
        ),
{
    if is_flagged_exec(&summaries.data_dependent_ownership_flags, func_name, param_name) {
        return OwnershipKind::ConservativeFallback;
    }
    let mut key = chars_of(func_name.as_str());
    let colon = chars_of(":");
    push_all(&mut key, &colon);
    let pc = chars_of(param_name.as_str());
    push_all(&mut key, &pc);
    let key = string_of(&key);
    match summaries.ownership_transfer_summaries.get(key.as_str()) {
        Some(transfer) => match transfer.transfer_type {
            OwnershipTransferType::CreatesOwnership => {
                return OwnershipKind::UniqueHeapOwner;
            },
            OwnershipTransferType::ConsumesOwnership => {
                return OwnershipKind::UniqueHeapOwner;
            },
            OwnershipTransferType::NoTransfer => {},
        },
        None => {},
    }
    if pointer_depth == 0 {
        return OwnershipKind::SharedBorrow;
    }
    let fallback = if pointer_depth >= 2 {
        OwnershipKind::MutableBorrow
    } else {
        OwnershipKind::SharedBorrow
    };
    pattern_kind(model, param_name, fallback)
}

/// The ownership form of a local variable.
pub fn classify_local_var(
    func_name: &String,
    var_name: &String,
    model: &SemanticModel,
    summaries: &InterproceduralSummaries,
) -> (res: OwnershipKind)
    ensures
        res == spec_classify_local(func_name@, var_name@, model.deep_view(), summaries.deep_view()),
{
    if is_flagged_exec(&summaries.data_dependent_ownership_flags, func_name, var_name) {
        return OwnershipKind::ConservativeFallback;
    }
    pattern_kind(model, var_name, OwnershipKind::SharedBorrow)
}

/// Classifies every parameter and local variable of every function: the
/// ownership map of each function, keyed by its name. A function without a
/// semantic model gets an empty map.
pub fn infer_ownership_types(
    tu_ast: &TranslationUnitAST,
    semantic_models: &NameMap<SemanticModel>,
    summaries: &InterproceduralSummaries,
) -> (res: NameMap<FunctionOwnershipMap>)
    ensures
        res@ == ownership_fold(semantic_models@, summaries.deep_view(), tu_ast.deep_view().functions),
{
    let ghost fs = tu_ast.deep_view().functions;
    let ghost models = semantic_models@;
    let ghost s = summaries.deep_view();
    let mut maps: NameMap<FunctionOwnershipMap> = NameMap::new();
    let mut f: usize = 0;
    assert(fs.take(0) =~= Seq::<FunctionModel>::empty());
    while f < tu_ast.functions.len()
        invariant
            f <= fs.len(),
            fs == tu_ast.deep_view().functions,
            models == semantic_models@,
            s == summaries.deep_view(),
            maps@ == ownership_fold(models, s, fs.take(f as int)),
        decreases fs.len() - f,
    {
        assert(fs.take(f + 1).drop_last() =~= fs.take(f as int));
        let func = &tu_ast.functions[f];
        let mut vars: NameMap<OwnershipKind> = NameMap::new();
        match semantic_models.get(func.name.as_str()) {
            Some(model) => {
                let ghost mv = model.deep_view();
                let ghost ps = func.deep_view().parameters;
                let mut i: usize = 0;
                assert(ps.take(0) =~= Seq::<ParameterModel>::empty());
                while i < func.parameters.len()
                    invariant
                        i <= ps.len(),
                        ps == func.deep_view().parameters,
                        mv == model.deep_view(),
                        s == summaries.deep_view(),
                        vars@ == params_kinds(seq![], func.name@, mv, s, ps.take(i as int)),
                    decreases ps.len() - i,
                {
                    assert(ps.take(i + 1).drop_last() =~= ps.take(i as int));
                    let param = &func.parameters[i];
                    let kind = classify_parameter(
                        &func.name,
                        &param.name,
                        param.pointer_depth,
                        model,
                        summaries,
                    );
                    vars.insert(param.name.clone(), kind);
                    i += 1;
                }
                assert(ps.take(ps.len() as int) =~= ps);
                let ghost v0 = vars@;
                let ghost syms = mv.symbol_table;
                let mut k: usize = 0;
                assert(syms.take(0) =~= Seq::<(Seq<char>, Seq<char>)>::empty());
                while k < model.symbol_table.len()
                    invariant
                        k <= syms.len(),
                        syms == model.symbol_table@,
                        mv == model.deep_view(),
                        s == summaries.deep_view(),
                        vars@ == locals_kinds(v0, func.name@, mv, s, syms.take(k as int)),
                    decreases syms.len() - k,
                {
                    assert(syms.take(k + 1).drop_last() =~= syms.take(k as int));
                    let var_name = model.symbol_table.key_at(k);
                    if !vars.contains_key(var_name.as_str()) {
                        let kind = classify_local_var(&func.name, var_name, model, summaries);
                        vars.insert(var_name.clone(), kind);
                    }
                    k += 1;
                }
                assert(syms.take(syms.len() as int) =~= syms);
            },
            None => {},
        }
        let map = FunctionOwnershipMap { function_name: func.name.clone(), variable_ownership: vars };
        maps.insert(func.name.clone(), map);
        f += 1;
    }
    assert(fs.take(fs.len() as int) =~= fs);
    maps
}

proof fn lemma_params_flagged(
    m: Seq<(Seq<char>, OwnershipKind)>,
    f: Seq<char>,
    model: SemanticView,
    s: SummariesModel,
    ps: Seq<ParameterModel>,
    v: Seq<char>,
)
    requires
        is_flagged(s.data_dependent_ownership_flags, f, v),
        assoc_get(m, v) is Some ==> assoc_get(m, v) == Some(OwnershipKind::ConservativeFallback),
    ensures
        assoc_get(params_kinds(m, f, model, s, ps), v) is Some ==> assoc_get(
            params_kinds(m, f, model, s, ps),
            v,
        ) == Some(OwnershipKind::ConservativeFallback),
    decreases ps.len(),
{
    if ps.len() > 0 {
        let p = ps.last();
        lemma_params_flagged(m, f, model, s, ps.drop_last(), v);
        lemma_assoc_insert_get(
            params_kinds(m, f, model, s, ps.drop_last()),
            p.name,
            spec_classify_parameter(f, p.name, p.pointer_depth, model, s),
            v,
        );
    }
}

proof fn lemma_locals_flagged(
    m: Seq<(Seq<char>, OwnershipKind)>,
    f: Seq<char>,
    model: SemanticView,
    s: SummariesModel,
    syms: Seq<(Seq<char>, Seq<char>)>,
    v: Seq<char>,
)
    requires
        is_flagged(s.data_dependent_ownership_flags, f, v),
        assoc_get(m, v) is Some ==> assoc_get(m, v) == Some(OwnershipKind::ConservativeFallback),
    ensures
        assoc_get(locals_kinds(m, f, model, s, syms), v) is Some ==> assoc_get(
            locals_kinds(m, f, model, s, syms),
            v,
        ) == Some(OwnershipKind::ConservativeFallback),
    decreases syms.len(),
{
    if syms.len() > 0 {
        let w = syms.last().0;
        let prev = locals_kinds(m, f, model, s, syms.drop_last());
        lemma_locals_flagged(m, f, model, s, syms.drop_last(), v);
        lemma_assoc_insert_get(prev, w, spec_classify_local(f, w, model, s), v);
    }
}

/// A variable that is flagged as data-dependent in its function falls back
/// to `Option<Box<T>>` wherever the function's ownership map holds it, as a
/// parameter or as a local.
pub proof fn lemma_flagged_falls_back(
    f: FunctionModel,
    models: Seq<(Seq<char>, SemanticView)>,
    s: SummariesModel,
    v: Seq<char>,
)
    requires
        is_flagged(s.data_dependent_ownership_flags, f.name, v),
    ensures
        assoc_get(spec_function_ownership(f, models, s).variable_ownership, v) is Some
            ==> assoc_get(spec_function_ownership(f, models, s).variable_ownership, v) == Some(
            OwnershipKind::ConservativeFallback,
        ),
{
    if let Some(model) = assoc_get(models, f.name) {
        lemma_params_flagged(seq![], f.name, model, s, f.parameters, v);
        lemma_locals_flagged(
            params_kinds(seq![], f.name, model, s, f.parameters),
            f.name,
            model,
            s,
            model.symbol_table,
            v,
        );
    }
}

/// Some parameter of `ps` is named `v`.
pub open spec fn has_param(ps: Seq<ParameterModel>, v: Seq<char>) -> bool {
    exists|k: int| 0 <= k < ps.len() && (#[trigger] ps[k]).name == v
}

proof fn lemma_params_transfer(
    f: Seq<char>,
    model: SemanticView,
    s: SummariesModel,
    ps: Seq<ParameterModel>,
    v: Seq<char>,
)
    requires
        !is_flagged(s.data_dependent_ownership_flags, f, v),
        assoc_get(s.ownership_transfer_summaries, f + ":"@ + v) matches Some(t)
            && t.transfer_type != OwnershipTransferType::NoTransfer,
    ensures
        has_param(ps, v) ==> assoc_get(params_kinds(seq![], f, model, s, ps), v) == Some(
            OwnershipKind::UniqueHeapOwner,
        ),
        !has_param(ps, v) ==> assoc_get(params_kinds(seq![], f, model, s, ps), v) is None,
    decreases ps.len(),
{
    if ps.len() > 0 {
        let p = ps.last();
        let init = ps.drop_last();
        lemma_params_transfer(f, model, s, init, v);
        lemma_assoc_insert_get(
            params_kinds(seq![], f, model, s, init),
            p.name,
            spec_classify_parameter(f, p.name, p.pointer_depth, model, s),
            v,
        );
        if has_param(ps, v) && p.name != v {
            let k = choose|k: int| 0 <= k < ps.len() && (#[trigger] ps[k]).name == v;
            assert(init[k].name == v);
        }
        if has_param(init, v) {
            let k = choose|k: int| 0 <= k < init.len() && (#[trigger] init[k]).name == v;
            assert(ps[k].name == v);
        }
    }
}

proof fn lemma_locals_keep(
    m: Seq<(Seq<char>, OwnershipKind)>,
    f: Seq<char>,
    model: SemanticView,
    s: SummariesModel,
    syms: Seq<(Seq<char>, Seq<char>)>,
    v: Seq<char>,
)
    requires
        assoc_get(m, v) is Some,
    ensures
        assoc_get(locals_kinds(m, f, model, s, syms), v) == assoc_get(m, v),
    decreases syms.len(),
{
    if syms.len() > 0 {
        let w = syms.last().0;
        let prev = locals_kinds(m, f, model, s, syms.drop_last());
        lemma_locals_keep(m, f, model, s, syms.drop_last(), v);
        lemma_assoc_insert_get(prev, w, spec_classify_local(f, w, model, s), v);
        crate::name_map::lemma_assoc_find_from(prev, w, 0);
        crate::name_map::lemma_assoc_find_from(prev, v, 0);
    }
}

/// A parameter through which its function consumes or creates ownership,
/// and that is not flagged as data-dependent, becomes a `Box<T>` in the
/// function's ownership map.
pub proof fn lemma_transfer_makes_box(
    f: FunctionModel,
    models: Seq<(Seq<char>, SemanticView)>,
    s: SummariesModel,
    v: Seq<char>,
)
    requires
        assoc_get(models, f.name) is Some,
        has_param(f.parameters, v),
        !is_flagged(s.data_dependent_ownership_flags, f.name, v),
        assoc_get(s.ownership_transfer_summaries, f.name + ":"@ + v) matches Some(t)
            && t.transfer_type != OwnershipTransferType::NoTransfer,
    ensures
        assoc_get(spec_function_ownership(f, models, s).variable_ownership, v) == Some(
            OwnershipKind::UniqueHeapOwner,
        ),
{
    let model = assoc_get(models, f.name).unwrap();
    lemma_params_transfer(f.name, model, s, f.parameters, v);
    lemma_locals_keep(
        params_kinds(seq![], f.name, model, s, f.parameters),
        f.name,
        model,
        s,
        model.symbol_table,
        v,
    );
}

proof fn lemma_params_keys(
    m: Seq<(Seq<char>, OwnershipKind)>,
    f: Seq<char>,
    model: SemanticView,
    s: SummariesModel,
    ps: Seq<ParameterModel>,
    v: Seq<char>,
)
    ensures
        assoc_get(params_kinds(m, f, model, s, ps), v) is Some <==> (assoc_get(m, v) is Some
            || has_param(ps, v)),
    decreases ps.len(),
{
    if ps.len() > 0 {
        let p = ps.last();
        let init = ps.drop_last();
        lemma_params_keys(m, f, model, s, init, v);
        lemma_assoc_insert_get(
            params_kinds(m, f, model, s, init),
            p.name,
            spec_classify_parameter(f, p.name, p.pointer_depth, model, s),
            v,
        );
        if has_param(ps, v) && p.name != v {
            let k = choose|k: int| 0 <= k < ps.len() && (#[trigger] ps[k]).name == v;
            assert(init[k].name == v);
        }
        if has_param(init, v) {
            let k = choose|k: int| 0 <= k < init.len() && (#[trigger] init[k]).name == v;
            assert(ps[k].name == v);
        }
        if p.name == v {
            assert(ps[ps.len() - 1].name == v);
        }
    }
}

/// Some symbol of `syms` is named `v`.
pub open spec fn has_symbol(syms: Seq<(Seq<char>, Seq<char>)>, v: Seq<char>) -> bool {
    exists|k: int| 0 <= k < syms.len() && (#[trigger] syms[k]).0 == v
}

proof fn lemma_locals_keys(
    m: Seq<(Seq<char>, OwnershipKind)>,
    f: Seq<char>,
    model: SemanticView,
    s: SummariesModel,
    syms: Seq<(Seq<char>, Seq<char>)>,
    v: Seq<char>,
)
    ensures
        assoc_get(locals_kinds(m, f, model, s, syms), v) is Some <==> (assoc_get(m, v) is Some
            || has_symbol(syms, v)),
    decreases syms.len(),
{
    if syms.len() > 0 {
        let w = syms.last().0;
        let init = syms.drop_last();
        let prev = locals_kinds(m, f, model, s, init);
        lemma_locals_keys(m, f, model, s, init, v);
        lemma_assoc_insert_get(prev, w, spec_classify_local(f, w, model, s), v);
        crate::name_map::lemma_assoc_find_from(prev, w, 0);
        crate::name_map::lemma_assoc_find_from(prev, v, 0);
        if has_symbol(syms, v) && w != v {
            let k = choose|k: int| 0 <= k < syms.len() && (#[trigger] syms[k]).0 == v;
            assert(init[k].0 == v);
        }
        if has_symbol(init, v) {
            let k = choose|k: int| 0 <= k < init.len() && (#[trigger] init[k]).0 == v;
            assert(syms[k].0 == v);
        }
        if w == v {
            assert(syms[syms.len() - 1].0 == v);
        }
    }
}

/// The ownership map of a function with a semantic model holds exactly its
/// parameters and the symbols of its model; a function without a model
/// gets an empty map.
pub proof fn lemma_ownership_keys(
    f: FunctionModel,
    models: Seq<(Seq<char>, SemanticView)>,
    s: SummariesModel,
    v: Seq<char>,
)
    ensures
        assoc_get(models, f.name) matches Some(model) ==> (assoc_get(
            spec_function_ownership(f, models, s).variable_ownership,
            v,
        ) is Some <==> (has_param(f.parameters, v) || has_symbol(model.symbol_table, v))),
        assoc_get(models, f.name) is None ==> spec_function_ownership(
            f,
            models,
            s,
        ).variable_ownership.len() == 0,
{
    if let Some(model) = assoc_get(models, f.name) {
        lemma_params_keys(seq![], f.name, model, s, f.parameters, v);
        lemma_locals_keys(
            params_kinds(seq![], f.name, model, s, f.parameters),
            f.name,
            model,
            s,
            model.symbol_table,
            v,
        );
    }
}

/// The ownership maps have one entry per function name.
pub proof fn lemma_one_map_per_function(
    models: Seq<(Seq<char>, SemanticView)>,
    s: SummariesModel,
    fs: Seq<FunctionModel>,
    k: Seq<char>,
)
    ensures
        assoc_get(ownership_fold(models, s, fs), k) is Some <==> exists|j: int|
            0 <= j < fs.len() && (#[trigger] fs[j]).name == k,
    decreases fs.len(),
{
    if fs.len() > 0 {
        let init = fs.drop_last();
        lemma_one_map_per_function(models, s, init, k);
        lemma_assoc_insert_get(
            ownership_fold(models, s, init),
            fs.last().name,
            spec_function_ownership(fs.last(), models, s),
            k,
        );
        if exists|j: int| 0 <= j < fs.len() && (#[trigger] fs[j]).name == k {
            let j = choose|j: int| 0 <= j < fs.len() && (#[trigger] fs[j]).name == k;
            if j < fs.len() - 1 {
                assert(init[j].name == k);
            }
        }
        if exists|j: int| 0 <= j < init.len() && (#[trigger] init[j]).name == k {
            let j = choose|j: int| 0 <= j < init.len() && (#[trigger] init[j]).name == k;
            assert(fs[j].name == k);
        }
    }
}

proof fn lemma_fold_value(
    models: Seq<(Seq<char>, SemanticView)>,
    s: SummariesModel,
    fs: Seq<FunctionModel>,
    j: int,
)
    requires
        0 <= j < fs.len(),
        forall|a: int, b: int| 0 <= a < b < fs.len() ==> fs[a].name != fs[b].name,
    ensures
        assoc_get(ownership_fold(models, s, fs), fs[j].name) == Some(
            spec_function_ownership(fs[j], models, s),
        ),
    decreases fs.len(),
{
    let init = fs.drop_last();
    lemma_assoc_insert_get(
        ownership_fold(models, s, init),
        fs.last().name,
        spec_function_ownership(fs.last(), models, s),
        fs[j].name,
    );
    if j < fs.len() - 1 {
        assert(init[j] == fs[j]);
        assert(fs[j].name != fs[fs.len() - 1].name);
        lemma_fold_value(models, s, init, j);
    }
}

/// In the ownership map of `f`, the variable `v` is held exactly when it
/// is a parameter of `f` or a symbol of `f`'s semantic model (never, when
/// `f` has no model), and with the conservative fallback when it is
/// flagged as data-dependent in `f`.
pub open spec fn variable_law(
    models: Seq<(Seq<char>, SemanticView)>,
    s: SummariesModel,
    f: FunctionModel,
    v: Seq<char>,
) -> bool {
    let om = spec_function_ownership(f, models, s);
    &&& (assoc_get(models, f.name) matches Some(model) ==> (assoc_get(om.variable_ownership, v) is Some
        <==> (has_param(f.parameters, v) || has_symbol(model.symbol_table, v))))
    &&& (assoc_get(models, f.name) is None ==> om.variable_ownership.len() == 0)
    &&& (is_flagged(s.data_dependent_ownership_flags, f.name, v) && assoc_get(
        om.variable_ownership,
        v,
    ) is Some ==> assoc_get(om.variable_ownership, v) == Some(OwnershipKind::ConservativeFallback))
}

/// The ownership inference of a unit whose functions have distinct names
/// maps exactly those names, each to the map of that function, which
/// carries its name and obeys `variable_law` for every variable.
pub proof fn lemma_ownership_law(
    models: Seq<(Seq<char>, SemanticView)>,
    s: SummariesModel,
    fs: Seq<FunctionModel>,
)
    requires
        forall|a: int, b: int| 0 <= a < b < fs.len() ==> fs[a].name != fs[b].name,
    ensures
        forall|k: Seq<char>|
            #[trigger] assoc_get(ownership_fold(models, s, fs), k) is Some <==> exists|j: int|
                0 <= j < fs.len() && (#[trigger] fs[j]).name == k,
        forall|j: int|
            0 <= j < fs.len() ==> assoc_get(ownership_fold(models, s, fs), (#[trigger] fs[j]).name)
                == Some(spec_function_ownership(fs[j], models, s))
                && spec_function_ownership(fs[j], models, s).function_name == fs[j].name,
        forall|j: int, v: Seq<char>| 0 <= j < fs.len() ==> #[trigger] variable_law(models, s, fs[j], v),
{
    assert forall|k: Seq<char>|
        #[trigger] assoc_get(ownership_fold(models, s, fs), k) is Some <==> exists|j: int|
            0 <= j < fs.len() && (#[trigger] fs[j]).name == k by {
        lemma_one_map_per_function(models, s, fs, k);
    }
    assert forall|j: int| 0 <= j < fs.len() implies assoc_get(
        ownership_fold(models, s, fs),
        (#[trigger] fs[j]).name,
    ) == Some(spec_function_ownership(fs[j], models, s)) by {
        lemma_fold_value(models, s, fs, j);
    }
    assert forall|j: int, v: Seq<char>| 0 <= j < fs.len() implies #[trigger] variable_law(
        models,
        s,
        fs[j],
        v,
    ) by {
        lemma_ownership_keys(fs[j], models, s, v);
        if is_flagged(s.data_dependent_ownership_flags, fs[j].name, v) {
            lemma_flagged_falls_back(fs[j], models, s, v);
        }
    }
}

proof fn lemma_params_value(
    f: Seq<char>,
    model: SemanticView,
    s: SummariesModel,
    ps: Seq<ParameterModel>,
    j: int,
)
    requires
        0 <= j < ps.len(),
        forall|a: int, b: int| 0 <= a < b < ps.len() ==> ps[a].name != ps[b].name,
    ensures
        assoc_get(params_kinds(seq![], f, model, s, ps), ps[j].name) == Some(
            spec_classify_parameter(f, ps[j].name, ps[j].pointer_depth, model, s),
        ),
    decreases ps.len(),
{
    let init = ps.drop_last();
    let p = ps.last();
    lemma_assoc_insert_get(
        params_kinds(seq![], f, model, s, init),
        p.name,
        spec_classify_parameter(f, p.name, p.pointer_depth, model, s),
        ps[j].name,
    );
    if j < ps.len() - 1 {
        assert(init[j] == ps[j]);
        assert(ps[j].name != ps[ps.len() - 1].name);
        lemma_params_value(f, model, s, init, j);
    }
}

/// The form that the ownership map of `f` gives its parameter `ps[j]`
/// (names of the parameters distinct, `f` with a semantic model): a
/// variable flagged as data-dependent falls back to `Option<Box<T>>`; one
/// through which ownership is consumed or created is a `Box<T>`; otherwise
/// a non-pointer is `&T`, and a pointer is a `Box<T>` when allocated or
/// freed, `&mut T` when written through, and else `&mut T` from two levels
/// of indirection on and `&T` at one. A pointer that is written through is
/// never a shared borrow.
pub proof fn lemma_parameter_forms(
    f: FunctionModel,
    models: Seq<(Seq<char>, SemanticView)>,
    s: SummariesModel,
    j: int,
)
    requires
        0 <= j < f.parameters.len(),
        forall|a: int, b: int|
            0 <= a < b < f.parameters.len() ==> f.parameters[a].name != f.parameters[b].name,
        assoc_get(models, f.name) is Some,
    ensures
        ({
            let model = assoc_get(models, f.name)->0;
            let p = f.parameters[j];
            let got = assoc_get(spec_function_ownership(f, models, s).variable_ownership, p.name);
            let flagged = exists|i: int|
                0 <= i < s.data_dependent_ownership_flags.len()
                    && (#[trigger] s.data_dependent_ownership_flags[i]).function_name == f.name
                    && s.data_dependent_ownership_flags[i].variable_name == p.name;
            let transfer = assoc_get(s.ownership_transfer_summaries, f.name + ":"@ + p.name) matches Some(
                t,
            ) && (t.transfer_type == OwnershipTransferType::ConsumesOwnership || t.transfer_type
                == OwnershipTransferType::CreatesOwnership);
            let pat = assoc_get(model.memory_patterns, p.name);
            &&& flagged ==> got == Some(OwnershipKind::ConservativeFallback)
            &&& !flagged && transfer ==> got == Some(OwnershipKind::UniqueHeapOwner)
            &&& !flagged && !transfer && p.pointer_depth == 0 ==> got == Some(
                OwnershipKind::SharedBorrow,
            )
            &&& !flagged && !transfer && p.pointer_depth >= 1 && (pat == Some(MemoryPattern::Allocate)
                || pat == Some(MemoryPattern::Free)) ==> got == Some(OwnershipKind::UniqueHeapOwner)
            &&& !flagged && !transfer && p.pointer_depth >= 1 && pat == Some(MemoryPattern::Write)
                ==> got == Some(OwnershipKind::MutableBorrow)
            &&& !flagged && !transfer && p.pointer_depth >= 2 && (pat == Some(MemoryPattern::Read)
                || pat is None) ==> got == Some(OwnershipKind::MutableBorrow)
            &&& !flagged && !transfer && p.pointer_depth == 1 && (pat == Some(MemoryPattern::Read)
                || pat is None) ==> got == Some(OwnershipKind::SharedBorrow)
            &&& !flagged && p.pointer_depth >= 1 && pat == Some(MemoryPattern::Write) ==> got != Some(
                OwnershipKind::SharedBorrow,
            )
        }),
{
    let model = assoc_get(models, f.name)->0;
    lemma_params_value(f.name, model, s, f.parameters, j);
    lemma_locals_keep(
        params_kinds(seq![], f.name, model, s, f.parameters),
        f.name,
        model,
        s,
        model.symbol_table,
        f.parameters[j].name,
    );
}

proof fn lemma_locals_value(
    m: Seq<(Seq<char>, OwnershipKind)>,
    f: Seq<char>,
    model: SemanticView,
    s: SummariesModel,
    syms: Seq<(Seq<char>, Seq<char>)>,
    v: Seq<char>,
)
    requires
        assoc_get(m, v) is None,
        exists|k: int| 0 <= k < syms.len() && (#[trigger] syms[k]).0 == v,
    ensures
        assoc_get(locals_kinds(m, f, model, s, syms), v) == Some(spec_classify_local(f, v, model, s)),
    decreases syms.len(),
{
    let init = syms.drop_last();
    let w = syms.last().0;
    let prev = locals_kinds(m, f, model, s, init);
    if exists|k: int| 0 <= k < init.len() && (#[trigger] init[k]).0 == v {
        lemma_locals_value(m, f, model, s, init, v);
        if assoc_find(prev, w) is None {
            lemma_assoc_insert_get(prev, w, spec_classify_local(f, w, model, s), v);
        }
    } else {
        let k = choose|k: int| 0 <= k < syms.len() && (#[trigger] syms[k]).0 == v;
        if k < syms.len() - 1 {
            assert(init[k] == syms[k]);
        }
        assert(w == v);
        lemma_locals_keys(m, f, model, s, init, v);
        if exists|q: int| 0 <= q < init.len() && (#[trigger] init[q]).0 == v {
            let q = choose|q: int| 0 <= q < init.len() && (#[trigger] init[q]).0 == v;
            assert(has_symbol(init, v));
        }
        assert(assoc_get(prev, v) is None);
        lemma_assoc_insert_get(prev, w, spec_classify_local(f, w, model, s), v);
    }
}

/// The form that the ownership map of `f` gives a symbol `v` of its
/// semantic model that is not a parameter: a variable flagged as
/// data-dependent falls back to `Option<Box<T>>`; otherwise allocated or
/// freed memory is a `Box<T>`, memory written through is `&mut T`, and
/// anything else is `&T`.
pub proof fn lemma_local_forms(
    f: FunctionModel,
    models: Seq<(Seq<char>, SemanticView)>,
    s: SummariesModel,
    v: Seq<char>,
)
    requires
        assoc_get(models, f.name) matches Some(model) && exists|k: int|
            0 <= k < model.symbol_table.len() && (#[trigger] model.symbol_table[k]).0 == v,
        forall|j: int| 0 <= j < f.parameters.len() ==> (#[trigger] f.parameters[j]).name != v,
    ensures
        ({
            let model = assoc_get(models, f.name)->0;
            let got = assoc_get(spec_function_ownership(f, models, s).variable_ownership, v);
            let flagged = exists|i: int|
                0 <= i < s.data_dependent_ownership_flags.len()
                    && (#[trigger] s.data_dependent_ownership_flags[i]).function_name == f.name
                    && s.data_dependent_ownership_flags[i].variable_name == v;
            let pat = assoc_get(model.memory_patterns, v);
            &&& flagged ==> got == Some(OwnershipKind::ConservativeFallback)
            &&& !flagged && (pat == Some(MemoryPattern::Allocate) || pat == Some(MemoryPattern::Free))
                ==> got == Some(OwnershipKind::UniqueHeapOwner)
            &&& !flagged && pat == Some(MemoryPattern::Write) ==> got == Some(
                OwnershipKind::MutableBorrow,
            )
            &&& !flagged && (pat == Some(MemoryPattern::Read) || pat is None) ==> got == Some(
                OwnershipKind::SharedBorrow,
            )
        }),
{
    let model = assoc_get(models, f.name)->0;
    let pm = params_kinds(seq![], f.name, model, s, f.parameters);
    lemma_params_keys(seq![], f.name, model, s, f.parameters, v);
    if has_param(f.parameters, v) {
        let k = choose|k: int| 0 <= k < f.parameters.len() && (#[trigger] f.parameters[k]).name == v;
    }
    lemma_locals_value(pm, f.name, model, s, model.symbol_table, v);
}

} // verus!
