//! Union-to-enum transformation inside one function.
use vstd::prelude::*;

use crate::data_stores::semantic_models::{
    SemanticModel, SemanticView, UnionTransform, UnionTransformModel, UnresolvedUnionCase,
    UnresolvedUnionModel,
};
use crate::module2_ast::ast_parser::{
    FunctionAST, FunctionModel, TranslationUnitAST, UnionModel, UnionVariantModel,
};
use crate::text::{chars_of, contains, contains_chars, push_all, string_of};

verus! {

broadcast use vstd::string::group_string_axioms;

/// The characters that `char::to_uppercase` yields for `c`.
pub uninterp spec fn uppercase_of(c: char) -> Seq<char>;

/// `char::to_uppercase`, collected. The result is named by `uppercase_of`;
/// no more of it is stated.
#[verifier::external_body]
fn char_to_uppercase(c: char) -> (res: String)
    ensures
        res@ == uppercase_of(c),
{
    c.to_uppercase().collect()
}

/// `s` with its first character in upper case.
pub open spec fn spec_capitalize(s: Seq<char>) -> Seq<char> {
    if s.len() == 0 {
        seq![]
    } else {
        uppercase_of(s[0]) + s.drop_first()
    }
}

/// `s` with its first character in upper case.
pub fn capitalize(s: &str) -> (res: String)
    ensures
        res@ == spec_capitalize(s@),
{
    let chars = chars_of(s);
    if chars.len() == 0 {
        return String::new();
    }
    let up = char_to_uppercase(chars[0]);
    let mut v = chars_of(up.as_str());
    let mut k: usize = 1;
    while k < chars.len()
        invariant
            1 <= k <= chars@.len(),
            v@ == uppercase_of(chars@[0]) + chars@.subrange(1, k as int),
        decreases chars@.len() - k,
    {
        v.push(chars[k]);
        k += 1;
        assert(v@ =~= uppercase_of(chars@[0]) + chars@.subrange(1, k as int));
    }
    assert(chars@.subrange(1, chars@.len() as int) =~= chars@.drop_first());
    string_of(&v)
}

/// Function `f` uses the union `name`: its body mentions the name, or a
/// parameter's type does.
pub open spec fn mentions_union(f: FunctionModel, name: Seq<char>) -> bool {
    contains(f.body_code, name) || exists|i: int|
        0 <= i < f.parameters.len() && contains(#[trigger] f.parameters[i].c_type, name)
}

/// The first member of `vs` that `body` accesses (`.member` or `->member`).
pub open spec fn first_resolved(body: Seq<char>, vs: Seq<UnionVariantModel>) -> Option<Seq<char>>
    decreases vs.len(),
{
    if vs.len() == 0 {
        None
    } else if contains(body, "."@ + vs[0].field_name) || contains(body, "->"@ + vs[0].field_name) {
        Some(vs[0].field_name)
    } else {
        first_resolved(body, vs.drop_first())
    }
}

/// Transforms and unresolved cases.
pub ghost struct UnionState {
    pub transforms: Seq<UnionTransformModel>,
    pub unresolved: Seq<UnresolvedUnionModel>,
}

/// The transformation of `f` after looking at the union `u`: a union that
/// `f` uses becomes an enum `<Name>Enum` with the member `f` accesses, or,
/// when `f` accesses none, an unresolved case.
pub open spec fn union_step(st: UnionState, f: FunctionModel, u: UnionModel) -> UnionState {
    if mentions_union(f, u.name) {
        match first_resolved(f.body_code, u.variants) {
            Some(v) => UnionState {
                transforms: st.transforms.push(
                    UnionTransformModel {
                        union_name: u.name,
                        enum_name: spec_capitalize(u.name) + "Enum"@,
                        local_variant_resolved: Some(v),
                    },
                ),
                unresolved: st.unresolved,
            },
            None => UnionState {
                transforms: st.transforms,
                unresolved: st.unresolved.push(
                    UnresolvedUnionModel { union_name: u.name, function_name: f.name },
                ),
            },
        }
    } else {
        st
    }
}

/// The transformation of `f` after the unions `us`.
pub open spec fn union_fold(st: UnionState, f: FunctionModel, us: Seq<UnionModel>) -> UnionState
    decreases us.len(),
{
    if us.len() == 0 {
        st
    } else {
        union_step(union_fold(st, f, us.drop_last()), f, us.last())
    }
}

fn prefixed(head: &str, name: &String) -> (res: Vec<char>)
    ensures
        res@ == head@ + name@,
{
    let mut v = chars_of(head);
    let n = chars_of(name.as_str());
    push_all(&mut v, &n);
    v
}

fn mentions_union_exec(func: &FunctionAST, body: &Vec<char>, name: &Vec<char>) -> (res: bool)
    requires
        body@ == func.deep_view().body_code,
    ensures
        res == mentions_union(func.deep_view(), name@),
{
    if contains_chars(body, name) {
        return true;
    }
    let ghost ps = func.deep_view().parameters;
    let mut i: usize = 0;
    while i < func.parameters.len()
        invariant
            i <= ps.len(),
            ps == func.deep_view().parameters,
            forall|k: int| 0 <= k < i ==> !contains(#[trigger] ps[k].c_type, name@),
        decreases ps.len() - i,
    {
        let ct = chars_of(func.parameters[i].c_type.as_str());
        if contains_chars(&ct, name) {
            assert(contains(ps[i as int].c_type, name@));
            return true;
        }
        i += 1;
    }
    false
}

/// Resolves, for each union that `func` uses, the variant it accesses, or
/// records the union as unresolved for the interprocedural stage.
pub fn transform_unions_per_function(
    func: &FunctionAST,
    tu_ast: &TranslationUnitAST,
    model: &mut SemanticModel,
)
    ensures
        ({
            let old_v = old(model).deep_view();
            let st = union_fold(
                UnionState {
                    transforms: old_v.local_union_transforms,
                    unresolved: old_v.unresolved_union_cases,
                },
                func.deep_view(),
                tu_ast.deep_view().unions,
            );
            final(model).deep_view() == SemanticView {
                local_union_transforms: st.transforms,
                unresolved_union_cases: st.unresolved,
                ..old_v
            }
        }),
{
    let ghost old_v = model.deep_view();
    let ghost us = tu_ast.deep_view().unions;
    let ghost fv = func.deep_view();
    let body = chars_of(func.body_code.as_str());
    let mut i: usize = 0;
    assert(us.take(0) =~= Seq::<UnionModel>::empty());
    while i < tu_ast.unions.len()
        invariant
            i <= us.len(),
            us == tu_ast.deep_view().unions,
            fv == func.deep_view(),
            body@ == fv.body_code,
            ({
                let st = union_fold(
                    UnionState {
                        transforms: old_v.local_union_transforms,
                        unresolved: old_v.unresolved_union_cases,
                    },
                    fv,
                    us.take(i as int),
                );
                model.deep_view() == SemanticView {
                    local_union_transforms: st.transforms,
                    unresolved_union_cases: st.unresolved,
                    ..old_v
                }
            }),
        decreases us.len() - i,
    {
        assert(us.take(i + 1).drop_last() =~= us.take(i as int));
        let union_def = &tu_ast.unions[i];
        let name = chars_of(union_def.name.as_str());
        if mentions_union_exec(func, &body, &name) {
            let ghost vs = union_def.variants.deep_view();
            let mut resolved: Option<String> = None;
            let mut k: usize = 0;
            assert(vs.skip(0) =~= vs);
            while k < union_def.variants.len()
                invariant_except_break
                    resolved is None,
                invariant
                    k <= vs.len(),
                    vs == union_def.variants.deep_view(),
                    body@ == fv.body_code,
                    first_resolved(fv.body_code, vs) == first_resolved(
                        fv.body_code,
                        vs.skip(k as int),
                    ),
                ensures
                    match resolved {
                        Some(v) => first_resolved(fv.body_code, vs) == Some(v@),
                        None => first_resolved(fv.body_code, vs) is None,
                    },
                decreases vs.len() - k,
            {
                let field = &union_def.variants[k].field_name;
                let dot = prefixed(".", field);
                let arrow = prefixed("->", field);
                assert(vs.skip(k as int)[0] == vs[k as int]);
                if contains_chars(&body, &dot) || contains_chars(&body, &arrow) {
                    resolved = Some(field.clone());
                    break;
                }
                assert(vs.skip(k as int).drop_first() =~= vs.skip(k + 1));
                k += 1;
            }
            match resolved {
                Some(variant) => {
                    let mut enum_name = capitalize(union_def.name.as_str());
                    enum_name.append("Enum");
                    let t = UnionTransform {
                        union_name: union_def.name.clone(),
                        enum_name,
                        local_variant_resolved: Some(variant),
                    };
                    let ghost before = model.local_union_transforms.deep_view();
                    model.local_union_transforms.push(t);
                    assert(model.local_union_transforms.deep_view() =~= before.push(t.deep_view()));
                },
                None => {
                    let c = UnresolvedUnionCase {
                        union_name: union_def.name.clone(),
                        function_name: func.name.clone(),
                    };
                    let ghost before = model.unresolved_union_cases.deep_view();
                    model.unresolved_union_cases.push(c);
                    assert(model.unresolved_union_cases.deep_view() =~= before.push(c.deep_view()));
                },
            }
        }
        i += 1;
    }
    assert(us.take(us.len() as int) =~= us);
}

/// The union transformation only appends: the transforms and unresolved
/// cases already there stay first, each new transform turns a union of
/// `us` that `f` uses into an enum with a resolved variant, and each new
/// unresolved case is one of `f`'s.
pub proof fn lemma_union_fold_appends(st: UnionState, f: FunctionModel, us: Seq<UnionModel>)
    ensures
        union_fold(st, f, us).transforms.len() >= st.transforms.len(),
        union_fold(st, f, us).unresolved.len() >= st.unresolved.len(),
        union_fold(st, f, us).transforms.take(st.transforms.len() as int) == st.transforms,
        union_fold(st, f, us).unresolved.take(st.unresolved.len() as int) == st.unresolved,
        forall|k: int|
            st.transforms.len() <= k < union_fold(st, f, us).transforms.len() ==> {
                let t = #[trigger] union_fold(st, f, us).transforms[k];
                &&& t.local_variant_resolved is Some
                &&& mentions_union(f, t.union_name)
                &&& exists|i: int| 0 <= i < us.len() && (#[trigger] us[i]).name == t.union_name
            },
        forall|k: int|
            st.unresolved.len() <= k < union_fold(st, f, us).unresolved.len() ==> {
                let c = #[trigger] union_fold(st, f, us).unresolved[k];
                &&& c.function_name == f.name
                &&& mentions_union(f, c.union_name)
                &&& exists|i: int| 0 <= i < us.len() && (#[trigger] us[i]).name == c.union_name
            },
    decreases us.len(),
{
    if us.len() > 0 {
        let init = us.drop_last();
        lemma_union_fold_appends(st, f, init);
        let prev = union_fold(st, f, init);
        let res = union_fold(st, f, us);
        assert(res.transforms.take(prev.transforms.len() as int) =~= prev.transforms);
        assert(res.unresolved.take(prev.unresolved.len() as int) =~= prev.unresolved);
        assert(res.transforms.take(st.transforms.len() as int) =~= prev.transforms.take(
            st.transforms.len() as int,
        ));
        assert(res.unresolved.take(st.unresolved.len() as int) =~= prev.unresolved.take(
            st.unresolved.len() as int,
        ));
        assert forall|k: int| st.transforms.len() <= k < res.transforms.len() implies {
            let t = #[trigger] res.transforms[k];
            &&& t.local_variant_resolved is Some
            &&& mentions_union(f, t.union_name)
            &&& exists|i: int| 0 <= i < us.len() && (#[trigger] us[i]).name == t.union_name
        } by {
            if k < prev.transforms.len() {
                assert(res.transforms[k] == prev.transforms[k]);
                let i = choose|i: int| 0 <= i < init.len() && (#[trigger] init[i]).name == prev.transforms[k].union_name;
                assert(us[i] == init[i]);
            } else {
                assert(us[us.len() - 1] == us.last());
            }
        }
        assert forall|k: int| st.unresolved.len() <= k < res.unresolved.len() implies {
            let c = #[trigger] res.unresolved[k];
            &&& c.function_name == f.name
            &&& mentions_union(f, c.union_name)
            &&& exists|i: int| 0 <= i < us.len() && (#[trigger] us[i]).name == c.union_name
        } by {
            if k < prev.unresolved.len() {
                assert(res.unresolved[k] == prev.unresolved[k]);
                let i = choose|i: int| 0 <= i < init.len() && (#[trigger] init[i]).name == prev.unresolved[k].union_name;
                assert(us[i] == init[i]);
            } else {
                assert(us[us.len() - 1] == us.last());
            }
        }
    }
}

/// The values of the `Some` entries of `s`, in order.
pub open spec fn somes<T>(s: Seq<Option<T>>) -> Seq<T>
    decreases s.len(),
{
    if s.len() == 0 {
        seq![]
    } else {
        match s.last() {
            Some(x) => somes(s.drop_last()).push(x),
            None => somes(s.drop_last()),
        }
    }
}

/// The transform that `f` gives the union `u`: when `f` uses `u` and
/// accesses one of its members, the enum `<Name>Enum` with the first such
/// member.
pub open spec fn transform_of(f: FunctionModel, u: UnionModel) -> Option<UnionTransformModel> {
    if mentions_union(f, u.name) && first_resolved(f.body_code, u.variants) is Some {
        Some(
            UnionTransformModel {
                union_name: u.name,
                enum_name: spec_capitalize(u.name) + "Enum"@,
                local_variant_resolved: first_resolved(f.body_code, u.variants),
            },
        )
    } else {
        None
    }
}

/// The unresolved case that `f` gives the union `u`: when `f` uses `u` but
/// accesses none of its members.
pub open spec fn unresolved_of(f: FunctionModel, u: UnionModel) -> Option<UnresolvedUnionModel> {
    if mentions_union(f, u.name) && first_resolved(f.body_code, u.variants) is None {
        Some(UnresolvedUnionModel { union_name: u.name, function_name: f.name })
    } else {
        None
    }
}

/// The union pass appends, in the order of the unions, one transform for
/// each union that `f` uses and resolves, and one unresolved case for each
/// union that `f` uses without resolving it; what was there stays first.
/// (`transform_unions_per_function` leaves every other field of the model
/// as it was.)
pub proof fn lemma_union_fold_exact(st: UnionState, f: FunctionModel, us: Seq<UnionModel>)
    ensures
        union_fold(st, f, us).transforms == st.transforms + somes(
            us.map_values(|u: UnionModel| transform_of(f, u)),
        ),
        union_fold(st, f, us).unresolved == st.unresolved + somes(
            us.map_values(|u: UnionModel| unresolved_of(f, u)),
        ),
    decreases us.len(),
{
    let ts = us.map_values(|u: UnionModel| transform_of(f, u));
    let cs = us.map_values(|u: UnionModel| unresolved_of(f, u));
    if us.len() == 0 {
        assert(st.transforms + somes(ts) =~= st.transforms);
        assert(st.unresolved + somes(cs) =~= st.unresolved);
    } else {
        let init = us.drop_last();
        lemma_union_fold_exact(st, f, init);
        assert(ts.drop_last() =~= init.map_values(|u: UnionModel| transform_of(f, u)));
        assert(cs.drop_last() =~= init.map_values(|u: UnionModel| unresolved_of(f, u)));
        assert(ts.last() == transform_of(f, us.last()));
        assert(cs.last() == unresolved_of(f, us.last()));
        let prev = union_fold(st, f, init);
        assert(prev.transforms.push(
            UnionTransformModel {
                union_name: us.last().name,
                enum_name: spec_capitalize(us.last().name) + "Enum"@,
                local_variant_resolved: first_resolved(f.body_code, us.last().variants),
            },
        ) =~= st.transforms + somes(init.map_values(|u: UnionModel| transform_of(f, u))).push(
            UnionTransformModel {
                union_name: us.last().name,
                enum_name: spec_capitalize(us.last().name) + "Enum"@,
                local_variant_resolved: first_resolved(f.body_code, us.last().variants),
            },
        ));
        assert(prev.unresolved.push(
            UnresolvedUnionModel { union_name: us.last().name, function_name: f.name },
        ) =~= st.unresolved + somes(init.map_values(|u: UnionModel| unresolved_of(f, u))).push(
            UnresolvedUnionModel { union_name: us.last().name, function_name: f.name },
        ));
    }
}

/// The member that a body resolves among `vs` is the first member it
/// accesses, with `.member` or `->member`; it resolves none when it
/// accesses none.
pub proof fn lemma_first_member(body: Seq<char>, vs: Seq<UnionVariantModel>, j: int)
    ensures
        0 <= j < vs.len() && (contains(body, "."@ + vs[j].field_name) || contains(
            body,
            "->"@ + vs[j].field_name,
        )) && (forall|l: int|
            0 <= l < j ==> !(contains(body, "."@ + (#[trigger] vs[l]).field_name) || contains(
                body,
                "->"@ + vs[l].field_name,
            ))) ==> first_resolved(body, vs) == Some(vs[j].field_name),
        (forall|l: int|
            0 <= l < vs.len() ==> !(contains(body, "."@ + (#[trigger] vs[l]).field_name) || contains(
                body,
                "->"@ + vs[l].field_name,
            ))) ==> first_resolved(body, vs) is None,
    decreases vs.len(),
{
    if vs.len() > 0 {
        let rest = vs.drop_first();
        lemma_first_member(body, rest, j - 1);
        assert forall|l: int| 0 <= l < rest.len() implies rest[l] == vs[l + 1] by {}
        if j > 0 && j < vs.len() {
            assert(rest[j - 1] == vs[j]);
            assert(vs[0] == vs[0]);
        }
    }
}

/// A function that uses the union `u` (its body or a parameter's type
/// names it) and accesses one of its members, with `.` or `->`, gets a
/// transform of `u` into the enum `<Name>Enum` resolving the first member
/// it accesses, and no unresolved case; one that uses `u` but accesses no
/// member gets the unresolved case of `u` and no transform; one that does
/// not use `u` gets neither.
pub proof fn lemma_union_outcome(f: FunctionModel, u: UnionModel, j: int)
    ensures
        ({
            let body = f.body_code;
            let vs = u.variants;
            let uses = contains(body, u.name) || exists|i: int|
                0 <= i < f.parameters.len() && contains(#[trigger] f.parameters[i].c_type, u.name);
            let first = 0 <= j < vs.len() && (contains(body, "."@ + vs[j].field_name) || contains(
                body,
                "->"@ + vs[j].field_name,
            )) && (forall|l: int|
                0 <= l < j ==> !(contains(body, "."@ + (#[trigger] vs[l]).field_name) || contains(
                    body,
                    "->"@ + vs[l].field_name,
                )));
            let none = forall|l: int|
                0 <= l < vs.len() ==> !(contains(body, "."@ + (#[trigger] vs[l]).field_name)
                    || contains(body, "->"@ + vs[l].field_name));
            &&& uses && first ==> transform_of(f, u) == Some(
                UnionTransformModel {
                    union_name: u.name,
                    enum_name: spec_capitalize(u.name) + "Enum"@,
                    local_variant_resolved: Some(vs[j].field_name),
                },
            ) && unresolved_of(f, u) is None
            &&& uses && none ==> transform_of(f, u) is None && unresolved_of(f, u) == Some(
                UnresolvedUnionModel { union_name: u.name, function_name: f.name },
            )
            &&& !uses ==> transform_of(f, u) is None && unresolved_of(f, u) is None
        }),
{
    lemma_first_member(f.body_code, u.variants, j);
}

} // verus!
