//! Interprocedural alias analysis over call-site arguments: the same
//! variable passed twice (aliased `&mut` parameters) and pointer-arithmetic
//! slices of one buffer (overlapping slices).
use vstd::prelude::*;

use crate::data_stores::interprocedural_summaries::{AliasModel, AliasingVerdict};
use crate::module2_ast::ast_parser::{CallSiteModel, FunctionModel, TranslationUnitAST};
use crate::name_map::{assoc_get, assoc_insert, lemma_assoc_insert_get, NameMap};
use crate::text::{
    chars_of, copy_range, decimal, decimal_exec, find, find_chars, lemma_find_from, one_char,
    matches_at, push_all, seq_eq, string_of, trim, trim_chars, trim_start_set,
    trim_start_set_exec,
};

verus! {

broadcast use vstd::string::group_string_axioms;

/// An argument without leading `&`, then without leading `*`, trimmed.
pub open spec fn spec_clean_arg(arg: Seq<char>) -> Seq<char> {
    trim(trim_start_set(trim_start_set(arg, seq!['&']), seq!['*']))
}

/// An argument without leading `&`, then without leading `*`, trimmed.
pub fn clean_arg(arg: &[char]) -> (res: Vec<char>)
    ensures
        res@ == spec_clean_arg(arg@),
{
    let amp = one_char('&');
    let star = one_char('*');
    let a = trim_start_set_exec(arg, &amp);
    let b = trim_start_set_exec(&a, &star);
    trim_chars(&b)
}

/// The base of a pointer-arithmetic argument: the trimmed text before its
/// first `+`, else before its first `-`, else nothing.
pub open spec fn spec_pointer_base(arg: Seq<char>) -> Seq<char> {
    match find(arg, seq!['+']) {
        Some(k) => trim(arg.subrange(0, k)),
        None => match find(arg, seq!['-']) {
            Some(k) => trim(arg.subrange(0, k)),
            None => seq![],
        },
    }
}

/// The base of a pointer-arithmetic argument.
pub fn get_pointer_base(arg: &[char]) -> (res: Vec<char>)
    ensures
        res@ == spec_pointer_base(arg@),
{
    let plus = one_char('+');
    let minus = one_char('-');
    proof {
        lemma_find_from(arg@, seq!['+'], 0);
        lemma_find_from(arg@, seq!['-'], 0);
    }
    match find_chars(arg, &plus) {
        Some(k) => {
            let head = copy_range(arg, 0, k);
            trim_chars(&head)
        },
        None => match find_chars(arg, &minus) {
            Some(k) => {
                let head = copy_range(arg, 0, k);
                trim_chars(&head)
            },
            None => Vec::new(),
        },
    }
}

/// Two cleaned arguments may alias: they are the same text, or offsets
/// from the same non-empty base.
pub open spec fn spec_args_alias(a1: Seq<char>, a2: Seq<char>) -> bool {
    a1 == a2 || (spec_pointer_base(a1) == spec_pointer_base(a2) && spec_pointer_base(a1).len() > 0)
}

/// Whether two cleaned arguments may alias.
pub fn check_if_args_alias(arg1: &[char], arg2: &[char]) -> (res: bool)
    ensures
        res == spec_args_alias(arg1@, arg2@),
{
    if seq_eq(arg1, arg2) {
        return true;
    }
    let base1 = get_pointer_base(arg1);
    let base2 = get_pointer_base(arg2);
    seq_eq(&base1, &base2) && base1.len() != 0
}

/// The verdict on arguments `a` and `b`.
pub open spec fn verdict_of(a: Seq<char>, b: Seq<char>) -> AliasModel {
    AliasModel {
        arg1: a,
        arg2: b,
        aliases: spec_args_alias(spec_clean_arg(a), spec_clean_arg(b)),
    }
}

/// The verdicts on argument `i` paired with each later argument.
pub open spec fn verdict_row(args: Seq<Seq<char>>, i: int) -> Seq<AliasModel> {
    Seq::new((args.len() - i - 1) as nat, |k: int| verdict_of(args[i], args[i + 1 + k]))
}

/// The verdicts on every pair `(i, j)` with `i < j` and `i < m`, ordered by
/// `i`, then by `j`.
pub open spec fn pair_verdicts(args: Seq<Seq<char>>, m: int) -> Seq<AliasModel>
    decreases m,
{
    if m <= 0 {
        seq![]
    } else {
        pair_verdicts(args, m - 1) + verdict_row(args, m - 1)
    }
}

/// The key of a call: `caller:callee:line`.
pub open spec fn call_key(caller: Seq<char>, c: CallSiteModel) -> Seq<char> {
    caller + ":"@ + c.callee + ":"@ + decimal(c.line as nat)
}

/// The verdicts of the calls `cs` of `caller`, added to `m`.
pub open spec fn calls_fold(
    m: Seq<(Seq<char>, Seq<AliasModel>)>,
    caller: Seq<char>,
    cs: Seq<CallSiteModel>,
) -> Seq<(Seq<char>, Seq<AliasModel>)>
    decreases cs.len(),
{
    if cs.len() == 0 {
        m
    } else {
        let c = cs.last();
        assoc_insert(
            calls_fold(m, caller, cs.drop_last()),
            call_key(caller, c),
            pair_verdicts(c.arguments, c.arguments.len() as int),
        )
    }
}

/// The verdicts of every call of the functions `fs`, keyed by call.
pub open spec fn alias_fold(fs: Seq<FunctionModel>) -> Seq<(Seq<char>, Seq<AliasModel>)>
    decreases fs.len(),
{
    if fs.len() == 0 {
        seq![]
    } else {
        calls_fold(alias_fold(fs.drop_last()), fs.last().name, fs.last().call_sites)
    }
}

fn key_of(caller: &String, callee: &String, line: usize) -> (res: String)
    ensures
        res@ == caller@ + ":"@ + callee@ + ":"@ + decimal(line as nat),
{
    let mut v = chars_of(caller.as_str());
    let colon = chars_of(":");
    push_all(&mut v, &colon);
    let c = chars_of(callee.as_str());
    push_all(&mut v, &c);
    push_all(&mut v, &colon);
    let d = decimal_exec(line);
    push_all(&mut v, &d);
    string_of(&v)
}

fn verdicts_of_call(args: &Vec<String>) -> (res: Vec<AliasingVerdict>)
    ensures
        res.deep_view() == pair_verdicts(args.deep_view(), args@.len() as int),
{
    let ghost a = args.deep_view();
    let n = args.len();
    let mut res: Vec<AliasingVerdict> = Vec::new();
    let mut i: usize = 0;
    assert(res.deep_view() =~= pair_verdicts(a, 0));
    while i < n
        invariant
            i <= n == a.len(),
            a == args.deep_view(),
            res.deep_view() == pair_verdicts(a, i as int),
        decreases n - i,
    {
        let ghost base = res.deep_view();
        let mut j: usize = i + 1;
        assert(verdict_row(a, i as int).take(0) =~= Seq::<AliasModel>::empty());
        assert(res.deep_view() =~= base + verdict_row(a, i as int).take(0));
        while j < n
            invariant
                i < j <= n == a.len(),
                a == args.deep_view(),
                res.deep_view() == base + verdict_row(a, i as int).take(j - i - 1),
            decreases n - j,
        {
            let a1 = chars_of(args[i].as_str());
            let a2 = chars_of(args[j].as_str());
            let c1 = clean_arg(&a1);
            let c2 = clean_arg(&a2);
            let aliases = check_if_args_alias(&c1, &c2);
            let v = AliasingVerdict { arg1: args[i].clone(), arg2: args[j].clone(), aliases };
            let ghost before = res.deep_view();
            res.push(v);
            assert(res.deep_view() =~= before.push(v.deep_view()));
            assert(verdict_row(a, i as int).take(j - i) =~= verdict_row(a, i as int).take(
                j - i - 1,
            ).push(verdict_of(a[i as int], a[j as int])));
            j += 1;
        }
        assert(verdict_row(a, i as int).take(n - i - 1) =~= verdict_row(a, i as int));
        i += 1;
    }
    res
}

/// Evaluates every pair of arguments at every call site: the verdicts,
/// keyed by `caller:callee:line`.
pub fn analyze_interprocedural_aliasing(tu_ast: &TranslationUnitAST) -> (res: NameMap<
    Vec<AliasingVerdict>,
>)
    ensures
        res@ == alias_fold(tu_ast.deep_view().functions),
{
    let mut verdicts: NameMap<Vec<AliasingVerdict>> = NameMap::new();
    let ghost fs = tu_ast.deep_view().functions;
    let mut f: usize = 0;
    assert(fs.take(0) =~= Seq::<FunctionModel>::empty());
    while f < tu_ast.functions.len()
        invariant
            f <= fs.len(),
            fs == tu_ast.deep_view().functions,
            verdicts@ == alias_fold(fs.take(f as int)),
        decreases fs.len() - f,
    {
        assert(fs.take(f + 1).drop_last() =~= fs.take(f as int));
        let func = &tu_ast.functions[f];
        let ghost cs = func.deep_view().call_sites;
        let ghost m0 = verdicts@;
        let mut c: usize = 0;
        assert(cs.take(0) =~= Seq::<CallSiteModel>::empty());
        while c < func.call_sites.len()
            invariant
                c <= cs.len(),
                cs == func.deep_view().call_sites,
                verdicts@ == calls_fold(m0, func.deep_view().name, cs.take(c as int)),
            decreases cs.len() - c,
        {
            assert(cs.take(c + 1).drop_last() =~= cs.take(c as int));
            let call = &func.call_sites[c];
            let call_verdicts = verdicts_of_call(&call.arguments);
            let key = key_of(&func.name, &call.callee, call.line);
            verdicts.insert(key, call_verdicts);
            c += 1;
        }
        assert(cs.take(cs.len() as int) =~= cs);
        f += 1;
    }
    assert(fs.take(fs.len() as int) =~= fs);
    verdicts
}

/// The aliasing relation is reflexive and symmetric: an argument aliases
/// itself, and `a` aliases `b` exactly when `b` aliases `a`.
pub proof fn lemma_alias_reflexive_symmetric(a: Seq<char>, b: Seq<char>)
    ensures
        spec_args_alias(a, a),
        spec_args_alias(a, b) == spec_args_alias(b, a),
        verdict_of(a, b).aliases == verdict_of(b, a).aliases,
{
}

/// A call with `n` arguments has one verdict for each of its
/// `n * (n - 1) / 2` pairs of arguments.
pub proof fn lemma_pair_verdicts_count(args: Seq<Seq<char>>)
    ensures
        2 * pair_verdicts(args, args.len() as int).len() == args.len() * (args.len() - 1),
{
    lemma_pair_verdicts_len(args, args.len() as int);
}

proof fn lemma_pair_verdicts_len(args: Seq<Seq<char>>, m: int)
    requires
        0 <= m <= args.len(),
    ensures
        2 * pair_verdicts(args, m).len() == m * (2 * args.len() - m - 1),
    decreases m,
{
    if m > 0 {
        lemma_pair_verdicts_len(args, m - 1);
        let n = args.len() as int;
        assert(verdict_row(args, m - 1).len() == n - m);
        assert(pair_verdicts(args, m).len() == pair_verdicts(args, m - 1).len() + (n - m));
        let p0 = pair_verdicts(args, m - 1).len() as int;
        let p1 = pair_verdicts(args, m).len() as int;
        assert(2 * p1 == m * (2 * n - m - 1)) by (nonlinear_arith)
            requires
                2 * p0 == (m - 1) * (2 * n - (m - 1) - 1),
                p1 == p0 + (n - m),
        ;
    } else {
        assert(m * (2 * args.len() - m - 1) == 0) by (nonlinear_arith)
            requires
                m == 0,
        ;
    }
}

proof fn lemma_pair_verdicts_prefix(args: Seq<Seq<char>>, m1: int, m2: int)
    requires
        0 <= m1 <= m2 <= args.len(),
    ensures
        pair_verdicts(args, m1).len() <= pair_verdicts(args, m2).len(),
        pair_verdicts(args, m2).take(pair_verdicts(args, m1).len() as int) == pair_verdicts(
            args,
            m1,
        ),
    decreases m2 - m1,
{
    if m1 < m2 {
        lemma_pair_verdicts_prefix(args, m1, m2 - 1);
        let a = pair_verdicts(args, m2 - 1);
        let b = pair_verdicts(args, m1);
        assert(pair_verdicts(args, m2).take(b.len() as int) =~= a.take(b.len() as int));
    } else {
        assert(pair_verdicts(args, m2).take(pair_verdicts(args, m1).len() as int) =~= pair_verdicts(
            args,
            m1,
        ));
    }
}

/// The verdicts of a call list its argument pairs in order: those of the
/// first argument with each later one, then those of the second, and so
/// on; the pair `(i, j)` sits right after the rows of the arguments before
/// `i`.
pub proof fn lemma_pair_verdicts_order(args: Seq<Seq<char>>, i: int, j: int)
    requires
        0 <= i < j < args.len(),
    ensures
        pair_verdicts(args, args.len() as int)[pair_verdicts(args, i).len() + (j - i - 1)]
            == verdict_of(args[i], args[j]),
{
    let n = args.len() as int;
    lemma_pair_verdicts_prefix(args, i + 1, n);
    let p = pair_verdicts(args, i);
    let q = pair_verdicts(args, i + 1);
    assert(q == p + verdict_row(args, i));
    let idx = p.len() + (j - i - 1);
    assert(q[idx] == verdict_row(args, i)[j - i - 1]);
    assert(pair_verdicts(args, n).take(q.len() as int)[idx] == pair_verdicts(args, n)[idx]);
}

/// The aliasing map has an entry exactly for the keys `caller:callee:line`
/// of the calls made in the unit, and each entry holds the verdicts of a
/// call with that key (the last one, where two calls share a key).
pub proof fn lemma_alias_entries(fs: Seq<FunctionModel>, k: Seq<char>)
    ensures
        assoc_get(alias_fold(fs), k) is Some <==> exists|i: int, c: int|
            0 <= i < fs.len() && 0 <= c < fs[i].call_sites.len() && call_key(
                fs[i].name,
                #[trigger] fs[i].call_sites[c],
            ) == k,
        assoc_get(alias_fold(fs), k) matches Some(vs) ==> exists|i: int, c: int|
            0 <= i < fs.len() && 0 <= c < fs[i].call_sites.len() && call_key(
                fs[i].name,
                #[trigger] fs[i].call_sites[c],
            ) == k && vs == pair_verdicts(
                fs[i].call_sites[c].arguments,
                fs[i].call_sites[c].arguments.len() as int,
            ),
    decreases fs.len(),
{
    if fs.len() > 0 {
        let init = fs.drop_last();
        let f = fs.last();
        lemma_alias_entries(init, k);
        lemma_calls_entries(alias_fold(init), f.name, f.call_sites, k);
        let prev = alias_fold(init);
        let res = alias_fold(fs);
        if exists|i: int, c: int|
            0 <= i < fs.len() && 0 <= c < fs[i].call_sites.len() && call_key(
                fs[i].name,
                #[trigger] fs[i].call_sites[c],
            ) == k {
            let (i, c) = choose|i: int, c: int|
                0 <= i < fs.len() && 0 <= c < fs[i].call_sites.len() && call_key(
                    fs[i].name,
                    #[trigger] fs[i].call_sites[c],
                ) == k;
            if i < fs.len() - 1 {
                assert(init[i] == fs[i]);
                assert(call_key(init[i].name, init[i].call_sites[c]) == k);
            } else {
                assert(f.call_sites[c] == fs[i].call_sites[c]);
            }
        }
        if exists|i: int, c: int|
            0 <= i < init.len() && 0 <= c < init[i].call_sites.len() && call_key(
                init[i].name,
                #[trigger] init[i].call_sites[c],
            ) == k {
            let (i, c) = choose|i: int, c: int|
                0 <= i < init.len() && 0 <= c < init[i].call_sites.len() && call_key(
                    init[i].name,
                    #[trigger] init[i].call_sites[c],
                ) == k;
            assert(fs[i] == init[i]);
            assert(call_key(fs[i].name, fs[i].call_sites[c]) == k);
        }
        if let Some(vs) = assoc_get(res, k) {
            if assoc_get(prev, k) == Some(vs) && !(exists|c: int|
                0 <= c < f.call_sites.len() && call_key(f.name, #[trigger] f.call_sites[c]) == k
                    && vs == pair_verdicts(
                    f.call_sites[c].arguments,
                    f.call_sites[c].arguments.len() as int,
                )) {
                let (i, c) = choose|i: int, c: int|
                    0 <= i < init.len() && 0 <= c < init[i].call_sites.len() && call_key(
                        init[i].name,
                        #[trigger] init[i].call_sites[c],
                    ) == k && vs == pair_verdicts(
                        init[i].call_sites[c].arguments,
                        init[i].call_sites[c].arguments.len() as int,
                    );
                assert(fs[i] == init[i]);
                assert(call_key(fs[i].name, fs[i].call_sites[c]) == k);
            } else if exists|c: int|
                0 <= c < f.call_sites.len() && call_key(f.name, #[trigger] f.call_sites[c]) == k
                    && vs == pair_verdicts(
                    f.call_sites[c].arguments,
                    f.call_sites[c].arguments.len() as int,
                ) {
                let c = choose|c: int|
                    0 <= c < f.call_sites.len() && call_key(f.name, #[trigger] f.call_sites[c]) == k
                        && vs == pair_verdicts(
                        f.call_sites[c].arguments,
                        f.call_sites[c].arguments.len() as int,
                    );
                assert(fs[fs.len() - 1] == f);
                assert(call_key(fs[fs.len() - 1].name, fs[fs.len() - 1].call_sites[c]) == k);
            }
        }
    }
}

proof fn lemma_calls_entries(
    m: Seq<(Seq<char>, Seq<AliasModel>)>,
    caller: Seq<char>,
    cs: Seq<CallSiteModel>,
    k: Seq<char>,
)
    ensures
        assoc_get(calls_fold(m, caller, cs), k) is Some <==> (assoc_get(m, k) is Some
            || exists|c: int| 0 <= c < cs.len() && call_key(caller, #[trigger] cs[c]) == k),
        assoc_get(calls_fold(m, caller, cs), k) matches Some(vs) ==> (assoc_get(m, k) == Some(vs)
            || exists|c: int|
            0 <= c < cs.len() && call_key(caller, #[trigger] cs[c]) == k && vs == pair_verdicts(
                cs[c].arguments,
                cs[c].arguments.len() as int,
            )),
    decreases cs.len(),
{
    if cs.len() > 0 {
        let init = cs.drop_last();
        let c = cs.last();
        lemma_calls_entries(m, caller, init, k);
        lemma_assoc_insert_get(
            calls_fold(m, caller, init),
            call_key(caller, c),
            pair_verdicts(c.arguments, c.arguments.len() as int),
            k,
        );
        if exists|x: int| 0 <= x < cs.len() && call_key(caller, #[trigger] cs[x]) == k {
            let x = choose|x: int| 0 <= x < cs.len() && call_key(caller, #[trigger] cs[x]) == k;
            if x < cs.len() - 1 {
                assert(init[x] == cs[x]);
            }
        }
        if exists|x: int| 0 <= x < init.len() && call_key(caller, #[trigger] init[x]) == k {
            let x = choose|x: int| 0 <= x < init.len() && call_key(caller, #[trigger] init[x]) == k;
            assert(cs[x] == init[x]);
        }
        if let Some(vs) = assoc_get(calls_fold(m, caller, cs), k) {
            if call_key(caller, c) == k {
                assert(cs[cs.len() - 1] == c);
            } else if assoc_get(m, k) != Some(vs) {
                let x = choose|x: int|
                    0 <= x < init.len() && call_key(caller, #[trigger] init[x]) == k && vs
                        == pair_verdicts(init[x].arguments, init[x].arguments.len() as int);
                assert(cs[x] == init[x]);
            }
        }
    }
}

/// `vs` lists the verdicts on every pair `(p, q)`, `p < q`, of the
/// arguments `a`, ordered by `p` and then by `q`: `n * (n - 1) / 2` of them.
pub open spec fn ordered_pair_verdicts(vs: Seq<AliasModel>, a: Seq<Seq<char>>) -> bool {
    &&& 2 * vs.len() == a.len() * (a.len() - 1)
    &&& forall|p: int, q: int|
        0 <= p < q < a.len() ==> vs[pair_verdicts(a, p).len() + (q - p - 1)] == verdict_of(
            #[trigger] a[p],
            #[trigger] a[q],
        )
}

/// The aliasing analysis has an entry exactly for the keys
/// `caller:callee:line` of the calls of the unit, and each entry lists, in
/// order, the verdicts on all argument pairs of a call with that key.
pub proof fn lemma_aliasing_law(fs: Seq<FunctionModel>, k: Seq<char>)
    ensures
        assoc_get(alias_fold(fs), k) is Some <==> exists|i: int, c: int|
            0 <= i < fs.len() && 0 <= c < fs[i].call_sites.len() && call_key(
                fs[i].name,
                #[trigger] fs[i].call_sites[c],
            ) == k,
        assoc_get(alias_fold(fs), k) matches Some(vs) ==> exists|i: int, c: int|
            0 <= i < fs.len() && 0 <= c < fs[i].call_sites.len() && call_key(
                fs[i].name,
                #[trigger] fs[i].call_sites[c],
            ) == k && ordered_pair_verdicts(vs, fs[i].call_sites[c].arguments),
{
    lemma_alias_entries(fs, k);
    if let Some(vs) = assoc_get(alias_fold(fs), k) {
        let (i, c) = choose|i: int, c: int|
            0 <= i < fs.len() && 0 <= c < fs[i].call_sites.len() && call_key(
                fs[i].name,
                #[trigger] fs[i].call_sites[c],
            ) == k && vs == pair_verdicts(
                fs[i].call_sites[c].arguments,
                fs[i].call_sites[c].arguments.len() as int,
            );
        let a = fs[i].call_sites[c].arguments;
        lemma_pair_verdicts_count(a);
        assert forall|p: int, q: int| 0 <= p < q < a.len() implies vs[pair_verdicts(a, p).len() + (q
            - p - 1)] == verdict_of(#[trigger] a[p], #[trigger] a[q]) by {
            lemma_pair_verdicts_order(a, p, q);
        }
        assert(ordered_pair_verdicts(vs, a));
    }
}

proof fn lemma_first_char_at(s: Seq<char>, c: char, n: int)
    requires
        0 <= n < s.len(),
        s[n] == c,
        forall|q: int| 0 <= q < n ==> s[q] != c,
    ensures
        find(s, seq![c]) == Some(n),
{
    lemma_find_from(s, seq![c], 0);
    assert(s.subrange(n, n + 1) =~= seq![c]);
    assert(matches_at(s, seq![c], n));
    if let Some(k) = find(s, seq![c]) {
        assert(s.subrange(k, k + 1)[0] == s[k]);
    }
}

proof fn lemma_no_char(s: Seq<char>, c: char)
    requires
        !s.contains(c),
    ensures
        find(s, seq![c]) is None,
{
    lemma_find_from(s, seq![c], 0);
    if let Some(k) = find(s, seq![c]) {
        assert(s.subrange(k, k + 1)[0] == s[k]);
        assert(s[k] == c);
    }
}

/// The base of an offset `b + x` or `b - x` from a base `b` that holds no
/// `+` or `-` (and, for `-`, with no `+` in the offset) is `b`, trimmed; an
/// argument with neither `+` nor `-` has no base.
pub proof fn lemma_pointer_base_of_offset(b: Seq<char>, op: char, x: Seq<char>)
    requires
        op == '+' || op == '-',
        !b.contains('+'),
        !b.contains('-'),
        op == '-' ==> !x.contains('+'),
    ensures
        spec_pointer_base(b + seq![op] + x) == trim(b),
        !x.contains('+') && !x.contains('-') ==> spec_pointer_base(x) == Seq::<char>::empty(),
{
    let s = b + seq![op] + x;
    let n = b.len() as int;
    assert(s[n] == op);
    assert forall|q: int| 0 <= q < n implies s[q] != op by {
        assert(s[q] == b[q]);
    }
    assert(s.subrange(0, n) =~= b);
    if op == '+' {
        lemma_first_char_at(s, '+', n);
    } else {
        assert(!s.contains('+')) by {
            if s.contains('+') {
                let q = choose|q: int| 0 <= q < s.len() && s[q] == '+';
                if q < n {
                    assert(s[q] == b[q]);
                } else if q > n {
                    assert(s[q] == x[q - n - 1]);
                }
            }
        }
        lemma_no_char(s, '+');
        lemma_first_char_at(s, '-', n);
    }
    if !x.contains('+') && !x.contains('-') {
        lemma_no_char(x, '+');
        lemma_no_char(x, '-');
    }
}

/// Two offsets from the same non-empty base (`b + x`, `b - y`, in any
/// combination, with `b` free of `+` and `-`, and no `+` after a `-`) may
/// alias; two different arguments with no offset do not.
pub proof fn lemma_offsets_alias(
    b: Seq<char>,
    op1: char,
    x: Seq<char>,
    op2: char,
    y: Seq<char>,
)
    requires
        op1 == '+' || op1 == '-',
        op2 == '+' || op2 == '-',
        !b.contains('+'),
        !b.contains('-'),
        op1 == '-' ==> !x.contains('+'),
        op2 == '-' ==> !y.contains('+'),
    ensures
        trim(b).len() > 0 ==> spec_args_alias(b + seq![op1] + x, b + seq![op2] + y),
        x != y && !x.contains('+') && !x.contains('-') && !y.contains('+') && !y.contains('-')
            ==> !spec_args_alias(x, y),
{
    lemma_pointer_base_of_offset(b, op1, x);
    lemma_pointer_base_of_offset(b, op2, y);
}

/// Cleaning an argument drops a leading `&` or `*` and surrounding
/// whitespace: `&x`, `*x` and `x` (with `x` starting with neither) clean to
/// `x` trimmed, so the verdict on `&x` and `x` is that they alias.
pub proof fn lemma_clean_drops_address(x: Seq<char>)
    requires
        x.len() == 0 || (x[0] != '&' && x[0] != '*'),
    ensures
        spec_clean_arg(x) == trim(x),
        spec_clean_arg(seq!['&'] + x) == trim(x),
        spec_clean_arg(seq!['*'] + x) == trim(x),
        verdict_of(seq!['&'] + x, x).aliases,
{
    let a = seq!['&'] + x;
    let b = seq!['*'] + x;
    assert(a.drop_first() =~= x);
    assert(b.drop_first() =~= x);
    assert(!seq!['&'].contains('*'));
    assert(seq!['&'][0] == '&');
    assert(seq!['&'].contains('&'));
    assert(seq!['*'][0] == '*');
    assert(seq!['*'].contains('*'));
    if x.len() > 0 {
        assert(!seq!['&'].contains(x[0]));
        assert(!seq!['*'].contains(x[0]));
    }
    assert(a[0] == '&');
    assert(b[0] == '*');
    assert(trim_start_set(x, seq!['&']) == x);
    assert(trim_start_set(x, seq!['*']) == x);
    assert(trim_start_set(a, seq!['&']) == trim_start_set(a.drop_first(), seq!['&']));
    assert(trim_start_set(a, seq!['&']) == x);
    assert(trim_start_set(b, seq!['&']) == b);
    assert(trim_start_set(b, seq!['*']) == trim_start_set(b.drop_first(), seq!['*']));
    assert(trim_start_set(b, seq!['*']) == x);
}

} // verus!
