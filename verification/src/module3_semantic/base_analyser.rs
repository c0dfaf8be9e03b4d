//! Base semantic analysis: symbol table, def-use chains and memory-access
//! patterns of one function.
use vstd::prelude::*;

use crate::data_stores::semantic_models::{
    empty_semantic_view, MemoryPattern, SemanticModel, SemanticView, UsePoint,
};
use crate::module2_ast::ast_parser::{FunctionAST, FunctionModel, ParameterModel};
use crate::name_map::{
    assoc_find, assoc_get, assoc_insert, assoc_keys, assoc_keys_distinct, lemma_assoc_find_from,
    lemma_assoc_insert_distinct, lemma_assoc_insert_get, NameMap,
};
use crate::text::{
    chars_of, concat, contains, contains_chars, find, find_chars, has_char, join, lemma_find_from,
    lines, lines_of, matches_at, one_char, push_all, repeat_char, repeat_char_exec, seqs_of, split,
    split_chars, starts_with, str_starts_with, string_of, trim, trim_chars, trim_set, trim_set_exec,
    words, words_of,
};

verus! {

broadcast use vstd::string::group_string_axioms;

/// The type recorded for a parameter: its base type and one `*` per level.
pub open spec fn param_type_text(p: ParameterModel) -> Seq<char> {
    p.c_type + repeat_char('*', p.pointer_depth as nat)
}

/// The symbol table made of the parameters `ps`.
pub open spec fn params_symbols(ps: Seq<ParameterModel>) -> Seq<(Seq<char>, Seq<char>)>
    decreases ps.len(),
{
    if ps.len() == 0 {
        seq![]
    } else {
        assoc_insert(params_symbols(ps.drop_last()), ps.last().name, param_type_text(ps.last()))
    }
}

/// A (trimmed) line that declares a local variable with an initializer.
pub open spec fn is_decl_line(t: Seq<char>) -> bool {
    (starts_with(t, "int "@) || starts_with(t, "char "@) || starts_with(t, "float "@)
        || starts_with(t, "double "@) || starts_with(t, "void "@)) && t.contains('=')
}

/// The symbol table after the (trimmed) line `t`: a declaration
/// `type ... name = ...` records `name` (without `*`) with the words before it.
pub open spec fn decl_step(symtab: Seq<(Seq<char>, Seq<char>)>, t: Seq<char>) -> Seq<
    (Seq<char>, Seq<char>),
> {
    if is_decl_line(t) {
        let parts = words(trim(split(t, '=')[0]));
        if parts.len() >= 2 {
            assoc_insert(symtab, trim_set(parts.last(), seq!['*']), join(parts.drop_last(), " "@))
        } else {
            symtab
        }
    } else {
        symtab
    }
}

/// Def-use chains and memory patterns.
pub ghost struct UseState {
    pub defuse: Seq<(Seq<char>, Seq<UsePoint>)>,
    pub mem: Seq<(Seq<char>, MemoryPattern)>,
}

/// `m` with `k` bound to `v` unless `k` already has an entry.
pub open spec fn assoc_or_insert<T>(m: Seq<(Seq<char>, T)>, k: Seq<char>, v: T) -> Seq<
    (Seq<char>, T),
> {
    if assoc_find(m, k) is Some {
        m
    } else {
        assoc_insert(m, k, v)
    }
}

/// The memory pattern of `var` after the (trimmed) line `t` that mentions
/// it: a `free` of it, an allocation, a write through it, or a read.
pub open spec fn pattern_step(mem: Seq<(Seq<char>, MemoryPattern)>, t: Seq<char>, var: Seq<char>) -> Seq<
    (Seq<char>, MemoryPattern),
> {
    if contains(t, "free("@ + var + ")"@) || contains(t, "free(*"@ + var + ")"@) {
        assoc_insert(mem, var, MemoryPattern::Free)
    } else if contains(t, "malloc("@) && contains(t, var) {
        assoc_insert(mem, var, MemoryPattern::Allocate)
    } else if contains(t, "*"@ + var) && t.contains('=') {
        assoc_or_insert(mem, var, MemoryPattern::Write)
    } else {
        assoc_or_insert(mem, var, MemoryPattern::Read)
    }
}

/// The number of bytes that UTF-8 takes for `c`.
pub open spec fn utf8_width(c: char) -> int {
    if (c as u32) < 0x80 {
        1
    } else if (c as u32) < 0x800 {
        2
    } else if (c as u32) < 0x10000 {
        3
    } else {
        4
    }
}

/// The number of bytes that UTF-8 takes for `s`.
pub open spec fn utf8_len(s: Seq<char>) -> int
    decreases s.len(),
{
    if s.len() == 0 {
        0
    } else {
        utf8_len(s.drop_last()) + utf8_width(s.last())
    }
}

/// The column (from 1) where `var` first occurs in `t`, counted in bytes
/// as `str::find` counts them, or 1 when it does not occur; the count stops
/// at `usize::MAX`, which no text in memory reaches.
pub open spec fn use_column(t: Seq<char>, var: Seq<char>) -> int {
    match find(t, var) {
        Some(k) => if utf8_len(t.take(k)) + 1 <= usize::MAX {
            utf8_len(t.take(k)) + 1
        } else {
            usize::MAX as int
        },
        None => 1,
    }
}

/// The byte column of position `k` of `t` (from 1), as `use_column` counts.
fn byte_column(t: &Vec<char>, k: usize) -> (res: usize)
    requires
        k <= t@.len(),
    ensures
        res == (if utf8_len(t@.take(k as int)) + 1 <= usize::MAX {
            utf8_len(t@.take(k as int)) + 1
        } else {
            usize::MAX as int
        }),
{
    let mut acc: u128 = 0;
    let mut i: usize = 0;
    while i < k
        invariant
            i <= k <= t@.len(),
            acc == utf8_len(t@.take(i as int)),
            acc <= 4 * i,
        decreases k - i,
    {
        let c = t[i];
        let w: u128 = if (c as u32) < 0x80 {
            1
        } else if (c as u32) < 0x800 {
            2
        } else if (c as u32) < 0x10000 {
            3
        } else {
            4
        };
        assert(t@.take(i + 1).drop_last() =~= t@.take(i as int));
        acc = acc + w;
        i += 1;
    }
    if acc + 1 <= usize::MAX as u128 {
        (acc + 1) as usize
    } else {
        usize::MAX
    }
}

/// Uses recorded for `var` on the (trimmed) line `t` numbered `ln`.
pub open spec fn use_step(st: UseState, t: Seq<char>, ln: usize, var: Seq<char>) -> UseState {
    if contains(t, var) {
        let up = UsePoint { line: ln, column: use_column(t, var) as usize };
        let chain = match assoc_get(st.defuse, var) {
            Some(c) => c.push(up),
            None => seq![up],
        };
        UseState { defuse: assoc_insert(st.defuse, var, chain), mem: pattern_step(st.mem, t, var) }
    } else {
        st
    }
}

/// Uses recorded on line `t` for each of `vars`, in order.
pub open spec fn uses_fold(st: UseState, t: Seq<char>, ln: usize, vars: Seq<Seq<char>>) -> UseState
    decreases vars.len(),
{
    if vars.len() == 0 {
        st
    } else {
        use_step(uses_fold(st, t, ln, vars.drop_last()), t, ln, vars.last())
    }
}

/// The state of the base analysis.
pub ghost struct BaseState {
    pub symtab: Seq<(Seq<char>, Seq<char>)>,
    pub uses: UseState,
}

/// The base analysis after the body line `line`, numbered `ln`: first the
/// declaration it may hold, then a use for every symbol it mentions.
pub open spec fn base_step(st: BaseState, line: Seq<char>, ln: usize) -> BaseState {
    let t = trim(line);
    let symtab = decl_step(st.symtab, t);
    BaseState { symtab, uses: uses_fold(st.uses, t, ln, assoc_keys(symtab)) }
}

/// The base analysis after the body lines `ls`, from the symbol table `init`.
pub open spec fn base_scan(ls: Seq<Seq<char>>, init: Seq<(Seq<char>, Seq<char>)>) -> BaseState
    decreases ls.len(),
{
    if ls.len() == 0 {
        BaseState { symtab: init, uses: UseState { defuse: seq![], mem: seq![] } }
    } else {
        base_step(base_scan(ls.drop_last(), init), ls.last(), ls.len() as usize)
    }
}

/// The semantic model that the base analysis gives of `f`.
pub open spec fn spec_analyze_function_base(f: FunctionModel) -> SemanticView {
    let st = base_scan(lines(f.body_code), params_symbols(f.parameters));
    SemanticView {
        symbol_table: st.symtab,
        def_use_chains: st.uses.defuse,
        memory_patterns: st.uses.mem,
        ..empty_semantic_view(f.name)
    }
}

fn framed(head: &str, var: &[char], tail: &str) -> (res: Vec<char>)
    ensures
        res@ == head@ + var@ + tail@,
{
    let mut v = chars_of(head);
    push_all(&mut v, var);
    let t = chars_of(tail);
    push_all(&mut v, &t);
    v
}

fn pattern_update(mem: &mut NameMap<MemoryPattern>, t: &Vec<char>, var: &Vec<char>)
    ensures
        final(mem)@ == pattern_step(old(mem)@, t@, var@),
{
    let free1 = framed("free(", var, ")");
    let free2 = framed("free(*", var, ")");
    let malloc_kw = chars_of("malloc(");
    let deref = framed("*", var, "");
    let key = string_of(var);
    assert(""@ =~= Seq::<char>::empty()) by {
        reveal_strlit("");
    }
    assert(deref@ =~= "*"@ + var@);
    if contains_chars(t, &free1) || contains_chars(t, &free2) {
        mem.insert(key, MemoryPattern::Free);
    } else if contains_chars(t, &malloc_kw) && contains_chars(t, var) {
        mem.insert(key, MemoryPattern::Allocate);
    } else if contains_chars(t, &deref) && has_char(t, '=') {
        if !mem.contains_key(key.as_str()) {
            mem.insert(key, MemoryPattern::Write);
        }
    } else {
        if !mem.contains_key(key.as_str()) {
            mem.insert(key, MemoryPattern::Read);
        }
    }
}

fn record_use(
    defuse: &mut NameMap<Vec<UsePoint>>,
    mem: &mut NameMap<MemoryPattern>,
    t: &Vec<char>,
    ln: usize,
    var: &Vec<char>,
)
    ensures
        (UseState { defuse: final(defuse)@, mem: final(mem)@ }) == use_step(
            UseState { defuse: old(defuse)@, mem: old(mem)@ },
            t@,
            ln,
            var@,
        ),
{
    let tlen = t.len();
    if !contains_chars(t, var) {
        return;
    }
    let column = match find_chars(t, var) {
        Some(k) => {
            proof {
                lemma_find_from(t@, var@, 0);
            }
            byte_column(t, k)
        },
        None => 1,
    };
    let up = UsePoint { line: ln, column };
    let key = string_of(var);
    match defuse.position(key.as_str()) {
        Some(j) => {
            proof {
                crate::name_map::lemma_assoc_find_from(defuse@, var@, 0);
            }
            let mut chain = defuse.replace_value_at(j, Vec::new());
            let ghost before = chain.deep_view();
            chain.push(up);
            assert(chain.deep_view() =~= before.push(up));
            let ghost mid = defuse@;
            defuse.replace_value_at(j, chain);
            assert(defuse@ =~= assoc_insert(old(defuse)@, var@, before.push(up)));
        },
        None => {
            let mut chain: Vec<UsePoint> = Vec::new();
            chain.push(up);
            assert(chain.deep_view() =~= seq![up]);
            defuse.insert(key, chain);
        },
    }
    pattern_update(mem, t, var);
}

/// Constructs the symbol table, def-use chains and memory-access patterns
/// of one function.
pub fn analyze_function_base(func: &FunctionAST) -> (res: SemanticModel)
    ensures
        res.deep_view() == spec_analyze_function_base(func.deep_view()),
{
    let mut model = SemanticModel::new(func.name.clone());
    let mut symtab: NameMap<String> = NameMap::new();
    let mut p: usize = 0;
    let ghost params = func.deep_view().parameters;
    assert(params.take(0) =~= Seq::<ParameterModel>::empty());
    while p < func.parameters.len()
        invariant
            p <= params.len(),
            params == func.deep_view().parameters,
            symtab@ == params_symbols(params.take(p as int)),
        decreases params.len() - p,
    {
        let param = &func.parameters[p];
        let base = chars_of(param.c_type.as_str());
        let stars = repeat_char_exec('*', param.pointer_depth);
        let type_desc = concat(&base, &stars);
        assert(params.take(p + 1).drop_last() =~= params.take(p as int));
        symtab.insert(param.name.clone(), string_of(&type_desc));
        p += 1;
    }
    assert(params.take(params.len() as int) =~= params);
    let body = chars_of(func.body_code.as_str());
    let body_lines = lines_of(&body);
    let ghost ls = seqs_of(body_lines@);
    let mut defuse: NameMap<Vec<UsePoint>> = NameMap::new();
    let mut mem: NameMap<MemoryPattern> = NameMap::new();
    let eq_sep = '=';
    let star = one_char('*');
    let space = chars_of(" ");
    assert(ls.take(0) =~= Seq::<Seq<char>>::empty());
    let mut idx: usize = 0;
    while idx < body_lines.len()
        invariant
            idx <= ls.len(),
            ls == seqs_of(body_lines@),
            ls == lines(func.deep_view().body_code),
            star@ == seq!['*'],
            space@ == " "@,
            eq_sep == '=',
            base_scan(ls.take(idx as int), params_symbols(params)) == (BaseState {
                symtab: symtab@,
                uses: UseState { defuse: defuse@, mem: mem@ },
            }),
        decreases ls.len() - idx,
    {
        assert(ls.take(idx + 1).drop_last() =~= ls.take(idx as int));
        let line_num = idx + 1;
        let trimmed = trim_chars(&body_lines[idx]);
        let is_decl = (str_starts_with(&trimmed, "int ") || str_starts_with(&trimmed, "char ")
            || str_starts_with(&trimmed, "float ") || str_starts_with(&trimmed, "double ")
            || str_starts_with(&trimmed, "void ")) && has_char(&trimmed, eq_sep);
        if is_decl {
            let pieces = split_chars(&trimmed, eq_sep);
            proof {
                crate::text::lemma_split_nonempty(trimmed@, eq_sep);
            }
            assert(seqs_of(pieces@)[0] == pieces@[0]@);
            let left = trim_chars(&pieces[0]);
            let parts = words_of(&left);
            if parts.len() >= 2 {
                assert(seqs_of(parts@).last() == parts@[parts@.len() - 1]@);
                let var_name = trim_set_exec(&parts[parts.len() - 1], &star);
                let var_type = crate::text::join_init_exec(&parts, &space);
                symtab.insert(string_of(&var_name), string_of(&var_type));
            }
        }
        let ghost keys = assoc_keys(symtab@);
        let ghost uses0 = UseState { defuse: defuse@, mem: mem@ };
        let mut j: usize = 0;
        assert(keys.take(0) =~= Seq::<Seq<char>>::empty());
        while j < symtab.len()
            invariant
                j <= keys.len(),
                keys == assoc_keys(symtab@),
                uses_fold(uses0, trimmed@, line_num, keys.take(j as int)) == (UseState {
                    defuse: defuse@,
                    mem: mem@,
                }),
            decreases keys.len() - j,
        {
            let var = chars_of(symtab.key_at(j).as_str());
            assert(keys.take(j + 1).drop_last() =~= keys.take(j as int));
            record_use(&mut defuse, &mut mem, &trimmed, line_num, &var);
            j += 1;
        }
        assert(keys.take(keys.len() as int) =~= keys);
        proof {
            assert(ls.take(idx + 1).last() == ls[idx as int]);
        }
        idx += 1;
    }
    assert(ls.take(ls.len() as int) =~= ls);
    model.symbol_table = symtab;
    model.def_use_chains = defuse;
    model.memory_patterns = mem;
    model
}

// ---------------------------------------------------------------------
// What the base analysis records
// ---------------------------------------------------------------------

/// `m` has an entry for `k`.
pub open spec fn has_key<T>(m: Seq<(Seq<char>, T)>, k: Seq<char>) -> bool {
    assoc_find(m, k) is Some
}

/// `u` is a use of `var` on the lines `ls`: its line (from 1) is one of
/// them and mentions `var` once trimmed, and its column is at least 1.
pub open spec fn point_ok(ls: Seq<Seq<char>>, u: UsePoint, var: Seq<char>) -> bool {
    1 <= u.line <= ls.len() && u.column >= 1 && contains(trim(ls[u.line - 1]), var)
}

/// The def-use chains and memory patterns of `st` have the same keys, all
/// of them symbols of `symtab`, and every use point is a use on `ls`.
pub open spec fn uses_ok(ls: Seq<Seq<char>>, st: UseState, symtab: Seq<(Seq<char>, Seq<char>)>) -> bool {
    &&& forall|k: Seq<char>| #[trigger] has_key(st.defuse, k) <==> has_key(st.mem, k)
    &&& forall|k: Seq<char>| #[trigger] has_key(st.defuse, k) ==> has_key(symtab, k)
    &&& forall|i: int, j: int|
        0 <= i < st.defuse.len() && 0 <= j < st.defuse[i].1.len() ==> point_ok(
            ls,
            #[trigger] st.defuse[i].1[j],
            st.defuse[i].0,
        )
}

proof fn lemma_utf8_len_nonneg(s: Seq<char>)
    ensures
        utf8_len(s) >= 0,
    decreases s.len(),
{
    if s.len() > 0 {
        lemma_utf8_len_nonneg(s.drop_last());
    }
}

proof fn lemma_use_column_range(t: Seq<char>, var: Seq<char>)
    ensures
        1 <= use_column(t, var) <= usize::MAX,
{
    if let Some(k) = find(t, var) {
        lemma_utf8_len_nonneg(t.take(k));
    }
}

proof fn lemma_has_insert<T>(m: Seq<(Seq<char>, T)>, k: Seq<char>, v: T, x: Seq<char>)
    ensures
        has_key(assoc_insert(m, k, v), x) <==> (x == k || has_key(m, x)),
{
    lemma_assoc_insert_get(m, k, v, x);
}

proof fn lemma_has_pattern_step(mem: Seq<(Seq<char>, MemoryPattern)>, t: Seq<char>, var: Seq<char>, x: Seq<char>)
    ensures
        has_key(pattern_step(mem, t, var), x) <==> (x == var || has_key(mem, x)),
{
    lemma_has_insert(mem, var, MemoryPattern::Free, x);
    lemma_has_insert(mem, var, MemoryPattern::Allocate, x);
    lemma_has_insert(mem, var, MemoryPattern::Write, x);
    lemma_has_insert(mem, var, MemoryPattern::Read, x);
}

proof fn lemma_uses_ok_extend(
    ls: Seq<Seq<char>>,
    line: Seq<char>,
    st: UseState,
    sym: Seq<(Seq<char>, Seq<char>)>,
    sym2: Seq<(Seq<char>, Seq<char>)>,
)
    requires
        uses_ok(ls, st, sym),
        forall|k: Seq<char>| #[trigger] has_key(sym, k) ==> has_key(sym2, k),
    ensures
        uses_ok(ls.push(line), st, sym2),
{
    let ls2 = ls.push(line);
    assert forall|i: int, j: int|
        0 <= i < st.defuse.len() && 0 <= j < st.defuse[i].1.len() implies point_ok(
        ls2,
        #[trigger] st.defuse[i].1[j],
        st.defuse[i].0,
    ) by {
        let u = st.defuse[i].1[j];
        assert(point_ok(ls, u, st.defuse[i].0));
        assert(ls2[u.line - 1] == ls[u.line - 1]);
    }
    assert forall|k: Seq<char>| #[trigger] has_key(st.defuse, k) implies has_key(sym2, k) by {
        assert(has_key(sym, k));
    }
}

proof fn lemma_use_step_ok(
    ls: Seq<Seq<char>>,
    st: UseState,
    symtab: Seq<(Seq<char>, Seq<char>)>,
    var: Seq<char>,
)
    requires
        ls.len() >= 1,
        ls.len() <= usize::MAX,
        uses_ok(ls, st, symtab),
        has_key(symtab, var),
    ensures
        uses_ok(ls, use_step(st, trim(ls.last()), ls.len() as usize, var), symtab),
{
    let t = trim(ls.last());
    let ln = ls.len() as usize;
    if contains(t, var) {
        let up = UsePoint { line: ln, column: use_column(t, var) as usize };
        let chain = match assoc_get(st.defuse, var) {
            Some(c) => c.push(up),
            None => seq![up],
        };
        let d2 = assoc_insert(st.defuse, var, chain);
        let m2 = pattern_step(st.mem, t, var);
        assert(ls[ln - 1] == ls.last());
        lemma_use_column_range(t, var);
        assert(point_ok(ls, up, var));
        assert forall|k: Seq<char>| #[trigger] has_key(d2, k) <==> has_key(m2, k) by {
            lemma_has_insert(st.defuse, var, chain, k);
            lemma_has_pattern_step(st.mem, t, var, k);
        }
        assert forall|k: Seq<char>| #[trigger] has_key(d2, k) implies has_key(symtab, k) by {
            lemma_has_insert(st.defuse, var, chain, k);
        }
        crate::name_map::lemma_assoc_find_from(st.defuse, var, 0);
        assert forall|i: int, j: int| 0 <= i < d2.len() && 0 <= j < d2[i].1.len() implies point_ok(
            ls,
            #[trigger] d2[i].1[j],
            d2[i].0,
        ) by {
            match assoc_find(st.defuse, var) {
                Some(x) => {
                    if i == x {
                        assert(chain == st.defuse[x].1.push(up));
                        if j < st.defuse[x].1.len() {
                            assert(d2[i].1[j] == st.defuse[x].1[j]);
                        }
                    } else {
                        assert(d2[i] == st.defuse[i]);
                    }
                },
                None => {
                    if i < st.defuse.len() {
                        assert(d2[i] == st.defuse[i]);
                    } else {
                        assert(d2[i] == (var, chain));
                    }
                },
            }
        }
    }
}

proof fn lemma_uses_fold_ok(
    ls: Seq<Seq<char>>,
    st: UseState,
    symtab: Seq<(Seq<char>, Seq<char>)>,
    vars: Seq<Seq<char>>,
)
    requires
        ls.len() >= 1,
        ls.len() <= usize::MAX,
        uses_ok(ls, st, symtab),
        forall|j: int| 0 <= j < vars.len() ==> has_key(symtab, #[trigger] vars[j]),
    ensures
        uses_ok(ls, uses_fold(st, trim(ls.last()), ls.len() as usize, vars), symtab),
    decreases vars.len(),
{
    if vars.len() > 0 {
        let init = vars.drop_last();
        assert forall|j: int| 0 <= j < init.len() implies has_key(symtab, #[trigger] init[j]) by {
            assert(init[j] == vars[j]);
        }
        lemma_uses_fold_ok(ls, st, symtab, init);
        assert(has_key(symtab, vars[vars.len() - 1]));
        lemma_use_step_ok(
            ls,
            uses_fold(st, trim(ls.last()), ls.len() as usize, init),
            symtab,
            vars.last(),
        );
    }
}

proof fn lemma_keys_are_keys(m: Seq<(Seq<char>, Seq<char>)>)
    ensures
        forall|j: int| 0 <= j < assoc_keys(m).len() ==> has_key(m, #[trigger] assoc_keys(m)[j]),
{
    assert forall|j: int| 0 <= j < assoc_keys(m).len() implies has_key(m, #[trigger] assoc_keys(m)[j]) by {
        crate::name_map::lemma_assoc_find_from(m, assoc_keys(m)[j], 0);
        assert(m[j].0 == assoc_keys(m)[j]);
    }
}

proof fn lemma_base_scan_ok(ls: Seq<Seq<char>>, init: Seq<(Seq<char>, Seq<char>)>)
    requires
        ls.len() <= usize::MAX,
    ensures
        uses_ok(ls, base_scan(ls, init).uses, base_scan(ls, init).symtab),
        forall|k: Seq<char>| #[trigger] has_key(init, k) ==> has_key(base_scan(ls, init).symtab, k),
    decreases ls.len(),
{
    if ls.len() > 0 {
        let prev_ls = ls.drop_last();
        lemma_base_scan_ok(prev_ls, init);
        let st = base_scan(prev_ls, init);
        let t = trim(ls.last());
        let symtab = decl_step(st.symtab, t);
        assert forall|k: Seq<char>| #[trigger] has_key(st.symtab, k) implies has_key(symtab, k) by {
            if is_decl_line(t) {
                let parts = words(trim(split(t, '=')[0]));
                if parts.len() >= 2 {
                    lemma_has_insert(
                        st.symtab,
                        trim_set(parts.last(), seq!['*']),
                        join(parts.drop_last(), " "@),
                        k,
                    );
                }
            }
        }
        assert(prev_ls.push(ls.last()) =~= ls);
        lemma_uses_ok_extend(prev_ls, ls.last(), st.uses, st.symtab, symtab);
        lemma_keys_are_keys(symtab);
        lemma_uses_fold_ok(ls, st.uses, symtab, assoc_keys(symtab));
    } else {
        assert forall|k: Seq<char>| #[trigger] has_key(Seq::<(Seq<char>, Seq<UsePoint>)>::empty(), k) <==> has_key(Seq::<(Seq<char>, MemoryPattern)>::empty(), k) by {}
    }
}

/// What the base analysis of a function records: its name; def-use chains
/// and memory patterns for the same variables, all of them symbols; use
/// points that name a line of the body (from 1) mentioning the variable,
/// at a column from 1; and no pointer classification or union transform
/// yet.
pub proof fn lemma_base_analysis(f: FunctionModel)
    requires
        lines(f.body_code).len() <= usize::MAX,
    ensures
        ({
            let m = spec_analyze_function_base(f);
            let ls = lines(f.body_code);
            &&& m.function_name == f.name
            &&& forall|k: Seq<char>|
                #[trigger] has_key(m.def_use_chains, k) <==> has_key(m.memory_patterns, k)
            &&& forall|k: Seq<char>|
                #[trigger] has_key(m.def_use_chains, k) ==> has_key(m.symbol_table, k)
            &&& forall|i: int, j: int|
                0 <= i < m.def_use_chains.len() && 0 <= j < m.def_use_chains[i].1.len() ==> {
                    let u = #[trigger] m.def_use_chains[i].1[j];
                    &&& 1 <= u.line <= ls.len()
                    &&& u.column >= 1
                    &&& contains(trim(ls[u.line - 1]), m.def_use_chains[i].0)
                }
            &&& m.pointer_depth_classifications.len() == 0
            &&& m.local_union_transforms.len() == 0
            &&& m.unresolved_union_cases.len() == 0
        }),
{
    lemma_base_scan_ok(lines(f.body_code), params_symbols(f.parameters));
    let m = spec_analyze_function_base(f);
    assert(uses_ok(
        lines(f.body_code),
        UseState { defuse: m.def_use_chains, mem: m.memory_patterns },
        m.symbol_table,
    ));
    assert forall|i: int, j: int|
        0 <= i < m.def_use_chains.len() && 0 <= j < m.def_use_chains[i].1.len() implies point_ok(
        lines(f.body_code),
        #[trigger] m.def_use_chains[i].1[j],
        m.def_use_chains[i].0,
    ) by {}
}

/// The memory pattern that a (trimmed) line `t` mentioning `var` gives
/// `var`, from the one it had: a line that frees `var` (`free(var)` or
/// `free(*var)`) marks it freed; otherwise a line that calls `malloc(`
/// marks it allocated; otherwise a write through it (`*var` and `=`) marks
/// it written and any other mention read, unless it already had a pattern,
/// which it keeps. No other variable's pattern changes.
pub proof fn lemma_pattern_step_law(
    mem: Seq<(Seq<char>, MemoryPattern)>,
    t: Seq<char>,
    var: Seq<char>,
    k: Seq<char>,
)
    ensures
        ({
            let got = assoc_get(pattern_step(mem, t, var), var);
            let frees = contains(t, "free("@ + var + ")"@) || contains(t, "free(*"@ + var + ")"@);
            let allocs = contains(t, "malloc("@) && contains(t, var);
            let writes = contains(t, "*"@ + var) && t.contains('=');
            &&& frees ==> got == Some(MemoryPattern::Free)
            &&& !frees && allocs ==> got == Some(MemoryPattern::Allocate)
            &&& !frees && !allocs && assoc_get(mem, var) is Some ==> got == assoc_get(mem, var)
            &&& !frees && !allocs && writes && assoc_get(mem, var) is None ==> got == Some(
                MemoryPattern::Write,
            )
            &&& !frees && !allocs && !writes && assoc_get(mem, var) is None ==> got == Some(
                MemoryPattern::Read,
            )
        }),
        k != var ==> assoc_get(pattern_step(mem, t, var), k) == assoc_get(mem, k),
{
    lemma_assoc_insert_get(mem, var, MemoryPattern::Free, k);
    lemma_assoc_insert_get(mem, var, MemoryPattern::Allocate, k);
    lemma_assoc_insert_get(mem, var, MemoryPattern::Write, k);
    lemma_assoc_insert_get(mem, var, MemoryPattern::Read, k);
    lemma_assoc_insert_get(mem, var, MemoryPattern::Free, var);
    lemma_assoc_insert_get(mem, var, MemoryPattern::Allocate, var);
    lemma_assoc_insert_get(mem, var, MemoryPattern::Write, var);
    lemma_assoc_insert_get(mem, var, MemoryPattern::Read, var);
}

proof fn lemma_uses_fold_mem(st: UseState, t: Seq<char>, ln: usize, vars: Seq<Seq<char>>, v: Seq<char>)
    requires
        forall|a: int, b: int| 0 <= a < b < vars.len() ==> vars[a] != vars[b],
    ensures
        assoc_get(uses_fold(st, t, ln, vars).mem, v) == if vars.contains(v) && contains(t, v) {
            assoc_get(pattern_step(st.mem, t, v), v)
        } else {
            assoc_get(st.mem, v)
        },
    decreases vars.len(),
{
    if vars.len() > 0 {
        let init = vars.drop_last();
        let w = vars.last();
        let prev = uses_fold(st, t, ln, init);
        lemma_uses_fold_mem(st, t, ln, init, v);
        lemma_pattern_step_law(prev.mem, t, w, v);
        lemma_pattern_step_law(st.mem, t, v, v);
        if w == v {
            assert(!init.contains(v)) by {
                if init.contains(v) {
                    let q = choose|q: int| 0 <= q < init.len() && init[q] == v;
                    assert(vars[q] == v);
                    assert(vars[vars.len() - 1] == v);
                }
            }
            assert(vars.contains(v)) by {
                assert(vars[vars.len() - 1] == v);
            }
            lemma_pattern_step_law(prev.mem, t, v, v);
        } else {
            assert(vars.contains(v) == init.contains(v)) by {
                if vars.contains(v) {
                    let q = choose|q: int| 0 <= q < vars.len() && vars[q] == v;
                    assert(q < vars.len() - 1);
                    assert(init[q] == v);
                }
                if init.contains(v) {
                    let q = choose|q: int| 0 <= q < init.len() && init[q] == v;
                    assert(vars[q] == v);
                }
            }
        }
    }
}

/// After a body line, the memory pattern of each symbol (known once the
/// line's declaration is read) that the trimmed line mentions is the one
/// that line gives it, from the pattern it had; the pattern of every
/// symbol the line does not mention is unchanged.
pub proof fn lemma_base_step_patterns(st: BaseState, line: Seq<char>, ln: usize, v: Seq<char>)
    requires
        assoc_keys_distinct(st.symtab),
    ensures
        ({
            let t = trim(line);
            let known = has_key(decl_step(st.symtab, t), v);
            &&& known && contains(t, v) ==> assoc_get(base_step(st, line, ln).uses.mem, v)
                == assoc_get(pattern_step(st.uses.mem, t, v), v)
            &&& !(known && contains(t, v)) ==> assoc_get(base_step(st, line, ln).uses.mem, v)
                == assoc_get(st.uses.mem, v)
        }),
{
    let t = trim(line);
    let syms = decl_step(st.symtab, t);
    if is_decl_line(t) {
        let parts = words(trim(split(t, '=')[0]));
        if parts.len() >= 2 {
            lemma_assoc_insert_distinct(st.symtab, trim_set(parts.last(), seq!['*']), join(parts.drop_last(), " "@));
        }
    }
    assert(assoc_keys_distinct(syms));
    let keys = assoc_keys(syms);
    assert forall|a: int, b: int| 0 <= a < b < keys.len() implies keys[a] != keys[b] by {
        assert(keys[a] == syms[a].0);
        assert(keys[b] == syms[b].0);
    }
    lemma_uses_fold_mem(st.uses, t, ln, keys, v);
    lemma_assoc_find_from(syms, v, 0);
    if keys.contains(v) {
        let q = choose|q: int| 0 <= q < keys.len() && keys[q] == v;
        assert(syms[q].0 == v);
    }
    if has_key(syms, v) {
        let q = assoc_find(syms, v)->0;
        assert(keys[q] == v);
    }
}

} // verus!
