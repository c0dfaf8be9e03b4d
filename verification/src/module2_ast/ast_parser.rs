//! Line-oriented construction of the translation-unit AST.
use vstd::prelude::*;

use crate::module2_ast::preprocessor::ExpandedCSource;
use crate::text::{
    chars_of, contains, contains_chars, copy_range, count_char, count_char_exec, ends_with,
    ends_with_chars, find, find_chars, has_char, join, join_chars, lemma_count_char_le,
    lemma_find_from, lemma_rfind_char, lemma_seqs_of_push, lemma_total_len_lines,
    lemma_total_len_skip, lemma_total_len_skip_le, lemma_trim_len, lines, lines_of, lines_of_str,
    one_char, replace_char, replace_char_exec, rfind_char, rfind_char_exec, seq_eq, seqs_of, split,
    split_chars, starts_with, starts_with_chars, string_of, strings_of, total_len, trim, trim_chars,
    trim_end_set, trim_end_set_exec, trim_set, trim_set_exec, words, words_of,
};

verus! {

broadcast use vstd::string::group_string_axioms;

/// A parameter of a function signature.
#[derive(Debug)]
pub struct ParameterAST {
    pub name: String,
    pub c_type: String,
    /// 0 = T, 1 = T*, 2 = T**
    pub pointer_depth: usize,
    pub is_union: bool,
}

/// The value a `ParameterAST` stands for.
pub ghost struct ParameterModel {
    pub name: Seq<char>,
    pub c_type: Seq<char>,
    pub pointer_depth: usize,
    pub is_union: bool,
}

impl DeepView for ParameterAST {
    type V = ParameterModel;

    open spec fn deep_view(&self) -> ParameterModel {
        ParameterModel {
            name: self.name@,
            c_type: self.c_type@,
            pointer_depth: self.pointer_depth,
            is_union: self.is_union,
        }
    }
}

/// A call found in a function body.
#[derive(Debug)]
pub struct CallSiteAST {
    pub callee: String,
    pub arguments: Vec<String>,
    pub line: usize,
}

/// The value a `CallSiteAST` stands for.
pub ghost struct CallSiteModel {
    pub callee: Seq<char>,
    pub arguments: Seq<Seq<char>>,
    pub line: usize,
}

impl DeepView for CallSiteAST {
    type V = CallSiteModel;

    open spec fn deep_view(&self) -> CallSiteModel {
        CallSiteModel {
            callee: self.callee@,
            arguments: self.arguments.deep_view(),
            line: self.line,
        }
    }
}

/// A function definition.
#[derive(Debug)]
pub struct FunctionAST {
    pub name: String,
    pub return_type: String,
    pub parameters: Vec<ParameterAST>,
    pub body_code: String,
    pub call_sites: Vec<CallSiteAST>,
}

/// The value a `FunctionAST` stands for.
pub ghost struct FunctionModel {
    pub name: Seq<char>,
    pub return_type: Seq<char>,
    pub parameters: Seq<ParameterModel>,
    pub body_code: Seq<char>,
    pub call_sites: Seq<CallSiteModel>,
}

impl DeepView for FunctionAST {
    type V = FunctionModel;

    open spec fn deep_view(&self) -> FunctionModel {
        FunctionModel {
            name: self.name@,
            return_type: self.return_type@,
            parameters: self.parameters.deep_view(),
            body_code: self.body_code@,
            call_sites: self.call_sites.deep_view(),
        }
    }
}

/// One member of a union.
#[derive(Debug)]
pub struct UnionVariantAST {
    pub field_name: String,
    pub field_type: String,
}

/// The value a `UnionVariantAST` stands for.
pub ghost struct UnionVariantModel {
    pub field_name: Seq<char>,
    pub field_type: Seq<char>,
}

impl DeepView for UnionVariantAST {
    type V = UnionVariantModel;

    open spec fn deep_view(&self) -> UnionVariantModel {
        UnionVariantModel { field_name: self.field_name@, field_type: self.field_type@ }
    }
}

/// A union definition.
#[derive(Debug)]
pub struct UnionAST {
    pub name: String,
    pub variants: Vec<UnionVariantAST>,
    pub tag_field: Option<String>,
}

/// The value a `UnionAST` stands for.
pub ghost struct UnionModel {
    pub name: Seq<char>,
    pub variants: Seq<UnionVariantModel>,
    pub tag_field: Option<Seq<char>>,
}

impl DeepView for UnionAST {
    type V = UnionModel;

    open spec fn deep_view(&self) -> UnionModel {
        UnionModel {
            name: self.name@,
            variants: self.variants.deep_view(),
            tag_field: self.tag_field.deep_view(),
        }
    }
}

/// A struct definition: its name and its `(field name, field type)` pairs.
#[derive(Debug)]
pub struct StructAST {
    pub name: String,
    pub fields: Vec<(String, String)>,
}

/// The value a `StructAST` stands for.
pub ghost struct StructModel {
    pub name: Seq<char>,
    pub fields: Seq<(Seq<char>, Seq<char>)>,
}

impl DeepView for StructAST {
    type V = StructModel;

    open spec fn deep_view(&self) -> StructModel {
        StructModel { name: self.name@, fields: self.fields.deep_view() }
    }
}

/// Whole-program AST representation.
#[derive(Debug)]
pub struct TranslationUnitAST {
    pub functions: Vec<FunctionAST>,
    pub unions: Vec<UnionAST>,
    pub structs: Vec<StructAST>,
}

/// The value a `TranslationUnitAST` stands for.
pub ghost struct TranslationUnitModel {
    pub functions: Seq<FunctionModel>,
    pub unions: Seq<UnionModel>,
    pub structs: Seq<StructModel>,
}

impl DeepView for TranslationUnitAST {
    type V = TranslationUnitModel;

    open spec fn deep_view(&self) -> TranslationUnitModel {
        TranslationUnitModel {
            functions: self.functions.deep_view(),
            unions: self.unions.deep_view(),
            structs: self.structs.deep_view(),
        }
    }
}

impl TranslationUnitAST {
    /// An empty translation unit.
    pub fn new() -> (res: Self)
        ensures
            res.deep_view().functions.len() == 0,
            res.deep_view().unions.len() == 0,
            res.deep_view().structs.len() == 0,
    {
        TranslationUnitAST { functions: Vec::new(), unions: Vec::new(), structs: Vec::new() }
    }
}

/// Errors of AST construction.
#[derive(Debug)]
pub enum ASTError {
    ParseFailed(String),
}

impl ASTError {
    /// The message the error displays: `AST Parse Error: <detail>`.
    pub fn message(&self) -> (res: String)
        ensures
            match self {
                ASTError::ParseFailed(m) => res@ == "AST Parse Error: "@ + m@,
            },
    {
        match self {
            ASTError::ParseFailed(m) => {
                let mut res = String::from_str("AST Parse Error: ");
                res.append(m.as_str());
                res
            },
        }
    }
}

// ---------------------------------------------------------------------
// Parameters
// ---------------------------------------------------------------------

/// The parameter declared by one comma-separated piece `decl` (already
/// trimmed and non-empty).
pub open spec fn spec_parameter(decl: Seq<char>) -> ParameterModel {
    let parts = words(replace_char(decl, '*', ' '));
    ParameterModel {
        name: if parts.len() >= 2 {
            parts.last()
        } else {
            "param"@
        },
        c_type: if parts.len() >= 2 {
            join(parts.drop_last(), " "@)
        } else {
            decl
        },
        pointer_depth: count_char(decl, '*') as usize,
        is_union: contains(decl, "union "@),
    }
}

/// The parameters declared by the comma-separated pieces `pieces`.
pub open spec fn spec_parameters_of(pieces: Seq<Seq<char>>) -> Seq<ParameterModel>
    decreases pieces.len(),
{
    if pieces.len() == 0 {
        seq![]
    } else {
        let rest = spec_parameters_of(pieces.drop_last());
        let decl = trim(pieces.last());
        if decl.len() == 0 {
            rest
        } else {
            rest.push(spec_parameter(decl))
        }
    }
}

/// The parameters declared by the text between a signature's parentheses.
pub open spec fn spec_parse_parameters(params: Seq<char>) -> Seq<ParameterModel> {
    if params.len() == 0 || params == "void"@ {
        seq![]
    } else {
        spec_parameters_of(split(params, ','))
    }
}

/// All pieces of `parts` but the last, joined with `sep`.
fn join_init(parts: &Vec<Vec<char>>, sep: &[char]) -> (res: Vec<char>)
    requires
        parts@.len() >= 1,
    ensures
        res@ == join(seqs_of(parts@).drop_last(), sep@),
{
    let n = parts.len();
    let mut head: Vec<Vec<char>> = Vec::new();
    let mut k: usize = 0;
    while k < n - 1
        invariant
            n == parts@.len() >= 1,
            k <= n - 1,
            seqs_of(head@) == seqs_of(parts@).take(k as int),
        decreases n - 1 - k,
    {
        let piece = copy_range(&parts[k], 0, parts[k].len());
        proof {
            lemma_seqs_of_push(head@, piece);
            assert(seqs_of(parts@).take(k + 1) =~= seqs_of(parts@).take(k as int).push(
                parts@[k as int]@,
            ));
            assert(parts@[k as int]@.subrange(0, parts@[k as int]@.len() as int)
                =~= parts@[k as int]@);
        }
        head.push(piece);
        k += 1;
    }
    assert(seqs_of(parts@).take(n - 1) =~= seqs_of(parts@).drop_last());
    join_chars(&head, sep)
}

fn parse_parameter(decl: &Vec<char>) -> (res: ParameterAST)
    ensures
        res.deep_view() == spec_parameter(decl@),
{
    let pointer_depth = count_char_exec(decl, '*');
    let union_kw = chars_of("union ");
    let is_union = contains_chars(decl, &union_kw);
    let clean = replace_char_exec(decl, '*', ' ');
    let parts = words_of(&clean);
    let n = parts.len();
    if n >= 2 {
        let name = string_of(&parts[n - 1]);
        let space = chars_of(" ");
        let c_type = join_init(&parts, &space);
        ParameterAST { name, c_type: string_of(&c_type), pointer_depth, is_union }
    } else {
        ParameterAST {
            name: String::from_str("param"),
            c_type: string_of(decl),
            pointer_depth,
            is_union,
        }
    }
}

fn parse_parameters(params_str: &Vec<char>) -> (res: Vec<ParameterAST>)
    ensures
        res.deep_view() == spec_parse_parameters(params_str@),
{
    let mut params: Vec<ParameterAST> = Vec::new();
    let void_kw = chars_of("void");
    if params_str.len() == 0 || seq_eq(params_str, &void_kw) {
        assert(params.deep_view() =~= Seq::<ParameterModel>::empty());
        return params;
    }
    let pieces = split_chars(params_str, ',');
    let mut i: usize = 0;
    while i < pieces.len()
        invariant
            i <= pieces@.len(),
            params.deep_view() == spec_parameters_of(seqs_of(pieces@).take(i as int)),
        decreases pieces@.len() - i,
    {
        let decl = trim_chars(&pieces[i]);
        proof {
            assert(seqs_of(pieces@).take(i + 1).drop_last() =~= seqs_of(pieces@).take(i as int));
        }
        if decl.len() != 0 {
            let p = parse_parameter(&decl);
            let ghost before = params.deep_view();
            params.push(p);
            assert(params.deep_view() =~= before.push(p.deep_view()));
        }
        i += 1;
    }
    assert(seqs_of(pieces@).take(pieces@.len() as int) =~= seqs_of(pieces@));
    params
}

// ---------------------------------------------------------------------
// Call sites
// ---------------------------------------------------------------------

/// The call written on the (trimmed) body line `line`, numbered `line_num`.
pub open spec fn spec_parse_call_site(line: Seq<char>, line_num: usize) -> Option<CallSiteModel> {
    match (find(line, seq!['(']), rfind_char(line, ')')) {
        (Some(open), Some(close)) => {
            let parts = words(trim(line.subrange(0, open)));
            if parts.len() == 0 {
                None
            } else {
                let callee = trim_set(parts.last(), seq!['=', '+', '-']);
                if callee.len() == 0 || callee == "printf"@ || callee == "scanf"@ {
                    None
                } else {
                    Some(
                        CallSiteModel {
                            callee,
                            arguments: split(line.subrange(open + 1, close), ',').map_values(
                                |a: Seq<char>| trim(a),
                            ),
                            line: line_num,
                        },
                    )
                }
            }
        },
        _ => None,
    }
}

/// Parsing the call on `line` would slice its text backwards: the last `)`
/// stands before the first `(`.
pub open spec fn call_site_panics(line: Seq<char>) -> bool {
    match (find(line, seq!['(']), rfind_char(line, ')')) {
        (Some(open), Some(close)) => {
            let parts = words(trim(line.subrange(0, open)));
            if parts.len() == 0 {
                false
            } else {
                let callee = trim_set(parts.last(), seq!['=', '+', '-']);
                if callee.len() == 0 || callee == "printf"@ || callee == "scanf"@ {
                    false
                } else {
                    close < open + 1
                }
            }
        },
        _ => false,
    }
}

fn call_site_panics_exec(line: &Vec<char>) -> (res: bool)
    ensures
        res == call_site_panics(line@),
{
    let open_pat = one_char('(');
    let open_p = match find_chars(line, &open_pat) {
        Some(k) => k,
        None => return false,
    };
    let close_p = match rfind_char_exec(line, ')') {
        Some(k) => k,
        None => return false,
    };
    proof {
        lemma_find_from(line@, seq!['('], 0);
    }
    let left0 = copy_range(line, 0, open_p);
    let left = trim_chars(&left0);
    let callee_parts = words_of(&left);
    if callee_parts.len() == 0 {
        return false;
    }
    let strip = vec!['=', '+', '-'];
    assert(strip@ =~= seq!['=', '+', '-']);
    let callee = trim_set_exec(&callee_parts[callee_parts.len() - 1], &strip);
    let printf_kw = chars_of("printf");
    let scanf_kw = chars_of("scanf");
    if callee.len() == 0 || seq_eq(&callee, &printf_kw) || seq_eq(&callee, &scanf_kw) {
        return false;
    }
    close_p <= open_p
}

fn parse_call_site(line: &Vec<char>, line_num: usize) -> (res: Option<CallSiteAST>)
    requires
        !call_site_panics(line@),
    ensures
        res.deep_view() == spec_parse_call_site(line@, line_num),
{
    let open_pat = one_char('(');
    let open_p = match find_chars(line, &open_pat) {
        Some(k) => k,
        None => return None,
    };
    let close_p = match rfind_char_exec(line, ')') {
        Some(k) => k,
        None => return None,
    };
    proof {
        lemma_find_from(line@, seq!['('], 0);
    }
    let left0 = copy_range(line, 0, open_p);
    let left = trim_chars(&left0);
    let callee_parts = words_of(&left);
    if callee_parts.len() == 0 {
        return None;
    }
    let strip = vec!['=', '+', '-'];
    assert(strip@ =~= seq!['=', '+', '-']);
    let callee = trim_set_exec(&callee_parts[callee_parts.len() - 1], &strip);
    let printf_kw = chars_of("printf");
    let scanf_kw = chars_of("scanf");
    if callee.len() == 0 || seq_eq(&callee, &printf_kw) || seq_eq(&callee, &scanf_kw) {
        return None;
    }
    proof {
        lemma_rfind_char(line@, ')');
    }
    let args_str = copy_range(line, open_p + 1, close_p);
    let pieces = split_chars(&args_str, ',');
    let mut trimmed: Vec<Vec<char>> = Vec::new();
    let mut i: usize = 0;
    while i < pieces.len()
        invariant
            i <= pieces@.len(),
            seqs_of(trimmed@) == seqs_of(pieces@).take(i as int).map_values(
                |a: Seq<char>| trim(a),
            ),
        decreases pieces@.len() - i,
    {
        let t = trim_chars(&pieces[i]);
        proof {
            lemma_seqs_of_push(trimmed@, t);
        }
        trimmed.push(t);
        i += 1;
        assert(seqs_of(trimmed@) =~= seqs_of(pieces@).take(i as int).map_values(
            |a: Seq<char>| trim(a),
        ));
    }
    assert(seqs_of(pieces@).take(pieces@.len() as int) =~= seqs_of(pieces@));
    let arguments = strings_of(&trimmed);
    Some(CallSiteAST { callee: string_of(&callee), arguments, line: line_num })
}

// ---------------------------------------------------------------------
// Unions and structs
// ---------------------------------------------------------------------

/// The state of the line-by-line scan for union definitions.
pub ghost struct UnionScan {
    pub in_union: bool,
    pub name: Seq<char>,
    pub variants: Seq<UnionVariantModel>,
    pub unions: Seq<UnionModel>,
}

/// The union scan after one more line: a line that starts with `union `
/// and holds `{` opens a definition, a line that starts with `}` closes it,
/// and inside a definition a line with `;` declares a member `type name`.
pub open spec fn union_step(st: UnionScan, line: Seq<char>) -> UnionScan {
    let t = trim(line);
    if starts_with(t, "union "@) && t.contains('{') {
        let parts = words(t);
        UnionScan {
            in_union: true,
            name: if parts.len() >= 2 {
                trim_set(parts[1], seq!['{'])
            } else {
                st.name
            },
            variants: seq![],
            unions: st.unions,
        }
    } else if st.in_union && starts_with(t, seq!['}']) {
        UnionScan {
            in_union: false,
            name: st.name,
            variants: st.variants,
            unions: st.unions.push(
                UnionModel { name: st.name, variants: st.variants, tag_field: None },
            ),
        }
    } else if st.in_union && t.contains(';') {
        let parts = words(trim_set(t, seq![';']));
        if parts.len() >= 2 {
            UnionScan {
                in_union: st.in_union,
                name: st.name,
                variants: st.variants.push(
                    UnionVariantModel {
                        field_name: trim_set(parts[1], seq!['*']),
                        field_type: parts[0],
                    },
                ),
                unions: st.unions,
            }
        } else {
            st
        }
    } else {
        st
    }
}

/// The union scan after the lines `ls`.
pub open spec fn union_scan(ls: Seq<Seq<char>>) -> UnionScan
    decreases ls.len(),
{
    if ls.len() == 0 {
        UnionScan { in_union: false, name: seq![], variants: seq![], unions: seq![] }
    } else {
        union_step(union_scan(ls.drop_last()), ls.last())
    }
}

/// The unions defined in `content`.
pub open spec fn spec_parse_c_unions(content: Seq<char>) -> Seq<UnionModel> {
    union_scan(lines(content)).unions
}

fn clone_variants(v: &Vec<UnionVariantAST>) -> (res: Vec<UnionVariantAST>)
    ensures
        res.deep_view() == v.deep_view(),
{
    let mut res: Vec<UnionVariantAST> = Vec::new();
    let mut i: usize = 0;
    while i < v.len()
        invariant
            i <= v@.len(),
            res@.len() == i,
            forall|k: int| 0 <= k < i ==> #[trigger] res@[k].deep_view() == v@[k].deep_view(),
        decreases v@.len() - i,
    {
        res.push(
            UnionVariantAST {
                field_name: v[i].field_name.clone(),
                field_type: v[i].field_type.clone(),
            },
        );
        i += 1;
    }
    assert(res.deep_view() =~= v.deep_view());
    res
}

/// The unions defined in `content`, one line at a time.
pub fn parse_c_unions(content: &str) -> (res: Vec<UnionAST>)
    ensures
        res.deep_view() == spec_parse_c_unions(content@),
{
    let ls = lines_of_str(content);
    let mut unions: Vec<UnionAST> = Vec::new();
    let mut in_union = false;
    let mut current_name: Vec<char> = Vec::new();
    let mut current_variants: Vec<UnionVariantAST> = Vec::new();
    let union_kw = chars_of("union ");
    let close_kw = one_char('}');
    let open_set = one_char('{');
    let semi_set = one_char(';');
    let star_set = one_char('*');
    let mut i: usize = 0;
    assert(unions.deep_view() =~= Seq::<UnionModel>::empty());
    assert(current_variants.deep_view() =~= Seq::<UnionVariantModel>::empty());
    assert(seqs_of(ls@).take(0) =~= Seq::<Seq<char>>::empty());
    while i < ls.len()
        invariant
            i <= ls@.len(),
            union_kw@ == "union "@,
            close_kw@ == seq!['}'],
            open_set@ == seq!['{'],
            semi_set@ == seq![';'],
            star_set@ == seq!['*'],
            union_scan(seqs_of(ls@).take(i as int)) == (UnionScan {
                in_union,
                name: current_name@,
                variants: current_variants.deep_view(),
                unions: unions.deep_view(),
            }),
        decreases ls@.len() - i,
    {
        proof {
            assert(seqs_of(ls@).take(i + 1).drop_last() =~= seqs_of(ls@).take(i as int));
        }
        let trimmed = trim_chars(&ls[i]);
        if starts_with_chars(&trimmed, &union_kw) && has_char(&trimmed, '{') {
            in_union = true;
            let parts = words_of(&trimmed);
            if parts.len() >= 2 {
                current_name = trim_set_exec(&parts[1], &open_set);
            }
            current_variants = Vec::new();
            assert(current_variants.deep_view() =~= Seq::<UnionVariantModel>::empty());
        } else if in_union && starts_with_chars(&trimmed, &close_kw) {
            in_union = false;
            let u = UnionAST {
                name: string_of(&current_name),
                variants: clone_variants(&current_variants),
                tag_field: None,
            };
            let ghost before = unions.deep_view();
            unions.push(u);
            assert(unions.deep_view() =~= before.push(u.deep_view()));
        } else if in_union && has_char(&trimmed, ';') {
            let inner = trim_set_exec(&trimmed, &semi_set);
            let parts = words_of(&inner);
            if parts.len() >= 2 {
                let field_type = string_of(&parts[0]);
                let field_name0 = trim_set_exec(&parts[1], &star_set);
                let v = UnionVariantAST { field_name: string_of(&field_name0), field_type };
                let ghost before = current_variants.deep_view();
                current_variants.push(v);
                assert(current_variants.deep_view() =~= before.push(v.deep_view()));
            }
        }
        i += 1;
    }
    assert(seqs_of(ls@).take(ls@.len() as int) =~= seqs_of(ls@));
    unions
}

/// The state of the line-by-line scan for struct definitions.
pub ghost struct StructScan {
    pub in_struct: bool,
    pub name: Seq<char>,
    pub fields: Seq<(Seq<char>, Seq<char>)>,
    pub structs: Seq<StructModel>,
}

/// The struct scan after one more line: a line that starts with `struct `
/// and holds `{` opens a definition, a line that starts with `}` closes it,
/// and inside a definition a line with `;` declares a field `type name`.
pub open spec fn struct_step(st: StructScan, line: Seq<char>) -> StructScan {
    let t = trim(line);
    if starts_with(t, "struct "@) && t.contains('{') {
        let parts = words(t);
        StructScan {
            in_struct: true,
            name: if parts.len() >= 2 {
                trim_set(parts[1], seq!['{'])
            } else {
                st.name
            },
            fields: seq![],
            structs: st.structs,
        }
    } else if st.in_struct && starts_with(t, seq!['}']) {
        StructScan {
            in_struct: false,
            name: st.name,
            fields: st.fields,
            structs: st.structs.push(StructModel { name: st.name, fields: st.fields }),
        }
    } else if st.in_struct && t.contains(';') {
        let parts = words(trim_set(t, seq![';']));
        if parts.len() >= 2 {
            StructScan {
                in_struct: st.in_struct,
                name: st.name,
                fields: st.fields.push((parts[1], parts[0])),
                structs: st.structs,
            }
        } else {
            st
        }
    } else {
        st
    }
}

/// The struct scan after the lines `ls`.
pub open spec fn struct_scan(ls: Seq<Seq<char>>) -> StructScan
    decreases ls.len(),
{
    if ls.len() == 0 {
        StructScan { in_struct: false, name: seq![], fields: seq![], structs: seq![] }
    } else {
        struct_step(struct_scan(ls.drop_last()), ls.last())
    }
}

/// The structs defined in `content`.
pub open spec fn spec_parse_c_structs(content: Seq<char>) -> Seq<StructModel> {
    struct_scan(lines(content)).structs
}

fn clone_fields(v: &Vec<(String, String)>) -> (res: Vec<(String, String)>)
    ensures
        res.deep_view() == v.deep_view(),
{
    let mut res: Vec<(String, String)> = Vec::new();
    let mut i: usize = 0;
    while i < v.len()
        invariant
            i <= v@.len(),
            res@.len() == i,
            forall|k: int| 0 <= k < i ==> #[trigger] res@[k].deep_view() == v@[k].deep_view(),
        decreases v@.len() - i,
    {
        res.push((v[i].0.clone(), v[i].1.clone()));
        i += 1;
    }
    assert(res.deep_view() =~= v.deep_view());
    res
}

/// The structs defined in `content`, one line at a time.
pub fn parse_c_structs(content: &str) -> (res: Vec<StructAST>)
    ensures
        res.deep_view() == spec_parse_c_structs(content@),
{
    let ls = lines_of_str(content);
    let mut structs: Vec<StructAST> = Vec::new();
    let mut in_struct = false;
    let mut current_name: Vec<char> = Vec::new();
    let mut current_fields: Vec<(String, String)> = Vec::new();
    let struct_kw = chars_of("struct ");
    let close_kw = one_char('}');
    let open_set = one_char('{');
    let semi_set = one_char(';');
    let mut i: usize = 0;
    assert(structs.deep_view() =~= Seq::<StructModel>::empty());
    assert(current_fields.deep_view() =~= Seq::<(Seq<char>, Seq<char>)>::empty());
    assert(seqs_of(ls@).take(0) =~= Seq::<Seq<char>>::empty());
    while i < ls.len()
        invariant
            i <= ls@.len(),
            struct_kw@ == "struct "@,
            close_kw@ == seq!['}'],
            open_set@ == seq!['{'],
            semi_set@ == seq![';'],
            struct_scan(seqs_of(ls@).take(i as int)) == (StructScan {
                in_struct,
                name: current_name@,
                fields: current_fields.deep_view(),
                structs: structs.deep_view(),
            }),
        decreases ls@.len() - i,
    {
        proof {
            assert(seqs_of(ls@).take(i + 1).drop_last() =~= seqs_of(ls@).take(i as int));
        }
        let trimmed = trim_chars(&ls[i]);
        if starts_with_chars(&trimmed, &struct_kw) && has_char(&trimmed, '{') {
            in_struct = true;
            let parts = words_of(&trimmed);
            if parts.len() >= 2 {
                current_name = trim_set_exec(&parts[1], &open_set);
            }
            current_fields = Vec::new();
            assert(current_fields.deep_view() =~= Seq::<(Seq<char>, Seq<char>)>::empty());
        } else if in_struct && starts_with_chars(&trimmed, &close_kw) {
            in_struct = false;
            let st = StructAST { name: string_of(&current_name), fields: clone_fields(&current_fields) };
            let ghost before = structs.deep_view();
            structs.push(st);
            assert(structs.deep_view() =~= before.push(st.deep_view()));
        } else if in_struct && has_char(&trimmed, ';') {
            let inner = trim_set_exec(&trimmed, &semi_set);
            let parts = words_of(&inner);
            if parts.len() >= 2 {
                let field = (string_of(&parts[1]), string_of(&parts[0]));
                let ghost before = current_fields.deep_view();
                current_fields.push(field);
                assert(current_fields.deep_view() =~= before.push(field.deep_view()));
            }
        }
        i += 1;
    }
    assert(seqs_of(ls@).take(ls@.len() as int) =~= seqs_of(ls@));
    structs
}

// ---------------------------------------------------------------------
// Functions
// ---------------------------------------------------------------------

/// A body line that is read as a call: it holds `(` and `)`, ends with `;`
/// and does not start with `if`, `while`, `for` or `return`.
pub open spec fn is_call_line(l: Seq<char>) -> bool {
    &&& l.contains('(')
    &&& l.contains(')')
    &&& ends_with(l, seq![';'])
    &&& !starts_with(l, "if"@)
    &&& !starts_with(l, "while"@)
    &&& !starts_with(l, "for"@)
    &&& !starts_with(l, "return"@)
}

/// The state of the scan of a function body.
pub ghost struct BodyScan {
    /// Open braces minus closed braces so far.
    pub count: int,
    /// A `{` has been seen.
    pub started: bool,
    /// The trimmed lines from the first one with a `{` on.
    pub body: Seq<Seq<char>>,
    pub calls: Seq<CallSiteModel>,
    /// The line where the braces balance again.
    pub end: Option<int>,
    /// Some call line would slice its text backwards.
    pub panics: bool,
}

/// The body scan before any line.
pub open spec fn body_init() -> BodyScan {
    BodyScan { count: 0, started: false, body: seq![], calls: seq![], end: None, panics: false }
}

/// The body scan over the lines `ls[k..]`: braces are counted per line;
/// from the first line with a `{` on, each line belongs to the body and
/// call lines are parsed; the scan ends after the line where the count
/// returns to zero.
pub open spec fn body_scan(ls: Seq<Seq<char>>, k: int, st: BodyScan) -> BodyScan
    decreases ls.len() - k,
{
    if k < 0 || k >= ls.len() {
        st
    } else {
        let l = trim(ls[k]);
        let count = st.count + count_char(l, '{') - count_char(l, '}');
        let started = st.started || l.contains('{');
        if !started {
            body_scan(
                ls,
                k + 1,
                BodyScan {
                    count,
                    started,
                    body: st.body,
                    calls: st.calls,
                    end: st.end,
                    panics: st.panics,
                },
            )
        } else {
            let call = is_call_line(l);
            let calls = if call {
                match spec_parse_call_site(l, (k + 1) as usize) {
                    Some(c) => st.calls.push(c),
                    None => st.calls,
                }
            } else {
                st.calls
            };
            let panics = st.panics || (call && call_site_panics(l));
            if count == 0 {
                BodyScan { count, started, body: st.body.push(l), calls, end: Some(k), panics }
            } else {
                body_scan(
                    ls,
                    k + 1,
                    BodyScan { count, started, body: st.body.push(l), calls, end: st.end, panics },
                )
            }
        }
    }
}

pub proof fn lemma_body_scan(ls: Seq<Seq<char>>, k: int, st: BodyScan)
    requires
        0 <= k,
        st.end is None,
    ensures
        body_scan(ls, k, st).end matches Some(e) ==> k <= e < ls.len(),
        st.panics ==> body_scan(ls, k, st).panics,
    decreases ls.len() - k,
{
    if k < ls.len() {
        let l = trim(ls[k]);
        let count = st.count + count_char(l, '{') - count_char(l, '}');
        let started = st.started || l.contains('{');
        let call = is_call_line(l);
        let calls = if call {
            match spec_parse_call_site(l, (k + 1) as usize) {
                Some(c) => st.calls.push(c),
                None => st.calls,
            }
        } else {
            st.calls
        };
        let panics = st.panics || (call && call_site_panics(l));
        if !started {
            lemma_body_scan(
                ls,
                k + 1,
                BodyScan {
                    count,
                    started,
                    body: st.body,
                    calls: st.calls,
                    end: st.end,
                    panics: st.panics,
                },
            );
        } else if count != 0 {
            lemma_body_scan(
                ls,
                k + 1,
                BodyScan { count, started, body: st.body.push(l), calls, end: st.end, panics },
            );
        }
    }
}

/// What parsing a signature yields: the function, the index of the line
/// where the scan stopped, and whether it would panic.
pub ghost struct SigResult {
    pub func: Option<FunctionModel>,
    pub next: int,
    pub panics: bool,
}

/// The function whose signature is `sig` (the text of line `start` of `ls`):
/// `head(params)`, where the last word of `head` is the name and the others
/// the return type; its body is scanned from line `start` on.
pub open spec fn spec_parse_signature(sig: Seq<char>, ls: Seq<Seq<char>>, start: int) -> SigResult {
    match (find(sig, seq!['(']), rfind_char(sig, ')')) {
        (Some(open), Some(close)) => {
            let head = words(trim(sig.subrange(0, open)));
            if head.len() < 2 {
                SigResult { func: None, next: start, panics: false }
            } else if close < open + 1 {
                SigResult { func: None, next: start, panics: true }
            } else {
                let st = body_scan(ls, start, body_init());
                SigResult {
                    func: Some(
                        FunctionModel {
                            name: trim_set(head.last(), seq!['*']),
                            return_type: join(head.drop_last(), " "@),
                            parameters: spec_parse_parameters(trim(sig.subrange(open + 1, close))),
                            body_code: join(st.body, "\n"@),
                            call_sites: st.calls,
                        },
                    ),
                    next: match st.end {
                        Some(e) => e,
                        None => start,
                    },
                    panics: st.panics,
                }
            }
        },
        _ => SigResult { func: None, next: start, panics: false },
    }
}

pub proof fn lemma_signature_next(sig: Seq<char>, ls: Seq<Seq<char>>, start: int)
    requires
        0 <= start < ls.len(),
    ensures
        start <= spec_parse_signature(sig, ls, start).next < ls.len(),
{
    lemma_body_scan(ls, start, body_init());
}

/// Line `i` of `ls` opens a function definition: it holds `(` and `)` and
/// ends with `{`, or the next line is `{` alone.
pub open spec fn fn_candidate(ls: Seq<Seq<char>>, i: int) -> bool {
    let l = trim(ls[i]);
    &&& l.contains('(')
    &&& l.contains(')')
    &&& (ends_with(l, seq!['{']) || (i + 1 < ls.len() && trim(ls[i + 1]) == seq!['{']))
}

/// The signature text of a (trimmed) candidate line: without a final `{`.
pub open spec fn signature_text(l: Seq<char>) -> Seq<char> {
    if ends_with(l, seq!['{']) {
        trim(trim_end_set(l, seq!['{']))
    } else {
        l
    }
}

/// The functions found scanning the lines `ls[i..]`, and whether the scan
/// would panic.
pub ghost struct FnScan {
    pub functions: Seq<FunctionModel>,
    pub panics: bool,
}

/// The function scan from line `i`: a candidate line is parsed as a
/// signature and the scan resumes after the line where its body ended.
pub open spec fn fn_scan(ls: Seq<Seq<char>>, i: int) -> FnScan
    decreases ls.len() - i,
{
    if i < 0 || i >= ls.len() {
        FnScan { functions: seq![], panics: false }
    } else if fn_candidate(ls, i) {
        let r = spec_parse_signature(signature_text(trim(ls[i])), ls, i);
        proof {
            lemma_signature_next(signature_text(trim(ls[i])), ls, i);
        }
        let rest = fn_scan(ls, r.next + 1);
        FnScan {
            functions: match r.func {
                Some(f) => seq![f] + rest.functions,
                None => rest.functions,
            },
            panics: r.panics || rest.panics,
        }
    } else {
        fn_scan(ls, i + 1)
    }
}

/// The functions defined in `content`.
pub open spec fn spec_parse_c_functions(content: Seq<char>) -> Seq<FunctionModel> {
    fn_scan(lines(content), 0).functions
}

/// Parsing the functions of `content` would slice a signature or a call
/// line backwards (its last `)` stands before its first `(`).
pub open spec fn functions_parse_panics(content: Seq<char>) -> bool {
    fn_scan(lines(content), 0).panics
}

fn is_call_line_exec(l: &Vec<char>) -> (res: bool)
    ensures
        res == is_call_line(l@),
{
    let semi = one_char(';');
    let if_kw = chars_of("if");
    let while_kw = chars_of("while");
    let for_kw = chars_of("for");
    let return_kw = chars_of("return");
    has_char(l, '(') && has_char(l, ')') && ends_with_chars(l, &semi) && !starts_with_chars(
        l,
        &if_kw,
    ) && !starts_with_chars(l, &while_kw) && !starts_with_chars(l, &for_kw)
        && !starts_with_chars(l, &return_kw)
}

/// Scans the body that starts at line `start`: the body lines, the calls
/// found in them, and the line where the braces balance.
fn scan_body(lines: &Vec<Vec<char>>, start: usize) -> (res: Option<
    (Vec<Vec<char>>, Vec<CallSiteAST>, Option<usize>),
>)
    requires
        start <= lines@.len(),
        total_len(seqs_of(lines@)) <= usize::MAX,
    ensures
        ({
            let st = body_scan(seqs_of(lines@), start as int, body_init());
            &&& res is None <==> st.panics
            &&& res matches Some(r) ==> {
                &&& seqs_of(r.0@) == st.body
                &&& r.1.deep_view() == st.calls
                &&& match r.2 {
                    Some(e) => st.end == Some(e as int),
                    None => st.end is None,
                }
            }
        }),
{
    let ghost ls = seqs_of(lines@);
    let n = lines.len();
    let mut count: i128 = 0;
    let mut started = false;
    let mut body: Vec<Vec<char>> = Vec::new();
    let mut calls: Vec<CallSiteAST> = Vec::new();
    let mut k = start;
    let ghost mut scanned: int = 0;
    assert(seqs_of(body@) =~= Seq::<Seq<char>>::empty());
    assert(calls.deep_view() =~= Seq::<CallSiteModel>::empty());
    proof {
        lemma_total_len_skip_le(ls, start as int);
    }
    while k < n
        invariant
            start <= k <= n == ls.len(),
            ls == seqs_of(lines@),
            body_scan(ls, start as int, body_init()) == body_scan(
                ls,
                k as int,
                BodyScan {
                    count: count as int,
                    started,
                    body: seqs_of(body@),
                    calls: calls.deep_view(),
                    end: None,
                    panics: false,
                },
            ),
            -scanned <= count <= scanned,
            scanned + total_len(ls.skip(k as int)) <= total_len(ls),
            total_len(ls) <= usize::MAX,
        decreases n - k,
    {
        let l = trim_chars(&lines[k]);
        let opens = count_char_exec(&l, '{');
        let closes = count_char_exec(&l, '}');
        proof {
            lemma_trim_len(ls[k as int]);
            lemma_count_char_le(l@, '{');
            lemma_count_char_le(l@, '}');
            lemma_total_len_skip(ls, k as int);
            scanned = scanned + ls[k as int].len();
        }
        count = count + opens as i128 - closes as i128;
        started = started || has_char(&l, '{');
        if started {
            let call = is_call_line_exec(&l);
            let ghost old_calls = calls.deep_view();
            let ghost cur = BodyScan {
                count: count as int,
                started,
                body: seqs_of(body@).push(l@),
                calls: if call {
                    match spec_parse_call_site(l@, (k + 1) as usize) {
                        Some(c) => old_calls.push(c),
                        None => old_calls,
                    }
                } else {
                    old_calls
                },
                end: None,
                panics: call && call_site_panics(l@),
            };
            proof {
                if count != 0 {
                    lemma_body_scan(ls, k + 1, cur);
                }
            }
            if call && call_site_panics_exec(&l) {
                return None;
            }
            if call {
                match parse_call_site(&l, k + 1) {
                    Some(c) => {
                        calls.push(c);
                        assert(calls.deep_view() =~= old_calls.push(c.deep_view()));
                    },
                    None => {},
                }
            }
            proof {
                lemma_seqs_of_push(body@, l);
            }
            body.push(l);
            if count == 0 {
                return Some((body, calls, Some(k)));
            }
        }
        k += 1;
    }
    Some((body, calls, None))
}

/// Parses the function whose signature is `sig_line` (the text of line
/// `*line_idx` of `lines`), and moves `*line_idx` to the line where its
/// body ends.
fn parse_single_function_signature(
    sig_line: &Vec<char>,
    lines: &Vec<Vec<char>>,
    line_idx: &mut usize,
) -> (res: Option<Option<FunctionAST>>)
    requires
        *old(line_idx) < lines@.len(),
        total_len(seqs_of(lines@)) <= usize::MAX,
    ensures
        ({
            let r = spec_parse_signature(sig_line@, seqs_of(lines@), *old(line_idx) as int);
            &&& res is None <==> r.panics
            &&& res matches Some(f) ==> f.deep_view() == r.func && *final(line_idx) as int
                == r.next
        }),
{
    let open_pat = one_char('(');
    let open_paren = match find_chars(sig_line, &open_pat) {
        Some(k) => k,
        None => return Some(None),
    };
    let close_paren = match rfind_char_exec(sig_line, ')') {
        Some(k) => k,
        None => return Some(None),
    };
    proof {
        lemma_find_from(sig_line@, seq!['('], 0);
        lemma_rfind_char(sig_line@, ')');
    }
    let head0 = copy_range(sig_line, 0, open_paren);
    let head1 = trim_chars(&head0);
    let head_parts = words_of(&head1);
    if head_parts.len() < 2 {
        return Some(None);
    }
    if close_paren <= open_paren {
        return None;
    }
    let space = chars_of(" ");
    let return_type = join_init(&head_parts, &space);
    let star = one_char('*');
    let func_name = trim_set_exec(&head_parts[head_parts.len() - 1], &star);
    let params0 = copy_range(sig_line, open_paren + 1, close_paren);
    let params1 = trim_chars(&params0);
    let parameters = parse_parameters(&params1);
    let (body_lines, call_sites, end) = match scan_body(lines, *line_idx) {
        Some(r) => r,
        None => return None,
    };
    match end {
        Some(e) => {
            *line_idx = e;
        },
        None => {},
    }
    let newline = chars_of("\n");
    let body_code = join_chars(&body_lines, &newline);
    Some(
        Some(FunctionAST {
            name: string_of(&func_name),
            return_type: string_of(&return_type),
            parameters,
            body_code: string_of(&body_code),
            call_sites,
        }),
    )
}

/// The functions defined in `content`, with the calls in their bodies, or
/// nothing when parsing them would slice a line backwards.
fn try_parse_c_functions(content: &[char]) -> (res: Option<Vec<FunctionAST>>)
    ensures
        res is None <==> functions_parse_panics(content@),
        res matches Some(v) ==> v.deep_view() == spec_parse_c_functions(content@),
{
    let all_lines = lines_of(content);
    let ghost ls = seqs_of(all_lines@);
    let content_len = content.len();
    proof {
        lemma_total_len_lines(content@);
    }
    let n = all_lines.len();
    let mut functions: Vec<FunctionAST> = Vec::new();
    let open_brace = one_char('{');
    let mut i: usize = 0;
    assert(functions.deep_view() =~= Seq::<FunctionModel>::empty());
    assert(fn_scan(ls, 0).functions =~= functions.deep_view() + fn_scan(ls, 0).functions);
    while i < n
        invariant
            i <= n == ls.len(),
            ls == seqs_of(all_lines@),
            ls == lines(content@),
            open_brace@ == seq!['{'],
            total_len(ls) <= usize::MAX,
            fn_scan(ls, 0).functions == functions.deep_view() + fn_scan(ls, i as int).functions,
            fn_scan(ls, 0).panics == fn_scan(ls, i as int).panics,
        decreases n - i,
    {
        let line = trim_chars(&all_lines[i]);
        let ends_open = ends_with_chars(&line, &open_brace);
        let mut next_open = false;
        if !ends_open && i + 1 < n {
            let next = trim_chars(&all_lines[i + 1]);
            next_open = seq_eq(&next, &open_brace);
        }
        if has_char(&line, '(') && has_char(&line, ')') && (ends_open || next_open) {
            let sig_line = if ends_open {
                let t = trim_end_set_exec(&line, &open_brace);
                trim_chars(&t)
            } else {
                line
            };
            let mut idx = i;
            proof {
                lemma_signature_next(sig_line@, ls, i as int);
            }
            let ghost before = functions.deep_view();
            match parse_single_function_signature(&sig_line, &all_lines, &mut idx) {
                None => return None,
                Some(None) => {},
                Some(Some(func)) => {
                    functions.push(func);
                    assert(functions.deep_view() =~= before.push(func.deep_view()));
                },
            }
            let ghost r = spec_parse_signature(sig_line@, ls, i as int);
            assert(fn_scan(ls, 0).functions =~= functions.deep_view() + fn_scan(
                ls,
                idx + 1,
            ).functions);
            i = idx + 1;
        } else {
            i += 1;
        }
    }
    Some(functions)
}

// ---------------------------------------------------------------------
// The translation unit
// ---------------------------------------------------------------------

/// The AST of `content`: its functions, unions and structs.
pub open spec fn spec_construct_ast(content: Seq<char>) -> TranslationUnitModel {
    TranslationUnitModel {
        functions: spec_parse_c_functions(content),
        unions: spec_parse_c_unions(content),
        structs: spec_parse_c_structs(content),
    }
}

/// Whether parsing the functions of `content` would slice a signature or a
/// call line backwards, which `construct_ast` does not accept.
pub fn function_parse_panics(content: &str) -> (res: bool)
    ensures
        res == functions_parse_panics(content@),
{
    let chars = chars_of(content);
    try_parse_c_functions(&chars).is_none()
}

/// The functions defined in `content`, with the calls in their bodies.
/// Parsing panics on a signature or call line that it would slice
/// backwards, which `requires` leaves out.
pub fn parse_c_functions(content: &str) -> (res: Vec<FunctionAST>)
    requires
        !functions_parse_panics(content@),
    ensures
        res.deep_view() == spec_parse_c_functions(content@),
{
    let chars = chars_of(content);
    match try_parse_c_functions(&chars) {
        Some(functions) => functions,
        None => Vec::new(),
    }
}

/// Builds the AST of the preprocessed source.
pub fn construct_ast(expanded: &ExpandedCSource) -> (res: Result<TranslationUnitAST, ASTError>)
    requires
        !functions_parse_panics(expanded.expanded_content@),
    ensures
        res matches Ok(ast) && ast.deep_view() == spec_construct_ast(
            expanded.expanded_content@,
        ),
{
    let mut ast = TranslationUnitAST::new();
    ast.unions = parse_c_unions(expanded.expanded_content.as_str());
    ast.structs = parse_c_structs(expanded.expanded_content.as_str());
    ast.functions = parse_c_functions(expanded.expanded_content.as_str());
    Ok(ast)
}

} // verus!
