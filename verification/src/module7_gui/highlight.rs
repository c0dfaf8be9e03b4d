//! Syntax highlighting of code lines: tokens and their classes.
use vstd::prelude::*;

use crate::text::{
    chars_of, lines, seq_eq, starts_with, str_starts_with, string_of, trim, trim_chars,
};

verus! {

broadcast use vstd::string::group_string_axioms;

/// Whether `char::is_alphanumeric` holds of `c`.
pub uninterp spec fn alphanumeric(c: char) -> bool;

/// Whether `char::is_numeric` holds of `c`.
pub uninterp spec fn numeric(c: char) -> bool;

/// `char::is_alphanumeric`. The result is named by `alphanumeric`; no more
/// of it is stated.
#[verifier::external_body]
fn char_is_alphanumeric(c: char) -> (res: bool)
    ensures
        res == alphanumeric(c),
{
    c.is_alphanumeric()
}

/// `char::is_numeric`. The result is named by `numeric`; no more of it is
/// stated.
#[verifier::external_body]
fn char_is_numeric(c: char) -> (res: bool)
    ensures
        res == numeric(c),
{
    c.is_numeric()
}

/// A character that continues a word: alphanumeric or `_`.
pub open spec fn word_char(c: char) -> bool {
    alphanumeric(c) || c == '_'
}

/// The tokens finished so far and the word being read.
pub ghost struct TokState {
    pub tokens: Seq<Seq<char>>,
    pub current: Seq<char>,
}

/// The tokenizer after one more character: a word character extends the
/// current word; any other character ends it and is a token of its own.
pub open spec fn tok_step(st: TokState, c: char) -> TokState {
    if word_char(c) {
        TokState { tokens: st.tokens, current: st.current.push(c) }
    } else {
        let ts = if st.current.len() > 0 {
            st.tokens.push(st.current)
        } else {
            st.tokens
        };
        TokState { tokens: ts.push(seq![c]), current: seq![] }
    }
}

/// The tokenizer after the characters `s`.
pub open spec fn tok_fold(s: Seq<char>) -> TokState
    decreases s.len(),
{
    if s.len() == 0 {
        TokState { tokens: seq![], current: seq![] }
    } else {
        tok_step(tok_fold(s.drop_last()), s.last())
    }
}

/// The tokens of a line: maximal runs of word characters, and every other
/// character alone.
pub open spec fn spec_tokenize(s: Seq<char>) -> Seq<Seq<char>> {
    let st = tok_fold(s);
    if st.current.len() > 0 {
        st.tokens.push(st.current)
    } else {
        st.tokens
    }
}

/// Splits a line into tokens for highlighting.
pub fn tokenize_code_line(line: &str) -> (res: Vec<String>)
    ensures
        res.deep_view() == spec_tokenize(line@),
{
    let s = chars_of(line);
    let mut tokens: Vec<String> = Vec::new();
    let mut current: Vec<char> = Vec::new();
    let mut i: usize = 0;
    assert(s@.take(0) =~= Seq::<char>::empty());
    while i < s.len()
        invariant
            i <= s@.len(),
            tokens.deep_view() == tok_fold(s@.take(i as int)).tokens,
            current@ == tok_fold(s@.take(i as int)).current,
        decreases s@.len() - i,
    {
        assert(s@.take(i + 1).drop_last() =~= s@.take(i as int));
        let c = s[i];
        if char_is_alphanumeric(c) || c == '_' {
            current.push(c);
        } else {
            if current.len() > 0 {
                let ghost before = tokens.deep_view();
                let w = string_of(&current);
                tokens.push(w);
                assert(tokens.deep_view() =~= before.push(current@));
                current = Vec::new();
            }
            let ghost before = tokens.deep_view();
            let mut one: Vec<char> = Vec::new();
            one.push(c);
            let t = string_of(&one);
            tokens.push(t);
            assert(tokens.deep_view() =~= before.push(seq![c]));
            assert(current@ =~= Seq::<char>::empty());
        }
        i += 1;
    }
    assert(s@.take(s@.len() as int) =~= s@);
    if current.len() > 0 {
        let ghost before = tokens.deep_view();
        let w = string_of(&current);
        tokens.push(w);
        assert(tokens.deep_view() =~= before.push(current@));
    }
    tokens
}

/// Every token holds at least one character, and the tokens put back
/// together give the line: no character is lost, added or moved.
pub proof fn lemma_tokenize_partitions(s: Seq<char>)
    ensures
        spec_tokenize(s).flatten() == s,
        forall|k: int| 0 <= k < spec_tokenize(s).len() ==> #[trigger] spec_tokenize(s)[k].len() > 0,
{
    lemma_tok_fold(s);
    let st = tok_fold(s);
    if st.current.len() > 0 {
        st.tokens.lemma_flatten_push(st.current);
    }
}

proof fn lemma_tok_fold(s: Seq<char>)
    ensures
        tok_fold(s).tokens.flatten() + tok_fold(s).current == s,
        forall|k: int| 0 <= k < tok_fold(s).tokens.len() ==> #[trigger] tok_fold(s).tokens[k].len() > 0,
    decreases s.len(),
{
    if s.len() > 0 {
        let init = s.drop_last();
        lemma_tok_fold(init);
        let st = tok_fold(init);
        let c = s.last();
        assert(init.push(c) =~= s);
        if word_char(c) {
            assert(st.tokens.flatten() + st.current.push(c) =~= (st.tokens.flatten() + st.current).push(c));
        } else {
            let ts = if st.current.len() > 0 {
                st.tokens.push(st.current)
            } else {
                st.tokens
            };
            if st.current.len() > 0 {
                st.tokens.lemma_flatten_push(st.current);
            } else {
                assert(st.tokens.flatten() + st.current =~= st.tokens.flatten());
            }
            ts.lemma_flatten_push(seq![c]);
            assert(ts.flatten() + seq![c] =~= init.push(c));
            assert(tok_fold(s).tokens.flatten() + tok_fold(s).current =~= ts.push(seq![c]).flatten());
        }
    }
}

// ---------------------------------------------------------------------
// Classes of tokens and lines
// ---------------------------------------------------------------------

/// How a token is coloured.
#[derive(Debug, Clone, Copy, PartialEq, Eq, Structural)]
pub enum TokenClass {
    Keyword,
    TypeName,
    KnownFunction,
    Number,
    PointerOperator,
    Plain,
}

/// A C or Rust keyword.
pub open spec fn is_keyword(t: Seq<char>) -> bool {
    ||| t == "int"@ ||| t == "char"@ ||| t == "float"@ ||| t == "double"@ ||| t == "void"@
    ||| t == "struct"@ ||| t == "union"@ ||| t == "return"@ ||| t == "if"@ ||| t == "else"@
    ||| t == "for"@ ||| t == "while"@ ||| t == "typedef"@ ||| t == "sizeof"@ ||| t == "NULL"@
    ||| t == "pub"@ ||| t == "fn"@ ||| t == "let"@ ||| t == "mut"@ ||| t == "enum"@
    ||| t == "match"@ ||| t == "use"@ ||| t == "mod"@ ||| t == "impl"@ ||| t == "Box"@
    ||| t == "Vec"@ ||| t == "Option"@
}

/// A primitive or standard type name.
pub open spec fn is_type_name(t: Seq<char>) -> bool {
    ||| t == "i32"@ ||| t == "u8"@ ||| t == "f32"@ ||| t == "f64"@ ||| t == "i64"@
    ||| t == "i16"@ ||| t == "usize"@ ||| t == "isize"@ ||| t == "bool"@ ||| t == "String"@
    ||| t == "str"@
}

/// A function name the highlighter knows.
pub open spec fn is_known_function(t: Seq<char>) -> bool {
    ||| t == "main"@ ||| t == "swap"@ ||| t == "printf"@ ||| t == "scanf"@ ||| t == "malloc"@
    ||| t == "free"@ ||| t == "println"@ ||| t == "format"@ ||| t == "create_buffer"@
    ||| t == "release_buffer"@ ||| t == "combine_slices"@ ||| t == "update_twin_counters"@
}

/// A pointer operator.
pub open spec fn is_pointer_operator(t: Seq<char>) -> bool {
    t == "*"@ || t == "&"@ || t == "->"@ || t == "**"@
}

/// The class of a token, judged on its trimmed text: keywords, then type
/// names, known functions, numbers (a text of numeric characters only, the
/// empty one included), pointer operators, and plain text.
pub open spec fn spec_token_class(token: Seq<char>) -> TokenClass {
    let t = trim(token);
    if is_keyword(t) {
        TokenClass::Keyword
    } else if is_type_name(t) {
        TokenClass::TypeName
    } else if is_known_function(t) {
        TokenClass::KnownFunction
    } else if forall|k: int| 0 <= k < t.len() ==> numeric(#[trigger] t[k]) {
        TokenClass::Number
    } else if is_pointer_operator(t) {
        TokenClass::PointerOperator
    } else {
        TokenClass::Plain
    }
}

fn is(t: &Vec<char>, w: &str) -> (res: bool)
    ensures
        res == (t@ == w@),
{
    let wc = chars_of(w);
    seq_eq(t, &wc)
}

fn all_numeric(t: &Vec<char>) -> (res: bool)
    ensures
        res == forall|k: int| 0 <= k < t@.len() ==> numeric(#[trigger] t@[k]),
{
    let mut i: usize = 0;
    while i < t.len()
        invariant
            i <= t@.len(),
            forall|k: int| 0 <= k < i ==> numeric(#[trigger] t@[k]),
        decreases t@.len() - i,
    {
        if !char_is_numeric(t[i]) {
            return false;
        }
        i += 1;
    }
    true
}

/// The class of a token, which decides its colour.
pub fn token_class(token: &str) -> (res: TokenClass)
    ensures
        res == spec_token_class(token@),
{
    let tc = chars_of(token);
    let t = trim_chars(&tc);
    let keyword = is(&t, "int") || is(&t, "char") || is(&t, "float") || is(&t, "double") || is(
        &t,
        "void",
    ) || is(&t, "struct") || is(&t, "union") || is(&t, "return") || is(&t, "if") || is(&t, "else")
        || is(&t, "for") || is(&t, "while") || is(&t, "typedef") || is(&t, "sizeof") || is(
        &t,
        "NULL",
    ) || is(&t, "pub") || is(&t, "fn") || is(&t, "let") || is(&t, "mut") || is(&t, "enum") || is(
        &t,
        "match",
    ) || is(&t, "use") || is(&t, "mod") || is(&t, "impl") || is(&t, "Box") || is(&t, "Vec") || is(
        &t,
        "Option",
    );
    if keyword {
        return TokenClass::Keyword;
    }
    let is_type = is(&t, "i32") || is(&t, "u8") || is(&t, "f32") || is(&t, "f64") || is(&t, "i64")
        || is(&t, "i16") || is(&t, "usize") || is(&t, "isize") || is(&t, "bool") || is(
        &t,
        "String",
    ) || is(&t, "str");
    if is_type {
        return TokenClass::TypeName;
    }
    let function = is(&t, "main") || is(&t, "swap") || is(&t, "printf") || is(&t, "scanf") || is(
        &t,
        "malloc",
    ) || is(&t, "free") || is(&t, "println") || is(&t, "format") || is(&t, "create_buffer") || is(
        &t,
        "release_buffer",
    ) || is(&t, "combine_slices") || is(&t, "update_twin_counters");
    if function {
        return TokenClass::KnownFunction;
    }
    if all_numeric(&t) {
        return TokenClass::Number;
    }
    if is(&t, "*") || is(&t, "&") || is(&t, "->") || is(&t, "**") {
        return TokenClass::PointerOperator;
    }
    TokenClass::Plain
}

/// How a whole line is shown.
#[derive(Debug, Clone, Copy, PartialEq, Eq, Structural)]
pub enum LineClass {
    /// A comment line, shown in one colour.
    Comment,
    /// A preprocessor line, shown in one colour.
    Directive,
    /// Any other line, shown token by token.
    Code,
}

/// The class of a line, judged on its trimmed text: `//`, `/*` or `*`
/// opens a comment, `#` a directive.
pub open spec fn spec_line_class(line: Seq<char>) -> LineClass {
    let t = trim(line);
    if starts_with(t, "//"@) || starts_with(t, "/*"@) || starts_with(t, "*"@) {
        LineClass::Comment
    } else if starts_with(t, "#"@) {
        LineClass::Directive
    } else {
        LineClass::Code
    }
}

/// The class of a line.
pub fn line_class(line: &str) -> (res: LineClass)
    ensures
        res == spec_line_class(line@),
{
    let t = crate::text::trim_str(line);
    if str_starts_with(&t, "//") || str_starts_with(&t, "/*") || str_starts_with(&t, "*") {
        LineClass::Comment
    } else if str_starts_with(&t, "#") {
        LineClass::Directive
    } else {
        LineClass::Code
    }
}

} // verus!
