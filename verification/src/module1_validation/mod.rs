//! Input acceptance: decides whether the bytes of a file are a C source
//! that the pipeline can take, and checks its braces, parentheses, quotes
//! and comments before parsing.
use vstd::prelude::*;

use crate::text::{chars_of, decimal, decimal_exec, lines, lines_of, string_of, trim, trim_chars};

verus! {

broadcast use vstd::string::group_string_axioms;

/// A C input file that passed validation.
#[derive(Debug)]
pub struct ValidatedCSource {
    pub file_path: String,
    pub raw_content: String,
    pub line_count: usize,
    pub byte_size: usize,
}

/// The value a `ValidatedCSource` stands for.
pub ghost struct ValidatedModel {
    pub file_path: Seq<char>,
    pub raw_content: Seq<char>,
    pub line_count: usize,
    pub byte_size: usize,
}

impl DeepView for ValidatedCSource {
    type V = ValidatedModel;

    open spec fn deep_view(&self) -> ValidatedModel {
        ValidatedModel {
            file_path: self.file_path@,
            raw_content: self.raw_content@,
            line_count: self.line_count,
            byte_size: self.byte_size,
        }
    }
}

impl ValidatedCSource {
    /// A copy of this source.
    pub fn duplicate(&self) -> (res: Self)
        ensures
            res.deep_view() == self.deep_view(),
    {
        ValidatedCSource {
            file_path: self.file_path.clone(),
            raw_content: self.raw_content.clone(),
            line_count: self.line_count,
            byte_size: self.byte_size,
        }
    }
}

/// Errors that can occur during input acceptance and validation.
#[derive(Debug)]
pub enum ValidationError {
    FileNotFound(String),
    InvalidExtension(String),
    FileNotReadable(String),
    InvalidEncoding(String),
    EmptyFile(String),
    PreflightLexicalError(String),
}

/// The value a `ValidationError` stands for.
pub ghost enum ValidationErrorModel {
    FileNotFound(Seq<char>),
    InvalidExtension(Seq<char>),
    FileNotReadable(Seq<char>),
    InvalidEncoding(Seq<char>),
    EmptyFile(Seq<char>),
    PreflightLexicalError(Seq<char>),
}

impl DeepView for ValidationError {
    type V = ValidationErrorModel;

    open spec fn deep_view(&self) -> ValidationErrorModel {
        match self {
            ValidationError::FileNotFound(m) => ValidationErrorModel::FileNotFound(m@),
            ValidationError::InvalidExtension(m) => ValidationErrorModel::InvalidExtension(m@),
            ValidationError::FileNotReadable(m) => ValidationErrorModel::FileNotReadable(m@),
            ValidationError::InvalidEncoding(m) => ValidationErrorModel::InvalidEncoding(m@),
            ValidationError::EmptyFile(m) => ValidationErrorModel::EmptyFile(m@),
            ValidationError::PreflightLexicalError(m) => ValidationErrorModel::PreflightLexicalError(
                m@,
            ),
        }
    }
}

fn concat_str(a: &str, b: &str) -> (res: String)
    ensures
        res@ == a@ + b@,
{
    let mut res = String::from_str(a);
    res.append(b);
    res
}

/// The message that a validation error displays.
pub open spec fn spec_error_message(e: ValidationErrorModel) -> Seq<char> {
    match e {
        ValidationErrorModel::FileNotFound(m) => "File Not Found Error: "@ + m,
        ValidationErrorModel::InvalidExtension(m) => "Invalid Extension Error: "@ + m,
        ValidationErrorModel::FileNotReadable(m) => "File Read Error: "@ + m,
        ValidationErrorModel::InvalidEncoding(m) => "Invalid Encoding Error: "@ + m,
        ValidationErrorModel::EmptyFile(m) => "Empty File Error: "@ + m,
        ValidationErrorModel::PreflightLexicalError(m) => "Lexical Validation Error: "@ + m,
    }
}

impl ValidationError {
    /// The message the error displays.
    pub fn message(&self) -> (res: String)
        ensures
            res@ == spec_error_message(self.deep_view()),
    {
        match self {
            ValidationError::FileNotFound(m) => concat_str("File Not Found Error: ", m.as_str()),
            ValidationError::InvalidExtension(m) => concat_str(
                "Invalid Extension Error: ",
                m.as_str(),
            ),
            ValidationError::FileNotReadable(m) => concat_str("File Read Error: ", m.as_str()),
            ValidationError::InvalidEncoding(m) => concat_str(
                "Invalid Encoding Error: ",
                m.as_str(),
            ),
            ValidationError::EmptyFile(m) => concat_str("Empty File Error: ", m.as_str()),
            ValidationError::PreflightLexicalError(m) => concat_str(
                "Lexical Validation Error: ",
                m.as_str(),
            ),
        }
    }
}

// ---------------------------------------------------------------------
// Pre-flight lexical check
// ---------------------------------------------------------------------

/// The state of the lexical scan.
pub ghost struct Lex {
    pub brace: int,
    pub paren: int,
    pub in_string: bool,
    pub in_char: bool,
    pub in_line_comment: bool,
    pub in_block_comment: bool,
    pub escaped: bool,
}

/// What the lexical check can find wrong.
pub ghost enum LexIssue {
    UnmatchedBrace,
    UnmatchedParen,
    UnterminatedString,
    UnterminatedChar,
    UnterminatedComment,
    UnclosedBrace(nat),
    UnclosedParen(nat),
}

/// The lexical state before any character.
pub open spec fn lex_init() -> Lex {
    Lex {
        brace: 0,
        paren: 0,
        in_string: false,
        in_char: false,
        in_line_comment: false,
        in_block_comment: false,
        escaped: false,
    }
}

/// The lexical scan of `s` from position `i`: comments (`//` to the end of
/// the line, `/* ... */`), string and character literals (with `\`
/// escapes) are skipped; outside them braces and parentheses are counted,
/// and a closing one without an open one is an error.
pub open spec fn lex_scan(s: Seq<char>, i: int, st: Lex) -> Result<Lex, LexIssue>
    decreases s.len() - i,
{
    if i < 0 || i >= s.len() {
        Ok(st)
    } else {
        let c = s[i];
        let next_slash = i + 1 < s.len() && s[i + 1] == '/';
        let next_star = i + 1 < s.len() && s[i + 1] == '*';
        if st.in_line_comment {
            lex_scan(s, i + 1, Lex { in_line_comment: c != '\n', ..st })
        } else if st.in_block_comment {
            if c == '*' && next_slash {
                lex_scan(s, i + 2, Lex { in_block_comment: false, ..st })
            } else {
                lex_scan(s, i + 1, st)
            }
        } else if st.in_string || st.in_char {
            let closer = if st.in_string {
                '"'
            } else {
                '\''
            };
            if st.escaped {
                lex_scan(s, i + 1, Lex { escaped: false, ..st })
            } else if c == '\\' {
                lex_scan(s, i + 1, Lex { escaped: true, ..st })
            } else if c == closer {
                lex_scan(s, i + 1, Lex { in_string: false, in_char: false, ..st })
            } else {
                lex_scan(s, i + 1, st)
            }
        } else if c == '/' && next_slash {
            lex_scan(s, i + 2, Lex { in_line_comment: true, ..st })
        } else if c == '/' && next_star {
            lex_scan(s, i + 2, Lex { in_block_comment: true, ..st })
        } else if c == '"' {
            lex_scan(s, i + 1, Lex { in_string: true, ..st })
        } else if c == '\'' {
            lex_scan(s, i + 1, Lex { in_char: true, ..st })
        } else if c == '{' {
            lex_scan(s, i + 1, Lex { brace: st.brace + 1, ..st })
        } else if c == '}' {
            if st.brace - 1 < 0 {
                Err(LexIssue::UnmatchedBrace)
            } else {
                lex_scan(s, i + 1, Lex { brace: st.brace - 1, ..st })
            }
        } else if c == '(' {
            lex_scan(s, i + 1, Lex { paren: st.paren + 1, ..st })
        } else if c == ')' {
            if st.paren - 1 < 0 {
                Err(LexIssue::UnmatchedParen)
            } else {
                lex_scan(s, i + 1, Lex { paren: st.paren - 1, ..st })
            }
        } else {
            lex_scan(s, i + 1, st)
        }
    }
}

/// What is wrong with `s`, if anything: a closing delimiter without an
/// opening one, then an unterminated string, character literal or block
/// comment, then
/// unclosed braces, then unclosed parentheses.
pub open spec fn lex_check(s: Seq<char>) -> Option<LexIssue> {
    match lex_scan(s, 0, lex_init()) {
        Err(e) => Some(e),
        Ok(st) => if st.in_string {
            Some(LexIssue::UnterminatedString)
        } else if st.in_char {
            Some(LexIssue::UnterminatedChar)
        } else if st.in_block_comment {
            Some(LexIssue::UnterminatedComment)
        } else if st.brace > 0 {
            Some(LexIssue::UnclosedBrace(st.brace as nat))
        } else if st.paren > 0 {
            Some(LexIssue::UnclosedParen(st.paren as nat))
        } else {
            None
        },
    }
}

/// The message that reports `issue`.
pub open spec fn lex_message(issue: LexIssue) -> Seq<char> {
    match issue {
        LexIssue::UnmatchedBrace => "Unmatched closing brace '}' found."@,
        LexIssue::UnmatchedParen => "Unmatched closing parenthesis ')' found."@,
        LexIssue::UnterminatedString => "Unterminated string literal detected."@,
        LexIssue::UnterminatedChar => "Unterminated character literal detected."@,
        LexIssue::UnterminatedComment => "Unterminated block comment detected."@,
        LexIssue::UnclosedBrace(n) => "Unclosed curly brace '{' ("@ + decimal(n)
            + " missing '}')."@,
        LexIssue::UnclosedParen(n) => "Unclosed parenthesis '(' ("@ + decimal(n)
            + " missing ')')."@,
    }
}

/// The delimiters `{`, `}`, `(` and `)` of `s` from position `i` that lie
/// outside comments and literals, in order, and the scan's state at the
/// end (its counts left as they were).
pub open spec fn code_scan(s: Seq<char>, i: int, st: Lex) -> (Seq<char>, Lex)
    decreases s.len() - i,
{
    if i < 0 || i >= s.len() {
        (seq![], st)
    } else {
        let c = s[i];
        let next_slash = i + 1 < s.len() && s[i + 1] == '/';
        let next_star = i + 1 < s.len() && s[i + 1] == '*';
        if st.in_line_comment {
            code_scan(s, i + 1, Lex { in_line_comment: c != '\n', ..st })
        } else if st.in_block_comment {
            if c == '*' && next_slash {
                code_scan(s, i + 2, Lex { in_block_comment: false, ..st })
            } else {
                code_scan(s, i + 1, st)
            }
        } else if st.in_string || st.in_char {
            let closer = if st.in_string {
                '"'
            } else {
                '\''
            };
            if st.escaped {
                code_scan(s, i + 1, Lex { escaped: false, ..st })
            } else if c == '\\' {
                code_scan(s, i + 1, Lex { escaped: true, ..st })
            } else if c == closer {
                code_scan(s, i + 1, Lex { in_string: false, in_char: false, ..st })
            } else {
                code_scan(s, i + 1, st)
            }
        } else if c == '/' && next_slash {
            code_scan(s, i + 2, Lex { in_line_comment: true, ..st })
        } else if c == '/' && next_star {
            code_scan(s, i + 2, Lex { in_block_comment: true, ..st })
        } else if c == '"' {
            code_scan(s, i + 1, Lex { in_string: true, ..st })
        } else if c == '\'' {
            code_scan(s, i + 1, Lex { in_char: true, ..st })
        } else if c == '{' || c == '}' || c == '(' || c == ')' {
            let r = code_scan(s, i + 1, st);
            (seq![c] + r.0, r.1)
        } else {
            code_scan(s, i + 1, st)
        }
    }
}

/// The openings of `o` minus the closings `c` in `d`.
pub open spec fn net(d: Seq<char>, o: char, c: char) -> int
    decreases d.len(),
{
    if d.len() == 0 {
        0
    } else {
        (if d[0] == o {
            1int
        } else if d[0] == c {
            -1int
        } else {
            0int
        }) + net(d.drop_first(), o, c)
    }
}

/// From `b` open braces and `p` open parentheses, no prefix of `d` closes
/// more than is open.
pub open spec fn prefixes_ok(d: Seq<char>, b: int, p: int) -> bool {
    forall|q: int|
        0 <= q <= d.len() ==> b + net(#[trigger] d.take(q), '{', '}') >= 0 && p + net(
            d.take(q),
            '(',
            ')',
        ) >= 0
}

proof fn lemma_prefixes_cons(x: char, d: Seq<char>, b: int, p: int)
    ensures
        prefixes_ok(seq![x] + d, b, p) <==> (b >= 0 && p >= 0 && prefixes_ok(
            d,
            b + net(seq![x], '{', '}'),
            p + net(seq![x], '(', ')'),
        )),
{
    let e = seq![x] + d;
    let bx = net(seq![x], '{', '}');
    let px = net(seq![x], '(', ')');
    lemma_net_single(x, '{', '}');
    lemma_net_single(x, '(', ')');
    assert(e.take(0) =~= Seq::<char>::empty());
    assert forall|q: int| 1 <= q <= e.len() implies #[trigger] net(e.take(q), '{', '}') == bx + net(
        d.take(q - 1),
        '{',
        '}',
    ) && net(e.take(q), '(', ')') == px + net(d.take(q - 1), '(', ')') by {
        assert(e.take(q) =~= seq![x] + d.take(q - 1));
        lemma_net_cons(x, d.take(q - 1), '{', '}');
        lemma_net_cons(x, d.take(q - 1), '(', ')');
    }
    if prefixes_ok(e, b, p) {
        assert forall|q: int| 0 <= q <= d.len() implies b + bx + net(#[trigger] d.take(q), '{', '}')
            >= 0 && p + px + net(d.take(q), '(', ')') >= 0 by {
            assert(net(e.take(q + 1), '{', '}') == bx + net(d.take(q), '{', '}'));
        }
    }
    if b >= 0 && p >= 0 && prefixes_ok(d, b + bx, p + px) {
        assert forall|q: int| 0 <= q <= e.len() implies b + net(#[trigger] e.take(q), '{', '}') >= 0
            && p + net(e.take(q), '(', ')') >= 0 by {
            if q >= 1 {
                assert(net(e.take(q), '{', '}') == bx + net(d.take(q - 1), '{', '}'));
                assert(d.take(q - 1) == d.take(q - 1));
            }
        }
    }
}

proof fn lemma_net_single(x: char, o: char, c: char)
    ensures
        net(seq![x], o, c) == (if x == o {
            1int
        } else if x == c {
            -1int
        } else {
            0int
        }),
        net(Seq::<char>::empty(), o, c) == 0,
{
    assert(seq![x].drop_first() =~= Seq::<char>::empty());
    assert(net(Seq::<char>::empty(), o, c) == 0);
}

proof fn lemma_net_cons(x: char, d: Seq<char>, o: char, c: char)
    ensures
        net(seq![x] + d, o, c) == net(seq![x], o, c) + net(d, o, c),
{
    assert((seq![x] + d).drop_first() =~= d);
    assert((seq![x] + d)[0] == x);
    lemma_net_single(x, o, c);
}

/// The scan from position `i` succeeds exactly when, from its counts, no
/// prefix of the delimiters outside comments and literals closes more than
/// is open; it then ends with the counts plus the delimiters' balance, in
/// the mode that those delimiters end in.
proof fn lemma_lex_scan_code(s: Seq<char>, i: int, st: Lex)
    requires
        0 <= i,
        st.brace >= 0,
        st.paren >= 0,
    ensures
        ({
            let (d, m) = code_scan(s, i, st);
            &&& (lex_scan(s, i, st) is Ok <==> prefixes_ok(d, st.brace, st.paren))
            &&& (lex_scan(s, i, st) matches Ok(e) ==> e.brace == st.brace + net(d, '{', '}')
                && e.paren == st.paren + net(d, '(', ')') && e.in_string == m.in_string
                && e.in_char == m.in_char && e.in_block_comment == m.in_block_comment)
        }),
    decreases s.len() - i,
{
    if i >= s.len() {
        assert(Seq::<char>::empty().take(0) =~= Seq::<char>::empty());
    } else {
        let c = s[i];
        let next_slash = i + 1 < s.len() && s[i + 1] == '/';
        let next_star = i + 1 < s.len() && s[i + 1] == '*';
        if st.in_line_comment {
            lemma_lex_scan_code(s, i + 1, Lex { in_line_comment: c != '\n', ..st });
        } else if st.in_block_comment {
            if c == '*' && next_slash {
                lemma_lex_scan_code(s, i + 2, Lex { in_block_comment: false, ..st });
            } else {
                lemma_lex_scan_code(s, i + 1, st);
            }
        } else if st.in_string || st.in_char {
            let closer = if st.in_string {
                '"'
            } else {
                '\''
            };
            if st.escaped {
                lemma_lex_scan_code(s, i + 1, Lex { escaped: false, ..st });
            } else if c == '\\' {
                lemma_lex_scan_code(s, i + 1, Lex { escaped: true, ..st });
            } else if c == closer {
                lemma_lex_scan_code(s, i + 1, Lex { in_string: false, in_char: false, ..st });
            } else {
                lemma_lex_scan_code(s, i + 1, st);
            }
        } else if c == '/' && next_slash {
            lemma_lex_scan_code(s, i + 2, Lex { in_line_comment: true, ..st });
        } else if c == '/' && next_star {
            lemma_lex_scan_code(s, i + 2, Lex { in_block_comment: true, ..st });
        } else if c == '"' {
            lemma_lex_scan_code(s, i + 1, Lex { in_string: true, ..st });
        } else if c == '\'' {
            lemma_lex_scan_code(s, i + 1, Lex { in_char: true, ..st });
        } else if c == '{' || c == '}' || c == '(' || c == ')' {
            let r = code_scan(s, i + 1, st);
            let bx = net(seq![c], '{', '}');
            let px = net(seq![c], '(', ')');
            lemma_net_single(c, '{', '}');
            lemma_net_single(c, '(', ')');
            lemma_prefixes_cons(c, r.0, st.brace, st.paren);
            lemma_net_cons(c, r.0, '{', '}');
            lemma_net_cons(c, r.0, '(', ')');
            if c == '{' {
                lemma_lex_scan_code(s, i + 1, Lex { brace: st.brace + 1, ..st });
                lemma_code_scan_counts(s, i + 1, st, st.brace + 1, st.paren);
            } else if c == '}' {
                if st.brace - 1 >= 0 {
                    lemma_lex_scan_code(s, i + 1, Lex { brace: st.brace - 1, ..st });
                    lemma_code_scan_counts(s, i + 1, st, st.brace - 1, st.paren);
                } else {
                    assert(!prefixes_ok(r.0, st.brace + bx, st.paren + px)) by {
                        assert(r.0.take(0) =~= Seq::<char>::empty());
                    }
                }
            } else if c == '(' {
                lemma_lex_scan_code(s, i + 1, Lex { paren: st.paren + 1, ..st });
                lemma_code_scan_counts(s, i + 1, st, st.brace, st.paren + 1);
            } else {
                if st.paren - 1 >= 0 {
                    lemma_lex_scan_code(s, i + 1, Lex { paren: st.paren - 1, ..st });
                    lemma_code_scan_counts(s, i + 1, st, st.brace, st.paren - 1);
                } else {
                    assert(!prefixes_ok(r.0, st.brace + bx, st.paren + px)) by {
                        assert(r.0.take(0) =~= Seq::<char>::empty());
                    }
                }
            }
        } else {
            lemma_lex_scan_code(s, i + 1, st);
        }
    }
}

/// The delimiters and the final mode do not depend on the counts.
proof fn lemma_code_scan_counts(s: Seq<char>, i: int, st: Lex, b: int, p: int)
    ensures
        code_scan(s, i, (Lex { brace: b, paren: p, ..st })).0 == code_scan(s, i, st).0,
        code_scan(s, i, (Lex { brace: b, paren: p, ..st })).1 == (Lex {
            brace: b,
            paren: p,
            ..code_scan(s, i, st).1
        }),
    decreases s.len() - i,
{
    if 0 <= i < s.len() {
        let c = s[i];
        let next_slash = i + 1 < s.len() && s[i + 1] == '/';
        let next_star = i + 1 < s.len() && s[i + 1] == '*';
        if st.in_line_comment {
            lemma_code_scan_counts(s, i + 1, Lex { in_line_comment: c != '\n', ..st }, b, p);
        } else if st.in_block_comment {
            if c == '*' && next_slash {
                lemma_code_scan_counts(s, i + 2, Lex { in_block_comment: false, ..st }, b, p);
            } else {
                lemma_code_scan_counts(s, i + 1, st, b, p);
            }
        } else if st.in_string || st.in_char {
            let closer = if st.in_string {
                '"'
            } else {
                '\''
            };
            if st.escaped {
                lemma_code_scan_counts(s, i + 1, Lex { escaped: false, ..st }, b, p);
            } else if c == '\\' {
                lemma_code_scan_counts(s, i + 1, Lex { escaped: true, ..st }, b, p);
            } else if c == closer {
                lemma_code_scan_counts(s, i + 1, Lex { in_string: false, in_char: false, ..st }, b, p);
            } else {
                lemma_code_scan_counts(s, i + 1, st, b, p);
            }
        } else if c == '/' && next_slash {
            lemma_code_scan_counts(s, i + 2, Lex { in_line_comment: true, ..st }, b, p);
        } else if c == '/' && next_star {
            lemma_code_scan_counts(s, i + 2, Lex { in_block_comment: true, ..st }, b, p);
        } else if c == '"' {
            lemma_code_scan_counts(s, i + 1, Lex { in_string: true, ..st }, b, p);
        } else if c == '\'' {
            lemma_code_scan_counts(s, i + 1, Lex { in_char: true, ..st }, b, p);
        } else {
            lemma_code_scan_counts(s, i + 1, st, b, p);
        }
    }
}

/// The lexical check accepts a text exactly when, among the braces and
/// parentheses outside comments and string or character literals
/// (backslash escapes honoured), no prefix closes more than it opens, both
/// kinds balance in the end, and the text does not end inside a string or
/// character literal or a block comment.
pub proof fn lemma_lex_check_balanced(s: Seq<char>)
    ensures
        ({
            let (d, m) = code_scan(s, 0, lex_init());
            lex_check(s) is None <==> (prefixes_ok(d, 0, 0) && net(d, '{', '}') == 0 && net(
                d,
                '(',
                ')',
            ) == 0 && !m.in_string && !m.in_char && !m.in_block_comment)
        }),
{
    lemma_lex_scan_code(s, 0, lex_init());
    let (d, m) = code_scan(s, 0, lex_init());
    if prefixes_ok(d, 0, 0) {
        assert(d.take(d.len() as int) =~= d);
    }
}

fn lex_error(msg: &str) -> (res: ValidationError)
    ensures
        res.deep_view() == ValidationErrorModel::PreflightLexicalError(msg@),
{
    ValidationError::PreflightLexicalError(String::from_str(msg))
}

fn unclosed_error(head: &str, n: usize, tail: &str) -> (res: ValidationError)
    ensures
        res.deep_view() == ValidationErrorModel::PreflightLexicalError(
            head@ + decimal(n as nat) + tail@,
        ),
{
    let mut msg = String::from_str(head);
    let digits = decimal_exec(n);
    let digits_s = string_of(&digits);
    msg.append(digits_s.as_str());
    msg.append(tail);
    ValidationError::PreflightLexicalError(msg)
}

/// Lightweight lexical check that catches unbalanced braces and
/// parentheses and unterminated literals or comments before AST parsing.
pub fn perform_preflight_lexical_checks(content: &str) -> (res: Result<(), ValidationError>)
    ensures
        match lex_check(content@) {
            None => res is Ok,
            Some(issue) => res matches Err(e) && e.deep_view()
                == ValidationErrorModel::PreflightLexicalError(lex_message(issue)),
        },
{
    let chars = chars_of(content);
    let len = chars.len();
    let mut brace_depth: usize = 0;
    let mut paren_depth: usize = 0;
    let mut in_string = false;
    let mut in_char = false;
    let mut in_line_comment = false;
    let mut in_block_comment = false;
    let mut escaped = false;
    let mut i: usize = 0;
    while i < len
        invariant
            len == chars@.len(),
            chars@ == content@,
            i <= len,
            brace_depth <= i,
            paren_depth <= i,
            lex_scan(content@, 0, lex_init()) == lex_scan(
                content@,
                i as int,
                Lex {
                    brace: brace_depth as int,
                    paren: paren_depth as int,
                    in_string,
                    in_char,
                    in_line_comment,
                    in_block_comment,
                    escaped,
                },
            ),
            !(in_string && in_char),
        decreases len - i,
    {
        let c = chars[i];
        let next_slash = i + 1 < len && chars[i + 1] == '/';
        let next_star = i + 1 < len && chars[i + 1] == '*';
        if in_line_comment {
            if c == '\n' {
                in_line_comment = false;
            }
            i += 1;
        } else if in_block_comment {
            if c == '*' && next_slash {
                in_block_comment = false;
                i += 2;
            } else {
                i += 1;
            }
        } else if in_string || in_char {
            let closer = if in_string {
                '"'
            } else {
                '\''
            };
            if escaped {
                escaped = false;
            } else if c == '\\' {
                escaped = true;
            } else if c == closer {
                in_string = false;
                in_char = false;
            }
            i += 1;
        } else if c == '/' && next_slash {
            in_line_comment = true;
            i += 2;
        } else if c == '/' && next_star {
            in_block_comment = true;
            i += 2;
        } else if c == '"' {
            in_string = true;
            i += 1;
        } else if c == '\'' {
            in_char = true;
            i += 1;
        } else if c == '{' {
            brace_depth += 1;
            i += 1;
        } else if c == '}' {
            if brace_depth == 0 {
                return Err(lex_error("Unmatched closing brace '}' found."));
            }
            brace_depth -= 1;
            i += 1;
        } else if c == '(' {
            paren_depth += 1;
            i += 1;
        } else if c == ')' {
            if paren_depth == 0 {
                return Err(lex_error("Unmatched closing parenthesis ')' found."));
            }
            paren_depth -= 1;
            i += 1;
        } else {
            i += 1;
        }
    }
    if in_string {
        return Err(lex_error("Unterminated string literal detected."));
    }
    if in_char {
        return Err(lex_error("Unterminated character literal detected."));
    }
    if in_block_comment {
        return Err(lex_error("Unterminated block comment detected."));
    }
    if brace_depth > 0 {
        return Err(unclosed_error("Unclosed curly brace '{' (", brace_depth, " missing '}')."));
    }
    if paren_depth > 0 {
        return Err(unclosed_error("Unclosed parenthesis '(' (", paren_depth, " missing ')')."));
    }
    Ok(())
}

// ---------------------------------------------------------------------
// Input validation
// ---------------------------------------------------------------------

/// What reading the input file gave: no file at the path, an error while
/// reading it (with the error's text), or its bytes.
pub enum SourceRead {
    Missing,
    Unreadable(String),
    Bytes(Vec<u8>),
}

/// The value a `SourceRead` stands for.
pub ghost enum SourceReadModel {
    Missing,
    Unreadable(Seq<char>),
    Bytes(Seq<u8>),
}

impl DeepView for SourceRead {
    type V = SourceReadModel;

    open spec fn deep_view(&self) -> SourceReadModel {
        match self {
            SourceRead::Missing => SourceReadModel::Missing,
            SourceRead::Unreadable(e) => SourceReadModel::Unreadable(e@),
            SourceRead::Bytes(b) => SourceReadModel::Bytes(b@),
        }
    }
}

/// The extension that `std::path::Path::extension` finds in `path`.
pub uninterp spec fn path_extension(path: Seq<char>) -> Option<Seq<char>>;

/// The lowercase form that `str::to_lowercase` gives of `s`.
pub uninterp spec fn lowercase(s: Seq<char>) -> Seq<char>;

/// The text that `format!("{:?}", Path::new(path))` writes.
pub uninterp spec fn path_debug_text(path: Seq<char>) -> Seq<char>;

/// `Path::new(path).extension()`, as text. The result is named by
/// `path_extension`; no more of it is stated.
#[verifier::external_body]
fn extension_of(path: &str) -> (res: Option<String>)
    ensures
        res.deep_view() == path_extension(path@),
{
    match std::path::Path::new(path).extension() {
        Some(e) => Some(e.to_string_lossy().to_string()),
        None => None,
    }
}

/// `str::to_lowercase`. The result is named by `lowercase`; no more of it
/// is stated.
#[verifier::external_body]
fn to_lowercase_text(s: &str) -> (res: String)
    ensures
        res@ == lowercase(s@),
{
    s.to_lowercase()
}

/// The `Debug` form of `Path::new(path)`. The result is named by
/// `path_debug_text`; no more of it is stated.
#[verifier::external_body]
fn path_debug(path: &str) -> (res: String)
    ensures
        res@ == path_debug_text(path@),
{
    format!("{:?}", std::path::Path::new(path))
}

/// `String::from_utf8`: the text the bytes encode, when they are valid
/// UTF-8 (as vstd's `valid_utf8` and `decode_utf8` define it).
#[verifier::external_body]
fn decode_utf8_text(bytes: Vec<u8>) -> (res: Option<String>)
    ensures
        res is Some <==> vstd::utf8::valid_utf8(bytes@),
        res matches Some(s) ==> s@ == vstd::utf8::decode_utf8(bytes@),
{
    match String::from_utf8(bytes) {
        Ok(s) => Some(s),
        Err(_) => None,
    }
}

/// The outcome of validating the file at `path`, given what reading it
/// gave: it must exist, have the extension `.c` or `.h` (in any case), be
/// readable, hold no zero byte, be UTF-8, hold more than whitespace and
/// pass the lexical check.
pub open spec fn spec_validate_input(path: Seq<char>, read: SourceReadModel) -> Result<
    ValidatedModel,
    ValidationErrorModel,
> {
    match read {
        SourceReadModel::Missing => Err(
            ValidationErrorModel::FileNotFound(
                "Input file does not exist: '"@ + path_debug_text(path) + "'"@,
            ),
        ),
        _ => match path_extension(path) {
            None => Err(
                ValidationErrorModel::InvalidExtension(
                    "Input file has no extension; expected a '.c' or '.h' file."@,
                ),
            ),
            Some(ext) => if lowercase(ext) != "c"@ && lowercase(ext) != "h"@ {
                Err(
                    ValidationErrorModel::InvalidExtension(
                        "Expected '.c' or '.h' extension, but found '."@ + lowercase(ext) + "'"@,
                    ),
                )
            } else {
                match read {
                    SourceReadModel::Bytes(b) => if b.contains(0u8) {
                        Err(
                            ValidationErrorModel::InvalidEncoding(
                                "Input file contains null bytes (binary file detected)."@,
                            ),
                        )
                    } else if !vstd::utf8::valid_utf8(b) {
                        Err(
                            ValidationErrorModel::InvalidEncoding(
                                "Input file is not valid UTF-8 text."@,
                            ),
                        )
                    } else {
                        let content = vstd::utf8::decode_utf8(b);
                        if trim(content).len() == 0 {
                            Err(
                                ValidationErrorModel::EmptyFile(
                                    "Input file '"@ + path_debug_text(path)
                                        + "' is empty or contains only whitespace."@,
                                ),
                            )
                        } else {
                            match lex_check(content) {
                                Some(issue) => Err(
                                    ValidationErrorModel::PreflightLexicalError(
                                        lex_message(issue),
                                    ),
                                ),
                                None => Ok(
                                    ValidatedModel {
                                        file_path: path,
                                        raw_content: content,
                                        line_count: lines(content).len() as usize,
                                        byte_size: b.len() as usize,
                                    },
                                ),
                            }
                        }
                    },
                    SourceReadModel::Unreadable(e) => Err(
                        ValidationErrorModel::FileNotReadable(
                            "Failed to read file '"@ + path_debug_text(path) + "': "@ + e,
                        ),
                    ),
                    SourceReadModel::Missing => Err(
                        ValidationErrorModel::FileNotFound(
                            "Input file does not exist: '"@ + path_debug_text(path) + "'"@,
                        ),
                    ),
                }
            },
        },
    }
}

/// The file at `path` with bytes `b` is accepted: its extension, in
/// lowercase, is `c` or `h`; it holds no zero byte; it is valid UTF-8; its
/// text holds more than whitespace and passes the lexical check.
pub open spec fn accepted_source(path: Seq<char>, b: Seq<u8>) -> bool {
    &&& path_extension(path) matches Some(ext) && (lowercase(ext) == "c"@ || lowercase(ext) == "h"@)
    &&& !b.contains(0u8)
    &&& vstd::utf8::valid_utf8(b)
    &&& trim(vstd::utf8::decode_utf8(b)).len() > 0
    &&& lex_check(vstd::utf8::decode_utf8(b)) is None
}

/// Validation succeeds exactly when the file exists, was read, and its
/// path and bytes are accepted; the validated source then records the path,
/// the decoded text, its number of lines and its size in bytes.
pub proof fn lemma_validation_accepts(path: Seq<char>, read: SourceReadModel)
    ensures
        spec_validate_input(path, read) is Ok <==> (read matches SourceReadModel::Bytes(b)
            && accepted_source(path, b)),
        spec_validate_input(path, read) matches Ok(v) ==> (read matches SourceReadModel::Bytes(b)
            && v == (ValidatedModel {
            file_path: path,
            raw_content: vstd::utf8::decode_utf8(b),
            line_count: lines(vstd::utf8::decode_utf8(b)).len() as usize,
            byte_size: b.len() as usize,
        })),
{
}

fn has_zero_byte(b: &Vec<u8>) -> (res: bool)
    ensures
        res == b@.contains(0u8),
{
    let mut i: usize = 0;
    while i < b.len()
        invariant
            i <= b@.len(),
            forall|k: int| 0 <= k < i ==> b@[k] != 0u8,
        decreases b@.len() - i,
    {
        if b[i] == 0 {
            assert(b@[i as int] == 0u8);
            return true;
        }
        i += 1;
    }
    false
}

/// Validates the file at `file_path` for C transpilation, given what
/// reading it gave.
pub fn validate_input(file_path: &str, read: SourceRead) -> (res: Result<
    ValidatedCSource,
    ValidationError,
>)
    ensures
        match spec_validate_input(file_path@, read.deep_view()) {
            Ok(m) => res matches Ok(v) && v.deep_view() == m,
            Err(m) => res matches Err(e) && e.deep_view() == m,
        },
{
    if let SourceRead::Missing = read {
        let mut msg = String::from_str("Input file does not exist: '");
        let dbg = path_debug(file_path);
        msg.append(dbg.as_str());
        msg.append("'");
        return Err(ValidationError::FileNotFound(msg));
    }
    match extension_of(file_path) {
        None => {
            return Err(
                ValidationError::InvalidExtension(
                    String::from_str("Input file has no extension; expected a '.c' or '.h' file."),
                ),
            );
        },
        Some(ext) => {
            let ext_lower = to_lowercase_text(ext.as_str());
            let c_ext = String::from_str("c");
            let h_ext = String::from_str("h");
            if ext_lower != c_ext && ext_lower != h_ext {
                let mut msg = String::from_str("Expected '.c' or '.h' extension, but found '.");
                msg.append(ext_lower.as_str());
                msg.append("'");
                return Err(ValidationError::InvalidExtension(msg));
            }
        },
    }
    let bytes = match read {
        SourceRead::Bytes(b) => b,
        SourceRead::Unreadable(e) => {
            let mut msg = String::from_str("Failed to read file '");
            let dbg = path_debug(file_path);
            msg.append(dbg.as_str());
            msg.append("': ");
            msg.append(e.as_str());
            return Err(ValidationError::FileNotReadable(msg));
        },
        SourceRead::Missing => {
            return Err(ValidationError::FileNotFound(String::new()));
        },
    };
    if has_zero_byte(&bytes) {
        return Err(
            ValidationError::InvalidEncoding(
                String::from_str("Input file contains null bytes (binary file detected)."),
            ),
        );
    }
    let byte_size = bytes.len();
    let content = match decode_utf8_text(bytes) {
        Some(s) => s,
        None => {
            return Err(
                ValidationError::InvalidEncoding(
                    String::from_str("Input file is not valid UTF-8 text."),
                ),
            );
        },
    };
    let chars = chars_of(content.as_str());
    let trimmed = trim_chars(&chars);
    if trimmed.len() == 0 {
        let mut msg = String::from_str("Input file '");
        let dbg = path_debug(file_path);
        msg.append(dbg.as_str());
        msg.append("' is empty or contains only whitespace.");
        return Err(ValidationError::EmptyFile(msg));
    }
    perform_preflight_lexical_checks(content.as_str())?;
    let line_count = lines_of(&chars).len();
    Ok(
        ValidatedCSource {
            file_path: String::from_str(file_path),
            raw_content: content,
            line_count,
            byte_size,
        },
    )
}

} // verus!
