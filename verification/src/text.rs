//! Character-sequence utilities shared by every stage of the pipeline.
//!
//! Text is handled as sequences of Unicode scalar values. Each operation
//! here has a specification over `Seq<char>` that states what the matching
//! operation of Rust's `str` computes, and an executable version proved
//! against it.
use vstd::prelude::*;

verus! {

broadcast use vstd::string::group_string_axioms;

// ---------------------------------------------------------------------
// Conversions between `str`/`String` and character vectors
// ---------------------------------------------------------------------

/// The characters of `s`, one per element.
pub fn chars_of(s: &str) -> (res: Vec<char>)
    ensures
        res@ == s@,
{
    let mut res: Vec<char> = Vec::new();
    for c in it: s.chars()
        invariant
            res@ == it.seq().take(it.index() as int),
            it.seq() == s@,
    {
        res.push(c);
    }
    res
}

/// Appends one character to a string (`String::push`).
#[verifier::external_body]
fn push_char(s: &mut String, c: char)
    ensures
        final(s)@ == old(s)@.push(c),
{
    s.push(c);
}

/// The string made of the characters of `v`.
pub fn string_of(v: &[char]) -> (res: String)
    ensures
        res@ == v@,
{
    let mut res = String::new();
    let mut i: usize = 0;
    while i < v.len()
        invariant
            i <= v@.len(),
            res@ == v@.take(i as int),
        decreases v@.len() - i,
    {
        push_char(&mut res, v[i]);
        i += 1;
        assert(v@.take(i as int) == v@.take(i - 1).push(v@[i - 1]));
    }
    assert(v@.take(v@.len() as int) == v@);
    res
}

/// The views of a sequence of character vectors.
pub open spec fn seqs_of(v: Seq<Vec<char>>) -> Seq<Seq<char>> {
    v.map_values(|x: Vec<char>| x@)
}

/// Pushing a vector pushes its view.
pub proof fn lemma_seqs_of_push(v: Seq<Vec<char>>, x: Vec<char>)
    ensures
        seqs_of(v.push(x)) == seqs_of(v).push(x@),
{
    assert(seqs_of(v.push(x)) =~= seqs_of(v).push(x@));
}

/// A copy of `s[from..to]`.
pub fn copy_range(s: &[char], from: usize, to: usize) -> (res: Vec<char>)
    requires
        from <= to <= s@.len(),
    ensures
        res@ == s@.subrange(from as int, to as int),
{
    let mut res: Vec<char> = Vec::new();
    let mut i = from;
    while i < to
        invariant
            from <= i <= to <= s@.len(),
            res@ == s@.subrange(from as int, i as int),
        decreases to - i,
    {
        res.push(s[i]);
        i += 1;
        assert(res@ =~= s@.subrange(from as int, i as int));
    }
    res
}

/// Appends all of `s` to `v`.
pub fn push_all(v: &mut Vec<char>, s: &[char])
    ensures
        final(v)@ == old(v)@ + s@,
{
    let ghost start = v@;
    let mut i: usize = 0;
    while i < s.len()
        invariant
            i <= s@.len(),
            v@ == start + s@.take(i as int),
        decreases s@.len() - i,
    {
        v.push(s[i]);
        i += 1;
        assert(v@ =~= start + s@.take(i as int));
    }
    assert(s@.take(s@.len() as int) =~= s@);
}

/// The concatenation of `a` and `b`.
pub fn concat(a: &[char], b: &[char]) -> (res: Vec<char>)
    ensures
        res@ == a@ + b@,
{
    let mut res: Vec<char> = Vec::new();
    push_all(&mut res, a);
    push_all(&mut res, b);
    assert(res@ =~= a@ + b@);
    res
}

/// Whether `a` and `b` hold the same characters.
pub fn seq_eq(a: &[char], b: &[char]) -> (res: bool)
    ensures
        res == (a@ == b@),
{
    if a.len() != b.len() {
        return false;
    }
    let mut i: usize = 0;
    while i < a.len()
        invariant
            a@.len() == b@.len(),
            i <= a@.len(),
            forall|k: int| 0 <= k < i ==> a@[k] == b@[k],
        decreases a@.len() - i,
    {
        if a[i] != b[i] {
            return false;
        }
        i += 1;
    }
    assert(a@ =~= b@);
    true
}

// ---------------------------------------------------------------------
// Whitespace and trimming
// ---------------------------------------------------------------------

/// Unicode `White_Space`, the property that `char::is_whitespace` tests.
pub open spec fn is_ws(c: char) -> bool {
    ||| '\t' <= c <= '\r'
    ||| c == ' '
    ||| c == '\u{85}'
    ||| c == '\u{A0}'
    ||| c == '\u{1680}'
    ||| '\u{2000}' <= c <= '\u{200A}'
    ||| c == '\u{2028}'
    ||| c == '\u{2029}'
    ||| c == '\u{202F}'
    ||| c == '\u{205F}'
    ||| c == '\u{3000}'
}

/// Whether `c` is a Unicode whitespace character.
pub fn is_whitespace(c: char) -> (res: bool)
    ensures
        res == is_ws(c),
{
    ('\t' <= c && c <= '\r') || c == ' ' || c == '\u{85}' || c == '\u{A0}' || c == '\u{1680}'
        || ('\u{2000}' <= c && c <= '\u{200A}') || c == '\u{2028}' || c == '\u{2029}' || c
        == '\u{202F}' || c == '\u{205F}' || c == '\u{3000}'
}

/// `s` without its leading whitespace.
pub open spec fn trim_start(s: Seq<char>) -> Seq<char>
    decreases s.len(),
{
    if s.len() > 0 && is_ws(s[0]) {
        trim_start(s.drop_first())
    } else {
        s
    }
}

/// `s` without its trailing whitespace.
pub open spec fn trim_end(s: Seq<char>) -> Seq<char>
    decreases s.len(),
{
    if s.len() > 0 && is_ws(s.last()) {
        trim_end(s.drop_last())
    } else {
        s
    }
}

/// `s` without leading and trailing whitespace (`str::trim`).
pub open spec fn trim(s: Seq<char>) -> Seq<char> {
    trim_end(trim_start(s))
}

/// `str::trim` on a character slice.
pub fn trim_chars(s: &[char]) -> (res: Vec<char>)
    ensures
        res@ == trim(s@),
{
    let n = s.len();
    let mut a: usize = 0;
    assert(s@.subrange(0, n as int) =~= s@);
    while a < n && is_whitespace(s[a])
        invariant
            a <= n == s@.len(),
            trim_start(s@) == trim_start(s@.subrange(a as int, n as int)),
        decreases n - a,
    {
        assert(s@.subrange(a as int, n as int).drop_first() =~= s@.subrange(a + 1, n as int));
        a += 1;
    }
    let mut b: usize = n;
    while b > a && is_whitespace(s[b - 1])
        invariant
            a <= b <= n == s@.len(),
            trim(s@) == trim_end(s@.subrange(a as int, b as int)),
        decreases b,
    {
        assert(s@.subrange(a as int, b as int).drop_last() =~= s@.subrange(a as int, b - 1));
        b -= 1;
    }
    copy_range(s, a, b)
}

/// `str::trim` on a string.
pub fn trim_str(s: &str) -> (res: Vec<char>)
    ensures
        res@ == trim(s@),
{
    let v = chars_of(s);
    trim_chars(&v)
}


// ---------------------------------------------------------------------
// Splitting into lines, words and fields
// ---------------------------------------------------------------------

/// `l` without one trailing carriage return.
pub open spec fn strip_cr(l: Seq<char>) -> Seq<char> {
    if l.len() > 0 && l.last() == '\r' {
        l.drop_last()
    } else {
        l
    }
}

/// The lines of `s[start..]`, scanning from position `i` (`start <= i`):
/// every `'\n'` ends a line, and a carriage return just before it is
/// dropped; text after the last `'\n'` is a last line when it is not empty.
pub open spec fn lines_scan(s: Seq<char>, i: int, start: int) -> Seq<Seq<char>>
    decreases s.len() - i,
{
    if i >= s.len() {
        if start < s.len() {
            seq![s.subrange(start, s.len() as int)]
        } else {
            seq![]
        }
    } else if s[i] == '\n' {
        seq![strip_cr(s.subrange(start, i))] + lines_scan(s, i + 1, i + 1)
    } else {
        lines_scan(s, i + 1, start)
    }
}

/// The lines of `s`, as `str::lines` yields them.
pub open spec fn lines(s: Seq<char>) -> Seq<Seq<char>> {
    lines_scan(s, 0, 0)
}

/// `str::lines` on a character slice.
pub fn lines_of(s: &[char]) -> (res: Vec<Vec<char>>)
    ensures
        seqs_of(res@) == lines(s@),
{
    let n = s.len();
    let mut res: Vec<Vec<char>> = Vec::new();
    let mut start: usize = 0;
    let mut i: usize = 0;
    while i < n
        invariant
            start <= i <= n == s@.len(),
            seqs_of(res@) + lines_scan(s@, i as int, start as int) == lines(s@),
        decreases n - i,
    {
        if s[i] == '\n' {
            let mut line = copy_range(s, start, i);
            if line.len() > 0 && line[line.len() - 1] == '\r' {
                line.pop();
            }
            proof {
                lemma_seqs_of_push(res@, line);
                assert(seqs_of(res@.push(line)) + lines_scan(s@, i + 1, i + 1) =~= seqs_of(res@)
                    + lines_scan(s@, i as int, start as int));
            }
            res.push(line);
            start = i + 1;
        }
        i += 1;
    }
    if start < n {
        let line = copy_range(s, start, n);
        proof {
            lemma_seqs_of_push(res@, line);
        }
        res.push(line);
    }
    assert(seqs_of(res@) =~= lines(s@));
    res
}

/// `str::lines` on a string.
pub fn lines_of_str(s: &str) -> (res: Vec<Vec<char>>)
    ensures
        seqs_of(res@) == lines(s@),
{
    let v = chars_of(s);
    lines_of(&v)
}

/// The whitespace-separated words of `s[start..]`, scanning from `i`.
pub open spec fn words_scan(s: Seq<char>, i: int, start: int) -> Seq<Seq<char>>
    decreases s.len() - i,
{
    if i >= s.len() {
        if start < s.len() {
            seq![s.subrange(start, s.len() as int)]
        } else {
            seq![]
        }
    } else if is_ws(s[i]) {
        (if start < i {
            seq![s.subrange(start, i)]
        } else {
            seq![]
        }) + words_scan(s, i + 1, i + 1)
    } else {
        words_scan(s, i + 1, start)
    }
}

/// The words of `s`, as `str::split_whitespace` yields them.
pub open spec fn words(s: Seq<char>) -> Seq<Seq<char>> {
    words_scan(s, 0, 0)
}

/// `str::split_whitespace` on a character slice.
pub fn words_of(s: &[char]) -> (res: Vec<Vec<char>>)
    ensures
        seqs_of(res@) == words(s@),
{
    let n = s.len();
    let mut res: Vec<Vec<char>> = Vec::new();
    let mut start: usize = 0;
    let mut i: usize = 0;
    while i < n
        invariant
            start <= i <= n == s@.len(),
            seqs_of(res@) + words_scan(s@, i as int, start as int) == words(s@),
        decreases n - i,
    {
        if is_whitespace(s[i]) {
            if start < i {
                let w = copy_range(s, start, i);
                proof {
                    lemma_seqs_of_push(res@, w);
                    assert(seqs_of(res@.push(w)) + words_scan(s@, i + 1, i + 1) =~= seqs_of(res@)
                        + words_scan(s@, i as int, start as int));
                }
                res.push(w);
            } else {
                assert(seqs_of(res@) + words_scan(s@, i + 1, i + 1) =~= seqs_of(res@)
                    + words_scan(s@, i as int, start as int));
            }
            start = i + 1;
        }
        i += 1;
    }
    if start < n {
        let w = copy_range(s, start, n);
        proof {
            lemma_seqs_of_push(res@, w);
        }
        res.push(w);
    }
    assert(seqs_of(res@) =~= words(s@));
    res
}

/// The fields of `s[start..]` separated by `sep`, scanning from `i`.
pub open spec fn split_scan(s: Seq<char>, sep: char, i: int, start: int) -> Seq<Seq<char>>
    decreases s.len() - i,
{
    if i >= s.len() {
        seq![s.subrange(start, s.len() as int)]
    } else if s[i] == sep {
        seq![s.subrange(start, i)] + split_scan(s, sep, i + 1, i + 1)
    } else {
        split_scan(s, sep, i + 1, start)
    }
}

/// The fields of `s` separated by `sep`, as `str::split(sep)` yields them.
pub open spec fn split(s: Seq<char>, sep: char) -> Seq<Seq<char>> {
    split_scan(s, sep, 0, 0)
}

/// `str::split` by a character, on a character slice.
pub fn split_chars(s: &[char], sep: char) -> (res: Vec<Vec<char>>)
    ensures
        seqs_of(res@) == split(s@, sep),
{
    let n = s.len();
    let mut res: Vec<Vec<char>> = Vec::new();
    let mut start: usize = 0;
    let mut i: usize = 0;
    while i < n
        invariant
            start <= i <= n == s@.len(),
            seqs_of(res@) + split_scan(s@, sep, i as int, start as int) == split(s@, sep),
        decreases n - i,
    {
        if s[i] == sep {
            let f = copy_range(s, start, i);
            proof {
                lemma_seqs_of_push(res@, f);
                assert(seqs_of(res@.push(f)) + split_scan(s@, sep, i + 1, i + 1) =~= seqs_of(res@)
                    + split_scan(s@, sep, i as int, start as int));
            }
            res.push(f);
            start = i + 1;
        }
        i += 1;
    }
    let f = copy_range(s, start, n);
    proof {
        lemma_seqs_of_push(res@, f);
    }
    res.push(f);
    assert(seqs_of(res@) =~= split(s@, sep));
    res
}

// ---------------------------------------------------------------------
// Searching
// ---------------------------------------------------------------------

/// `p` occurs in `s` at position `i`.
pub open spec fn matches_at(s: Seq<char>, p: Seq<char>, i: int) -> bool {
    0 <= i && i + p.len() <= s.len() && s.subrange(i, i + p.len()) == p
}

/// The first position at or after `i` where `p` occurs in `s`.
pub open spec fn find_from(s: Seq<char>, p: Seq<char>, i: int) -> Option<int>
    decreases s.len() + 1 - i,
{
    if i < 0 || i + p.len() > s.len() {
        None
    } else if matches_at(s, p, i) {
        Some(i)
    } else {
        find_from(s, p, i + 1)
    }
}

/// The first position where `p` occurs in `s` (`str::find`).
pub open spec fn find(s: Seq<char>, p: Seq<char>) -> Option<int> {
    find_from(s, p, 0)
}

/// `p` occurs somewhere in `s` (`str::contains`).
pub open spec fn contains(s: Seq<char>, p: Seq<char>) -> bool {
    find(s, p) is Some
}

/// `find` returns the first occurrence, and finds one whenever there is one.
pub proof fn lemma_find_from(s: Seq<char>, p: Seq<char>, i: int)
    requires
        0 <= i,
    ensures
        find_from(s, p, i) matches Some(k) ==> i <= k && matches_at(s, p, k) && forall|j: int|
            i <= j < k ==> !matches_at(s, p, j),
        find_from(s, p, i) is None ==> forall|j: int| i <= j ==> !matches_at(s, p, j),
    decreases s.len() + 1 - i,
{
    if i + p.len() > s.len() {
    } else if matches_at(s, p, i) {
    } else {
        lemma_find_from(s, p, i + 1);
    }
}

/// `contains(s, p)` holds exactly when `p` occurs at some position of `s`.
pub proof fn lemma_contains_iff(s: Seq<char>, p: Seq<char>)
    ensures
        contains(s, p) <==> exists|k: int| matches_at(s, p, k),
{
    lemma_find_from(s, p, 0);
    if let Some(k) = find(s, p) {
        assert(matches_at(s, p, k));
    }
}

/// A one-character pattern occurs in `s` exactly when `s` holds that
/// character.
pub proof fn lemma_contains_one(s: Seq<char>, c: char)
    ensures
        contains(s, seq![c]) <==> s.contains(c),
{
    lemma_contains_iff(s, seq![c]);
    if s.contains(c) {
        let i = choose|i: int| 0 <= i < s.len() && s[i] == c;
        assert(s.subrange(i, i + 1) =~= seq![c]);
        assert(matches_at(s, seq![c], i));
    }
    if exists|k: int| matches_at(s, seq![c], k) {
        let k = choose|k: int| matches_at(s, seq![c], k);
        assert(s.subrange(k, k + 1)[0] == s[k]);
        assert(s[k] == c);
    }
}

/// Whether `p` occurs in `s` at position `i`.
pub fn matches_at_exec(s: &[char], p: &[char], i: usize) -> (res: bool)
    ensures
        res == matches_at(s@, p@, i as int),
{
    let n = s.len();
    if i > n || p.len() > n - i {
        return false;
    }
    let mut k: usize = 0;
    while k < p.len()
        invariant
            n == s@.len(),
            i + p@.len() <= n,
            k <= p@.len(),
            forall|j: int| 0 <= j < k ==> s@[i + j] == p@[j],
        decreases p@.len() - k,
    {
        if s[i + k] != p[k] {
            assert(s@.subrange(i as int, i + p@.len())[k as int] != p@[k as int]);
            return false;
        }
        k += 1;
    }
    assert(s@.subrange(i as int, i + p@.len()) =~= p@);
    true
}

/// `str::find` on character slices.
pub fn find_chars(s: &[char], p: &[char]) -> (res: Option<usize>)
    ensures
        res matches Some(k) ==> find(s@, p@) == Some(k as int),
        res is None ==> find(s@, p@) is None,
{
    if p.len() == 0 {
        assert(s@.subrange(0, 0) =~= p@);
        return Some(0);
    }
    let mut i: usize = 0;
    while i < s.len() && p.len() <= s.len() - i
        invariant
            i <= s@.len(),
            find(s@, p@) == find_from(s@, p@, i as int),
        decreases s@.len() + 1 - i,
    {
        if matches_at_exec(s, p, i) {
            return Some(i);
        }
        i += 1;
    }
    None
}

/// `str::contains` on character slices.
pub fn contains_chars(s: &[char], p: &[char]) -> (res: bool)
    ensures
        res == contains(s@, p@),
{
    find_chars(s, p).is_some()
}

/// `str::contains` on a string and a literal pattern.
pub fn str_contains(s: &str, p: &str) -> (res: bool)
    ensures
        res == contains(s@, p@),
{
    let sv = chars_of(s);
    let pv = chars_of(p);
    contains_chars(&sv, &pv)
}

/// The last position before `j` that holds `c`.
pub open spec fn rfind_char_before(s: Seq<char>, c: char, j: int) -> Option<int>
    decreases j,
{
    if j <= 0 || j > s.len() {
        None
    } else if s[j - 1] == c {
        Some(j - 1)
    } else {
        rfind_char_before(s, c, j - 1)
    }
}

/// The last position of `c` in `s` (`str::rfind` with a character).
pub open spec fn rfind_char(s: Seq<char>, c: char) -> Option<int> {
    rfind_char_before(s, c, s.len() as int)
}

/// `str::rfind` with a character, on a character slice.
pub fn rfind_char_exec(s: &[char], c: char) -> (res: Option<usize>)
    ensures
        res matches Some(k) ==> rfind_char(s@, c) == Some(k as int),
        res is None ==> rfind_char(s@, c) is None,
{
    let mut j: usize = s.len();
    while j > 0
        invariant
            j <= s@.len(),
            rfind_char(s@, c) == rfind_char_before(s@, c, j as int),
        decreases j,
    {
        if s[j - 1] == c {
            return Some(j - 1);
        }
        j -= 1;
    }
    None
}

/// Whether `c` occurs in `s`.
pub fn has_char(s: &[char], c: char) -> (res: bool)
    ensures
        res == s@.contains(c),
{
    let mut i: usize = 0;
    while i < s.len()
        invariant
            i <= s@.len(),
            forall|k: int| 0 <= k < i ==> s@[k] != c,
        decreases s@.len() - i,
    {
        if s[i] == c {
            assert(s@[i as int] == c);
            return true;
        }
        i += 1;
    }
    false
}

/// `s` begins with `p`.
pub open spec fn starts_with(s: Seq<char>, p: Seq<char>) -> bool {
    p.len() <= s.len() && s.subrange(0, p.len() as int) == p
}

/// `s` ends with `p`.
pub open spec fn ends_with(s: Seq<char>, p: Seq<char>) -> bool {
    p.len() <= s.len() && s.subrange(s.len() - p.len(), s.len() as int) == p
}

/// `str::starts_with` on character slices.
pub fn starts_with_chars(s: &[char], p: &[char]) -> (res: bool)
    ensures
        res == starts_with(s@, p@),
{
    matches_at_exec(s, p, 0)
}

/// `str::ends_with` on character slices.
pub fn ends_with_chars(s: &[char], p: &[char]) -> (res: bool)
    ensures
        res == ends_with(s@, p@),
{
    if p.len() > s.len() {
        return false;
    }
    matches_at_exec(s, p, s.len() - p.len())
}

/// `str::starts_with` on a string slice and a literal prefix.
pub fn str_starts_with(s: &[char], p: &str) -> (res: bool)
    ensures
        res == starts_with(s@, p@),
{
    let pv = chars_of(p);
    starts_with_chars(s, &pv)
}

// ---------------------------------------------------------------------
// Trimming by character sets and by patterns
// ---------------------------------------------------------------------

/// `s` without its leading characters that belong to `set`.
pub open spec fn trim_start_set(s: Seq<char>, set: Seq<char>) -> Seq<char>
    decreases s.len(),
{
    if s.len() > 0 && set.contains(s[0]) {
        trim_start_set(s.drop_first(), set)
    } else {
        s
    }
}

/// `s` without its trailing characters that belong to `set`.
pub open spec fn trim_end_set(s: Seq<char>, set: Seq<char>) -> Seq<char>
    decreases s.len(),
{
    if s.len() > 0 && set.contains(s.last()) {
        trim_end_set(s.drop_last(), set)
    } else {
        s
    }
}

/// `str::trim_matches` with a set of characters.
pub open spec fn trim_set(s: Seq<char>, set: Seq<char>) -> Seq<char> {
    trim_end_set(trim_start_set(s, set), set)
}

/// `str::trim_start_matches` with a set of characters.
pub fn trim_start_set_exec(s: &[char], set: &[char]) -> (res: Vec<char>)
    ensures
        res@ == trim_start_set(s@, set@),
{
    let n = s.len();
    let mut a: usize = 0;
    assert(s@.subrange(0, n as int) =~= s@);
    while a < n && has_char(set, s[a])
        invariant
            a <= n == s@.len(),
            trim_start_set(s@, set@) == trim_start_set(s@.subrange(a as int, n as int), set@),
        decreases n - a,
    {
        assert(s@.subrange(a as int, n as int).drop_first() =~= s@.subrange(a + 1, n as int));
        a += 1;
    }
    copy_range(s, a, n)
}

/// `str::trim_end_matches` with a set of characters.
pub fn trim_end_set_exec(s: &[char], set: &[char]) -> (res: Vec<char>)
    ensures
        res@ == trim_end_set(s@, set@),
{
    let n = s.len();
    let mut b: usize = n;
    assert(s@.subrange(0, n as int) =~= s@);
    while b > 0 && has_char(set, s[b - 1])
        invariant
            b <= n == s@.len(),
            trim_end_set(s@, set@) == trim_end_set(s@.subrange(0, b as int), set@),
        decreases b,
    {
        assert(s@.subrange(0, b as int).drop_last() =~= s@.subrange(0, b - 1));
        b -= 1;
    }
    copy_range(s, 0, b)
}

/// `str::trim_matches` with a set of characters.
pub fn trim_set_exec(s: &[char], set: &[char]) -> (res: Vec<char>)
    ensures
        res@ == trim_set(s@, set@),
{
    let a = trim_start_set_exec(s, set);
    trim_end_set_exec(&a, set)
}

/// `s` with every leading copy of the non-empty pattern `p` removed
/// (`str::trim_start_matches` with a string pattern).
pub open spec fn trim_start_pat(s: Seq<char>, p: Seq<char>) -> Seq<char>
    decreases s.len(),
{
    if p.len() > 0 && starts_with(s, p) {
        trim_start_pat(s.skip(p.len() as int), p)
    } else {
        s
    }
}

/// `str::trim_start_matches` with a string pattern.
pub fn trim_start_pat_exec(s: &[char], p: &[char]) -> (res: Vec<char>)
    ensures
        res@ == trim_start_pat(s@, p@),
{
    let n = s.len();
    let mut a: usize = 0;
    assert(s@.subrange(0, n as int) =~= s@);
    if p.len() == 0 {
        return copy_range(s, 0, n);
    }
    while matches_at_exec(s, p, a)
        invariant
            a <= n == s@.len(),
            p@.len() > 0,
            trim_start_pat(s@, p@) == trim_start_pat(s@.subrange(a as int, n as int), p@),
        decreases n - a,
    {
        let ghost rest = s@.subrange(a as int, n as int);
        assert(rest.subrange(0, p@.len() as int) =~= s@.subrange(a as int, a + p@.len()));
        assert(rest.skip(p@.len() as int) =~= s@.subrange(a + p@.len(), n as int));
        a += p.len();
    }
    let ghost rest = s@.subrange(a as int, n as int);
    assert(starts_with(rest, p@) ==> rest.subrange(0, p@.len() as int) =~= s@.subrange(
        a as int,
        a + p@.len(),
    ));
    copy_range(s, a, n)
}

// ---------------------------------------------------------------------
// Rewriting
// ---------------------------------------------------------------------

/// `s[i..]` with every non-overlapping occurrence of `p`, found left to
/// right, replaced by `r`.
pub open spec fn replace_scan(s: Seq<char>, p: Seq<char>, r: Seq<char>, i: int) -> Seq<char>
    decreases s.len() - i,
{
    if i < 0 || i >= s.len() || p.len() == 0 {
        seq![]
    } else if matches_at(s, p, i) {
        r + replace_scan(s, p, r, i + p.len())
    } else {
        seq![s[i]] + replace_scan(s, p, r, i + 1)
    }
}

/// `str::replace` with a non-empty pattern.
pub open spec fn replace_all(s: Seq<char>, p: Seq<char>, r: Seq<char>) -> Seq<char> {
    replace_scan(s, p, r, 0)
}

/// `str::replace` with a non-empty pattern, on character slices.
pub fn replace_all_exec(s: &[char], p: &[char], r: &[char]) -> (res: Vec<char>)
    requires
        p@.len() > 0,
    ensures
        res@ == replace_all(s@, p@, r@),
{
    let n = s.len();
    let mut res: Vec<char> = Vec::new();
    let mut i: usize = 0;
    while i < n
        invariant
            i <= n == s@.len(),
            p@.len() > 0,
            res@ + replace_scan(s@, p@, r@, i as int) == replace_all(s@, p@, r@),
        decreases n - i,
    {
        let ghost before = res@;
        if matches_at_exec(s, p, i) {
            push_all(&mut res, r);
            assert(res@ + replace_scan(s@, p@, r@, i + p@.len()) =~= before + replace_scan(
                s@,
                p@,
                r@,
                i as int,
            ));
            i += p.len();
        } else {
            res.push(s[i]);
            assert(res@ + replace_scan(s@, p@, r@, i + 1) =~= before + replace_scan(
                s@,
                p@,
                r@,
                i as int,
            ));
            i += 1;
        }
    }
    assert(res@ =~= replace_all(s@, p@, r@));
    res
}

/// `s` with every `a` replaced by `b`.
pub open spec fn replace_char(s: Seq<char>, a: char, b: char) -> Seq<char> {
    Seq::new(
        s.len(),
        |k: int|
            if s[k] == a {
                b
            } else {
                s[k]
            },
    )
}

/// `str::replace` with a one-character pattern and replacement.
pub fn replace_char_exec(s: &[char], a: char, b: char) -> (res: Vec<char>)
    ensures
        res@ == replace_char(s@, a, b),
{
    let mut res: Vec<char> = Vec::new();
    let mut i: usize = 0;
    while i < s.len()
        invariant
            i <= s@.len(),
            res@ == replace_char(s@, a, b).take(i as int),
        decreases s@.len() - i,
    {
        if s[i] == a {
            res.push(b);
        } else {
            res.push(s[i]);
        }
        i += 1;
        assert(res@ =~= replace_char(s@, a, b).take(i as int));
    }
    assert(res@ =~= replace_char(s@, a, b));
    res
}

/// The number of occurrences of `c` in `s`.
pub open spec fn count_char(s: Seq<char>, c: char) -> nat
    decreases s.len(),
{
    if s.len() == 0 {
        0
    } else {
        count_char(s.drop_last(), c) + if s.last() == c {
            1nat
        } else {
            0nat
        }
    }
}

/// The number of occurrences of `c` in `s`.
pub fn count_char_exec(s: &[char], c: char) -> (res: usize)
    ensures
        res == count_char(s@, c),
{
    let mut res: usize = 0;
    let mut i: usize = 0;
    while i < s.len()
        invariant
            i <= s@.len(),
            res == count_char(s@.take(i as int), c),
            res <= i,
        decreases s@.len() - i,
    {
        assert(s@.take(i + 1).drop_last() =~= s@.take(i as int));
        if s[i] == c {
            res += 1;
        }
        i += 1;
    }
    assert(s@.take(s@.len() as int) =~= s@);
    res
}

/// The pieces of `parts` joined with `sep` between consecutive pieces.
pub open spec fn join(parts: Seq<Seq<char>>, sep: Seq<char>) -> Seq<char>
    decreases parts.len(),
{
    if parts.len() == 0 {
        seq![]
    } else if parts.len() == 1 {
        parts[0]
    } else {
        join(parts.drop_last(), sep) + sep + parts.last()
    }
}

/// `[T]::join` on character vectors.
pub fn join_chars(parts: &Vec<Vec<char>>, sep: &[char]) -> (res: Vec<char>)
    ensures
        res@ == join(seqs_of(parts@), sep@),
{
    let mut res: Vec<char> = Vec::new();
    let mut i: usize = 0;
    while i < parts.len()
        invariant
            i <= parts@.len(),
            res@ == join(seqs_of(parts@).take(i as int), sep@),
        decreases parts@.len() - i,
    {
        let ghost before = res@;
        if i > 0 {
            push_all(&mut res, sep);
        }
        push_all(&mut res, &parts[i]);
        assert(seqs_of(parts@).take(i + 1).drop_last() =~= seqs_of(parts@).take(i as int));
        i += 1;
        if i == 1 {
            assert(res@ =~= join(seqs_of(parts@).take(1), sep@));
        }
    }
    assert(seqs_of(parts@).take(parts@.len() as int) =~= seqs_of(parts@));
    res
}

/// `n` copies of `c`.
pub open spec fn repeat_char(c: char, n: nat) -> Seq<char> {
    Seq::new(n, |k: int| c)
}

/// `n` copies of `c`.
pub fn repeat_char_exec(c: char, n: usize) -> (res: Vec<char>)
    ensures
        res@ == repeat_char(c, n as nat),
{
    let mut res: Vec<char> = Vec::new();
    let mut i: usize = 0;
    while i < n
        invariant
            i <= n,
            res@ == repeat_char(c, i as nat),
        decreases n - i,
    {
        res.push(c);
        i += 1;
        assert(res@ =~= repeat_char(c, i as nat));
    }
    res
}

/// The digit character for `d < 10`.
pub open spec fn digit_char(d: nat) -> char {
    if d == 0 { '0' } else if d == 1 { '1' } else if d == 2 { '2' } else if d == 3 { '3' }
    else if d == 4 { '4' } else if d == 5 { '5' } else if d == 6 { '6' } else if d == 7 { '7' }
    else if d == 8 { '8' } else { '9' }
}

/// The decimal notation of `n`, as `format!("{}", n)` writes it.
pub open spec fn decimal(n: nat) -> Seq<char>
    decreases n,
{
    if n < 10 {
        seq![digit_char(n)]
    } else {
        decimal(n / 10).push(digit_char(n % 10))
    }
}

fn digit_char_exec(d: usize) -> (res: char)
    requires
        d < 10,
    ensures
        res == digit_char(d as nat),
{
    if d == 0 { '0' } else if d == 1 { '1' } else if d == 2 { '2' } else if d == 3 { '3' }
    else if d == 4 { '4' } else if d == 5 { '5' } else if d == 6 { '6' } else if d == 7 { '7' }
    else if d == 8 { '8' } else { '9' }
}

/// The decimal notation of `n`.
pub fn decimal_exec(n: usize) -> (res: Vec<char>)
    ensures
        res@ == decimal(n as nat),
    decreases n,
{
    if n < 10 {
        let mut v: Vec<char> = Vec::new();
        v.push(digit_char_exec(n));
        assert(v@ =~= decimal(n as nat));
        v
    } else {
        let mut v = decimal_exec(n / 10);
        v.push(digit_char_exec(n % 10));
        v
    }
}

/// A one-character sequence.
pub fn one_char(c: char) -> (res: Vec<char>)
    ensures
        res@ == seq![c],
{
    let mut v: Vec<char> = Vec::new();
    v.push(c);
    assert(v@ =~= seq![c]);
    v
}

/// A two-character sequence.
pub fn two_chars(a: char, b: char) -> (res: Vec<char>)
    ensures
        res@ == seq![a, b],
{
    let mut v: Vec<char> = Vec::new();
    v.push(a);
    v.push(b);
    assert(v@ =~= seq![a, b]);
    v
}

/// Strings made of each character vector of `v`.
pub fn strings_of(v: &Vec<Vec<char>>) -> (res: Vec<String>)
    ensures
        res.deep_view() == seqs_of(v@),
{
    let mut res: Vec<String> = Vec::new();
    let mut i: usize = 0;
    while i < v.len()
        invariant
            i <= v@.len(),
            res@.len() == i,
            forall|k: int| 0 <= k < i ==> #[trigger] res@[k]@ == v@[k]@,
        decreases v@.len() - i,
    {
        let s = string_of(&v[i]);
        res.push(s);
        i += 1;
    }
    assert(res.deep_view() =~= seqs_of(v@));
    res
}

/// The total number of characters in `ls`.
pub open spec fn total_len(ls: Seq<Seq<char>>) -> nat
    decreases ls.len(),
{
    if ls.len() == 0 {
        0
    } else {
        ls[0].len() + total_len(ls.drop_first())
    }
}

proof fn lemma_total_len_lines_scan(s: Seq<char>, i: int, start: int)
    requires
        0 <= start <= i <= s.len(),
    ensures
        total_len(lines_scan(s, i, start)) <= s.len() - start,
    decreases s.len() - i,
{
    if i >= s.len() {
        if start < s.len() {
            let r = lines_scan(s, i, start);
            assert(r.drop_first() =~= Seq::<Seq<char>>::empty());
        }
    } else if s[i] == '\n' {
        lemma_total_len_lines_scan(s, i + 1, i + 1);
        let r = lines_scan(s, i, start);
        assert(r.drop_first() =~= lines_scan(s, i + 1, i + 1));
    } else {
        lemma_total_len_lines_scan(s, i + 1, start);
    }
}

proof fn lemma_lines_scan_chars(s: Seq<char>, i: int, start: int, c: char)
    requires
        0 <= start <= i <= s.len(),
        !s.contains(c),
    ensures
        forall|k: int| 0 <= k < lines_scan(s, i, start).len() ==> !(#[trigger] lines_scan(s, i, start)[k]).contains(c),
    decreases s.len() - i,
{
    if i >= s.len() {
        if start < s.len() {
            let l = s.subrange(start, s.len() as int);
            assert forall|j: int| 0 <= j < l.len() implies l[j] != c by {
                assert(l[j] == s[start + j]);
            }
            let r = lines_scan(s, i, start);
            assert(r == seq![l]);
            assert(r.len() == 1);
            assert(!l.contains(c));
            assert forall|k: int| 0 <= k < r.len() implies !(#[trigger] r[k]).contains(c) by {
                assert(r[k] == l);
            }
        } else {
            assert(lines_scan(s, i, start).len() == 0);
        }
    } else if s[i] == '\n' {
        lemma_lines_scan_chars(s, i + 1, i + 1, c);
        let l = strip_cr(s.subrange(start, i));
        assert forall|j: int| 0 <= j < l.len() implies l[j] != c by {
            assert(l[j] == s[start + j]);
        }
        let r = lines_scan(s, i, start);
        assert(!l.contains(c));
        assert forall|k: int| 0 <= k < r.len() implies !(#[trigger] r[k]).contains(c) by {
            if k == 0 {
                assert(r[0] == l);
            } else {
                assert(r[k] == lines_scan(s, i + 1, i + 1)[k - 1]);
            }
        }
    } else {
        lemma_lines_scan_chars(s, i + 1, start, c);
        assert(lines_scan(s, i, start) == lines_scan(s, i + 1, start));
    }
}

/// A character that `s` does not hold is in none of its lines.
pub proof fn lemma_lines_lack(s: Seq<char>, c: char)
    requires
        !s.contains(c),
    ensures
        forall|k: int| 0 <= k < lines(s).len() ==> !(#[trigger] lines(s)[k]).contains(c),
{
    lemma_lines_scan_chars(s, 0, 0, c);
}

/// A character that `s` does not hold is not in its trimmed form either.
pub proof fn lemma_trim_lack(s: Seq<char>, c: char)
    requires
        !s.contains(c),
    ensures
        !trim(s).contains(c),
{
    lemma_trim_start_lack(s, c);
    lemma_trim_end_lack(trim_start(s), c);
}

proof fn lemma_trim_start_lack(s: Seq<char>, c: char)
    requires
        !s.contains(c),
    ensures
        !trim_start(s).contains(c),
    decreases s.len(),
{
    if s.len() > 0 && is_ws(s[0]) {
        let d = s.drop_first();
        assert forall|j: int| 0 <= j < d.len() implies d[j] != c by {
            assert(d[j] == s[j + 1]);
        }
        lemma_trim_start_lack(d, c);
    }
}

proof fn lemma_trim_end_lack(s: Seq<char>, c: char)
    requires
        !s.contains(c),
    ensures
        !trim_end(s).contains(c),
    decreases s.len(),
{
    if s.len() > 0 && is_ws(s.last()) {
        let d = s.drop_last();
        assert forall|j: int| 0 <= j < d.len() implies d[j] != c by {
            assert(d[j] == s[j]);
        }
        lemma_trim_end_lack(d, c);
    }
}

/// The lines of `s` hold at most as many characters as `s`.
pub proof fn lemma_total_len_lines(s: Seq<char>)
    ensures
        total_len(lines(s)) <= s.len(),
{
    lemma_total_len_lines_scan(s, 0, 0);
}

/// Dropping the first `k` pieces takes their lengths off the total.
pub proof fn lemma_total_len_skip(ls: Seq<Seq<char>>, k: int)
    requires
        0 <= k < ls.len(),
    ensures
        total_len(ls.skip(k)) == ls[k].len() + total_len(ls.skip(k + 1)),
{
    assert(ls.skip(k).drop_first() =~= ls.skip(k + 1));
}

proof fn lemma_trim_start_len(s: Seq<char>)
    ensures
        trim_start(s).len() <= s.len(),
    decreases s.len(),
{
    if s.len() > 0 && is_ws(s[0]) {
        lemma_trim_start_len(s.drop_first());
    }
}

proof fn lemma_trim_end_len(s: Seq<char>)
    ensures
        trim_end(s).len() <= s.len(),
    decreases s.len(),
{
    if s.len() > 0 && is_ws(s.last()) {
        lemma_trim_end_len(s.drop_last());
    }
}

/// Trimming never lengthens a sequence.
pub proof fn lemma_trim_len(s: Seq<char>)
    ensures
        trim(s).len() <= s.len(),
{
    lemma_trim_start_len(s);
    lemma_trim_end_len(trim_start(s));
}

/// A sequence holds at most as many copies of `c` as it has characters.
pub proof fn lemma_count_char_le(s: Seq<char>, c: char)
    ensures
        count_char(s, c) <= s.len(),
    decreases s.len(),
{
    if s.len() > 0 {
        lemma_count_char_le(s.drop_last(), c);
    }
}

/// `rfind_char` returns the last position that holds `c`.
pub proof fn lemma_rfind_char_before(s: Seq<char>, c: char, j: int)
    ensures
        rfind_char_before(s, c, j) matches Some(k) ==> 0 <= k < j && k < s.len() && s[k] == c
            && forall|l: int| k < l < j ==> s[l] != c,
        rfind_char_before(s, c, j) is None && 0 <= j <= s.len() ==> forall|l: int|
            0 <= l < j ==> s[l] != c,
    decreases j,
{
    if 0 < j <= s.len() && s[j - 1] != c {
        lemma_rfind_char_before(s, c, j - 1);
    }
}

/// `rfind_char` returns the last position that holds `c`.
pub proof fn lemma_rfind_char(s: Seq<char>, c: char)
    ensures
        rfind_char(s, c) matches Some(k) ==> 0 <= k < s.len() && s[k] == c && forall|l: int|
            k < l < s.len() ==> s[l] != c,
        rfind_char(s, c) is None ==> !s.contains(c),
{
    lemma_rfind_char_before(s, c, s.len() as int);
}

/// A suffix of `ls` holds at most as many characters as `ls`.
pub proof fn lemma_total_len_skip_le(ls: Seq<Seq<char>>, k: int)
    requires
        0 <= k <= ls.len(),
    ensures
        total_len(ls.skip(k)) <= total_len(ls),
    decreases k,
{
    if k == 0 {
        assert(ls.skip(0) =~= ls);
    } else {
        lemma_total_len_skip_le(ls, k - 1);
        lemma_total_len_skip(ls, k - 1);
    }
}

proof fn lemma_words_scan_nonempty(s: Seq<char>, i: int, start: int)
    requires
        0 <= start <= i <= s.len(),
    ensures
        forall|k: int|
            0 <= k < words_scan(s, i, start).len() ==> #[trigger] words_scan(s, i, start)[k].len()
                > 0,
    decreases s.len() - i,
{
    let w = words_scan(s, i, start);
    if i >= s.len() {
        if start < s.len() {
            assert(w == seq![s.subrange(start, s.len() as int)]);
        } else {
            assert(w.len() == 0);
        }
    } else if is_ws(s[i]) {
        lemma_words_scan_nonempty(s, i + 1, i + 1);
        let rest = words_scan(s, i + 1, i + 1);
        if start < i {
            assert(w == seq![s.subrange(start, i)] + rest);
            assert forall|k: int| 0 <= k < w.len() implies #[trigger] w[k].len() > 0 by {
                if k > 0 {
                    assert(w[k] == rest[k - 1]);
                }
            }
        } else {
            assert(w =~= rest);
        }
    } else {
        lemma_words_scan_nonempty(s, i + 1, start);
        assert(w == words_scan(s, i + 1, start));
    }
}

/// Every word is non-empty.
pub proof fn lemma_words_nonempty(s: Seq<char>)
    ensures
        forall|k: int| 0 <= k < words(s).len() ==> #[trigger] words(s)[k].len() > 0,
{
    lemma_words_scan_nonempty(s, 0, 0);
}

proof fn lemma_split_scan_nonempty(s: Seq<char>, sep: char, i: int, start: int)
    requires
        0 <= start <= i <= s.len(),
    ensures
        split_scan(s, sep, i, start).len() >= 1,
    decreases s.len() - i,
{
    if i < s.len() {
        if s[i] == sep {
            lemma_split_scan_nonempty(s, sep, i + 1, i + 1);
        } else {
            lemma_split_scan_nonempty(s, sep, i + 1, start);
        }
    }
}

/// Splitting always yields at least one field.
pub proof fn lemma_split_nonempty(s: Seq<char>, sep: char)
    ensures
        split(s, sep).len() >= 1,
{
    lemma_split_scan_nonempty(s, sep, 0, 0);
}

/// All pieces of `parts` but the last, joined with `sep`.
pub fn join_init_exec(parts: &Vec<Vec<char>>, sep: &[char]) -> (res: Vec<char>)
    requires
        parts@.len() >= 1,
    ensures
        res@ == join(seqs_of(parts@).drop_last(), sep@),
{
    let n = parts.len();
    let mut head: Vec<Vec<char>> = Vec::new();
    let mut k: usize = 0;
    while k < n - 1
        invariant
            n == parts@.len() >= 1,
            k <= n - 1,
            seqs_of(head@) == seqs_of(parts@).take(k as int),
        decreases n - 1 - k,
    {
        let piece = parts[k].clone();
        proof {
            lemma_seqs_of_push(head@, piece);
            assert(seqs_of(parts@).take(k + 1) =~= seqs_of(parts@).take(k as int).push(
                parts@[k as int]@,
            ));
        }
        head.push(piece);
        k += 1;
    }
    assert(seqs_of(parts@).take(n - 1) =~= seqs_of(parts@).drop_last());
    join_chars(&head, sep)
}

} // verus!
