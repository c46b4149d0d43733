//! Line-oriented configuration language parser.
//!
//! One instruction per line: a command word followed by options
//! (`--name="value"` or `--name=value`) and arguments (bare tokens or quoted
//! strings). `#` starts a comment outside quotes; blank lines are ignored.
//! Quoted strings may hold escaped quote characters. The grammar below is
//! stated as spec functions over the character sequence, and the executable
//! parser is proved to return exactly what they describe.

use vstd::prelude::*;
use crate::strutil::str_chars;
use crate::strutil::chars_to_string;

verus! {

/// A generic keyword record: one logical configuration line.
#[derive(Debug, Clone)]
pub struct Keyword {
    pub name: String,
    pub options: Option<Vec<(String, String)>>,
    pub arguments: Vec<String>,
}

/// Mathematical value of a [`Keyword`].
#[verifier::ext_equal]
pub struct KeywordV {
    pub name: Seq<char>,
    pub options: Option<Seq<(Seq<char>, Seq<char>)>>,
    pub arguments: Seq<Seq<char>>,
}

/// The option names one keyword accepts.
#[derive(Debug, Clone)]
pub struct KeywordDefinition {
    pub options: Vec<String>,
}

/// A syntax error, identifying the offending line.
#[derive(Debug, Clone, Copy, PartialEq, Eq, Structural)]
pub struct ParseError {
    pub line: usize,
}

/// The views of a vector of strings.
pub open spec fn strs_view(v: Seq<String>) -> Seq<Seq<char>> {
    Seq::new(v.len(), |i: int| v[i]@)
}

/// The views of a vector of string pairs.
pub open spec fn pairs_view(v: Seq<(String, String)>) -> Seq<(Seq<char>, Seq<char>)> {
    Seq::new(v.len(), |i: int| (v[i].0@, v[i].1@))
}

impl View for Keyword {
    type V = KeywordV;

    open spec fn view(&self) -> KeywordV {
        KeywordV {
            name: self.name@,
            options: match self.options {
                Option::Some(v) => Option::Some(pairs_view(v@)),
                Option::None => Option::None,
            },
            arguments: strs_view(self.arguments@),
        }
    }
}

/// The views of a vector of keyword records.
pub open spec fn keywords_view(v: Seq<Keyword>) -> Seq<KeywordV> {
    Seq::new(v.len(), |i: int| v[i]@)
}

/// Inline whitespace: spaces and tabs (and a carriage return before a line
/// feed).
pub open spec fn is_ws(c: char) -> bool {
    c == ' ' || c == '\t' || c == '\r'
}

/// An ASCII letter.
pub open spec fn is_alpha(c: char) -> bool {
    (97 <= c as u32 && c as u32 <= 122) || (65 <= c as u32 && c as u32 <= 90)
}

/// An ASCII digit.
pub open spec fn is_digit_char(c: char) -> bool {
    48 <= c as u32 && c as u32 <= 57
}

/// A character that may continue a command word or option name.
pub open spec fn is_word_char(c: char) -> bool {
    is_alpha(c) || is_digit_char(c) || c == '_' || c == '-'
}

/// A character that may stand in a bare (unquoted) token.
pub open spec fn is_bare_char(c: char) -> bool {
    !is_ws(c) && c != '\n' && c != '"' && c != '#'
}

/// A character inside a comment: anything up to the end of the line.
pub open spec fn is_comment_char(c: char) -> bool {
    c != '\n'
}

/// How many consecutive characters satisfying `p` stand at position `i`.
pub open spec fn scan_len(s: Seq<char>, i: int, p: spec_fn(char) -> bool) -> nat
    decreases s.len() - i,
{
    if 0 <= i < s.len() && p(s[i]) {
        1 + scan_len(s, i + 1, p)
    } else {
        0
    }
}

/// A scan never runs past the end of the sequence.
pub proof fn lemma_scan_len_le(s: Seq<char>, i: int, p: spec_fn(char) -> bool)
    requires
        0 <= i <= s.len(),
    ensures
        i + scan_len(s, i, p) <= s.len(),
    decreases s.len() - i,
{
    if i < s.len() && p(s[i]) {
        lemma_scan_len_le(s, i + 1, p);
    }
}

/// A scan stops at the end of the input or at a character that fails the
/// predicate.
pub proof fn lemma_scan_len_stop(s: Seq<char>, i: int, p: spec_fn(char) -> bool)
    requires
        0 <= i <= s.len(),
    ensures
        i + scan_len(s, i, p) < s.len() ==> !p(s[i + scan_len(s, i, p)]),
    decreases s.len() - i,
{
    if i < s.len() && p(s[i]) {
        lemma_scan_len_stop(s, i + 1, p);
    }
}

/// The remainder of a quoted string starting inside the quotes at `i`:
/// the unescaped value and the position after the closing quote, or a
/// syntax error when the line or the input ends before the quote closes.
pub open spec fn spec_quoted(s: Seq<char>, i: int, acc: Seq<char>) -> Result<(Seq<char>, int), ()>
    decreases s.len() - i,
{
    if i >= s.len() || s[i] == '\n' {
        Err(())
    } else if s[i] == '"' {
        Ok((acc, i + 1))
    } else if s[i] == '\\' && i + 1 < s.len() && s[i + 1] == '"' {
        spec_quoted(s, i + 2, acc.push('"'))
    } else {
        spec_quoted(s, i + 1, acc.push(s[i]))
    }
}

/// A successfully scanned quoted string ends past where it began and within
/// the input.
pub proof fn lemma_quoted_le(s: Seq<char>, i: int, acc: Seq<char>)
    requires
        0 <= i <= s.len(),
    ensures
        (match spec_quoted(s, i, acc) {
            Ok((v, k)) => i < k <= s.len(),
            Err(()) => true,
        }),
    decreases s.len() - i,
{
    if i >= s.len() || s[i] == '\n' {
    } else if s[i] == '"' {
    } else if s[i] == '\\' && i + 1 < s.len() && s[i + 1] == '"' {
        lemma_quoted_le(s, i + 2, acc.push('"'));
    } else {
        lemma_quoted_le(s, i + 1, acc.push(s[i]));
    }
}

/// Insert one binding into an association list, replacing the value of an
/// existing key: keys stay unique and the last occurrence of a key wins.
pub open spec fn assoc_insert<V>(m: Seq<(Seq<char>, V)>, k: Seq<char>, v: V) -> Seq<(Seq<char>, V)>
    decreases m.len(),
{
    if m.len() == 0 {
        seq![(k, v)]
    } else if m[0].0 == k {
        seq![(k, v)] + m.drop_first()
    } else {
        seq![m[0]] + assoc_insert(m.drop_first(), k, v)
    }
}

/// The rest of one line after the command word: the collected options (with
/// last-wins keys), whether any option token appeared, the positional
/// arguments in order, and the position where the line's tokens end (the end
/// of input, a line feed, or a comment sign).
pub open spec fn spec_line_rest(
    s: Seq<char>,
    i: int,
    opts: Seq<(Seq<char>, Seq<char>)>,
    had: bool,
    args: Seq<Seq<char>>,
) -> Result<(Seq<(Seq<char>, Seq<char>)>, bool, Seq<Seq<char>>, int), ()>
    decreases s.len() - i when 0 <= i <= s.len() via spec_line_rest_dec
{
    let j = i + scan_len(s, i, |c: char| is_ws(c));
    if j >= s.len() || s[j] == '\n' || s[j] == '#' {
        Ok((opts, had, args, j))
    } else if s[j] == '"' {
        match spec_quoted(s, j + 1, Seq::empty()) {
            Err(()) => Err(()),
            Ok((val, k)) => spec_line_rest(s, k, opts, had, args.push(val)),
        }
    } else if s[j] == '-' && j + 1 < s.len() && s[j + 1] == '-' {
        let nl = scan_len(s, j + 2, |c: char| is_word_char(c));
        if nl == 0 {
            Err(())
        } else {
            let e = j + 2 + nl;
            if e >= s.len() || s[e] != '=' {
                Err(())
            } else {
                let name = s.subrange(j + 2, e as int);
                if e + 1 < s.len() && s[e + 1] == '"' {
                    match spec_quoted(s, e + 2, Seq::empty()) {
                        Err(()) => Err(()),
                        Ok((val, k)) => spec_line_rest(s, k, assoc_insert(opts, name, val), true, args),
                    }
                } else {
                    let vl = scan_len(s, e + 1, |c: char| is_bare_char(c));
                    let val = s.subrange(e + 1, e + 1 + vl);
                    spec_line_rest(s, e + 1 + vl, assoc_insert(opts, name, val), true, args)
                }
            }
        }
    } else {
        let bl = scan_len(s, j, |c: char| is_bare_char(c));
        spec_line_rest(s, j + bl, opts, had, args.push(s.subrange(j as int, j + bl)))
    }
}

#[via_fn]
proof fn spec_line_rest_dec(
    s: Seq<char>,
    i: int,
    opts: Seq<(Seq<char>, Seq<char>)>,
    had: bool,
    args: Seq<Seq<char>>,
) {
    lemma_scan_len_le(s, i, |c: char| is_ws(c));
    lemma_scan_len_stop(s, i, |c: char| is_ws(c));
    let j = i + scan_len(s, i, |c: char| is_ws(c));
    if j < s.len() && s[j] != '\n' && s[j] != '#' {
        if s[j] == '"' {
            lemma_quoted_le(s, j + 1, Seq::empty());
        } else if s[j] == '-' && j + 1 < s.len() && s[j + 1] == '-' {
            lemma_scan_len_le(s, j + 2, |c: char| is_word_char(c));
            let nl = scan_len(s, j + 2, |c: char| is_word_char(c));
            if nl != 0 {
                let e = j + 2 + nl;
                if e < s.len() && s[e] == '=' {
                    if e + 1 < s.len() && s[e + 1] == '"' {
                        lemma_quoted_le(s, e + 2, Seq::empty());
                    } else {
                        lemma_scan_len_le(s, e + 1, |c: char| is_bare_char(c));
                    }
                }
            }
        } else {
            lemma_scan_len_le(s, j, |c: char| is_bare_char(c));
            assert(is_bare_char(s[j]));
            assert(scan_len(s, j, |c: char| is_bare_char(c)) >= 1);
        }
    }
}

/// The tokens of one line end within the input, no earlier than they began.
pub proof fn lemma_line_rest_le(
    s: Seq<char>,
    i: int,
    opts: Seq<(Seq<char>, Seq<char>)>,
    had: bool,
    args: Seq<Seq<char>>,
)
    requires
        0 <= i <= s.len(),
    ensures
        (match spec_line_rest(s, i, opts, had, args) {
            Ok((o, h, a, k)) => i <= k <= s.len(),
            Err(()) => true,
        }),
    decreases s.len() - i,
{
    lemma_scan_len_le(s, i, |c: char| is_ws(c));
    let j = i + scan_len(s, i, |c: char| is_ws(c));
    if j >= s.len() || s[j] == '\n' || s[j] == '#' {
    } else if s[j] == '"' {
        lemma_quoted_le(s, j + 1, Seq::empty());
        if let Ok((val, k)) = spec_quoted(s, j + 1, Seq::empty()) {
            lemma_line_rest_le(s, k, opts, had, args.push(val));
        }
    } else if s[j] == '-' && j + 1 < s.len() && s[j + 1] == '-' {
        lemma_scan_len_le(s, j + 2, |c: char| is_word_char(c));
        let nl = scan_len(s, j + 2, |c: char| is_word_char(c));
        if nl != 0 {
            let e = j + 2 + nl;
            if e < s.len() && s[e] == '=' {
                let name = s.subrange(j + 2, e as int);
                if e + 1 < s.len() && s[e + 1] == '"' {
                    lemma_quoted_le(s, e + 2, Seq::empty());
                    if let Ok((val, k)) = spec_quoted(s, e + 2, Seq::empty()) {
                        lemma_line_rest_le(s, k, assoc_insert(opts, name, val), true, args);
                    }
                } else {
                    lemma_scan_len_le(s, e + 1, |c: char| is_bare_char(c));
                    let vl = scan_len(s, e + 1, |c: char| is_bare_char(c));
                    let val = s.subrange(e + 1, e + 1 + vl);
                    lemma_line_rest_le(s, e + 1 + vl, assoc_insert(opts, name, val), true, args);
                }
            }
        }
    } else {
        lemma_scan_len_le(s, j, |c: char| is_bare_char(c));
        let bl = scan_len(s, j, |c: char| is_bare_char(c));
        lemma_line_rest_le(s, j + bl, opts, had, args.push(s.subrange(j as int, j + bl)));
    }
}

/// The end of a line whose tokens stop at `j`: any comment is skipped, and
/// the line feed, if present, is consumed.
pub open spec fn spec_line_end(s: Seq<char>, j: int) -> int {
    let c = j + scan_len(s, j, |ch: char| is_comment_char(ch));
    if c < s.len() {
        c + 1
    } else {
        c
    }
}

/// Parse one line: no record for a blank or comment line, a keyword record
/// for an instruction line, a syntax error otherwise. Also the position where
/// the next line starts.
pub open spec fn spec_parse_line(s: Seq<char>, i: int) -> Result<(Option<KeywordV>, int), ()> {
    let j = i + scan_len(s, i, |c: char| is_ws(c));
    if j >= s.len() {
        Ok((Option::None, j))
    } else if s[j] == '\n' {
        Ok((Option::None, j + 1))
    } else if s[j] == '#' {
        Ok((Option::None, spec_line_end(s, j)))
    } else if !is_alpha(s[j]) {
        Err(())
    } else {
        let wl = scan_len(s, j, |c: char| is_word_char(c));
        let e = j + wl;
        if e < s.len() && !is_ws(s[e]) && s[e] != '\n' && s[e] != '#' {
            Err(())
        } else {
            match spec_line_rest(s, e, Seq::empty(), false, Seq::empty()) {
                Err(()) => Err(()),
                Ok((opts, had, args, k)) => Ok(
                    (
                        Option::Some(
                            KeywordV {
                                name: s.subrange(j as int, e as int),
                                options: if had {
                                    Option::Some(opts)
                                } else {
                                    Option::None
                                },
                                arguments: args,
                            },
                        ),
                        spec_line_end(s, k),
                    ),
                ),
            }
        }
    }
}

/// A parsed line always advances: the next line starts past where this one
/// began and within the input.
pub proof fn lemma_parse_line_le(s: Seq<char>, i: int)
    requires
        0 <= i <= s.len(),
    ensures
        (match spec_parse_line(s, i) {
            Ok((rec, next)) => i <= next <= s.len() && (i < s.len() ==> i < next),
            Err(()) => true,
        }),
{
    lemma_scan_len_le(s, i, |c: char| is_ws(c));
    let j = i + scan_len(s, i, |c: char| is_ws(c));
    if j >= s.len() {
    } else if s[j] == '\n' {
    } else if s[j] == '#' {
        lemma_scan_len_le(s, j, |ch: char| is_comment_char(ch));
        assert(scan_len(s, j, |ch: char| is_comment_char(ch)) >= 1);
    } else if !is_alpha(s[j]) {
    } else {
        lemma_scan_len_le(s, j, |c: char| is_word_char(c));
        let wl = scan_len(s, j, |c: char| is_word_char(c));
        assert(wl >= 1);
        let e = j + wl;
        if !(e < s.len() && !is_ws(s[e]) && s[e] != '\n' && s[e] != '#') {
            lemma_line_rest_le(s, e, Seq::empty(), false, Seq::empty());
            if let Ok((opts, had, args, k)) = spec_line_rest(s, e, Seq::empty(), false, Seq::empty()) {
                lemma_scan_len_le(s, k, |ch: char| is_comment_char(ch));
            }
        }
    }
}

/// Parse a whole document into keyword records, or the position where the
/// first offending line starts.
pub open spec fn spec_parse_doc(s: Seq<char>, i: int) -> Result<Seq<KeywordV>, int>
    decreases s.len() - i when 0 <= i <= s.len() via spec_parse_doc_dec
{
    if i >= s.len() {
        Ok(Seq::empty())
    } else {
        match spec_parse_line(s, i) {
            Err(()) => Err(i),
            Ok((rec, next)) => match spec_parse_doc(s, next) {
                Err(l) => Err(l),
                Ok(rest) => Ok(
                    match rec {
                        Option::Some(kv) => seq![kv] + rest,
                        Option::None => rest,
                    },
                ),
            },
        }
    }
}

#[via_fn]
proof fn spec_parse_doc_dec(s: Seq<char>, i: int) {
    if i < s.len() {
        lemma_parse_line_le(s, i);
    }
}

/// Parse a configuration document: the keyword records of its instruction
/// lines in order, or the (1-based) number of the first offending line.
pub open spec fn spec_parse_config(s: Seq<char>) -> Result<Seq<KeywordV>, int> {
    match spec_parse_doc(s, 0) {
        Ok(ks) => Ok(ks),
        Err(pos) => Err(1 + count_nl(s, pos)),
    }
}

/// The number of line feeds among the first `upto` characters.
pub open spec fn count_nl(s: Seq<char>, upto: int) -> int
    decreases upto,
{
    if upto <= 0 {
        0
    } else {
        count_nl(s, upto - 1) + (if 0 <= upto - 1 < s.len() && s[upto - 1] == '\n' {
            1int
        } else {
            0int
        })
    }
}

fn is_ws_x(c: char) -> (r: bool)
    ensures
        r == is_ws(c),
{
    c == ' ' || c == '\t' || c == '\r'
}

fn is_alpha_x(c: char) -> (r: bool)
    ensures
        r == is_alpha(c),
{
    let n = c as u32;
    (97 <= n && n <= 122) || (65 <= n && n <= 90)
}

fn is_word_char_x(c: char) -> (r: bool)
    ensures
        r == is_word_char(c),
{
    let n = c as u32;
    is_alpha_x(c) || (48 <= n && n <= 57) || c == '_' || c == '-'
}

fn is_bare_char_x(c: char) -> (r: bool)
    ensures
        r == is_bare_char(c),
{
    !is_ws_x(c) && c != '\n' && c != '"' && c != '#'
}

fn scan_ws(v: &Vec<char>, i: usize) -> (r: usize)
    requires
        i <= v@.len(),
    ensures
        r == scan_len(v@, i as int, |c: char| is_ws(c)),
        i + r <= v@.len(),
    decreases v@.len() - i,
{
    if i < v.len() && is_ws_x(v[i]) {
        1 + scan_ws(v, i + 1)
    } else {
        0
    }
}

fn scan_word(v: &Vec<char>, i: usize) -> (r: usize)
    requires
        i <= v@.len(),
    ensures
        r == scan_len(v@, i as int, |c: char| is_word_char(c)),
        i + r <= v@.len(),
    decreases v@.len() - i,
{
    if i < v.len() && is_word_char_x(v[i]) {
        1 + scan_word(v, i + 1)
    } else {
        0
    }
}

fn scan_bare(v: &Vec<char>, i: usize) -> (r: usize)
    requires
        i <= v@.len(),
    ensures
        r == scan_len(v@, i as int, |c: char| is_bare_char(c)),
        i + r <= v@.len(),
    decreases v@.len() - i,
{
    if i < v.len() && is_bare_char_x(v[i]) {
        1 + scan_bare(v, i + 1)
    } else {
        0
    }
}

fn scan_comment(v: &Vec<char>, i: usize) -> (r: usize)
    requires
        i <= v@.len(),
    ensures
        r == scan_len(v@, i as int, |c: char| is_comment_char(c)),
        i + r <= v@.len(),
    decreases v@.len() - i,
{
    if i < v.len() && v[i] != '\n' {
        1 + scan_comment(v, i + 1)
    } else {
        0
    }
}

fn char_range(v: &Vec<char>, from: usize, to: usize) -> (r: Vec<char>)
    requires
        from <= to <= v@.len(),
    ensures
        r@ == v@.subrange(from as int, to as int),
{
    let mut out: Vec<char> = Vec::new();
    let mut i: usize = from;
    while i < to
        invariant
            from <= i <= to <= v@.len(),
            out@ == v@.subrange(from as int, i as int),
        decreases to - i,
    {
        out.push(v[i]);
        i = i + 1;
        proof {
            assert(out@ =~= v@.subrange(from as int, i as int));
        }
    }
    out
}

fn quoted(v: &Vec<char>, i: usize, acc: Vec<char>) -> (r: Result<(Vec<char>, usize), ()>)
    requires
        i <= v@.len(),
    ensures
        (match (spec_quoted(v@, i as int, acc@), r) {
            (Ok(m), Ok(e)) => m.0 == e.0@ && m.1 == e.1 && e.1 <= v@.len(),
            (Err(()), Err(())) => true,
            _ => false,
        }),
    decreases v@.len() - i,
{
    if i >= v.len() || v[i] == '\n' {
        Err(())
    } else if v[i] == '"' {
        Ok((acc, i + 1))
    } else if v[i] == '\\' && i + 1 < v.len() && v[i + 1] == '"' {
        let mut acc2 = acc;
        acc2.push('"');
        quoted(v, i + 2, acc2)
    } else {
        let c = v[i];
        let mut acc2 = acc;
        acc2.push(c);
        quoted(v, i + 1, acc2)
    }
}

fn opts_insert_x(m: &mut Vec<(String, String)>, k: String, val: String)
    ensures
        pairs_view(final(m)@) == assoc_insert(pairs_view(old(m)@), k@, val@),
{
    let n = m.len();
    let mut j: usize = 0;
    while j < n
        invariant
            j <= n,
            n == m@.len(),
            pairs_view(m@) == pairs_view(old(m)@),
            forall|x: int| 0 <= x < j ==> #[trigger] pairs_view(old(m)@)[x].0 != k@,
        decreases n - j,
    {
        if m[j].0.eq(&k) {
            proof {
                assert(pairs_view(old(m)@)[j as int].0 == k@);
            }
            let ghost m0 = pairs_view(m@);
            m[j] = (k, val);
            proof {
                lemma_assoc_insert_hit(m0, k@, val@, j as int);
                assert(pairs_view(m@) =~~= m0.update(j as int, (k@, val@)));
            }
            return ;
        }
        j = j + 1;
    }
    let ghost m0 = pairs_view(m@);
    m.push((k, val));
    proof {
        lemma_assoc_insert_miss(m0, k@, val@);
        assert(pairs_view(m@) =~~= m0.push((k@, val@)));
    }
}

/// When the key is already present, insertion updates the first entry that
/// holds it.
proof fn lemma_assoc_insert_hit<V>(m: Seq<(Seq<char>, V)>, k: Seq<char>, v: V, j: int)
    requires
        0 <= j < m.len(),
        m[j].0 == k,
        forall|x: int| 0 <= x < j ==> #[trigger] m[x].0 != k,
    ensures
        assoc_insert(m, k, v) =~~= m.update(j, (k, v)),
    decreases m.len(),
{
    if j == 0 {
        assert(assoc_insert(m, k, v) == seq![(k, v)] + m.drop_first());
    } else {
        assert(m[0].0 != k);
        lemma_assoc_insert_hit(m.drop_first(), k, v, j - 1);
        assert(m.drop_first().update(j - 1, (k, v)) =~~= m.update(j, (k, v)).drop_first());
    }
}

/// When the key is absent, insertion appends the binding.
proof fn lemma_assoc_insert_miss<V>(m: Seq<(Seq<char>, V)>, k: Seq<char>, v: V)
    requires
        forall|x: int| 0 <= x < m.len() ==> #[trigger] m[x].0 != k,
    ensures
        assoc_insert(m, k, v) =~~= m.push((k, v)),
    decreases m.len(),
{
    if m.len() == 0 {
    } else {
        assert(m[0].0 != k);
        lemma_assoc_insert_miss(m.drop_first(), k, v);
        assert(m.drop_first().push((k, v)) =~~= m.push((k, v)).drop_first());
    }
}

/// Look a key up in an association list: the value of the first entry that
/// holds it.
pub open spec fn assoc_lookup<V>(m: Seq<(Seq<char>, V)>, k: Seq<char>) -> Option<V>
    decreases m.len(),
{
    if m.len() == 0 {
        Option::None
    } else if m[0].0 == k {
        Option::Some(m[0].1)
    } else {
        assoc_lookup(m.drop_first(), k)
    }
}

/// When the first entry holding the key stands at `j`, the lookup returns its
/// value.
pub proof fn lemma_assoc_lookup_hit<V>(m: Seq<(Seq<char>, V)>, k: Seq<char>, j: int)
    requires
        0 <= j < m.len(),
        m[j].0 == k,
        forall|x: int| 0 <= x < j ==> #[trigger] m[x].0 != k,
    ensures
        assoc_lookup(m, k) == Option::Some(m[j].1),
    decreases m.len(),
{
    if j > 0 {
        assert(m[0].0 != k);
        lemma_assoc_lookup_hit(m.drop_first(), k, j - 1);
    }
}

/// When no entry holds the key, the lookup returns nothing.
pub proof fn lemma_assoc_lookup_miss<V>(m: Seq<(Seq<char>, V)>, k: Seq<char>)
    requires
        forall|x: int| 0 <= x < m.len() ==> #[trigger] m[x].0 != k,
    ensures
        assoc_lookup(m, k) is None,
    decreases m.len(),
{
    if m.len() > 0 {
        assert(m[0].0 != k);
        lemma_assoc_lookup_miss(m.drop_first(), k);
    }
}

fn line_rest(
    v: &Vec<char>,
    i: usize,
    opts: Vec<(String, String)>,
    had: bool,
    args: Vec<String>,
) -> (r: Result<(Vec<(String, String)>, bool, Vec<String>, usize), ()>)
    requires
        i <= v@.len(),
    ensures
        (match (spec_line_rest(v@, i as int, pairs_view(opts@), had, strs_view(args@)), r) {
            (Ok(m), Ok(e)) => m.0 == pairs_view(e.0@) && m.1 == e.1 && m.2 == strs_view(e.2@)
                && m.3 == e.3 as int && e.3 <= v@.len(),
            (Err(()), Err(())) => true,
            _ => false,
        }),
    decreases v@.len() - i,
{
    let total = v.len();
    proof {
        lemma_scan_len_stop(v@, i as int, |c: char| is_ws(c));
    }
    let j = i + scan_ws(v, i);
    if j >= total || v[j] == '\n' || v[j] == '#' {
        Ok((opts, had, args, j))
    } else if v[j] == '"' {
        proof {
            lemma_quoted_le(v@, j + 1 as int, Seq::<char>::empty());
        }
        match quoted(v, j + 1, Vec::new()) {
            Err(()) => Err(()),
            Ok((val, k)) => {
                let mut args2 = args;
                args2.push(chars_to_string(&val));
                proof {
                    assert(strs_view(args2@) =~~= strs_view(args@).push(val@));
                }
                line_rest(v, k, opts, had, args2)
            },
        }
    } else if v[j] == '-' && j + 1 < v.len() && v[j + 1] == '-' {
        let nl = scan_word(v, j + 2);
        if nl == 0 {
            Err(())
        } else {
            let e = j + 2 + nl;
            if e >= v.len() || v[e] != '=' {
                Err(())
            } else {
                let name = chars_to_string(&char_range(v, j + 2, e));
                if e + 1 < v.len() && v[e + 1] == '"' {
                    proof {
                        lemma_quoted_le(v@, e + 2 as int, Seq::<char>::empty());
                    }
                    match quoted(v, e + 2, Vec::new()) {
                        Err(()) => Err(()),
                        Ok((val, k)) => {
                            let mut opts2 = opts;
                            opts_insert_x(&mut opts2, name, chars_to_string(&val));
                            line_rest(v, k, opts2, true, args)
                        },
                    }
                } else {
                    let vl = scan_bare(v, e + 1);
                    let valstr = chars_to_string(&char_range(v, e + 1, e + 1 + vl));
                    let mut opts2 = opts;
                    opts_insert_x(&mut opts2, name, valstr);
                    line_rest(v, e + 1 + vl, opts2, true, args)
                }
            }
        }
    } else {
        proof {
            assert(is_bare_char(v@[j as int]));
        }
        let bl = scan_bare(v, j);
        let tok = chars_to_string(&char_range(v, j, j + bl));
        let mut args2 = args;
        args2.push(tok);
        proof {
            assert(strs_view(args2@) =~~= strs_view(args@).push(
                v@.subrange(j as int, j + bl as int),
            ));
        }
        line_rest(v, j + bl, opts, had, args2)
    }
}

fn line_end(v: &Vec<char>, j: usize) -> (r: usize)
    requires
        j <= v@.len(),
    ensures
        r as int == spec_line_end(v@, j as int),
        j <= r <= v@.len(),
{
    let total = v.len();
    let c = j + scan_comment(v, j);
    if c < total {
        c + 1
    } else {
        c
    }
}

fn parse_line(v: &Vec<char>, i: usize) -> (r: Result<(Option<Keyword>, usize), ()>)
    requires
        i <= v@.len(),
    ensures
        (match (spec_parse_line(v@, i as int), r) {
            (Ok(m), Ok(e)) => e.1 as int == m.1 && e.1 <= v@.len() && (match (m.0, e.0) {
                (Option::Some(kv), Option::Some(kw)) => kw@ == kv,
                (Option::None, Option::None) => true,
                _ => false,
            }),
            (Err(()), Err(())) => true,
            _ => false,
        }),
{
    let total = v.len();
    proof {
        lemma_scan_len_stop(v@, i as int, |c: char| is_ws(c));
        lemma_parse_line_le(v@, i as int);
    }
    let j = i + scan_ws(v, i);
    if j >= total {
        Ok((Option::None, j))
    } else if v[j] == '\n' {
        Ok((Option::None, j + 1))
    } else if v[j] == '#' {
        Ok((Option::None, line_end(v, j)))
    } else if !is_alpha_x(v[j]) {
        Err(())
    } else {
        let wl = scan_word(v, j);
        let e = j + wl;
        if e < v.len() && !is_ws_x(v[e]) && v[e] != '\n' && v[e] != '#' {
            Err(())
        } else {
            proof {
                assert(pairs_view(Seq::<(String, String)>::empty()) =~~= Seq::<
                    (Seq<char>, Seq<char>),
                >::empty());
                assert(strs_view(Seq::<String>::empty()) =~~= Seq::<Seq<char>>::empty());
            }
            match line_rest(v, e, Vec::new(), false, Vec::new()) {
                Err(()) => Err(()),
                Ok((opts, had, args, k)) => {
                    let name = chars_to_string(&char_range(v, j, e));
                    let kw = Keyword {
                        name,
                        options: if had {
                            Option::Some(opts)
                        } else {
                            Option::None
                        },
                        arguments: args,
                    };
                    let next = line_end(v, k);
                    proof {
                        if let Ok(m) = spec_parse_line(v@, i as int) {
                            if let Option::Some(kv) = m.0 {
                                assert(kw@ =~~= kv);
                            }
                        }
                    }
                    Ok((Option::Some(kw), next))
                },
            }
        }
    }
}

fn parse_doc(v: &Vec<char>, i: usize) -> (r: Result<Vec<Keyword>, usize>)
    requires
        i <= v@.len(),
    ensures
        (match (spec_parse_doc(v@, i as int), r) {
            (Ok(m), Ok(e)) => keywords_view(e@) == m,
            (Err(l), Err(p)) => p as int == l && p < v@.len(),
            _ => false,
        }),
    decreases v@.len() - i,
{
    if i >= v.len() {
        proof {
            assert(keywords_view(Seq::<Keyword>::empty()) =~~= Seq::<KeywordV>::empty());
        }
        Ok(Vec::new())
    } else {
        proof {
            lemma_parse_line_le(v@, i as int);
        }
        match parse_line(v, i) {
            Err(()) => Err(i),
            Ok((rec, next)) => {
                match parse_doc(v, next) {
                    Err(l) => Err(l),
                    Ok(rest) => {
                        match rec {
                            Option::Some(kw) => {
                                let ghost rest_v = keywords_view(rest@);
                                let ghost kv = kw@;
                                let mut out = rest;
                                out.insert(0, kw);
                                proof {
                                    assert(keywords_view(out@) =~~= seq![kv] + rest_v);
                                }
                                Ok(out)
                            },
                            Option::None => Ok(rest),
                        }
                    },
                }
            },
        }
    }
}

fn count_nl_x(v: &Vec<char>, upto: usize) -> (r: usize)
    requires
        upto <= v@.len(),
    ensures
        r as int == count_nl(v@, upto as int),
        r <= upto,
    decreases upto,
{
    if upto == 0 {
        0
    } else {
        let c = count_nl_x(v, upto - 1);
        if v[upto - 1] == '\n' {
            c + 1
        } else {
            c
        }
    }
}

/// The views of a keyword registry: each name with the option names its
/// definition allows.
pub open spec fn reg_view(v: Seq<(String, KeywordDefinition)>) -> Seq<(Seq<char>, Seq<Seq<char>>)> {
    Seq::new(v.len(), |i: int| (v[i].0@, strs_view(v[i].1.options@)))
}

/// The parser, holding the registry of recognized keywords and the option
/// names each accepts.
#[derive(Debug)]
pub struct SysConfigParser {
    pub keywords: Vec<(String, KeywordDefinition)>,
}

impl Default for SysConfigParser {
    /// A parser with an empty keyword registry.
    fn default() -> (r: Self)
        ensures
            r.keywords@.len() == 0,
    {
        SysConfigParser { keywords: Vec::new() }
    }
}

fn kd_clone(kd: &KeywordDefinition) -> (r: KeywordDefinition)
    ensures
        strs_view(r.options@) == strs_view(kd.options@),
{
    let mut options: Vec<String> = Vec::new();
    let n = kd.options.len();
    let mut i: usize = 0;
    while i < n
        invariant
            i <= n,
            n == kd.options@.len(),
            options@.len() == i,
            forall|x: int| 0 <= x < i ==> #[trigger] options@[x]@ == kd.options@[x]@,
        decreases n - i,
    {
        options.push(kd.options[i].clone());
        i = i + 1;
    }
    proof {
        assert(strs_view(options@) =~~= strs_view(kd.options@));
    }
    KeywordDefinition { options }
}

impl SysConfigParser {
    /// Register a keyword with its definition, replacing and returning any
    /// definition previously registered under the same name.
    pub fn add_keyword(&mut self, name: String, k: KeywordDefinition) -> (r: Option<
        KeywordDefinition,
    >)
        ensures
            reg_view(final(self).keywords@) == assoc_insert(
                reg_view(old(self).keywords@),
                name@,
                strs_view(k.options@),
            ),
            (match r {
                Option::Some(o) => assoc_lookup(reg_view(old(self).keywords@), name@)
                    == Option::Some(strs_view(o.options@)),
                Option::None => assoc_lookup(reg_view(old(self).keywords@), name@) is None,
            }),
    {
        let n = self.keywords.len();
        let mut j: usize = 0;
        while j < n
            invariant
                j <= n,
                n == self.keywords@.len(),
                reg_view(self.keywords@) == reg_view(old(self).keywords@),
                forall|x: int| 0 <= x < j ==> #[trigger] reg_view(old(self).keywords@)[x].0
                    != name@,
            decreases n - j,
        {
            if self.keywords[j].0.eq(&name) {
                proof {
                    assert(reg_view(old(self).keywords@)[j as int].0 == name@);
                }
                let ghost m0 = reg_view(self.keywords@);
                let old_kd = kd_clone(&self.keywords[j].1);
                self.keywords[j] = (name, k);
                proof {
                    lemma_assoc_insert_hit(m0, name@, strs_view(k.options@), j as int);
                    assert(reg_view(self.keywords@) =~~= m0.update(
                        j as int,
                        (name@, strs_view(k.options@)),
                    ));
                    lemma_assoc_lookup_hit(m0, name@, j as int);
                }
                return Option::Some(old_kd);
            }
            j = j + 1;
        }
        let ghost m0 = reg_view(self.keywords@);
        self.keywords.push((name, k));
        proof {
            lemma_assoc_insert_miss(m0, name@, strs_view(k.options@));
            assert(reg_view(self.keywords@) =~~= m0.push((name@, strs_view(k.options@))));
            lemma_assoc_lookup_miss(m0, name@);
        }
        Option::None
    }

    /// Parse a configuration document into keyword records, or fail with a
    /// syntax error naming the first offending line.
    pub fn parse_config(&self, file: &str) -> (r: Result<Vec<Keyword>, ParseError>)
        ensures
            (match (spec_parse_config(file@), r) {
                (Ok(m), Ok(ks)) => keywords_view(ks@) == m,
                (Err(l), Err(e)) => e.line as int == l,
                _ => false,
            }),
    {
        let chars = str_chars(file);
        match parse_doc(&chars, 0) {
            Ok(ks) => Ok(ks),
            Err(pos) => {
                let line = 1 + count_nl_x(&chars, pos);
                Err(ParseError { line })
            },
        }
    }
}


} // verus!
