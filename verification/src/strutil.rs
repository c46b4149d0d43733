//! Small string helpers shared by the parser, the shadow-file codec and the
//! driver: character extraction, decimal rendering and parsing, and path
//! joining under an alternate root.

use vstd::prelude::*;

verus! {

/// True when `pre` is a prefix of `s`.
pub open spec fn seq_starts_with(s: Seq<char>, pre: Seq<char>) -> bool {
    pre.len() <= s.len() && s.subrange(0, pre.len() as int) == pre
}

/// Collect the characters of a string slice into a vector, in order.
pub fn str_chars(s: &str) -> (r: Vec<char>)
    ensures
        r@ == s@,
{
    let n = s.unicode_len();
    let mut v: Vec<char> = Vec::new();
    let mut i: usize = 0;
    while i < n
        invariant
            i <= n,
            n == s@.len(),
            v@ == s@.subrange(0, i as int),
        decreases n - i,
    {
        v.push(s.get_char(i));
        i = i + 1;
    }
    proof {
        assert(v@ == s@.subrange(0, n as int));
        assert(s@.subrange(0, n as int) == s@);
    }
    v
}

/// Relies on `String`'s `FromIterator<char>` impl: collects the characters
/// of the vector into a string, in order.
#[verifier::external_body]
pub fn chars_to_string(v: &Vec<char>) -> (r: String)
    ensures
        r@ == v@,
{
    v.iter().collect()
}

/// The character for one decimal digit.
pub open spec fn spec_digit_char(d: nat) -> char {
    if d == 0 {
        '0'
    } else if d == 1 {
        '1'
    } else if d == 2 {
        '2'
    } else if d == 3 {
        '3'
    } else if d == 4 {
        '4'
    } else if d == 5 {
        '5'
    } else if d == 6 {
        '6'
    } else if d == 7 {
        '7'
    } else if d == 8 {
        '8'
    } else {
        '9'
    }
}

/// Decimal rendering of a natural number, most significant digit first,
/// without leading zeroes (`0` renders as "0").
pub open spec fn spec_udec(n: nat) -> Seq<char>
    decreases n,
{
    if n < 10 {
        seq![spec_digit_char(n)]
    } else {
        spec_udec(n / 10).push(spec_digit_char(n % 10))
    }
}

/// Decimal rendering of a signed number: a minus sign before the magnitude.
pub open spec fn spec_idec(n: int) -> Seq<char> {
    if n >= 0 {
        spec_udec(n as nat)
    } else {
        seq!['-'].add(spec_udec((-n) as nat))
    }
}

fn digit_char(d: u64) -> (r: char)
    requires
        d < 10,
    ensures
        r == spec_digit_char(d as nat),
{
    if d == 0 {
        '0'
    } else if d == 1 {
        '1'
    } else if d == 2 {
        '2'
    } else if d == 3 {
        '3'
    } else if d == 4 {
        '4'
    } else if d == 5 {
        '5'
    } else if d == 6 {
        '6'
    } else if d == 7 {
        '7'
    } else if d == 8 {
        '8'
    } else {
        '9'
    }
}

/// Render an unsigned number in decimal.
pub fn u64_dec_chars(n: u64) -> (r: Vec<char>)
    ensures
        r@ == spec_udec(n as nat),
    decreases n,
{
    if n < 10 {
        let mut v: Vec<char> = Vec::new();
        v.push(digit_char(n));
        v
    } else {
        let mut v = u64_dec_chars(n / 10);
        v.push(digit_char(n % 10));
        v
    }
}

/// Render a signed number in decimal.
pub fn i64_dec_chars(n: i64) -> (r: Vec<char>)
    ensures
        r@ == spec_idec(n as int),
{
    if n >= 0 {
        u64_dec_chars(n as u64)
    } else {
        let mag: u64 = if n == i64::MIN {
            9223372036854775808u64
        } else {
            (-n) as u64
        };
        let mut v: Vec<char> = Vec::new();
        v.push('-');
        let mut digits = u64_dec_chars(mag);
        v.append(&mut digits);
        v
    }
}

/// True when `c` is a decimal digit.
pub open spec fn spec_is_digit(c: char) -> bool {
    c == '0' || c == '1' || c == '2' || c == '3' || c == '4' || c == '5' || c == '6' || c == '7'
        || c == '8' || c == '9'
}

/// The value of one decimal digit character.
pub open spec fn spec_digit_val(c: char) -> nat {
    if c == '0' {
        0
    } else if c == '1' {
        1
    } else if c == '2' {
        2
    } else if c == '3' {
        3
    } else if c == '4' {
        4
    } else if c == '5' {
        5
    } else if c == '6' {
        6
    } else if c == '7' {
        7
    } else if c == '8' {
        8
    } else {
        9
    }
}

/// The numeric value of a digit run, most significant digit first.
pub open spec fn spec_digits_val(s: Seq<char>) -> nat
    decreases s.len(),
{
    if s.len() == 0 {
        0
    } else {
        spec_digits_val(s.drop_last()) * 10 + spec_digit_val(s.last())
    }
}

/// True when every character of `s` is a decimal digit.
pub open spec fn spec_all_digits(s: Seq<char>) -> bool {
    forall|i: int| 0 <= i < s.len() ==> spec_is_digit(#[trigger] s[i])
}

fn is_digit(c: char) -> (r: bool)
    ensures
        r == spec_is_digit(c),
{
    c == '0' || c == '1' || c == '2' || c == '3' || c == '4' || c == '5' || c == '6' || c == '7'
        || c == '8' || c == '9'
}

fn digit_val(c: char) -> (r: u64)
    requires
        spec_is_digit(c),
    ensures
        r == spec_digit_val(c),
        r < 10,
{
    if c == '0' {
        0
    } else if c == '1' {
        1
    } else if c == '2' {
        2
    } else if c == '3' {
        3
    } else if c == '4' {
        4
    } else if c == '5' {
        5
    } else if c == '6' {
        6
    } else if c == '7' {
        7
    } else if c == '8' {
        8
    } else {
        9
    }
}

/// Parse a run of decimal digits within `v` as an unsigned number.
/// `None` when the run is empty, holds a non-digit, or overflows.
pub fn parse_u64_digits(v: &Vec<char>, from: usize, to: usize) -> (r: Option<u64>)
    requires
        from <= to <= v@.len(),
    ensures
        match r {
            Some(n) => {
                &&& spec_all_digits(v@.subrange(from as int, to as int))
                &&& from < to
                &&& n as nat == spec_digits_val(v@.subrange(from as int, to as int))
            },
            None => from == to || !spec_all_digits(v@.subrange(from as int, to as int))
                || spec_digits_val(v@.subrange(from as int, to as int)) > u64::MAX,
        },
{
    if from == to {
        return None;
    }
    let mut acc: u64 = 0;
    let mut i: usize = from;
    while i < to
        invariant
            from <= i <= to <= v@.len(),
            spec_all_digits(v@.subrange(from as int, i as int)),
            acc as nat == spec_digits_val(v@.subrange(from as int, i as int)),
        decreases to - i,
    {
        let c = v[i];
        if !is_digit(c) {
            proof {
                assert(v@.subrange(from as int, to as int)[i - from] == c);
            }
            return None;
        }
        let d = digit_val(c);
        if acc > (u64::MAX - d) / 10 {
            proof {
                lemma_digits_val_grows(v@.subrange(from as int, to as int), i + 1 - from);
                assert(v@.subrange(from as int, to as int).subrange(0, i + 1 - from)
                    == v@.subrange(from as int, i as int + 1));
                assert(v@.subrange(from as int, i as int + 1).drop_last()
                    == v@.subrange(from as int, i as int));
            }
            return None;
        }
        acc = acc * 10 + d;
        i = i + 1;
        proof {
            assert(v@.subrange(from as int, i as int).drop_last()
                == v@.subrange(from as int, i - 1));
            assert(v@.subrange(from as int, i as int).last() == c);
        }
    }
    proof {
        assert(v@.subrange(from as int, i as int) == v@.subrange(from as int, to as int));
    }
    Some(acc)
}

/// A longer digit run never names a smaller number: the value of a prefix is
/// at most the value of the whole run.
proof fn lemma_digits_val_grows(s: Seq<char>, k: int)
    requires
        0 <= k <= s.len(),
    ensures
        spec_digits_val(s.subrange(0, k)) <= spec_digits_val(s),
    decreases s.len() - k,
{
    if k == s.len() {
        assert(s.subrange(0, k) == s);
    } else {
        lemma_digits_val_grows(s, k + 1);
        assert(s.subrange(0, k + 1).drop_last() == s.subrange(0, k));
    }
}


/// Element-wise equality of two character vectors.
pub fn chars_eq(a: &Vec<char>, b: &Vec<char>) -> (r: bool)
    ensures
        r == (a@ == b@),
{
    if a.len() != b.len() {
        return false;
    }
    let n = a.len();
    let mut i: usize = 0;
    while i < n
        invariant
            i <= n,
            n == a@.len(),
            n == b@.len(),
            forall|j: int| 0 <= j < i ==> a@[j] == b@[j],
        decreases n - i,
    {
        if a[i] != b[i] {
            return false;
        }
        i = i + 1;
    }
    proof {
        assert(a@ =~= b@);
    }
    true
}

/// True when some character of the vector is `c`.
pub fn chars_contain(v: &Vec<char>, c: char) -> (r: bool)
    ensures
        r == v@.contains(c),
{
    let n = v.len();
    let mut i: usize = 0;
    while i < n
        invariant
            i <= n,
            n == v@.len(),
            forall|x: int| 0 <= x < i ==> v@[x] != c,
        decreases n - i,
    {
        if v[i] == c {
            proof {
                assert(v@[i as int] == c);
            }
            return true;
        }
        i = i + 1;
    }
    false
}

/// Equality of two string slices, by their characters.
pub fn str_eq(a: &str, b: &str) -> (r: bool)
    ensures
        r == (a@ == b@),
{
    let va = str_chars(a);
    let vb = str_chars(b);
    chars_eq(&va, &vb)
}


/// True when `path` stays under `root`: it extends `root`, and the extension
/// begins at a path separator (unless `root` itself ends with one or is
/// empty).
pub open spec fn confined_to(root: Seq<char>, path: Seq<char>) -> bool {
    &&& seq_starts_with(path, root)
    &&& (root.len() == 0 || root[root.len() - 1] == '/' || (path.len() > root.len() && path[
        root.len() as int
    ] == '/'))
}

/// What joining a well-known absolute path under a root gives: plain
/// concatenation, with the doubled separator collapsed.
pub open spec fn spec_join(root: Seq<char>, rel: Seq<char>) -> Seq<char> {
    if root.len() > 0 && root[root.len() - 1] == '/' {
        root + rel.subrange(1, rel.len() as int)
    } else {
        root + rel
    }
}

/// Join a well-known absolute path under an alternate root by concatenation,
/// never letting the path escape the root.
pub fn join_under(root: &str, rel: &str) -> (r: String)
    requires
        rel@.len() > 0,
        rel@[0] == '/',
    ensures
        r@ == spec_join(root@, rel@),
        confined_to(root@, r@),
{
    let rv = str_chars(root);
    let relv = str_chars(rel);
    let mut out = rv;
    let n = out.len();
    let ends_slash = n > 0 && out[n - 1] == '/';
    let m = relv.len();
    let mut i: usize = if ends_slash {
        1
    } else {
        0
    };
    let ghost from = i as int;
    proof {
        assert(out@ =~= root@ + relv@.subrange(from, from));
    }
    while i < m
        invariant
            0 <= from <= i <= m,
            m == relv@.len(),
            out@ == root@ + relv@.subrange(from, i as int),
        decreases m - i,
    {
        out.push(relv[i]);
        i = i + 1;
        proof {
            assert(relv@.subrange(from, i as int) =~= relv@.subrange(from, i - 1).push(
                relv@[i - 1],
            ));
            assert(out@ =~= root@ + relv@.subrange(from, i as int));
        }
    }
    proof {
        assert(rel@.subrange(0, rel@.len() as int) =~= rel@);
    }
    let r = chars_to_string(&out);
    proof {
        assert(seq_starts_with(r@, root@)) by {
            assert(r@.subrange(0, root@.len() as int) =~= root@);
        }
        if !(root@.len() > 0 && root@[root@.len() - 1] == '/') {
            assert(r@[root@.len() as int] == rel@[0]);
        }
    }
    r
}


/// The value of a digit's character is the digit.
pub proof fn lemma_digit_char_val(d: nat)
    requires
        d < 10,
    ensures
        spec_digit_val(spec_digit_char(d)) == d,
        spec_is_digit(spec_digit_char(d)),
{
}

/// Rendering a natural number and reading the digits back gives the number;
/// the rendering is all digits and never empty.
pub proof fn lemma_udec_digits(n: nat)
    ensures
        spec_all_digits(spec_udec(n)),
        spec_digits_val(spec_udec(n)) == n,
        spec_udec(n).len() >= 1,
    decreases n,
{
    if n < 10 {
        lemma_digit_char_val(n);
        assert(spec_udec(n) == seq![spec_digit_char(n)]);
        assert(spec_udec(n).drop_last() =~= Seq::<char>::empty());
        assert(spec_digits_val(Seq::<char>::empty()) == 0);
        assert(spec_digits_val(spec_udec(n)) == spec_digits_val(spec_udec(n).drop_last()) * 10
            + spec_digit_val(spec_udec(n).last()));
        assert(spec_udec(n).last() == spec_digit_char(n));
    } else {
        lemma_digit_char_val(n % 10);
        lemma_udec_digits(n / 10);
        assert(spec_udec(n).drop_last() =~= spec_udec(n / 10));
        assert(spec_udec(n).last() == spec_digit_char(n % 10));
        assert(spec_digits_val(spec_udec(n)) == spec_digits_val(spec_udec(n).drop_last()) * 10
            + spec_digit_val(spec_udec(n).last()));
        assert(spec_digits_val(spec_udec(n).drop_last()) == n / 10);
        assert(n / 10 * 10 + n % 10 == n) by {
            vstd::arithmetic::div_mod::lemma_fundamental_div_mod(n as int, 10);
        }
        assert(spec_all_digits(spec_udec(n))) by {
            assert(forall|i: int|
                0 <= i < spec_udec(n).len() - 1 ==> spec_udec(n)[i] == spec_udec(n / 10)[i]);
        }
    }
}

} // verus!
