//! The credential store: shadow entries keyed by account name, their line
//! format, and password hashing through the external collaborator.

use vstd::prelude::*;
use crate::strutil::str_chars;
use crate::strutil::str_eq;
use crate::strutil::chars_to_string;
use crate::strutil::i64_dec_chars;
use crate::strutil::spec_idec;
use crate::strutil::spec_all_digits;
use crate::strutil::spec_digits_val;
use crate::strutil::parse_u64_digits;
use crate::cfgparser::scan_len;
use vstd::seq_lib::lemma_concat_associative;

verus! {

/// The well-known path of the credential store under a target root.
pub fn shadow_file_path() -> (r: String)
    ensures
        r@ == "/etc/shadow"@,
{
    String::from_str("/etc/shadow")
}

/// Errors of the credential store.
#[derive(Debug, Clone, Copy, PartialEq, Eq, Structural)]
pub enum ShadowError {
    /// The password hashing collaborator failed.
    HashingFailed,
    /// The password does not correspond to the stored hash.
    PasswordMismatch,
    /// A line of the store does not follow the expected format.
    Malformed { line: usize },
}

/// What pwhash's crypt(3)-style verification returns: it recomputes the hash
/// from the password and the hash string's own salt and parameters, so the
/// outcome depends on the two arguments alone.
pub uninterp spec fn unix_verifies(pass: Seq<char>, hash: Seq<char>) -> bool;

/// Relies on `pwhash::unix::verify`: format-recognizing crypt(3)
/// verification, deterministic in the password and hash arguments.
#[verifier::external_body]
fn pwhash_unix_verify(pass: &str, hash: &str) -> (r: bool)
    ensures
        r == unix_verifies(pass@, hash@),
{
    pwhash::unix::verify(pass, hash)
}

/// A SHA-512 crypt string: the documented `$6$` magic prefix.
pub open spec fn crypt_shaped(s: Seq<char>) -> bool {
    s.len() > 3 && s[0] == '$' && s[1] == '6' && s[2] == '$'
}

/// Relies on `pwhash::sha512_crypt::hash`: hashes with a freshly drawn random
/// salt, so only the documented output format is stated — a `$6$`-prefixed
/// crypt string that verifies against the password it was made from. Any
/// failure the collaborator reports comes back as an error; a broken system
/// random source aborts inside the collaborator instead, like any exhausted
/// resource.
#[verifier::external_body]
fn sha512_crypt_hash(clear: &str) -> (r: Result<String, ()>)
    ensures
        (match r {
            Ok(h) => crypt_shaped(h@) && unix_verifies(clear@, h@),
            Err(()) => true,
        }),
{
    match pwhash::sha512_crypt::hash(clear) {
        Ok(h) => Ok(h),
        Err(_) => Err(()),
    }
}

/// Hash a cleartext password for the credential store with the default
/// algorithm. The result is a `$6$`-prefixed crypt string that verifies
/// against the cleartext; it is never the cleartext itself.
pub fn gen_password_hash(clear_password: &str) -> (r: Result<String, ShadowError>)
    ensures
        (match r {
            Ok(h) => crypt_shaped(h@) && unix_verifies(clear_password@, h@),
            Err(e) => e == ShadowError::HashingFailed,
        }),
{
    match sha512_crypt_hash(clear_password) {
        Ok(h) => Ok(h),
        Err(()) => Err(ShadowError::HashingFailed),
    }
}

/// One line of the credential store.
#[derive(Debug, Clone)]
pub struct ShadowEntry {
    pub username: String,
    pub password_hash: String,
    pub password_locked: bool,
    pub no_login: bool,
    pub no_password: bool,
    pub password_last_changed: i64,
    pub min: i64,
    pub max: i64,
    pub warn: i64,
    pub inactive: i64,
    pub expire: i64,
    pub flag: i64,
}

/// Mathematical value of a [`ShadowEntry`].
#[verifier::ext_equal]
pub struct ShadowEntryV {
    pub username: Seq<char>,
    pub password_hash: Seq<char>,
    pub password_locked: bool,
    pub no_login: bool,
    pub no_password: bool,
    pub password_last_changed: i64,
    pub min: i64,
    pub max: i64,
    pub warn: i64,
    pub inactive: i64,
    pub expire: i64,
    pub flag: i64,
}

impl View for ShadowEntry {
    type V = ShadowEntryV;

    open spec fn view(&self) -> ShadowEntryV {
        ShadowEntryV {
            username: self.username@,
            password_hash: self.password_hash@,
            password_locked: self.password_locked,
            no_login: self.no_login,
            no_password: self.no_password,
            password_last_changed: self.password_last_changed,
            min: self.min,
            max: self.max,
            warn: self.warn,
            inactive: self.inactive,
            expire: self.expire,
            flag: self.flag,
        }
    }
}

impl Default for ShadowEntry {
    /// An unnamed entry with empty hash, no flags, epoch last-change, and
    /// every aging field at its "unset" sentinel.
    fn default() -> (r: Self)
        ensures
            r@ == default_entry_v(),
    {
        ShadowEntry {
            username: String::new(),
            password_hash: String::new(),
            password_locked: false,
            no_login: false,
            no_password: false,
            password_last_changed: 0,
            min: -1,
            max: -1,
            warn: -1,
            inactive: -1,
            expire: -1,
            flag: 0,
        }
    }
}

/// The value of a freshly made entry.
pub open spec fn default_entry_v() -> ShadowEntryV {
    ShadowEntryV {
        username: Seq::empty(),
        password_hash: Seq::empty(),
        password_locked: false,
        no_login: false,
        no_password: false,
        password_last_changed: 0i64,
        min: -1i64,
        max: -1i64,
        warn: -1i64,
        inactive: -1i64,
        expire: -1i64,
        flag: 0i64,
    }
}

/// The entry with its password hash replaced and everything else unchanged.
pub open spec fn with_hash(e: ShadowEntryV, h: Seq<char>) -> ShadowEntryV {
    ShadowEntryV { password_hash: h, ..e }
}

impl ShadowEntry {
    /// Update the entry's password hash from a cleartext password, using the
    /// default cryptographic algorithm of the hashing collaborator. On
    /// failure the entry is unchanged.
    pub fn update_password_hash(&mut self, clear_new_password: &str) -> (r: Result<
        (),
        ShadowError,
    >)
        ensures
            (match r {
                Ok(()) => {
                    &&& crypt_shaped(final(self)@.password_hash)
                    &&& unix_verifies(clear_new_password@, final(self)@.password_hash)
                    &&& final(self)@ == with_hash(old(self)@, final(self)@.password_hash)
                },
                Err(e) => e == ShadowError::HashingFailed && final(self)@ == old(self)@,
            }),
    {
        match gen_password_hash(clear_new_password) {
            Ok(h) => {
                self.password_hash = h;
                Ok(())
            },
            Err(e) => Err(e),
        }
    }

    /// Store a finished hash verbatim.
    pub fn set_password_hash(&mut self, new_hash: &str)
        ensures
            final(self)@ == with_hash(old(self)@, new_hash@),
    {
        self.password_hash = String::from_str(new_hash);
    }

    /// Check a cleartext password against the entry's stored hash.
    pub fn check_password(&self, password: &str) -> (r: Result<(), ShadowError>)
        ensures
            r is Ok <==> unix_verifies(password@, self@.password_hash),
            r is Err ==> r->Err_0 == ShadowError::PasswordMismatch,
    {
        if pwhash_unix_verify(password, self.password_hash.as_str()) {
            Ok(())
        } else {
            Err(ShadowError::PasswordMismatch)
        }
    }
}

/// The whole credential store: entries in file order.
#[derive(Debug, Clone)]
pub struct ShadowFile {
    pub entries: Vec<ShadowEntry>,
}

impl Default for ShadowFile {
    /// An empty store.
    fn default() -> (r: Self)
        ensures
            r.entries@.len() == 0,
    {
        ShadowFile { entries: Vec::new() }
    }
}

/// The values of a store's entries.
pub open spec fn entries_view(s: Seq<ShadowEntry>) -> Seq<ShadowEntryV> {
    Seq::new(s.len(), |i: int| s[i]@)
}

/// The first entry carrying the given account name.
pub open spec fn lookup_entry(s: Seq<ShadowEntryV>, name: Seq<char>) -> Option<ShadowEntryV>
    decreases s.len(),
{
    if s.len() == 0 {
        Option::None
    } else if s[0].username == name {
        Option::Some(s[0])
    } else {
        lookup_entry(s.drop_first(), name)
    }
}

/// Replace the first entry carrying the same account name, or append the
/// entry when the name is new.
pub open spec fn upsert_entry(s: Seq<ShadowEntryV>, e: ShadowEntryV) -> Seq<ShadowEntryV>
    decreases s.len(),
{
    if s.len() == 0 {
        seq![e]
    } else if s[0].username == e.username {
        seq![e] + s.drop_first()
    } else {
        seq![s[0]] + upsert_entry(s.drop_first(), e)
    }
}

proof fn lemma_lookup_entry_hit(s: Seq<ShadowEntryV>, name: Seq<char>, j: int)
    requires
        0 <= j < s.len(),
        s[j].username == name,
        forall|x: int| 0 <= x < j ==> (#[trigger] s[x]).username != name,
    ensures
        lookup_entry(s, name) == Option::Some(s[j]),
    decreases s.len(),
{
    if j > 0 {
        lemma_lookup_entry_hit(s.drop_first(), name, j - 1);
    }
}

proof fn lemma_lookup_entry_miss(s: Seq<ShadowEntryV>, name: Seq<char>)
    requires
        forall|x: int| 0 <= x < s.len() ==> (#[trigger] s[x]).username != name,
    ensures
        lookup_entry(s, name) is None,
    decreases s.len(),
{
    if s.len() > 0 {
        lemma_lookup_entry_miss(s.drop_first(), name);
    }
}

proof fn lemma_upsert_entry_hit(s: Seq<ShadowEntryV>, e: ShadowEntryV, j: int)
    requires
        0 <= j < s.len(),
        s[j].username == e.username,
        forall|x: int| 0 <= x < j ==> (#[trigger] s[x]).username != e.username,
    ensures
        upsert_entry(s, e) =~~= s.update(j, e),
    decreases s.len(),
{
    if j > 0 {
        lemma_upsert_entry_hit(s.drop_first(), e, j - 1);
        assert(s.drop_first().update(j - 1, e) =~~= s.update(j, e).drop_first());
    }
}

proof fn lemma_upsert_entry_miss(s: Seq<ShadowEntryV>, e: ShadowEntryV)
    requires
        forall|x: int| 0 <= x < s.len() ==> (#[trigger] s[x]).username != e.username,
    ensures
        upsert_entry(s, e) =~~= s.push(e),
    decreases s.len(),
{
    if s.len() > 0 {
        lemma_upsert_entry_miss(s.drop_first(), e);
        assert(s.drop_first().push(e) =~~= s.push(e).drop_first());
    }
}

fn clone_entry(e: &ShadowEntry) -> (r: ShadowEntry)
    ensures
        r@ == e@,
{
    ShadowEntry {
        username: e.username.clone(),
        password_hash: e.password_hash.clone(),
        password_locked: e.password_locked,
        no_login: e.no_login,
        no_password: e.no_password,
        password_last_changed: e.password_last_changed,
        min: e.min,
        max: e.max,
        warn: e.warn,
        inactive: e.inactive,
        expire: e.expire,
        flag: e.flag,
    }
}

impl ShadowFile {
    /// Get the entry carrying `username` as account name, if any.
    pub fn get_entry(&self, username: &str) -> (r: Option<ShadowEntry>)
        ensures
            (match (lookup_entry(entries_view(self.entries@), username@), r) {
                (Option::Some(m), Option::Some(e)) => e@ == m,
                (Option::None, Option::None) => true,
                _ => false,
            }),
    {
        let n = self.entries.len();
        let mut j: usize = 0;
        while j < n
            invariant
                j <= n,
                n == self.entries@.len(),
                forall|x: int| 0 <= x < j ==> (#[trigger] entries_view(self.entries@)[x]).username
                    != username@,
            decreases n - j,
        {
            if str_eq(self.entries[j].username.as_str(), username) {
                proof {
                    lemma_lookup_entry_hit(entries_view(self.entries@), username@, j as int);
                }
                return Option::Some(clone_entry(&self.entries[j]));
            }
            j = j + 1;
        }
        proof {
            lemma_lookup_entry_miss(entries_view(self.entries@), username@);
        }
        Option::None
    }

    /// Update the entry carrying the same account name, or insert the entry
    /// at the end when the name is new.
    pub fn insert_or_update(&mut self, entry: ShadowEntry)
        ensures
            entries_view(final(self).entries@) == upsert_entry(
                entries_view(old(self).entries@),
                entry@,
            ),
    {
        let n = self.entries.len();
        let mut j: usize = 0;
        while j < n
            invariant
                j <= n,
                n == self.entries@.len(),
                entries_view(self.entries@) == entries_view(old(self).entries@),
                forall|x: int| 0 <= x < j ==> (#[trigger] entries_view(
                    old(self).entries@,
                )[x]).username != entry@.username,
            decreases n - j,
        {
            if self.entries[j].username.eq(&entry.username) {
                proof {
                    assert(entries_view(old(self).entries@)[j as int].username == entry@.username);
                }
                let ghost m0 = entries_view(self.entries@);
                self.entries[j] = entry;
                proof {
                    lemma_upsert_entry_hit(m0, entry@, j as int);
                    assert(entries_view(self.entries@) =~~= m0.update(j as int, entry@));
                }
                return ;
            }
            j = j + 1;
        }
        let ghost m0 = entries_view(self.entries@);
        self.entries.push(entry);
        proof {
            lemma_upsert_entry_miss(m0, entry@);
            assert(entries_view(self.entries@) =~~= m0.push(entry@));
        }
    }
}


/// The password field as written in the store: lock and no-login markers
/// take precedence over the hash.
pub open spec fn pw_field(e: ShadowEntryV) -> Seq<char> {
    if e.password_locked {
        "*LK*"@
    } else if e.no_login {
        "NL"@
    } else if e.no_password {
        "NP"@
    } else {
        e.password_hash
    }
}

/// A numeric field as written in the store: empty at its unset sentinel.
pub open spec fn num_field(v: i64, unset: i64) -> Seq<char> {
    if v != unset {
        spec_idec(v as int)
    } else {
        Seq::empty()
    }
}

/// One store line: the nine colon-separated fields in their fixed order.
pub open spec fn entry_line(e: ShadowEntryV) -> Seq<char> {
    e.username + seq![':'] + pw_field(e) + seq![':'] + num_field(e.password_last_changed, 0i64)
        + seq![':'] + num_field(e.min, -1i64) + seq![':'] + num_field(e.max, -1i64) + seq![':']
        + num_field(e.warn, -1i64) + seq![':'] + num_field(e.inactive, -1i64) + seq![':'] + num_field(e.expire, -1i64) + seq![':'] + num_field(e.flag, 0i64)
}

/// The whole store: entry lines joined by line feeds, without a trailing one.
pub open spec fn shadow_render(es: Seq<ShadowEntryV>) -> Seq<char>
    decreases es.len(),
{
    if es.len() == 0 {
        Seq::empty()
    } else if es.len() == 1 {
        entry_line(es[0])
    } else {
        shadow_render(es.drop_last()) + seq!['\n'] + entry_line(es.last())
    }
}

fn push_str_chars(out: &mut Vec<char>, s: &str)
    ensures
        final(out)@ == old(out)@ + s@,
{
    let mut cs = str_chars(s);
    out.append(&mut cs);
}

fn push_num_field(out: &mut Vec<char>, v: i64, unset: i64)
    ensures
        final(out)@ == old(out)@ + num_field(v, unset),
{
    if v != unset {
        let mut cs = i64_dec_chars(v);
        out.append(&mut cs);
    }
}

#[verifier::rlimit(100)]
fn render_entry(out: &mut Vec<char>, e: &ShadowEntry)
    ensures
        final(out)@ == old(out)@ + entry_line(e@),
{
    push_str_chars(out, e.username.as_str());
    out.push(':');
    if e.password_locked {
        push_str_chars(out, "*LK*");
    } else if e.no_login {
        push_str_chars(out, "NL");
    } else if e.no_password {
        push_str_chars(out, "NP");
    } else {
        push_str_chars(out, e.password_hash.as_str());
    }
    out.push(':');
    push_num_field(out, e.password_last_changed, 0);
    out.push(':');
    push_num_field(out, e.min, -1);
    out.push(':');
    push_num_field(out, e.max, -1);
    out.push(':');
    push_num_field(out, e.warn, -1);
    out.push(':');
    push_num_field(out, e.inactive, -1);
    out.push(':');
    push_num_field(out, e.expire, -1);
    out.push(':');
    push_num_field(out, e.flag, 0);
    proof {
        assert(out@ =~= old(out)@ + entry_line(e@));
    }
}

impl ShadowFile {
    /// Write the store in its line format: one line per entry, fields in
    /// their fixed order, joined by line feeds.
    pub fn serialize(&self) -> (r: String)
        ensures
            r@ == shadow_render(entries_view(self.entries@)),
    {
        let mut out: Vec<char> = Vec::new();
        let n = self.entries.len();
        let mut i: usize = 0;
        while i < n
            invariant
                i <= n,
                n == self.entries@.len(),
                out@ == shadow_render(entries_view(self.entries@).subrange(0, i as int)),
            decreases n - i,
        {
            if i > 0 {
                out.push('\n');
            }
            render_entry(&mut out, &self.entries[i]);
            i = i + 1;
            proof {
                let es = entries_view(self.entries@);
                assert(es.subrange(0, i as int).drop_last() =~= es.subrange(0, i - 1));
                assert(es.subrange(0, i as int).last() == es[i - 1]);
            }
        }
        proof {
            assert(entries_view(self.entries@).subrange(0, n as int) =~= entries_view(
                self.entries@,
            ));
        }
        chars_to_string(&out)
    }
}

/// The predicate "is not the separator".
pub open spec fn not_sep(sep: char) -> spec_fn(char) -> bool {
    |c: char| c != sep
}

/// The pieces of `s` from position `i` on, split at every separator.
pub open spec fn split_from(s: Seq<char>, i: int, sep: char) -> Seq<Seq<char>>
    decreases s.len() - i when 0 <= i <= s.len() via split_from_dec
{
    let j = i + scan_len(s, i, not_sep(sep));
    if j >= s.len() {
        seq![s.subrange(i, s.len() as int)]
    } else {
        seq![s.subrange(i, j)] + split_from(s, j + 1, sep)
    }
}

#[via_fn]
proof fn split_from_dec(s: Seq<char>, i: int, sep: char) {
    crate::cfgparser::lemma_scan_len_le(s, i, not_sep(sep));
}

fn scan_not(v: &Vec<char>, i: usize, sep: char) -> (r: usize)
    requires
        i <= v@.len(),
    ensures
        r == scan_len(v@, i as int, not_sep(sep)),
        i + r <= v@.len(),
    decreases v@.len() - i,
{
    if i < v.len() && v[i] != sep {
        1 + scan_not(v, i + 1, sep)
    } else {
        0
    }
}

/// The views of split pieces.
pub open spec fn vecs_view(s: Seq<Vec<char>>) -> Seq<Seq<char>> {
    Seq::new(s.len(), |i: int| s[i]@)
}

pub(crate) fn split_x(v: &Vec<char>, i: usize, sep: char) -> (r: Vec<Vec<char>>)
    requires
        i <= v@.len(),
    ensures
        vecs_view(r@) == split_from(v@, i as int, sep),
    decreases v@.len() - i,
{
    let total = v.len();
    let j = i + scan_not(v, i, sep);
    let piece = char_range_local(v, i, j);
    if j >= total {
        let mut out: Vec<Vec<char>> = Vec::new();
        out.push(piece);
        proof {
            assert(vecs_view(out@) =~~= seq![v@.subrange(i as int, v@.len() as int)]);
            assert(vecs_view(out@) == split_from(v@, i as int, sep));
        }
        out
    } else {
        let ghost pv = piece@;
        let rest = split_x(v, j + 1, sep);
        let ghost restv = vecs_view(rest@);
        let mut out: Vec<Vec<char>> = Vec::new();
        out.push(piece);
        let mut rest2 = rest;
        out.append(&mut rest2);
        proof {
            assert(vecs_view(out@) =~~= seq![pv] + restv);
            assert(vecs_view(out@) == split_from(v@, i as int, sep));
        }
        out
    }
}

pub(crate) fn char_range_all(v: &Vec<char>) -> (r: Vec<char>)
    ensures
        r@ == v@,
{
    let r = char_range_local(v, 0, v.len());
    proof {
        assert(v@.subrange(0, v@.len() as int) =~= v@);
    }
    r
}

fn char_range_local(v: &Vec<char>, from: usize, to: usize) -> (r: Vec<char>)
    requires
        from <= to <= v@.len(),
    ensures
        r@ == v@.subrange(from as int, to as int),
{
    let mut out: Vec<char> = Vec::new();
    let mut i: usize = from;
    while i < to
        invariant
            from <= i <= to <= v@.len(),
            out@ == v@.subrange(from as int, i as int),
        decreases to - i,
    {
        out.push(v[i]);
        i = i + 1;
        proof {
            assert(out@ =~= v@.subrange(from as int, i as int));
        }
    }
    out
}

/// A numeric store field: empty means the given default; otherwise an
/// optionally negative digit run that fits the field's width.
pub open spec fn spec_parse_num(f: Seq<char>, dflt: i64) -> Option<i64> {
    if f.len() == 0 {
        Option::Some(dflt)
    } else if f.len() >= 2 && f[0] == '-' && spec_all_digits(f.drop_first()) && spec_digits_val(
        f.drop_first(),
    ) <= 9223372036854775808 {
        Option::Some((-(spec_digits_val(f.drop_first()) as int)) as i64)
    } else if spec_all_digits(f) && spec_digits_val(f) <= i64::MAX {
        Option::Some(spec_digits_val(f) as i64)
    } else {
        Option::None
    }
}

fn parse_num(f: &Vec<char>, dflt: i64) -> (r: Option<i64>)
    ensures
        r == spec_parse_num(f@, dflt),
{
    let n = f.len();
    if n == 0 {
        return Option::Some(dflt);
    }
    if f[0] == '-' {
        match parse_u64_digits(f, 1, n) {
            Option::Some(m) => {
                if m <= 9223372036854775808u64 {
                    proof {
                        assert(f@.subrange(1, n as int) =~= f@.drop_first());
                    }
                    if m == 9223372036854775808u64 {
                        Option::Some(i64::MIN)
                    } else {
                        Option::Some(-(m as i64))
                    }
                } else {
                    proof {
                        assert(f@.subrange(1, n as int) =~= f@.drop_first());
                        assert(!spec_all_digits(f@));
                    }
                    Option::None
                }
            },
            Option::None => {
                proof {
                    assert(f@.subrange(1, n as int) =~= f@.drop_first());
                    assert(!spec_all_digits(f@));
                }
                Option::None
            },
        }
    } else {
        match parse_u64_digits(f, 0, n) {
            Option::Some(m) => {
                proof {
                    assert(f@.subrange(0, n as int) =~= f@);
                }
                if m <= 0x7fffffffffffffffu64 {
                    Option::Some(m as i64)
                } else {
                    Option::None
                }
            },
            Option::None => {
                proof {
                    assert(f@.subrange(0, n as int) =~= f@);
                }
                Option::None
            },
        }
    }
}

/// The entry described by one line's nine fields, or nothing when the line
/// is malformed.
pub open spec fn entry_of_fields(fs: Seq<Seq<char>>) -> Option<ShadowEntryV> {
    if fs.len() != 9 {
        Option::None
    } else {
        let lastchg = spec_parse_num(fs[2], 0i64);
        let min = spec_parse_num(fs[3], -1i64);
        let max = spec_parse_num(fs[4], -1i64);
        let warn = spec_parse_num(fs[5], -1i64);
        let inactive = spec_parse_num(fs[6], -1i64);
        let expire = spec_parse_num(fs[7], -1i64);
        let flag = spec_parse_num(fs[8], 0i64);
        if lastchg is None || min is None || max is None || warn is None || inactive is None
            || expire is None || flag is None {
            Option::None
        } else {
            let special = fs[1] == "*LK*"@ || fs[1] == "NL"@ || fs[1] == "NP"@;
            Option::Some(
                ShadowEntryV {
                    username: fs[0],
                    password_hash: if special {
                        Seq::empty()
                    } else {
                        fs[1]
                    },
                    password_locked: fs[1] == "*LK*"@,
                    no_login: fs[1] == "NL"@,
                    no_password: fs[1] == "NP"@,
                    password_last_changed: lastchg->0,
                    min: min->0,
                    max: max->0,
                    warn: warn->0,
                    inactive: inactive->0,
                    expire: expire->0,
                    flag: flag->0,
                },
            )
        }
    }
}

fn entry_of_fields_x(fs: &Vec<Vec<char>>) -> (r: Option<ShadowEntry>)
    ensures
        (match (entry_of_fields(vecs_view(fs@)), r) {
            (Option::Some(m), Option::Some(e)) => e@ == m,
            (Option::None, Option::None) => true,
            _ => false,
        }),
{
    if fs.len() != 9 {
        return Option::None;
    }
    let lastchg = parse_num(&fs[2], 0);
    let min = parse_num(&fs[3], -1);
    let max = parse_num(&fs[4], -1);
    let warn = parse_num(&fs[5], -1);
    let inactive = parse_num(&fs[6], -1);
    let expire = parse_num(&fs[7], -1);
    let flag = parse_num(&fs[8], 0);
    match (lastchg, min, max, warn, inactive, expire, flag) {
        (
            Option::Some(lastchg),
            Option::Some(min),
            Option::Some(max),
            Option::Some(warn),
            Option::Some(inactive),
            Option::Some(expire),
            Option::Some(flag),
        ) => {
            let lk = str_chars("*LK*");
            let nl = str_chars("NL");
            let np = str_chars("NP");
            let is_lk = crate::strutil::chars_eq(&fs[1], &lk);
            let is_nl = crate::strutil::chars_eq(&fs[1], &nl);
            let is_np = crate::strutil::chars_eq(&fs[1], &np);
            let special = is_lk || is_nl || is_np;
            Option::Some(
                ShadowEntry {
                    username: chars_to_string(&fs[0]),
                    password_hash: if special {
                        String::new()
                    } else {
                        chars_to_string(&fs[1])
                    },
                    password_locked: is_lk,
                    no_login: is_nl,
                    no_password: is_np,
                    password_last_changed: lastchg,
                    min,
                    max,
                    warn,
                    inactive,
                    expire,
                    flag,
                },
            )
        },
        _ => Option::None,
    }
}

/// Parse the split lines from index `k` on: the well-formed entries with a
/// non-empty account name, in order; or the index of the first malformed
/// line. Blank lines are skipped.
pub open spec fn parse_lines_spec(ls: Seq<Seq<char>>, k: int) -> Result<Seq<ShadowEntryV>, int>
    decreases ls.len() - k,
{
    if k < 0 || k >= ls.len() {
        Ok(Seq::empty())
    } else if ls[k].len() == 0 {
        parse_lines_spec(ls, k + 1)
    } else {
        match entry_of_fields(split_from(ls[k], 0, ':')) {
            Option::None => Err(k),
            Option::Some(e) => match parse_lines_spec(ls, k + 1) {
                Err(l) => Err(l),
                Ok(rest) => Ok(
                    if e.username.len() == 0 {
                        rest
                    } else {
                        seq![e] + rest
                    },
                ),
            },
        }
    }
}

/// What parsing a whole store gives: its entries, or the index of the first
/// malformed line.
pub open spec fn spec_parse_shadow(s: Seq<char>) -> Result<Seq<ShadowEntryV>, int> {
    parse_lines_spec(split_from(s, 0, '\n'), 0)
}

fn parse_lines_x(ls: &Vec<Vec<char>>, k: usize) -> (r: Result<Vec<ShadowEntry>, usize>)
    requires
        k <= ls@.len(),
    ensures
        (match (parse_lines_spec(vecs_view(ls@), k as int), r) {
            (Ok(m), Ok(es)) => entries_view(es@) == m,
            (Err(l), Err(p)) => p as int == l && p < ls@.len(),
            _ => false,
        }),
    decreases ls@.len() - k,
{
    if k >= ls.len() {
        proof {
            assert(entries_view(Seq::<ShadowEntry>::empty()) =~~= Seq::<ShadowEntryV>::empty());
        }
        return Ok(Vec::new());
    }
    if ls[k].len() == 0 {
        return parse_lines_x(ls, k + 1);
    }
    let fields = split_x(&ls[k], 0, ':');
    match entry_of_fields_x(&fields) {
        Option::None => Err(k),
        Option::Some(e) => {
            match parse_lines_x(ls, k + 1) {
                Err(l) => Err(l),
                Ok(rest) => {
                    if e.username.unicode_len() == 0 {
                        Ok(rest)
                    } else {
                        let ghost ev = e@;
                        let ghost restv = entries_view(rest@);
                        let mut out = rest;
                        out.insert(0, e);
                        proof {
                            assert(entries_view(out@) =~~= seq![ev] + restv);
                        }
                        Ok(out)
                    }
                },
            }
        },
    }
}

/// Parse a credential store from its line format: the entries of its
/// well-formed lines in order, or an error naming the first malformed line.
pub fn parse_shadow_file(file: &str) -> (r: Result<ShadowFile, ShadowError>)
    ensures
        (match (spec_parse_shadow(file@), r) {
            (Ok(m), Ok(f)) => entries_view(f.entries@) == m,
            (Err(l), Err(e)) => (e matches ShadowError::Malformed { line } && line as int == l + 1),
            _ => false,
        }),
{
    let chars = str_chars(file);
    let lines = split_x(&chars, 0, '\n');
    let line_count = lines.len();
    match parse_lines_x(&lines, 0) {
        Ok(entries) => Ok(ShadowFile { entries }),
        Err(l) => Err(ShadowError::Malformed { line: l + 1 }),
    }
}


/// Pieces joined by a separator, first piece first.
pub open spec fn join_pieces(ls: Seq<Seq<char>>, sep: char) -> Seq<char>
    decreases ls.len(),
{
    if ls.len() <= 1 {
        if ls.len() == 0 {
            Seq::empty()
        } else {
            ls[0]
        }
    } else {
        ls[0] + seq![sep] + join_pieces(ls.drop_first(), sep)
    }
}

/// Appending one piece appends a separator and the piece.
proof fn lemma_join_push(ls: Seq<Seq<char>>, x: Seq<char>, sep: char)
    requires
        ls.len() >= 1,
    ensures
        join_pieces(ls.push(x), sep) =~= join_pieces(ls, sep) + seq![sep] + x,
    decreases ls.len(),
{
    if ls.len() == 1 {
        assert(ls.push(x)[0] == ls[0]);
        assert(ls.push(x).drop_first() =~= seq![x]);
        assert(join_pieces(seq![x], sep) == x);
    } else {
        lemma_join_push(ls.drop_first(), x, sep);
        assert(ls.push(x).drop_first() =~= ls.drop_first().push(x));
        assert(ls.push(x)[0] == ls[0]);
    }
}

/// A scan counts exactly up to the first separator.
proof fn lemma_scan_exact(s: Seq<char>, i: int, j: int, sep: char)
    requires
        0 <= i <= j <= s.len(),
        forall|x: int| i <= x < j ==> s[x] != sep,
        j == s.len() || s[j] == sep,
    ensures
        scan_len(s, i, not_sep(sep)) == j - i,
    decreases j - i,
{
    if i < j {
        lemma_scan_exact(s, i + 1, j, sep);
    }
}

/// Splitting the join of separator-free pieces gives the pieces back.
proof fn lemma_split_join(s: Seq<char>, i: int, ls: Seq<Seq<char>>, sep: char)
    requires
        0 <= i <= s.len(),
        ls.len() >= 1,
        forall|k: int| 0 <= k < ls.len() ==> !(#[trigger] ls[k]).contains(sep),
        s.subrange(i, s.len() as int) == join_pieces(ls, sep),
    ensures
        split_from(s, i, sep) =~~= ls,
    decreases ls.len(),
{
    let suffix = s.subrange(i, s.len() as int);
    if ls.len() == 1 {
        assert(suffix == ls[0]);
        assert forall|x: int| i <= x < s.len() implies s[x] != sep by {
            assert(s[x] == suffix[x - i]);
            assert(suffix[x - i] != sep) by {
                assert(!ls[0].contains(sep));
            }
        }
        lemma_scan_exact(s, i, s.len() as int, sep);
        assert(split_from(s, i, sep) == seq![s.subrange(i, s.len() as int)]);
        assert(split_from(s, i, sep) =~~= ls);
    } else {
        let head = ls[0];
        let rest = join_pieces(ls.drop_first(), sep);
        assert(suffix == head + seq![sep] + rest);
        let j = i + head.len();
        assert forall|x: int| i <= x < j implies s[x] == head[x - i] by {
            assert(s[x] == suffix[x - i]);
            assert(suffix[x - i] == head[x - i]);
        }
        assert forall|x: int| i <= x < j implies s[x] != sep by {
            assert(head[x - i] != sep) by {
                assert(!head.contains(sep));
            }
        }
        assert(s[j] == sep) by {
            assert(suffix[head.len() as int] == sep);
        }
        lemma_scan_exact(s, i, j, sep);
        assert(s.subrange(i, j) =~= head);
        assert forall|x: int| j + 1 <= x < s.len() implies s[x] == suffix[x - i] by {
            assert(s[x] == suffix[x - i]);
        }
        assert(s.subrange(j + 1, s.len() as int) =~= rest);
        lemma_split_join(s, j + 1, ls.drop_first(), sep);
        assert(split_from(s, i, sep) == seq![s.subrange(i, j)] + split_from(s, j + 1, sep));
    }
}

/// The lines of a rendered store, in order.
pub open spec fn entry_lines(es: Seq<ShadowEntryV>) -> Seq<Seq<char>> {
    Seq::new(es.len(), |i: int| entry_line(es[i]))
}

/// The rendered store is its entry lines joined by line feeds.
proof fn lemma_render_is_join(es: Seq<ShadowEntryV>)
    requires
        es.len() >= 1,
    ensures
        shadow_render(es) =~= join_pieces(entry_lines(es), '\n'),
    decreases es.len(),
{
    if es.len() == 1 {
        assert(entry_lines(es) =~= seq![entry_line(es[0])]);
    } else {
        lemma_render_is_join(es.drop_last());
        assert(entry_lines(es.drop_last()) =~= entry_lines(es).drop_last());
        lemma_join_push(entry_lines(es).drop_last(), entry_line(es.last()), '\n');
        assert(entry_lines(es).drop_last().push(entry_line(es.last())) =~~= entry_lines(es));
    }
}


/// Reading back a rendered numeric field gives the value.
proof fn lemma_parse_num_render(v: i64, dflt: i64)
    ensures
        spec_parse_num(num_field(v, dflt), dflt) == Option::Some(v),
{
    if v == dflt {
    } else if v >= 0 {
        crate::strutil::lemma_udec_digits(v as nat);
        let f = num_field(v, dflt);
        assert(f == crate::strutil::spec_udec(v as nat));
        assert(f.len() > 0);
        assert(crate::strutil::spec_is_digit(f[0]));
        assert(f[0] != '-');
        assert(spec_parse_num(f, dflt) == Option::Some(v));
    } else {
        let m = (-(v as int)) as nat;
        crate::strutil::lemma_udec_digits(m);
        let f = num_field(v, dflt);
        assert(f == seq!['-'].add(crate::strutil::spec_udec(m)));
        assert(f[0] == '-');
        assert(f.drop_first() =~= crate::strutil::spec_udec(m));
        assert(crate::strutil::spec_digits_val(f.drop_first()) == m);
        assert(m <= 9223372036854775808);
        assert(spec_parse_num(f, dflt) == Option::Some((-(m as int)) as i64));
        assert((-(m as int)) as i64 == v);
    }
}

/// A well-formed entry: one that the line format can carry faithfully. The
/// account name is non-empty; names and hashes hold neither field nor line
/// separators; at most one password marker is set, and a marker leaves no
/// hash behind; an unmarked hash is none of the marker words.
pub open spec fn wf_entry(e: ShadowEntryV) -> bool {
    &&& e.username.len() > 0
    &&& !e.username.contains(':')
    &&& !e.username.contains('\n')
    &&& !e.password_hash.contains(':')
    &&& !e.password_hash.contains('\n')
    &&& !(e.password_locked && e.no_login)
    &&& !(e.password_locked && e.no_password)
    &&& !(e.no_login && e.no_password)
    &&& ((e.password_locked || e.no_login || e.no_password) ==> e.password_hash.len() == 0)
    &&& (!(e.password_locked || e.no_login || e.no_password) ==> e.password_hash != "*LK*"@
        && e.password_hash != "NL"@ && e.password_hash != "NP"@)
}

/// A well-formed store: every entry is.
pub open spec fn wf_entries(es: Seq<ShadowEntryV>) -> bool {
    forall|i: int| 0 <= i < es.len() ==> wf_entry(#[trigger] es[i])
}

/// The nine fields of one entry line, in their fixed order.
pub open spec fn entry_fields(e: ShadowEntryV) -> Seq<Seq<char>> {
    seq![
        e.username,
        pw_field(e),
        num_field(e.password_last_changed, 0i64),
        num_field(e.min, -1i64),
        num_field(e.max, -1i64),
        num_field(e.warn, -1i64),
        num_field(e.inactive, -1i64),
        num_field(e.expire, -1i64),
        num_field(e.flag, 0i64),
    ]
}

/// An entry line is its fields joined by the field separator.
#[verifier::rlimit(100)]
proof fn lemma_entry_line_is_join(e: ShadowEntryV)
    ensures
        entry_line(e) == join_pieces(entry_fields(e), ':'),
{
    let fs = entry_fields(e);
    let c = seq![':'];
    let j8 = fs[8];
    let j7 = fs[7] + c + j8;
    let j6 = fs[6] + c + j7;
    let j5 = fs[5] + c + j6;
    let j4 = fs[4] + c + j5;
    let j3 = fs[3] + c + j4;
    let j2 = fs[2] + c + j3;
    let j1 = fs[1] + c + j2;
    let t8 = seq![fs[8]];
    let t7 = seq![fs[7], fs[8]];
    let t6 = seq![fs[6], fs[7], fs[8]];
    let t5 = seq![fs[5], fs[6], fs[7], fs[8]];
    let t4 = seq![fs[4], fs[5], fs[6], fs[7], fs[8]];
    let t3 = seq![fs[3], fs[4], fs[5], fs[6], fs[7], fs[8]];
    let t2 = seq![fs[2], fs[3], fs[4], fs[5], fs[6], fs[7], fs[8]];
    let t1 = seq![fs[1], fs[2], fs[3], fs[4], fs[5], fs[6], fs[7], fs[8]];
    assert(join_pieces(t8, ':') == j8);
    assert(t7.drop_first() =~~= t8);
    assert(join_pieces(t7, ':') == j7);
    assert(t6.drop_first() =~~= t7);
    assert(join_pieces(t6, ':') == j6);
    assert(t5.drop_first() =~~= t6);
    assert(join_pieces(t5, ':') == j5);
    assert(t4.drop_first() =~~= t5);
    assert(join_pieces(t4, ':') == j4);
    assert(t3.drop_first() =~~= t4);
    assert(join_pieces(t3, ':') == j3);
    assert(t2.drop_first() =~~= t3);
    assert(join_pieces(t2, ':') == j2);
    assert(t1.drop_first() =~~= t2);
    assert(join_pieces(t1, ':') == j1);
    assert(fs.drop_first() =~~= t1);
    assert(join_pieces(fs, ':') == fs[0] + c + j1);
    let p1 = fs[0] + c;
    lemma_concat_associative(p1, fs[1] + c, j2);
    lemma_concat_associative(p1, fs[1], c);
    let p2 = p1 + fs[1] + c;
    assert(p1 + j1 == p2 + j2);
    lemma_concat_associative(p2, fs[2] + c, j3);
    lemma_concat_associative(p2, fs[2], c);
    let p3 = p2 + fs[2] + c;
    assert(p2 + j2 == p3 + j3);
    lemma_concat_associative(p3, fs[3] + c, j4);
    lemma_concat_associative(p3, fs[3], c);
    let p4 = p3 + fs[3] + c;
    assert(p3 + j3 == p4 + j4);
    lemma_concat_associative(p4, fs[4] + c, j5);
    lemma_concat_associative(p4, fs[4], c);
    let p5 = p4 + fs[4] + c;
    assert(p4 + j4 == p5 + j5);
    lemma_concat_associative(p5, fs[5] + c, j6);
    lemma_concat_associative(p5, fs[5], c);
    let p6 = p5 + fs[5] + c;
    assert(p5 + j5 == p6 + j6);
    lemma_concat_associative(p6, fs[6] + c, j7);
    lemma_concat_associative(p6, fs[6], c);
    let p7 = p6 + fs[6] + c;
    assert(p6 + j6 == p7 + j7);
    lemma_concat_associative(p7, fs[7] + c, j8);
    lemma_concat_associative(p7, fs[7], c);
    let p8 = p7 + fs[7] + c;
    assert(p7 + j7 == p8 + j8);
    assert(join_pieces(fs, ':') == p8 + j8);
    assert(entry_line(e) == p8 + fs[8]);
}

/// The marker words and digits hold no separators, and differ pairwise.
proof fn lemma_marker_literals()
    ensures
        !"*LK*"@.contains(':') && !"*LK*"@.contains('\n'),
        !"NL"@.contains(':') && !"NL"@.contains('\n'),
        !"NP"@.contains(':') && !"NP"@.contains('\n'),
        "*LK*"@ != "NL"@ && "*LK*"@ != "NP"@ && "NL"@ != "NP"@,
        "*LK*"@.len() == 4 && "NL"@.len() == 2 && "NP"@.len() == 2,
{
    reveal_strlit("*LK*");
    reveal_strlit("NL");
    reveal_strlit("NP");
    assert("NL"@[1] != "NP"@[1]);
    assert forall|x: int| 0 <= x < "*LK*"@.len() implies "*LK*"@[x] != ':' && "*LK*"@[x] != '\n' by {
    }
    assert forall|x: int| 0 <= x < "NL"@.len() implies "NL"@[x] != ':' && "NL"@[x] != '\n' by {
    }
    assert forall|x: int| 0 <= x < "NP"@.len() implies "NP"@[x] != ':' && "NP"@[x] != '\n' by {
    }
}

/// A digit run holds no separators.
proof fn lemma_digits_no_sep(f: Seq<char>)
    requires
        crate::strutil::spec_all_digits(f),
    ensures
        !f.contains(':'),
        !f.contains('\n'),
{
    assert forall|x: int| 0 <= x < f.len() implies f[x] != ':' && f[x] != '\n' by {
        assert(crate::strutil::spec_is_digit(f[x]));
    }
}

/// A rendered numeric field holds no separators.
proof fn lemma_num_field_no_sep(v: i64, dflt: i64)
    ensures
        !num_field(v, dflt).contains(':'),
        !num_field(v, dflt).contains('\n'),
{
    if v != dflt {
        if v >= 0 {
            crate::strutil::lemma_udec_digits(v as nat);
            lemma_digits_no_sep(num_field(v, dflt));
        } else {
            let m = (-(v as int)) as nat;
            crate::strutil::lemma_udec_digits(m);
            let f = num_field(v, dflt);
            assert(f.drop_first() =~= crate::strutil::spec_udec(m));
            lemma_digits_no_sep(f.drop_first());
            assert forall|x: int| 0 <= x < f.len() implies f[x] != ':' && f[x] != '\n' by {
                if x > 0 {
                    assert(f[x] == f.drop_first()[x - 1]);
                    assert(!f.drop_first().contains(':') && !f.drop_first().contains('\n'));
                    assert(crate::strutil::spec_is_digit(f.drop_first()[x - 1]));
                }
            }
        }
    }
}

/// No field of a well-formed entry holds a separator.
proof fn lemma_fields_no_sep(e: ShadowEntryV)
    requires
        wf_entry(e),
    ensures
        forall|k: int| 0 <= k < entry_fields(e).len() ==> !(#[trigger] entry_fields(e)[k]).contains(
            ':',
        ) && !entry_fields(e)[k].contains('\n'),
{
    lemma_marker_literals();
    lemma_num_field_no_sep(e.password_last_changed, 0i64);
    lemma_num_field_no_sep(e.min, -1i64);
    lemma_num_field_no_sep(e.max, -1i64);
    lemma_num_field_no_sep(e.warn, -1i64);
    lemma_num_field_no_sep(e.inactive, -1i64);
    lemma_num_field_no_sep(e.expire, -1i64);
    lemma_num_field_no_sep(e.flag, 0i64);
}

/// Reading back the fields of a well-formed entry gives the entry.
proof fn lemma_entry_of_fields_render(e: ShadowEntryV)
    requires
        wf_entry(e),
    ensures
        entry_of_fields(entry_fields(e)) == Option::Some(e),
{
    lemma_marker_literals();
    lemma_parse_num_render(e.password_last_changed, 0i64);
    lemma_parse_num_render(e.min, -1i64);
    lemma_parse_num_render(e.max, -1i64);
    lemma_parse_num_render(e.warn, -1i64);
    lemma_parse_num_render(e.inactive, -1i64);
    lemma_parse_num_render(e.expire, -1i64);
    lemma_parse_num_render(e.flag, 0i64);
    let fs = entry_fields(e);
    if e.password_locked {
        assert(fs[1] == "*LK*"@);
    } else if e.no_login {
        assert(fs[1] == "NL"@);
        assert(fs[1] != "*LK*"@);
    } else if e.no_password {
        assert(fs[1] == "NP"@);
        assert(fs[1] != "*LK*"@ && fs[1] != "NL"@);
    } else {
        assert(fs[1] == e.password_hash);
    }
    assert(entry_of_fields(fs) matches Option::Some(p) && p =~~= e);
}

/// An entry line splits back into its fields.
proof fn lemma_entry_line_splits(e: ShadowEntryV)
    requires
        wf_entry(e),
    ensures
        split_from(entry_line(e), 0, ':') =~~= entry_fields(e),
        entry_line(e).len() > 0,
        !entry_line(e).contains('\n'),
{
    lemma_entry_line_is_join(e);
    lemma_fields_no_sep(e);
    let line = entry_line(e);
    assert(line.subrange(0, line.len() as int) =~= line);
    lemma_split_join(line, 0, entry_fields(e), ':');
    assert(line.len() > 0) by {
        assert(e.username.len() > 0);
    }
    assert(!line.contains('\n')) by {
        assert forall|x: int| 0 <= x < line.len() implies line[x] != '\n' by {
            lemma_join_no_other_char(entry_fields(e), ':', '\n', x);
            assert(line[x] == join_pieces(entry_fields(e), ':')[x]);
        }
    }
}

/// A character of a join is a separator or a character of some piece; when no
/// piece holds `c` and `c` is not the separator, the join never holds it.
proof fn lemma_join_no_other_char(ls: Seq<Seq<char>>, sep: char, c: char, x: int)
    requires
        forall|k: int| 0 <= k < ls.len() ==> !(#[trigger] ls[k]).contains(c),
        c != sep,
        0 <= x < join_pieces(ls, sep).len(),
    ensures
        join_pieces(ls, sep)[x] != c,
    decreases ls.len(),
{
    if ls.len() == 0 {
    } else if ls.len() == 1 {
        assert(join_pieces(ls, sep) == ls[0]);
        assert(!ls[0].contains(c));
    } else {
        let head = ls[0];
        if x < head.len() {
            assert(!head.contains(c));
        } else if x == head.len() {
        } else {
            lemma_join_no_other_char(ls.drop_first(), sep, c, x - head.len() - 1);
        }
    }
}

/// Parsing the rendered lines of a well-formed store gives its entries.
proof fn lemma_parse_lines_render(es: Seq<ShadowEntryV>, k: int)
    requires
        wf_entries(es),
        0 <= k <= es.len(),
    ensures
        parse_lines_spec(entry_lines(es), k) == Ok::<Seq<ShadowEntryV>, int>(
            es.subrange(k, es.len() as int),
        ),
    decreases es.len() - k,
{
    let ls = entry_lines(es);
    if k == es.len() {
        assert(es.subrange(k, es.len() as int) =~= Seq::<ShadowEntryV>::empty());
    } else {
        lemma_entry_line_splits(es[k]);
        lemma_entry_of_fields_render(es[k]);
        lemma_parse_lines_render(es, k + 1);
        assert(ls[k].len() > 0);
        assert(split_from(ls[k], 0, ':') =~~= entry_fields(es[k]));
        assert(entry_of_fields(split_from(ls[k], 0, ':')) == Option::Some(es[k]));
        assert(es[k].username.len() > 0);
        assert(seq![es[k]] + es.subrange(k + 1, es.len() as int) =~= es.subrange(
            k,
            es.len() as int,
        ));
    }
}

/// Round trip: parsing a rendered well-formed store gives back exactly its
/// entries, byte for byte through the line format, field order kept.
pub proof fn lemma_shadow_round_trip(es: Seq<ShadowEntryV>)
    requires
        wf_entries(es),
    ensures
        spec_parse_shadow(shadow_render(es)) == Ok::<Seq<ShadowEntryV>, int>(es),
{
    if es.len() == 0 {
        assert(shadow_render(es) == Seq::<char>::empty());
        assert(scan_len(Seq::<char>::empty(), 0, not_sep('\n')) == 0);
        assert(split_from(Seq::<char>::empty(), 0, '\n') =~~= seq![Seq::<char>::empty()]) by {
            assert(Seq::<char>::empty().subrange(0, 0) =~= Seq::<char>::empty());
        }
        let ls = seq![Seq::<char>::empty()];
        assert(parse_lines_spec(ls, 1) == Ok::<Seq<ShadowEntryV>, int>(Seq::empty()));
        assert(parse_lines_spec(ls, 0) == Ok::<Seq<ShadowEntryV>, int>(Seq::empty()));
        assert(es =~= Seq::<ShadowEntryV>::empty());
    } else {
        lemma_render_is_join(es);
        assert forall|k: int| 0 <= k < entry_lines(es).len() implies !(#[trigger] entry_lines(
            es,
        )[k]).contains('\n') by {
            lemma_entry_line_splits(es[k]);
        }
        let s = shadow_render(es);
        assert(s.subrange(0, s.len() as int) =~= s);
        assert(s =~= join_pieces(entry_lines(es), '\n'));
        lemma_split_join(s, 0, entry_lines(es), '\n');
        lemma_parse_lines_render(es, 0);
        assert(split_from(s, 0, '\n') =~~= entry_lines(es));
        assert(es.subrange(0, es.len() as int) =~= es);
    }
}


/// Replacing an entry keeps the store well formed.
proof fn lemma_upsert_wf(s: Seq<ShadowEntryV>, e: ShadowEntryV)
    requires
        wf_entries(s),
        wf_entry(e),
    ensures
        wf_entries(upsert_entry(s, e)),
    decreases s.len(),
{
    if s.len() == 0 {
        assert(upsert_entry(s, e) == seq![e]);
    } else if s[0].username == e.username {
        assert(upsert_entry(s, e) == seq![e] + s.drop_first());
        assert forall|i: int| 0 <= i < upsert_entry(s, e).len() implies wf_entry(
            #[trigger] upsert_entry(s, e)[i],
        ) by {
            if i > 0 {
                assert(upsert_entry(s, e)[i] == s[i]);
            }
        }
    } else {
        assert(wf_entries(s.drop_first())) by {
            assert(forall|i: int|
                0 <= i < s.drop_first().len() ==> #[trigger] s.drop_first()[i] == s[i + 1]);
        }
        lemma_upsert_wf(s.drop_first(), e);
        assert forall|i: int| 0 <= i < upsert_entry(s, e).len() implies wf_entry(
            #[trigger] upsert_entry(s, e)[i],
        ) by {
            if i > 0 {
                assert(upsert_entry(s, e)[i] == upsert_entry(s.drop_first(), e)[i - 1]);
            }
        }
    }
}

/// After a replacement, the replaced account name looks up to the new entry.
pub proof fn lemma_lookup_upsert(s: Seq<ShadowEntryV>, e: ShadowEntryV)
    ensures
        lookup_entry(upsert_entry(s, e), e.username) == Option::Some(e),
    decreases s.len(),
{
    if s.len() == 0 {
    } else if s[0].username == e.username {
        assert(upsert_entry(s, e)[0] == e);
    } else {
        lemma_lookup_upsert(s.drop_first(), e);
        assert(upsert_entry(s, e)[0] == s[0]);
        assert(upsert_entry(s, e).drop_first() =~~= upsert_entry(s.drop_first(), e));
    }
}

/// Replacing the same account twice is the same as replacing it once.
pub proof fn lemma_upsert_same(s: Seq<ShadowEntryV>, e: ShadowEntryV, e2: ShadowEntryV)
    requires
        e2.username == e.username,
    ensures
        upsert_entry(upsert_entry(s, e), e2) =~~= upsert_entry(s, e2),
    decreases s.len(),
{
    if s.len() == 0 {
    } else if s[0].username == e.username {
        assert(upsert_entry(s, e) == seq![e] + s.drop_first());
        assert(upsert_entry(s, e)[0] == e);
        assert(upsert_entry(s, e).drop_first() =~~= s.drop_first());
    } else {
        lemma_upsert_same(s.drop_first(), e, e2);
        assert(upsert_entry(s, e)[0] == s[0]);
        assert(upsert_entry(s, e).drop_first() =~~= upsert_entry(s.drop_first(), e));
    }
}

/// Re-running the root-password rewrite converges: the store written by the
/// first run parses back to itself, its root entry carries the new hash, and
/// rewriting it again with the same hash leaves it unchanged.
pub proof fn lemma_password_rewrite_idempotent(es: Seq<ShadowEntryV>, e: ShadowEntryV, h: Seq<char>)
    requires
        wf_entries(es),
        lookup_entry(es, "root"@) == Option::Some(e),
        wf_entry(with_hash(e, h)),
    ensures
        ({
            let once = upsert_entry(es, with_hash(e, h));
            &&& spec_parse_shadow(shadow_render(once)) == Ok::<Seq<ShadowEntryV>, int>(once)
            &&& lookup_entry(once, "root"@) == Option::Some(with_hash(e, h))
            &&& upsert_entry(once, with_hash(with_hash(e, h), h)) == once
        }),
{
    let updated = with_hash(e, h);
    let once = upsert_entry(es, updated);
    lemma_lookup_username(es, "root"@);
    assert(updated.username == "root"@);
    lemma_upsert_wf(es, updated);
    lemma_shadow_round_trip(once);
    lemma_lookup_upsert(es, updated);
    assert(with_hash(updated, h) =~~= updated);
    lemma_upsert_same(es, updated, with_hash(updated, h));
}

/// A successful lookup returns an entry carrying the looked-up name.
proof fn lemma_lookup_username(s: Seq<ShadowEntryV>, name: Seq<char>)
    ensures
        (match lookup_entry(s, name) {
            Option::Some(e) => e.username == name,
            Option::None => true,
        }),
    decreases s.len(),
{
    if s.len() > 0 && s[0].username != name {
        lemma_lookup_username(s.drop_first(), name);
    }
}

} // verus!
