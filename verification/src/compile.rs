//! The instruction compiler: keyword records, validated against the schema
//! registry, become typed instructions. Validation of the whole batch comes
//! first, so a single bad line prevents any instruction from being produced.

use vstd::prelude::*;
use crate::cfgparser::Keyword;
use crate::cfgparser::KeywordV;
use crate::cfgparser::KeywordDefinition;
use crate::cfgparser::keywords_view;
use crate::cfgparser::pairs_view;
use crate::cfgparser::strs_view;
use crate::cfgparser::reg_view;
use crate::cfgparser::assoc_lookup;
use crate::cfgparser::lemma_assoc_lookup_hit;
use crate::cfgparser::lemma_assoc_lookup_miss;
use crate::instructions::Instruction;
use crate::instructions::InstructionsSet;
use crate::instructions::CompileError;
use crate::instructions::RootPasswordType;
use crate::instructions::NetworkConfig;
use crate::instructions::VDEVType;
use crate::instructions::VDEVConfiguration;
use crate::strutil::str_eq;
use crate::strutil::str_chars;
use crate::strutil::chars_contain;
use crate::strutil::spec_all_digits;
use crate::strutil::spec_digits_val;
use crate::strutil::parse_u64_digits;
use crate::shadow::crypt_shaped;
use crate::shadow::gen_password_hash;

verus! {

/// True when the registry has a schema for the name.
pub open spec fn reg_has(reg: Seq<(Seq<char>, Seq<Seq<char>>)>, name: Seq<char>) -> bool {
    assoc_lookup(reg, name) is Some
}

/// The option keys and values of a record; none means no options.
pub open spec fn rec_opts(rec: KeywordV) -> Seq<(Seq<char>, Seq<char>)> {
    match rec.options {
        Option::Some(m) => m,
        Option::None => Seq::empty(),
    }
}

/// True when every option key of the record is in its schema's allowed set.
pub open spec fn options_ok(reg: Seq<(Seq<char>, Seq<Seq<char>>)>, rec: KeywordV) -> bool {
    match assoc_lookup(reg, rec.name) {
        Option::Some(allowed) => forall|i: int|
            0 <= i < rec_opts(rec).len() ==> allowed.contains(#[trigger] rec_opts(rec)[i].0),
        Option::None => false,
    }
}

/// True when the record passes schema validation: its name is registered and
/// every option key is allowed.
pub open spec fn schema_ok(reg: Seq<(Seq<char>, Seq<Seq<char>>)>, rec: KeywordV) -> bool {
    reg_has(reg, rec.name) && options_ok(reg, rec)
}

/// The keyword names the compiler understands.
pub open spec fn known_keyword(name: Seq<char>) -> bool {
    ||| name == "keyboard"@
    ||| name == "timezone"@
    ||| name == "terminal"@
    ||| name == "timeserver"@
    ||| name == "system_locale"@
    ||| name == "network_interface"@
    ||| name == "dataset"@
    ||| name == "setup_dns"@
    ||| name == "route"@
    ||| name == "root_password"@
    ||| name == "zpool-create"@
    ||| name == "create_be"@
    ||| name == "image"@
    ||| name == "install_image"@
}

/// The group kind a pool-definition token selects, if any.
pub open spec fn group_kind(tok: Seq<char>) -> Option<VDEVType> {
    if tok == "mirror"@ {
        Option::Some(VDEVType::Mirror)
    } else if tok == "raidz"@ || tok == "raidz1"@ {
        Option::Some(VDEVType::RaidZ1)
    } else if tok == "raidz2"@ {
        Option::Some(VDEVType::RaidZ2)
    } else if tok == "raidz3"@ {
        Option::Some(VDEVType::RaidZ3)
    } else {
        Option::None
    }
}

/// Scan the device arguments left to right: a group-type token closes any
/// in-progress group and opens a new one of that type; any other token joins
/// the open group. The last open group is pushed at the end, even when it was
/// never explicitly typed.
pub open spec fn group_rec(
    args: Seq<Seq<char>>,
    i: int,
    cur_kind: VDEVType,
    cur_devs: Seq<Seq<char>>,
    acc: Seq<(VDEVType, Seq<Seq<char>>)>,
) -> Seq<(VDEVType, Seq<Seq<char>>)>
    decreases args.len() - i,
{
    if i < 0 || i >= args.len() {
        acc.push((cur_kind, cur_devs))
    } else {
        match group_kind(args[i]) {
            Option::Some(k) => if cur_kind == VDEVType::Empty && cur_devs.len() == 0 {
                group_rec(args, i + 1, k, Seq::empty(), acc)
            } else {
                group_rec(args, i + 1, k, Seq::empty(), acc.push((cur_kind, cur_devs)))
            },
            Option::None => group_rec(args, i + 1, cur_kind, cur_devs.push(args[i]), acc),
        }
    }
}

/// The virtual device groups a pool definition's device arguments describe.
pub open spec fn group_vdevs(args: Seq<Seq<char>>) -> Seq<(VDEVType, Seq<Seq<char>>)> {
    group_rec(args, 0, VDEVType::Empty, Seq::empty(), Seq::empty())
}

/// How many untyped groups a grouping holds.
pub open spec fn count_untyped(gs: Seq<(VDEVType, Seq<Seq<char>>)>) -> int
    decreases gs.len(),
{
    if gs.len() == 0 {
        0
    } else {
        count_untyped(gs.drop_last()) + (if gs.last().0 == VDEVType::Empty {
            1int
        } else {
            0int
        })
    }
}

/// A valid grouping: every untyped group is a single disk, and at most one
/// untyped group stands in the pool.
pub open spec fn vdevs_valid(gs: Seq<(VDEVType, Seq<Seq<char>>)>) -> bool {
    &&& forall|i: int|
        0 <= i < gs.len() && (#[trigger] gs[i]).0 == VDEVType::Empty ==> gs[i].1.len() == 1
    &&& count_untyped(gs) <= 1
}

/// True when the pool definition's `ashift` option, if present, is a number.
pub open spec fn ashift_ok(rec: KeywordV) -> bool {
    match assoc_lookup(rec_opts(rec), "ashift"@) {
        Option::Some(v) => v.len() > 0 && spec_all_digits(v) && spec_digits_val(v) <= u64::MAX,
        Option::None => true,
    }
}

/// The uppercase code point of an ASCII letter; other characters unchanged.
pub open spec fn upper_u(c: char) -> u32 {
    if 97 <= c as u32 && c as u32 <= 122 {
        (c as u32 - 32) as u32
    } else {
        c as u32
    }
}

/// True when the five characters at `k` spell "UTF-8", letter case aside.
pub open spec fn utf8_at(s: Seq<char>, k: int) -> bool {
    &&& 0 <= k && k + 5 <= s.len()
    &&& upper_u(s[k]) == 85
    &&& upper_u(s[k + 1]) == 84
    &&& upper_u(s[k + 2]) == 70
    &&& upper_u(s[k + 3]) == 45
    &&& upper_u(s[k + 4]) == 56
}

/// True when the locale string names the UTF-8 charset, letter case aside.
pub open spec fn contains_utf8(s: Seq<char>) -> bool {
    exists|k: int| utf8_at(s, k)
}

/// The unicode flag of a locale: true unless the locale names a charset
/// (holds a dot) other than UTF-8.
pub open spec fn unicode_flag(s: Seq<char>) -> bool {
    !(s.contains('.') && !contains_utf8(s))
}

/// A recognized pre-hashed credential: a `$` sign, one digit naming the
/// algorithm, and another `$` sign.
pub open spec fn is_hash_prefix(s: Seq<char>) -> bool {
    s.len() >= 3 && s[0] == '$' && crate::strutil::spec_is_digit(s[1]) && s[2] == '$'
}

/// A root-password record whose argument still is cleartext.
pub open spec fn is_cleartext_pw(rec: KeywordV) -> bool {
    rec.name == "root_password"@ && rec.arguments.len() >= 1 && !is_hash_prefix(rec.arguments[0])
}

/// The structural requirements of each keyword on its record, beyond the
/// schema: required positional arguments, numeric options, and pool grouping.
pub open spec fn args_ok(rec: KeywordV) -> bool {
    if rec.name == "keyboard"@ || rec.name == "timezone"@ || rec.name == "timeserver"@
        || rec.name == "system_locale"@ || rec.name == "dataset"@ || rec.name == "create_be"@
        || rec.name == "image"@ || rec.name == "install_image"@ || rec.name == "root_password"@
        || rec.name == "network_interface"@ {
        rec.arguments.len() >= 1
    } else if rec.name == "terminal"@ {
        (match assoc_lookup(rec_opts(rec), "type"@) {
            Option::Some(v) => v.len() > 0,
            Option::None => false,
        }) || rec.arguments.len() >= 1
    } else if rec.name == "setup_dns"@ {
        true
    } else if rec.name == "route"@ {
        rec.arguments.len() >= 2
    } else if rec.name == "zpool-create"@ {
        rec.arguments.len() >= 1 && ashift_ok(rec) && vdevs_valid(group_vdevs(
            rec.arguments.drop_first(),
        ))
    } else {
        false
    }
}

/// A record the compiler accepts: schema-valid, known, structurally sound.
pub open spec fn rec_valid(reg: Seq<(Seq<char>, Seq<Seq<char>>)>, rec: KeywordV) -> bool {
    schema_ok(reg, rec) && known_keyword(rec.name) && args_ok(rec)
}

/// The error reported for an invalid record: an unregistered name first,
/// then a disallowed option, then the keyword's structural failures, and an
/// unrecognized keyword last.
pub open spec fn error_for(
    reg: Seq<(Seq<char>, Seq<Seq<char>>)>,
    rec: KeywordV,
    e: CompileError,
) -> bool {
    if !reg_has(reg, rec.name) {
        &&& e matches CompileError::UnknownInstruction(n)
        &&& e->UnknownInstruction_0@ == rec.name
    } else if !options_ok(reg, rec) {
        &&& e matches CompileError::UnknownOptionInInstruction { instruction, option }
        &&& e->UnknownOptionInInstruction_instruction@ == rec.name
        &&& exists|i: int|
            0 <= i < rec_opts(rec).len() && (#[trigger] rec_opts(rec)[i]).0
                == e->UnknownOptionInInstruction_option@ && !assoc_lookup(
                reg,
                rec.name,
            )->Some_0.contains(rec_opts(rec)[i].0)
    } else if rec.name == "keyboard"@ || rec.name == "timezone"@ || rec.name == "timeserver"@
        || rec.name == "system_locale"@ || rec.name == "dataset"@ || rec.name == "create_be"@
        || rec.name == "image"@ || rec.name == "install_image"@ || rec.name == "root_password"@
        || rec.name == "network_interface"@ {
        &&& e matches CompileError::MissingArgument { instruction }
        &&& e->MissingArgument_instruction@ == rec.name
    } else if rec.name == "terminal"@ {
        &&& e matches CompileError::MissingArgument { instruction }
        &&& e->MissingArgument_instruction@ == rec.name
    } else if rec.name == "setup_dns"@ {
        false
    } else if rec.name == "route"@ {
        &&& e matches CompileError::MissingArgument { instruction }
        &&& e->MissingArgument_instruction@ == rec.name
    } else if rec.name == "zpool-create"@ {
        if rec.arguments.len() < 1 {
            &&& e matches CompileError::MissingArgument { instruction }
            &&& e->MissingArgument_instruction@ == rec.name
        } else if !ashift_ok(rec) {
            &&& e matches CompileError::BadNumber { instruction, option }
            &&& e->BadNumber_instruction@ == rec.name
            &&& e->BadNumber_option@ == "ashift"@
        } else {
            &&& e matches CompileError::InvalidVdevGrouping { pool }
            &&& e->InvalidVdevGrouping_pool@ == rec.arguments[0]
        }
    } else {
        &&& e matches CompileError::UnknownInstruction(n)
        &&& e->UnknownInstruction_0@ == rec.name
    }
}

/// An optional string value equals an optional looked-up option value.
pub open spec fn opt_str_matches(o: Option<String>, m: Option<Seq<char>>) -> bool {
    match (o, m) {
        (Option::Some(s), Option::Some(v)) => s@ == v,
        (Option::None, Option::None) => true,
        _ => false,
    }
}

/// The address-family slot holds a static address with the given literal.
pub open spec fn is_static_of(o: Option<NetworkConfig>, v: Seq<char>) -> bool {
    o matches Option::Some(NetworkConfig::Static(s)) && s@ == v
}

/// How the `static` and `static6` options select the two address families:
/// a `static` value holding a colon is an IPv6 literal; `static6` always
/// selects IPv6; with neither option the adapter defaults to DHCP for IPv4
/// and stateful DHCP for IPv6.
pub open spec fn net_configs_match(
    rec: KeywordV,
    ipv4: Option<NetworkConfig>,
    ipv6: Option<NetworkConfig>,
) -> bool {
    match assoc_lookup(rec_opts(rec), "static"@) {
        Option::Some(v) => if v.contains(':') {
            ipv4 is None && is_static_of(ipv6, v)
        } else {
            match assoc_lookup(rec_opts(rec), "static6"@) {
                Option::Some(v6) => is_static_of(ipv4, v) && is_static_of(ipv6, v6),
                Option::None => is_static_of(ipv4, v) && ipv6 is None,
            }
        },
        Option::None => match assoc_lookup(rec_opts(rec), "static6"@) {
            Option::Some(v6) => ipv4 is None && is_static_of(ipv6, v6),
            Option::None => (ipv4 matches Option::Some(NetworkConfig::DHCP)) && (
            ipv6 matches Option::Some(NetworkConfig::DHCPStateful)),
        },
    }
}

/// Optional key-value pairs equal an optional option mapping.
pub open spec fn opt_pairs_match(
    p: Option<Vec<(String, String)>>,
    m: Option<Seq<(Seq<char>, Seq<char>)>>,
) -> bool {
    match (p, m) {
        (Option::Some(v), Option::Some(s)) => pairs_view(v@) == s,
        (Option::None, Option::None) => true,
        _ => false,
    }
}

/// A pool option that is passed through to the pool, rather than consumed by
/// the compiler itself.
pub open spec fn pool_opt_key(k: Seq<char>) -> bool {
    k != "ashift"@ && k != "uefi"@ && k != "be_name"@
}

/// The options passed through to the pool, in order.
pub open spec fn keep_pool_opts(m: Seq<(Seq<char>, Seq<char>)>) -> Seq<(Seq<char>, Seq<char>)>
    decreases m.len(),
{
    if m.len() == 0 {
        Seq::empty()
    } else {
        (if pool_opt_key(m[0].0) {
            seq![m[0]]
        } else {
            Seq::empty()
        }) + keep_pool_opts(m.drop_first())
    }
}

/// The kinds and device lists of built groups.
pub open spec fn vdevs_pairs(vs: Seq<VDEVConfiguration>) -> Seq<(VDEVType, Seq<Seq<char>>)> {
    Seq::new(vs.len(), |i: int| (vs[i].vdev_type, strs_view(vs[i].devices@)))
}

/// What instruction a valid record compiles to. For a cleartext root
/// password only the shape of the stored hash can be stated: the hashing
/// collaborator salts it freshly. The pool's firmware-slice flag is set iff
/// the `uefi` option is present — the deliberate reading of a record with
/// options; the options the compiler consumes itself (`ashift`, `uefi`,
/// `be_name`) are not passed through to the pool.
pub open spec fn compiles_to(rec: KeywordV, ins: Instruction) -> bool {
    if rec.name == "keyboard"@ {
        ins matches Instruction::SetKeymap(s) && s@ == rec.arguments[0]
    } else if rec.name == "timezone"@ {
        ins matches Instruction::SetTimezone(s) && s@ == rec.arguments[0]
    } else if rec.name == "timeserver"@ {
        ins matches Instruction::SetTimeServer(s) && s@ == rec.arguments[0]
    } else if rec.name == "system_locale"@ {
        ins matches Instruction::SetLocale { name, unicode } && name@ == rec.arguments[0]
            && unicode == unicode_flag(rec.arguments[0])
    } else if rec.name == "dataset"@ {
        ins matches Instruction::CreateDataset { name, properties } && name@ == rec.arguments[0]
            && opt_pairs_match(properties, rec.options)
    } else if rec.name == "setup_dns"@ {
        ins matches Instruction::SetupDNS { domain, search, nameservers } && opt_str_matches(
            domain,
            assoc_lookup(rec_opts(rec), "domain"@),
        ) && opt_str_matches(search, assoc_lookup(rec_opts(rec), "search"@)) && strs_view(
            nameservers@,
        ) == rec.arguments
    } else if rec.name == "route"@ {
        ins matches Instruction::AddRoute { name, route_match, gateway } && (if rec.arguments.len()
            > 2 {
            name@ == rec.arguments[0] && route_match@ == rec.arguments[1] && gateway@
                == rec.arguments[2]
        } else {
            name@ == rec.arguments[0] && route_match@ == rec.arguments[0] && gateway@
                == rec.arguments[1]
        })
    } else if rec.name == "root_password"@ {
        ins matches Instruction::SetRootPassword(RootPasswordType::Hash(h)) && (if is_hash_prefix(
            rec.arguments[0],
        ) {
            h@ == rec.arguments[0]
        } else {
            crypt_shaped(h@)
        })
    } else if rec.name == "terminal"@ {
        ins matches Instruction::SetupTerminal { name, label, modules, prompt, terminal_type }
            && opt_str_matches(name, assoc_lookup(rec_opts(rec), "name"@)) && opt_str_matches(
            label,
            assoc_lookup(rec_opts(rec), "label"@),
        ) && opt_str_matches(modules, assoc_lookup(rec_opts(rec), "module"@)) && opt_str_matches(
            prompt,
            assoc_lookup(rec_opts(rec), "prompt"@),
        ) && (match assoc_lookup(rec_opts(rec), "type"@) {
            Option::Some(v) => if v.len() > 0 {
                terminal_type@ == v
            } else {
                rec.arguments.len() >= 1 && terminal_type@ == rec.arguments[0]
            },
            Option::None => rec.arguments.len() >= 1 && terminal_type@ == rec.arguments[0],
        })
    } else if rec.name == "network_interface"@ {
        ins matches Instruction::ConfigureNetworkAdapter { device, name, ipv4, ipv6, primary }
            && device@ == rec.arguments[0] && opt_str_matches(
            name,
            assoc_lookup(rec_opts(rec), "name"@),
        ) && net_configs_match(rec, ipv4, ipv6) && primary == (assoc_lookup(
            rec_opts(rec),
            "primary"@,
        ) is Some)
    } else if rec.name == "create_be"@ {
        ins matches Instruction::CreateBootEnvironment { pool_name, name } && pool_name@
            == rec.arguments[0] && (if rec.arguments.len() >= 2 {
            name matches Option::Some(s) && s@ == rec.arguments[1]
        } else {
            name is None
        })
    } else if rec.name == "image"@ || rec.name == "install_image"@ {
        ins matches Instruction::InstallImage { src, pool } && src@ == rec.arguments[0] && (
        match assoc_lookup(rec_opts(rec), "pool"@) {
            Option::Some(v) => pool@ == v,
            Option::None => pool@ == "rpool"@,
        })
    } else if rec.name == "zpool-create"@ {
        ins matches Instruction::CreatePool { name, vdevs, ashift, uefi, be_name, pool_options }
            && name@ == rec.arguments[0] && vdevs_pairs(vdevs@) == group_vdevs(
            rec.arguments.drop_first(),
        ) && (match assoc_lookup(rec_opts(rec), "ashift"@) {
            Option::Some(v) => ashift matches Option::Some(a) && a as nat == spec_digits_val(v),
            Option::None => ashift is None,
        }) && uefi == (assoc_lookup(rec_opts(rec), "uefi"@) is Some) && opt_str_matches(
            be_name,
            assoc_lookup(rec_opts(rec), "be_name"@),
        ) && pairs_view(pool_options@) == keep_pool_opts(rec_opts(rec))
    } else {
        false
    }
}

fn str_contains_char(s: &str, c: char) -> (r: bool)
    ensures
        r == s@.contains(c),
{
    let cs = str_chars(s);
    chars_contain(&cs, c)
}

fn upper_x(c: char) -> (r: u32)
    ensures
        r == upper_u(c),
{
    let n = c as u32;
    if 97 <= n && n <= 122 {
        n - 32
    } else {
        n
    }
}

fn contains_utf8_x(v: &Vec<char>) -> (r: bool)
    ensures
        r == contains_utf8(v@),
{
    let n = v.len();
    if n < 5 {
        return false;
    }
    let mut k: usize = 0;
    while k <= n - 5
        invariant
            5 <= n,
            n == v@.len(),
            k <= n,
            forall|x: int| 0 <= x < k ==> !utf8_at(v@, x),
        decreases n - k,
    {
        if upper_x(v[k]) == 85 && upper_x(v[k + 1]) == 84 && upper_x(v[k + 2]) == 70 && upper_x(
            v[k + 3],
        ) == 45 && upper_x(v[k + 4]) == 56 {
            proof {
                assert(utf8_at(v@, k as int));
            }
            return true;
        }
        k = k + 1;
    }
    proof {
        assert forall|x: int| !utf8_at(v@, x) by {
            if 0 <= x && x + 5 <= v@.len() {
                assert(x < k);
            }
        }
    }
    false
}

/// Look an option key up on a record: the value of the first option holding
/// the key.
fn lookup_opt(rec: &Keyword, key: &str) -> (r: Option<String>)
    ensures
        (match (assoc_lookup(rec_opts(rec@), key@), r) {
            (Option::Some(v), Option::Some(s)) => s@ == v,
            (Option::None, Option::None) => true,
            _ => false,
        }),
{
    match &rec.options {
        Option::None => {
            proof {
                lemma_assoc_lookup_miss(rec_opts(rec@), key@);
            }
            Option::None
        },
        Option::Some(m) => {
            let n = m.len();
            let mut j: usize = 0;
            while j < n
                invariant
                    j <= n,
                    n == m@.len(),
                    rec.options matches Option::Some(mm) && mm@ == m@,
                    forall|x: int| 0 <= x < j ==> #[trigger] pairs_view(m@)[x].0 != key@,
                decreases n - j,
            {
                if str_eq(m[j].0.as_str(), key) {
                    proof {
                        assert(pairs_view(m@)[j as int].0 == key@);
                        lemma_assoc_lookup_hit(pairs_view(m@), key@, j as int);
                    }
                    return Option::Some(m[j].1.clone());
                }
                j = j + 1;
            }
            proof {
                lemma_assoc_lookup_miss(pairs_view(m@), key@);
            }
            Option::None
        },
    }
}

fn has_opt(rec: &Keyword, key: &str) -> (r: bool)
    ensures
        r == (assoc_lookup(rec_opts(rec@), key@) is Some),
{
    match lookup_opt(rec, key) {
        Option::Some(_) => true,
        Option::None => false,
    }
}

fn str_vec_contains(v: &Vec<String>, key: &String) -> (r: bool)
    ensures
        r == strs_view(v@).contains(key@),
{
    let n = v.len();
    let mut i: usize = 0;
    while i < n
        invariant
            i <= n,
            n == v@.len(),
            forall|x: int| 0 <= x < i ==> #[trigger] strs_view(v@)[x] != key@,
        decreases n - i,
    {
        if v[i].eq(key) {
            proof {
                assert(strs_view(v@)[i as int] == key@);
            }
            return true;
        }
        i = i + 1;
    }
    proof {
        assert(forall|x: int| 0 <= x < strs_view(v@).len() ==> #[trigger] strs_view(v@)[x] != key@);
    }
    false
}

fn reg_find(registry: &Vec<(String, KeywordDefinition)>, name: &String) -> (r: Option<usize>)
    ensures
        (match r {
            Option::Some(j) => j < registry@.len() && reg_view(registry@)[j as int].0 == name@
                && assoc_lookup(reg_view(registry@), name@) == Option::Some(
                reg_view(registry@)[j as int].1,
            ),
            Option::None => assoc_lookup(reg_view(registry@), name@) is None,
        }),
{
    let n = registry.len();
    let mut j: usize = 0;
    while j < n
        invariant
            j <= n,
            n == registry@.len(),
            forall|x: int| 0 <= x < j ==> #[trigger] reg_view(registry@)[x].0 != name@,
        decreases n - j,
    {
        if registry[j].0.eq(name) {
            proof {
                assert(reg_view(registry@)[j as int].0 == name@);
                lemma_assoc_lookup_hit(reg_view(registry@), name@, j as int);
            }
            return Option::Some(j);
        }
        j = j + 1;
    }
    proof {
        lemma_assoc_lookup_miss(reg_view(registry@), name@);
    }
    Option::None
}

fn is_hash_prefix_x(s: &String) -> (r: bool)
    ensures
        r == is_hash_prefix(s@),
{
    let cs = str_chars(s.as_str());
    cs.len() >= 3 && cs[0] == '$' && is_digit_x(cs[1]) && cs[2] == '$'
}

fn is_digit_x(c: char) -> (r: bool)
    ensures
        r == crate::strutil::spec_is_digit(c),
{
    c == '0' || c == '1' || c == '2' || c == '3' || c == '4' || c == '5' || c == '6' || c == '7'
        || c == '8' || c == '9'
}

fn group_kind_x(s: &String) -> (r: Option<VDEVType>)
    ensures
        r == group_kind(s@),
{
    if str_eq(s.as_str(), "mirror") {
        Option::Some(VDEVType::Mirror)
    } else if str_eq(s.as_str(), "raidz") || str_eq(s.as_str(), "raidz1") {
        Option::Some(VDEVType::RaidZ1)
    } else if str_eq(s.as_str(), "raidz2") {
        Option::Some(VDEVType::RaidZ2)
    } else if str_eq(s.as_str(), "raidz3") {
        Option::Some(VDEVType::RaidZ3)
    } else {
        Option::None
    }
}

/// Group the device arguments of a pool definition (the pool name at index
/// zero is skipped).
fn build_groups(arguments: &Vec<String>) -> (r: Vec<VDEVConfiguration>)
    requires
        arguments@.len() >= 1,
    ensures
        vdevs_pairs(r@) == group_vdevs(strs_view(arguments@).drop_first()),
{
    let ghost argsv = strs_view(arguments@).drop_first();
    let mut vdevs: Vec<VDEVConfiguration> = Vec::new();
    let mut cur = VDEVConfiguration::default();
    let n = arguments.len();
    let mut i: usize = 1;
    proof {
        assert(vdevs_pairs(vdevs@) =~~= Seq::<(VDEVType, Seq<Seq<char>>)>::empty());
        assert(strs_view(cur.devices@) =~~= Seq::<Seq<char>>::empty());
    }
    while i < n
        invariant
            1 <= i <= n,
            n == arguments@.len(),
            argsv == strs_view(arguments@).drop_first(),
            group_rec(argsv, i - 1, cur.vdev_type, strs_view(cur.devices@), vdevs_pairs(vdevs@))
                == group_vdevs(argsv),
        decreases n - i,
    {
        proof {
            assert(argsv[i - 1] == arguments@[i as int]@);
        }
        let ghost pre_kind = cur.vdev_type;
        let ghost pre_devs = strs_view(cur.devices@);
        let ghost pre_acc = vdevs_pairs(vdevs@);
        match group_kind_x(&arguments[i]) {
            Option::Some(k) => {
                if matches!(cur.vdev_type, VDEVType::Empty) && cur.devices.len() == 0 {
                    cur.vdev_type = k;
                    proof {
                        assert(strs_view(cur.devices@) =~~= Seq::<Seq<char>>::empty());
                    }
                } else {
                    vdevs.push(cur);
                    cur = VDEVConfiguration { vdev_type: k, devices: Vec::new() };
                    proof {
                        assert(vdevs_pairs(vdevs@) =~~= pre_acc.push((pre_kind, pre_devs)));
                        assert(strs_view(cur.devices@) =~~= Seq::<Seq<char>>::empty());
                    }
                }
            },
            Option::None => {
                cur.devices.push(arguments[i].clone());
                proof {
                    assert(strs_view(cur.devices@) =~~= pre_devs.push(argsv[i - 1]));
                }
            },
        }
        i = i + 1;
    }
    let ghost pre_kind = cur.vdev_type;
    let ghost pre_devs = strs_view(cur.devices@);
    let ghost pre_acc = vdevs_pairs(vdevs@);
    vdevs.push(cur);
    proof {
        assert(vdevs_pairs(vdevs@) =~~= pre_acc.push((pre_kind, pre_devs)));
    }
    vdevs
}

/// The value of a prefix never counts more untyped groups than the whole.
proof fn lemma_count_untyped_mono(gs: Seq<(VDEVType, Seq<Seq<char>>)>, k: int)
    requires
        0 <= k <= gs.len(),
    ensures
        count_untyped(gs.subrange(0, k)) <= count_untyped(gs),
    decreases gs.len() - k,
{
    if k == gs.len() {
        assert(gs.subrange(0, k) == gs);
    } else {
        lemma_count_untyped_mono(gs, k + 1);
        assert(gs.subrange(0, k + 1).drop_last() =~~= gs.subrange(0, k));
        assert(count_untyped(gs.subrange(0, k)) <= count_untyped(gs.subrange(0, k + 1)));
    }
}

/// Check a built grouping: every untyped group must hold exactly one device,
/// and at most one untyped group may stand in the pool.
fn check_groups(vs: &Vec<VDEVConfiguration>) -> (r: bool)
    ensures
        r == vdevs_valid(vdevs_pairs(vs@)),
{
    let ghost gs = vdevs_pairs(vs@);
    let n = vs.len();
    let mut i: usize = 0;
    let mut untyped: usize = 0;
    while i < n
        invariant
            i <= n,
            n == vs@.len(),
            gs == vdevs_pairs(vs@),
            untyped <= 1,
            untyped as int == count_untyped(gs.subrange(0, i as int)),
            forall|x: int|
                0 <= x < i && (#[trigger] gs[x]).0 == VDEVType::Empty ==> gs[x].1.len() == 1,
        decreases n - i,
    {
        if matches!(vs[i].vdev_type, VDEVType::Empty) {
            if vs[i].devices.len() != 1 {
                proof {
                    assert(gs[i as int].0 == VDEVType::Empty && gs[i as int].1.len() != 1);
                }
                return false;
            }
            untyped = untyped + 1;
            if untyped > 1 {
                proof {
                    assert(gs.subrange(0, i + 1).drop_last() =~~= gs.subrange(0, i as int));
                    assert(count_untyped(gs.subrange(0, i + 1)) > 1);
                    lemma_count_untyped_mono(gs, i + 1);
                }
                return false;
            }
        }
        proof {
            assert(gs.subrange(0, i + 1).drop_last() =~~= gs.subrange(0, i as int));
        }
        i = i + 1;
    }
    proof {
        assert(gs.subrange(0, n as int) == gs);
    }
    true
}

/// Validate one record against the registry and its keyword's structural
/// requirements, reporting the offending keyword and option on failure.
pub fn validate_record(registry: &Vec<(String, KeywordDefinition)>, rec: &Keyword) -> (r: Result<
    (),
    CompileError,
>)
    ensures
        r is Ok <==> rec_valid(reg_view(registry@), rec@),
        (match r {
            Err(e) => error_for(reg_view(registry@), rec@, e),
            Ok(()) => true,
        }),
{
    let ghost reg = reg_view(registry@);
    match reg_find(registry, &rec.name) {
        Option::None => Err(CompileError::UnknownInstruction(rec.name.clone())),
        Option::Some(j) => {
            let allowed = &registry[j].1.options;
            proof {
                assert(reg_view(registry@)[j as int].1 == strs_view(allowed@));
            }
            match &rec.options {
                Option::Some(m) => {
                    let n = m.len();
                    let mut k: usize = 0;
                    while k < n
                        invariant
                            k <= n,
                            n == m@.len(),
                            rec.options matches Option::Some(mm) && mm@ == m@,
                            reg == reg_view(registry@),
                            j < registry@.len(),
                            strs_view(allowed@) == reg[j as int].1,
                            assoc_lookup(reg, rec@.name) == Option::Some(reg[j as int].1),
                            forall|x: int| 0 <= x < k ==> reg[j as int].1.contains(
                                #[trigger] pairs_view(m@)[x].0,
                            ),
                        decreases n - k,
                    {
                        if !str_vec_contains(allowed, &m[k].0) {
                            proof {
                                assert(pairs_view(m@)[k as int].0 == m@[k as int].0@);
                            }
                            return Err(
                                CompileError::UnknownOptionInInstruction {
                                    instruction: rec.name.clone(),
                                    option: m[k].0.clone(),
                                },
                            );
                        }
                        k = k + 1;
                    }
                },
                Option::None => {},
            }
            proof {
                assert(options_ok(reg, rec@));
            }
            let name = rec.name.as_str();
            if str_eq(name, "keyboard") || str_eq(name, "timezone") || str_eq(name, "timeserver")
                || str_eq(name, "system_locale") || str_eq(name, "dataset") || str_eq(
                name,
                "create_be",
            ) || str_eq(name, "image") || str_eq(name, "install_image") || str_eq(
                name,
                "root_password",
            ) || str_eq(name, "network_interface") {
                if rec.arguments.len() >= 1 {
                    Ok(())
                } else {
                    Err(CompileError::MissingArgument { instruction: rec.name.clone() })
                }
            } else if str_eq(name, "terminal") {
                let type_ok = match lookup_opt(rec, "type") {
                    Option::Some(v) => v.unicode_len() > 0,
                    Option::None => false,
                };
                if type_ok || rec.arguments.len() >= 1 {
                    Ok(())
                } else {
                    Err(CompileError::MissingArgument { instruction: rec.name.clone() })
                }
            } else if str_eq(name, "setup_dns") {
                Ok(())
            } else if str_eq(name, "route") {
                if rec.arguments.len() >= 2 {
                    Ok(())
                } else {
                    Err(CompileError::MissingArgument { instruction: rec.name.clone() })
                }
            } else if str_eq(name, "zpool-create") {
                if rec.arguments.len() < 1 {
                    return Err(CompileError::MissingArgument { instruction: rec.name.clone() });
                }
                match lookup_opt(rec, "ashift") {
                    Option::Some(v) => {
                        let cs = str_chars(v.as_str());
                        match parse_u64_digits(&cs, 0, cs.len()) {
                            Option::Some(a) => {
                                proof {
                                    assert(cs@.subrange(0, cs@.len() as int) =~= cs@);
                                    assert(ashift_ok(rec@));
                                }
                            },
                            Option::None => {
                                proof {
                                    assert(cs@.subrange(0, cs@.len() as int) =~= cs@);
                                }
                                return Err(
                                    CompileError::BadNumber {
                                        instruction: rec.name.clone(),
                                        option: String::from_str("ashift"),
                                    },
                                );
                            },
                        }
                    },
                    Option::None => {
                        proof {
                            assert(ashift_ok(rec@));
                        }
                    },
                }
                let groups = build_groups(&rec.arguments);
                if check_groups(&groups) {
                    Ok(())
                } else {
                    return Err(
                        CompileError::InvalidVdevGrouping { pool: rec.arguments[0].clone() },
                    );
                }
            } else {
                Err(CompileError::UnknownInstruction(rec.name.clone()))
            }
        },
    }
}


/// The lengths and distinguishing characters of the keyword literals, so
/// that the compiler's branch conditions tell the keywords apart.
pub proof fn lemma_keyword_literals()
    ensures
        "keyboard"@.len() == 8,
        "timezone"@.len() == 8,
        "terminal"@.len() == 8,
        "timeserver"@.len() == 10,
        "system_locale"@.len() == 13,
        "network_interface"@.len() == 17,
        "dataset"@.len() == 7,
        "setup_dns"@.len() == 9,
        "route"@.len() == 5,
        "root_password"@.len() == 13,
        "zpool-create"@.len() == 12,
        "create_be"@.len() == 9,
        "image"@.len() == 5,
        "install_image"@.len() == 13,
        "keyboard"@[0] == 'k',
        "timezone"@[1] == 'i',
        "terminal"@[1] == 'e',
        "setup_dns"@[0] == 's',
        "create_be"@[0] == 'c',
        "system_locale"@[0] == 's',
        "root_password"@[0] == 'r',
        "install_image"@[0] == 'i',
        "route"@[0] == 'r',
        "image"@[0] == 'i',
{
    reveal_strlit("keyboard");
    reveal_strlit("timezone");
    reveal_strlit("terminal");
    reveal_strlit("timeserver");
    reveal_strlit("system_locale");
    reveal_strlit("network_interface");
    reveal_strlit("dataset");
    reveal_strlit("setup_dns");
    reveal_strlit("route");
    reveal_strlit("root_password");
    reveal_strlit("zpool-create");
    reveal_strlit("create_be");
    reveal_strlit("image");
    reveal_strlit("install_image");
}

fn clone_string_vec(v: &Vec<String>) -> (r: Vec<String>)
    ensures
        strs_view(r@) == strs_view(v@),
{
    let mut out: Vec<String> = Vec::new();
    let n = v.len();
    let mut i: usize = 0;
    while i < n
        invariant
            i <= n,
            n == v@.len(),
            out@.len() == i,
            forall|x: int| 0 <= x < i ==> #[trigger] out@[x]@ == v@[x]@,
        decreases n - i,
    {
        out.push(v[i].clone());
        i = i + 1;
    }
    proof {
        assert(strs_view(out@) =~~= strs_view(v@));
    }
    out
}

fn clone_pairs(v: &Vec<(String, String)>) -> (r: Vec<(String, String)>)
    ensures
        pairs_view(r@) == pairs_view(v@),
{
    let mut out: Vec<(String, String)> = Vec::new();
    let n = v.len();
    let mut i: usize = 0;
    while i < n
        invariant
            i <= n,
            n == v@.len(),
            out@.len() == i,
            forall|x: int| 0 <= x < i ==> #[trigger] out@[x].0@ == v@[x].0@ && out@[x].1@
                == v@[x].1@,
        decreases n - i,
    {
        out.push((v[i].0.clone(), v[i].1.clone()));
        i = i + 1;
    }
    proof {
        assert(pairs_view(out@) =~~= pairs_view(v@));
    }
    out
}

fn keep_pool_opts_from(m: &Vec<(String, String)>, i: usize) -> (r: Vec<(String, String)>)
    requires
        i <= m@.len(),
    ensures
        pairs_view(r@) == keep_pool_opts(pairs_view(m@).subrange(i as int, m@.len() as int)),
    decreases m@.len() - i,
{
    if i >= m.len() {
        let out: Vec<(String, String)> = Vec::new();
        proof {
            assert(pairs_view(out@) =~~= Seq::<(Seq<char>, Seq<char>)>::empty());
            assert(pairs_view(m@).subrange(i as int, m@.len() as int) =~~= Seq::<
                (Seq<char>, Seq<char>),
            >::empty());
        }
        out
    } else {
        let rest = keep_pool_opts_from(m, i + 1);
        proof {
            assert(pairs_view(m@).subrange(i as int, m@.len() as int).drop_first() =~~= pairs_view(
                m@,
            ).subrange(i + 1, m@.len() as int));
            assert(pairs_view(m@).subrange(i as int, m@.len() as int)[0] == pairs_view(
                m@,
            )[i as int]);
        }
        let keep = !(str_eq(m[i].0.as_str(), "ashift") || str_eq(m[i].0.as_str(), "uefi")
            || str_eq(m[i].0.as_str(), "be_name"));
        if keep {
            let ghost restv = pairs_view(rest@);
            let mut out = rest;
            out.insert(0, (m[i].0.clone(), m[i].1.clone()));
            proof {
                assert(pairs_view(out@) =~~= seq![(m@[i as int].0@, m@[i as int].1@)] + restv);
            }
            out
        } else {
            rest
        }
    }
}

fn pool_options_of(rec: &Keyword) -> (r: Vec<(String, String)>)
    ensures
        pairs_view(r@) == keep_pool_opts(rec_opts(rec@)),
{
    match &rec.options {
        Option::None => {
            let out: Vec<(String, String)> = Vec::new();
            proof {
                assert(pairs_view(out@) =~~= Seq::<(Seq<char>, Seq<char>)>::empty());
            }
            out
        },
        Option::Some(m) => {
            let r = keep_pool_opts_from(m, 0);
            proof {
                assert(pairs_view(m@).subrange(0, m@.len() as int) =~~= pairs_view(m@));
            }
            r
        },
    }
}

/// Compile one validated record into its instruction. Only a cleartext root
/// password can fail here: its hashing draws from the system's random source.
fn compile_record(rec: &Keyword) -> (r: Result<Instruction, CompileError>)
    requires
        known_keyword(rec@.name),
        args_ok(rec@),
    ensures
        (match r {
            Ok(ins) => compiles_to(rec@, ins),
            Err(e) => e == CompileError::HashingFailed && is_cleartext_pw(rec@),
        }),
        !is_cleartext_pw(rec@) ==> r is Ok,
{
    proof {
        lemma_keyword_literals();
    }
    let name = rec.name.as_str();
    if str_eq(name, "keyboard") {
        Ok(Instruction::SetKeymap(rec.arguments[0].clone()))
    } else if str_eq(name, "timezone") {
        Ok(Instruction::SetTimezone(rec.arguments[0].clone()))
    } else if str_eq(name, "timeserver") {
        Ok(Instruction::SetTimeServer(rec.arguments[0].clone()))
    } else if str_eq(name, "system_locale") {
        let locale = rec.arguments[0].clone();
        let cs = str_chars(locale.as_str());
        let has_dot = chars_contain(&cs, '.');
        let utf8 = contains_utf8_x(&cs);
        let unicode = !(has_dot && !utf8);
        Ok(Instruction::SetLocale { name: locale, unicode })
    } else if str_eq(name, "dataset") {
        let properties = match &rec.options {
            Option::Some(m) => Option::Some(clone_pairs(m)),
            Option::None => Option::None,
        };
        Ok(Instruction::CreateDataset { name: rec.arguments[0].clone(), properties })
    } else if str_eq(name, "setup_dns") {
        let domain = lookup_opt(rec, "domain");
        let search = lookup_opt(rec, "search");
        let nameservers = clone_string_vec(&rec.arguments);
        Ok(Instruction::SetupDNS { domain, search, nameservers })
    } else if str_eq(name, "route") {
        if rec.arguments.len() > 2 {
            Ok(
                Instruction::AddRoute {
                    name: rec.arguments[0].clone(),
                    route_match: rec.arguments[1].clone(),
                    gateway: rec.arguments[2].clone(),
                },
            )
        } else {
            Ok(
                Instruction::AddRoute {
                    name: rec.arguments[0].clone(),
                    route_match: rec.arguments[0].clone(),
                    gateway: rec.arguments[1].clone(),
                },
            )
        }
    } else if str_eq(name, "root_password") {
        let arg = &rec.arguments[0];
        if is_hash_prefix_x(arg) {
            Ok(Instruction::SetRootPassword(RootPasswordType::Hash(arg.clone())))
        } else {
            match gen_password_hash(arg.as_str()) {
                Ok(h) => Ok(Instruction::SetRootPassword(RootPasswordType::Hash(h))),
                Err(_) => Err(CompileError::HashingFailed),
            }
        }
    } else if str_eq(name, "terminal") {
        let name_o = lookup_opt(rec, "name");
        let label_o = lookup_opt(rec, "label");
        let module_o = lookup_opt(rec, "module");
        let prompt_o = lookup_opt(rec, "prompt");
        let terminal_type = match lookup_opt(rec, "type") {
            Option::Some(v) => {
                if v.unicode_len() > 0 {
                    v
                } else {
                    rec.arguments[0].clone()
                }
            },
            Option::None => rec.arguments[0].clone(),
        };
        Ok(
            Instruction::SetupTerminal {
                name: name_o,
                label: label_o,
                modules: module_o,
                prompt: prompt_o,
                terminal_type,
            },
        )
    } else if str_eq(name, "network_interface") {
        let device = rec.arguments[0].clone();
        let name_o = lookup_opt(rec, "name");
        let static_o = lookup_opt(rec, "static");
        let static6_o = lookup_opt(rec, "static6");
        let primary = has_opt(rec, "primary");
        let (ipv4, ipv6): (Option<NetworkConfig>, Option<NetworkConfig>) = match static_o {
            Option::Some(v) => {
                if str_contains_char(v.as_str(), ':') {
                    (Option::None, Option::Some(NetworkConfig::Static(v)))
                } else {
                    match static6_o {
                        Option::Some(v6) => (
                            Option::Some(NetworkConfig::Static(v)),
                            Option::Some(NetworkConfig::Static(v6)),
                        ),
                        Option::None => (Option::Some(NetworkConfig::Static(v)), Option::None),
                    }
                }
            },
            Option::None => match static6_o {
                Option::Some(v6) => (Option::None, Option::Some(NetworkConfig::Static(v6))),
                Option::None => (
                    Option::Some(NetworkConfig::DHCP),
                    Option::Some(NetworkConfig::DHCPStateful),
                ),
            },
        };
        Ok(Instruction::ConfigureNetworkAdapter { device, name: name_o, ipv4, ipv6, primary })
    } else if str_eq(name, "create_be") {
        let be_name = if rec.arguments.len() >= 2 {
            Option::Some(rec.arguments[1].clone())
        } else {
            Option::None
        };
        Ok(
            Instruction::CreateBootEnvironment {
                pool_name: rec.arguments[0].clone(),
                name: be_name,
            },
        )
    } else if str_eq(name, "image") || str_eq(name, "install_image") {
        let pool = match lookup_opt(rec, "pool") {
            Option::Some(v) => v,
            Option::None => String::from_str("rpool"),
        };
        Ok(Instruction::InstallImage { src: rec.arguments[0].clone(), pool })
    } else if str_eq(name, "zpool-create") {
        let vdevs = build_groups(&rec.arguments);
        let ashift = match lookup_opt(rec, "ashift") {
            Option::Some(v) => {
                let cs = str_chars(v.as_str());
                proof {
                    assert(cs@.subrange(0, cs@.len() as int) =~= cs@);
                }
                match parse_u64_digits(&cs, 0, cs.len()) {
                    Option::Some(a) => Option::Some(a),
                    Option::None => {
                        proof {
                            assert(false);
                        }
                        Option::None
                    },
                }
            },
            Option::None => Option::None,
        };
        let uefi = has_opt(rec, "uefi");
        let be_name = lookup_opt(rec, "be_name");
        let pool_options = pool_options_of(rec);
        Ok(
            Instruction::CreatePool {
                name: rec.arguments[0].clone(),
                vdevs,
                ashift,
                uefi,
                be_name,
                pool_options,
            },
        )
    } else {
        proof {
            assert(false);
        }
        Err(CompileError::HashingFailed)
    }
}

/// What a successful compilation promises: one instruction per record, each
/// record valid against the registry, each instruction the record's image.
pub open spec fn parse_keywords_ok_post(
    reg: Seq<(Seq<char>, Seq<Seq<char>>)>,
    recs: Seq<KeywordV>,
    out: Seq<Instruction>,
) -> bool {
    &&& out.len() == recs.len()
    &&& forall|i: int|
        0 <= i < recs.len() ==> rec_valid(reg, #[trigger] recs[i]) && compiles_to(recs[i], out[i])
}

/// What a failed compilation promises: either the error describes the first
/// invalid record, or every record was valid and the password hashing
/// collaborator failed on a cleartext password.
pub open spec fn parse_keywords_err_post(
    reg: Seq<(Seq<char>, Seq<Seq<char>>)>,
    recs: Seq<KeywordV>,
    e: CompileError,
) -> bool {
    ||| exists|j: int|
        #![auto]
        0 <= j < recs.len() && !rec_valid(reg, recs[j]) && (forall|x: int|
            0 <= x < j ==> rec_valid(reg, recs[x])) && error_for(reg, recs[j], e)
    ||| ((forall|x: int| 0 <= x < recs.len() ==> rec_valid(reg, #[trigger] recs[x])) && e
        == CompileError::HashingFailed && exists|j: int|
        0 <= j < recs.len() && is_cleartext_pw(#[trigger] recs[j]))
}

/// Compile keyword records into instructions. The whole batch is validated
/// against the registry first, so a single bad record prevents any
/// instruction from being produced; compilation is all-or-nothing.
pub fn parse_keywords(registry: &Vec<(String, KeywordDefinition)>, keywords: Vec<Keyword>) -> (r:
    Result<InstructionsSet, CompileError>)
    ensures
        (match r {
            Ok(out) => parse_keywords_ok_post(
                reg_view(registry@),
                keywords_view(keywords@),
                out@,
            ),
            Err(e) => parse_keywords_err_post(reg_view(registry@), keywords_view(keywords@), e),
        }),
        (forall|i: int|
            0 <= i < keywords@.len() ==> rec_valid(
                reg_view(registry@),
                #[trigger] keywords_view(keywords@)[i],
            ) && !is_cleartext_pw(keywords_view(keywords@)[i])) ==> r is Ok,
{
    let ghost reg = reg_view(registry@);
    let ghost recs = keywords_view(keywords@);
    let n = keywords.len();
    let mut i: usize = 0;
    while i < n
        invariant
            i <= n,
            n == keywords@.len(),
            reg == reg_view(registry@),
            recs == keywords_view(keywords@),
            forall|x: int| 0 <= x < i ==> rec_valid(reg, #[trigger] recs[x]),
        decreases n - i,
    {
        proof {
            assert(recs[i as int] == keywords@[i as int]@);
        }
        match validate_record(registry, &keywords[i]) {
            Ok(()) => {},
            Err(e) => {
                return Err(e);
            },
        }
        i = i + 1;
    }
    let mut out: Vec<Instruction> = Vec::new();
    let mut i: usize = 0;
    while i < n
        invariant
            i <= n,
            n == keywords@.len(),
            reg == reg_view(registry@),
            recs == keywords_view(keywords@),
            out@.len() == i,
            forall|x: int| 0 <= x < n ==> rec_valid(reg, #[trigger] recs[x]),
            forall|x: int| 0 <= x < i ==> compiles_to(#[trigger] recs[x], out@[x]),
        decreases n - i,
    {
        proof {
            assert(recs[i as int] == keywords@[i as int]@);
        }
        match compile_record(&keywords[i]) {
            Ok(ins) => {
                out.push(ins);
            },
            Err(e) => {
                proof {
                    assert(is_cleartext_pw(recs[i as int]));
                }
                return Err(e);
            },
        }
        i = i + 1;
    }
    Ok(out)
}

/// Schema closure: a batch holding a record whose name is not in the
/// registry never compiles successfully.
pub proof fn lemma_schema_closure(
    reg: Seq<(Seq<char>, Seq<Seq<char>>)>,
    recs: Seq<KeywordV>,
    out: Seq<Instruction>,
    i: int,
)
    requires
        0 <= i < recs.len(),
        !reg_has(reg, recs[i].name),
    ensures
        !parse_keywords_ok_post(reg, recs, out),
{
    if parse_keywords_ok_post(reg, recs, out) {
        assert(rec_valid(reg, recs[i]));
    }
}

/// Schema closure, error shape: when the unregistered record is the first
/// invalid one, the failure is an unknown-instruction error naming it.
pub proof fn lemma_schema_closure_error(
    reg: Seq<(Seq<char>, Seq<Seq<char>>)>,
    recs: Seq<KeywordV>,
    e: CompileError,
    i: int,
)
    requires
        0 <= i < recs.len(),
        !reg_has(reg, recs[i].name),
        forall|x: int| 0 <= x < i ==> rec_valid(reg, #[trigger] recs[x]),
        parse_keywords_err_post(reg, recs, e),
    ensures
        e matches CompileError::UnknownInstruction(n),
        e->UnknownInstruction_0@ == recs[i].name,
{
    assert(!rec_valid(reg, recs[i]));
    if exists|j: int|
        #![auto]
        0 <= j < recs.len() && !rec_valid(reg, recs[j]) && (forall|x: int|
            0 <= x < j ==> rec_valid(reg, recs[x])) && error_for(reg, recs[j], e) {
        let j = choose|j: int|
            #![auto]
            0 <= j < recs.len() && !rec_valid(reg, recs[j]) && (forall|x: int|
                0 <= x < j ==> rec_valid(reg, recs[x])) && error_for(reg, recs[j], e);
        if j < i {
            assert(rec_valid(reg, recs[j]));
        }
        if j > i {
            assert(rec_valid(reg, recs[i]));
        }
        assert(j == i);
    } else {
        assert(forall|x: int| 0 <= x < recs.len() ==> rec_valid(reg, #[trigger] recs[x]));
        assert(rec_valid(reg, recs[i]));
    }
}

/// Option closure: a batch holding a record with an option key outside its
/// schema's allowed set never compiles successfully, however many valid
/// options the record also holds.
pub proof fn lemma_option_closure(
    reg: Seq<(Seq<char>, Seq<Seq<char>>)>,
    recs: Seq<KeywordV>,
    out: Seq<Instruction>,
    i: int,
    k: int,
)
    requires
        0 <= i < recs.len(),
        reg_has(reg, recs[i].name),
        0 <= k < rec_opts(recs[i]).len(),
        !assoc_lookup(reg, recs[i].name)->Some_0.contains(rec_opts(recs[i])[k].0),
    ensures
        !parse_keywords_ok_post(reg, recs, out),
{
    if parse_keywords_ok_post(reg, recs, out) {
        assert(rec_valid(reg, recs[i]));
        assert(options_ok(reg, recs[i]));
        assert(assoc_lookup(reg, recs[i].name)->Some_0.contains(rec_opts(recs[i])[k].0));
    }
}

/// Password handling: a root-password record always compiles to a stored
/// hash; a recognized pre-hashed credential is stored verbatim, and a
/// cleartext password is never what gets stored.
pub proof fn lemma_password_handling(rec: KeywordV, ins: Instruction)
    requires
        rec.name == "root_password"@,
        rec.arguments.len() >= 1,
        compiles_to(rec, ins),
    ensures
        ins matches Instruction::SetRootPassword(RootPasswordType::Hash(h)),
        is_hash_prefix(rec.arguments[0]) ==> ins->SetRootPassword_0->Hash_0@ == rec.arguments[0],
        !is_hash_prefix(rec.arguments[0]) ==> ins->SetRootPassword_0->Hash_0@ != rec.arguments[0],
{
    lemma_keyword_literals();
    let h = ins->SetRootPassword_0->Hash_0;
    if !is_hash_prefix(rec.arguments[0]) {
        assert(crypt_shaped(h@));
        if h@ == rec.arguments[0] {
            assert(crate::strutil::spec_is_digit('6'));
            assert(is_hash_prefix(rec.arguments[0]));
        }
    }
}

} // verus!
