//! The keyword set this system supports, with the option names each keyword
//! accepts. The surrounding layer registers these with the parser and hands
//! them to the compiler for schema validation.

use vstd::prelude::*;
use crate::cfgparser::KeywordDefinition;
use crate::cfgparser::reg_view;

verus! {

/// The registry contents, as a mathematical value: each keyword name with its
/// allowed option names.
pub open spec fn supported_registry() -> Seq<(Seq<char>, Seq<Seq<char>>)> {
    seq![
        ("keyboard"@, Seq::<Seq<char>>::empty()),
        ("timezone"@, Seq::<Seq<char>>::empty()),
        (
            "terminal"@,
            seq!["name"@, "label"@, "module"@, "prompt"@, "type"@],
        ),
        ("timeserver"@, Seq::<Seq<char>>::empty()),
        ("system_locale"@, Seq::<Seq<char>>::empty()),
        (
            "network_interface"@,
            seq!["name"@, "static"@, "static6"@, "primary"@],
        ),
        ("dataset"@, dataset_options()),
        ("setup_dns"@, seq!["search"@, "domain"@]),
        ("route"@, Seq::<Seq<char>>::empty()),
        ("root_password"@, Seq::<Seq<char>>::empty()),
    ]
}

/// The dataset properties the dataset keyword accepts as options.
pub open spec fn dataset_options() -> Seq<Seq<char>> {
    seq![
        "aclinherit"@,
        "aclmode"@,
        "atime"@,
        "canmount"@,
        "checksum"@,
        "compression"@,
        "copies"@,
        "devices"@,
        "encryption"@,
        "keyformat"@,
        "keylocation"@,
        "exec"@,
        "filesystem_limit"@,
        "special_small_blocks"@,
        "mountpoint"@,
        "nbmand"@,
        "pbkdf2iters"@,
        "primarycache"@,
        "quota"@,
        "snapshot_limit"@,
        "readonly"@,
        "recordsize"@,
        "redundant_metadata"@,
        "refquota"@,
        "refreservation"@,
        "reservation"@,
        "secondarycache"@,
        "setuid"@,
        "sharesmb"@,
        "sharenfs"@,
        "logbias"@,
        "snapdir"@,
        "sync"@,
        "vscan"@,
        "xattr"@,
        "casesensitivity"@,
        "normalization"@,
        "utf8only"@,
    ]
}

fn kd(options: Vec<String>) -> (r: KeywordDefinition)
    ensures
        r.options == options,
{
    KeywordDefinition { options }
}

fn no_options() -> (r: Vec<String>)
    ensures
        r@.len() == 0,
{
    Vec::new()
}

/// The keyword set this system supports, with the option names each keyword
/// accepts. The terminal keyword allows exactly the five option keys its
/// compilation reads (`name`, `label`, `module`, `prompt`, `type`): under
/// fail-closed validation an empty allowed set would reject every terminal
/// option the compiler itself understands, so the registry names them.
pub fn get_supported_keywords() -> (r: Vec<(String, KeywordDefinition)>)
    ensures
        reg_view(r@) == supported_registry(),
{
    let mut r: Vec<(String, KeywordDefinition)> = Vec::new();
    r.push((String::from_str("keyboard"), kd(no_options())));
    r.push((String::from_str("timezone"), kd(no_options())));
    let mut terminal_opts: Vec<String> = Vec::new();
    terminal_opts.push(String::from_str("name"));
    terminal_opts.push(String::from_str("label"));
    terminal_opts.push(String::from_str("module"));
    terminal_opts.push(String::from_str("prompt"));
    terminal_opts.push(String::from_str("type"));
    r.push((String::from_str("terminal"), kd(terminal_opts)));
    r.push((String::from_str("timeserver"), kd(no_options())));
    r.push((String::from_str("system_locale"), kd(no_options())));
    let mut net_opts: Vec<String> = Vec::new();
    net_opts.push(String::from_str("name"));
    net_opts.push(String::from_str("static"));
    net_opts.push(String::from_str("static6"));
    net_opts.push(String::from_str("primary"));
    r.push((String::from_str("network_interface"), kd(net_opts)));
    let mut ds_opts: Vec<String> = Vec::new();
    ds_opts.push(String::from_str("aclinherit"));
    ds_opts.push(String::from_str("aclmode"));
    ds_opts.push(String::from_str("atime"));
    ds_opts.push(String::from_str("canmount"));
    ds_opts.push(String::from_str("checksum"));
    ds_opts.push(String::from_str("compression"));
    ds_opts.push(String::from_str("copies"));
    ds_opts.push(String::from_str("devices"));
    ds_opts.push(String::from_str("encryption"));
    ds_opts.push(String::from_str("keyformat"));
    ds_opts.push(String::from_str("keylocation"));
    ds_opts.push(String::from_str("exec"));
    ds_opts.push(String::from_str("filesystem_limit"));
    ds_opts.push(String::from_str("special_small_blocks"));
    ds_opts.push(String::from_str("mountpoint"));
    ds_opts.push(String::from_str("nbmand"));
    ds_opts.push(String::from_str("pbkdf2iters"));
    ds_opts.push(String::from_str("primarycache"));
    ds_opts.push(String::from_str("quota"));
    ds_opts.push(String::from_str("snapshot_limit"));
    ds_opts.push(String::from_str("readonly"));
    ds_opts.push(String::from_str("recordsize"));
    ds_opts.push(String::from_str("redundant_metadata"));
    ds_opts.push(String::from_str("refquota"));
    ds_opts.push(String::from_str("refreservation"));
    ds_opts.push(String::from_str("reservation"));
    ds_opts.push(String::from_str("secondarycache"));
    ds_opts.push(String::from_str("setuid"));
    ds_opts.push(String::from_str("sharesmb"));
    ds_opts.push(String::from_str("sharenfs"));
    ds_opts.push(String::from_str("logbias"));
    ds_opts.push(String::from_str("snapdir"));
    ds_opts.push(String::from_str("sync"));
    ds_opts.push(String::from_str("vscan"));
    ds_opts.push(String::from_str("xattr"));
    ds_opts.push(String::from_str("casesensitivity"));
    ds_opts.push(String::from_str("normalization"));
    ds_opts.push(String::from_str("utf8only"));
    proof {
        assert(strs_view_local(ds_opts@) =~~= dataset_options());
    }
    r.push((String::from_str("dataset"), kd(ds_opts)));
    let mut dns_opts: Vec<String> = Vec::new();
    dns_opts.push(String::from_str("search"));
    dns_opts.push(String::from_str("domain"));
    r.push((String::from_str("setup_dns"), kd(dns_opts)));
    r.push((String::from_str("route"), kd(no_options())));
    r.push((String::from_str("root_password"), kd(no_options())));
    proof {
        assert(reg_view(r@) =~~= supported_registry());
    }
    r
}

spec fn strs_view_local(v: Seq<String>) -> Seq<Seq<char>> {
    crate::cfgparser::strs_view(v)
}

} // verus!
