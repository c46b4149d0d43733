//! The driver: turns one instruction into the concrete work to perform
//! against a target root — commands to run and files to write — without
//! performing any of it. The caller executes the plan; every file path in a
//! plan stays under the target root.

use vstd::prelude::*;
use crate::instructions::Instruction;
use crate::instructions::CommandOutput;
use crate::instructions::NetworkConfig;
use crate::instructions::RootPasswordType;
use crate::strutil::str_chars;
use crate::strutil::chars_contain;
use crate::strutil::str_eq;
use crate::strutil::chars_to_string;
use crate::strutil::confined_to;
use crate::strutil::join_under;
use crate::strutil::spec_join;
use crate::cfgparser::strs_view;
use crate::cfgparser::pairs_view;
use crate::shadow::ShadowError;

verus! {

/// One step of a plan: a command to run (optionally with text on its
/// standard input) or a file to write.
#[derive(Debug, Clone)]
pub enum Action {
    RunCommand { program: String, env: Vec<(String, String)>, args: Vec<String> },
    RunCommandStdin { program: String, env: Vec<(String, String)>, stdin: String },
    WriteFile { path: String, content: String },
    EnsureDir { path: String, owner: u32, group: u32, mode: u32 },
}

/// Errors of the driver layer.
#[derive(Debug, Clone)]
pub enum SysConfigError {
    /// A cleartext root password reached the driver: persisting it is never
    /// acceptable.
    UnencryptedPassword,
    /// The content of a file the instruction must rewrite was not supplied.
    MissingInput { path: String },
    /// The credential store under the target root is malformed.
    ShadowFileError(ShadowError),
    /// A dataset name with a snapshot separator, where none is allowed.
    InvalidName { name: String },
}

/// The file contents an instruction may need to read before planning its
/// writes: the environment defaults file and the credential store, each
/// present when the caller read it from the target root.
#[derive(Debug, Clone, Default)]
pub struct PlanContext {
    pub init_file: Option<String>,
    pub shadow_file: Option<String>,
}

/// A written file stays under the root; commands receive the root as their
/// alternate-root argument or environment instead.
pub open spec fn action_confined(root: Seq<char>, a: Action) -> bool {
    match a {
        Action::WriteFile { path, content } => confined_to(root, path@),
        _ => true,
    }
}

/// Every write of the plan stays under the root.
pub open spec fn actions_confined(root: Seq<char>, acts: Seq<Action>) -> bool {
    forall|i: int| 0 <= i < acts.len() ==> action_confined(root, #[trigger] acts[i])
}

/// The environment a service-configuration command runs with: nothing on the
/// live system, and the repository, DTD and install-root settings of the
/// target root otherwise.
pub open spec fn svccfg_env(root: Seq<char>, env: Seq<(String, String)>) -> bool {
    if root == "/"@ {
        env.len() == 0
    } else {
        &&& env.len() == 5
        &&& env[0].0@ == "SVCCFG_CHECKHASH"@ && env[0].1@ == "1"@
        &&& env[1].0@ == "PKG_INSTALL_ROOT"@ && env[1].1@ == root
        &&& env[2].0@ == "SVCCFG_DTD"@ && env[2].1@ == spec_join(
            root,
            "/usr/share/lib/xml/dtd/service_bundle.dtd.1"@,
        )
        &&& env[3].0@ == "SVCCFG_REPOSITORY"@ && env[3].1@ == spec_join(
            root,
            "/etc/svc/repository.db"@,
        )
        &&& env[4].0@ == "SVCCFG_CONFIGD_PATH"@ && env[4].1@ == "/lib/svc/bin/svc.configd"@
    }
}

/// The well-known paths this driver writes under the root are absolute.
pub proof fn lemma_path_literals()
    ensures
        "/etc/nodename"@.len() > 0 && "/etc/nodename"@[0] == '/',
        "/etc/inet/hosts"@.len() > 0 && "/etc/inet/hosts"@[0] == '/',
        "/etc/resolv.conf"@.len() > 0 && "/etc/resolv.conf"@[0] == '/',
        "/etc/nsswitch.dns"@.len() > 0 && "/etc/nsswitch.dns"@[0] == '/',
        "/etc/nsswitch.conf"@.len() > 0 && "/etc/nsswitch.conf"@[0] == '/',
        "/usr/share/lib/xml/dtd/service_bundle.dtd.1"@.len() > 0
            && "/usr/share/lib/xml/dtd/service_bundle.dtd.1"@[0] == '/',
        "/etc/svc/repository.db"@.len() > 0 && "/etc/svc/repository.db"@[0] == '/',
        "/etc/default/init"@.len() > 0 && "/etc/default/init"@[0] == '/',
        "/etc/shadow"@.len() > 0 && "/etc/shadow"@[0] == '/',
{
    reveal_strlit("/etc/nodename");
    reveal_strlit("/etc/inet/hosts");
    reveal_strlit("/etc/resolv.conf");
    reveal_strlit("/etc/nsswitch.dns");
    reveal_strlit("/etc/nsswitch.conf");
    reveal_strlit("/usr/share/lib/xml/dtd/service_bundle.dtd.1");
    reveal_strlit("/etc/svc/repository.db");
    reveal_strlit("/etc/default/init");
    reveal_strlit("/etc/shadow");
}

/// The environment a service-configuration command needs for the target
/// root: empty on the live system, the redirecting settings otherwise.
fn svccfg_environment(root_path: &str) -> (r: Vec<(String, String)>)
    ensures
        svccfg_env(root_path@, r@),
{
    proof {
        lemma_path_literals();
    }
    if str_eq(root_path, "/") {
        Vec::new()
    } else {
        let mut env: Vec<(String, String)> = Vec::new();
        env.push((String::from_str("SVCCFG_CHECKHASH"), String::from_str("1")));
        env.push((String::from_str("PKG_INSTALL_ROOT"), String::from_str(root_path)));
        env.push(
            (
                String::from_str("SVCCFG_DTD"),
                join_under(root_path, "/usr/share/lib/xml/dtd/service_bundle.dtd.1"),
            ),
        );
        env.push(
            (String::from_str("SVCCFG_REPOSITORY"), join_under(root_path, "/etc/svc/repository.db")),
        );
        env.push(
            (String::from_str("SVCCFG_CONFIGD_PATH"), String::from_str("/lib/svc/bin/svc.configd")),
        );
        env
    }
}

/// Build the service-configuration command for a target root: the command
/// itself plus, for an alternate root, the environment that redirects its
/// repository there.
pub fn svccfg(root_path: &str, args: Vec<String>) -> (r: Action)
    ensures
        (r matches Action::RunCommand { program, env, args: a } && program@
            == "/usr/sbin/svccfg"@ && svccfg_env(root_path@, env@) && strs_view(a@) == strs_view(
            args@,
        )),
{
    Action::RunCommand {
        program: String::from_str("/usr/sbin/svccfg"),
        env: svccfg_environment(root_path),
        args,
    }
}

/// The route addition a route instruction runs: persistent, under the
/// target root.
pub fn add_route(root_path: &str, route_match: String, gateway: String) -> (r: Vec<Action>)
    ensures
        r@.len() == 1,
        (r@[0] matches Action::RunCommand { program, env, args } && program@
            == "/usr/sbin/route"@ && env@.len() == 0 && strs_view(args@) =~= seq![
            "-R"@,
            root_path@,
            "-p"@,
            route_match@,
            gateway@,
        ]),
        actions_confined(root_path@, r@),
{
    let mut args: Vec<String> = Vec::new();
    args.push(String::from_str("-R"));
    args.push(String::from_str(root_path));
    args.push(String::from_str("-p"));
    args.push(route_match);
    args.push(gateway);
    let a = Action::RunCommand {
        program: String::from_str("/usr/sbin/route"),
        env: Vec::new(),
        args,
    };
    let mut r: Vec<Action> = Vec::new();
    r.push(a);
    r
}

/// The keymap a keyboard instruction sets on the keymap service.
pub fn setup_keyboard(root_path: &str, keymap: &str) -> (r: Vec<Action>)
    ensures
        r@.len() == 1,
        (r@[0] matches Action::RunCommand { program, env, args } && program@
            == "/usr/sbin/svccfg"@ && svccfg_env(root_path@, env@) && strs_view(args@) =~= seq![
            "-s"@,
            "svc:/system/keymap:default"@,
            "setprop"@,
            "keymap/layout="@ + keymap@,
        ]),
        actions_confined(root_path@, r@),
{
    let mut args: Vec<String> = Vec::new();
    args.push(String::from_str("-s"));
    args.push(String::from_str("svc:/system/keymap:default"));
    args.push(String::from_str("setprop"));
    args.push(String::from_str("keymap/layout=").concat(keymap));
    let a = svccfg(root_path, args);
    let mut r: Vec<Action> = Vec::new();
    r.push(a);
    r
}

/// The `-o key=value` argument pairs of a dataset's properties, in order.
pub open spec fn props_args(props: Seq<(Seq<char>, Seq<char>)>) -> Seq<Seq<char>>
    decreases props.len(),
{
    if props.len() == 0 {
        Seq::empty()
    } else {
        props_args(props.drop_last()) + seq!["-o"@, props.last().0 + "="@ + props.last().1]
    }
}

/// The dataset creation a dataset instruction runs, with its properties.
/// A name holding a snapshot separator is refused before any command is
/// planned.
pub fn create_dataset(root_path: &str, name: &str, properties: &Option<Vec<(String, String)>>) -> (r:
    Result<Vec<Action>, SysConfigError>)
    ensures
        (match r {
            Ok(acts) => {
                &&& !name@.contains('@')
                &&& acts@.len() == 1
                &&& (acts@[0] matches Action::RunCommand { program, env, args } && program@
                    == "/usr/sbin/zfs"@ && env@.len() == 0 && strs_view(args@) == seq!["create"@]
                    + props_args(
                    (match *properties {
                        Option::Some(ps) => pairs_view(ps@),
                        Option::None => Seq::empty(),
                    }),
                ) + seq![name@])
                &&& actions_confined(root_path@, acts@)
            },
            Err(e) => name@.contains('@') && (e matches SysConfigError::InvalidName { name: n }
                && e->InvalidName_name@ == name@),
        }),
{
    let nc = str_chars(name);
    if chars_contain(&nc, '@') {
        return Err(SysConfigError::InvalidName { name: String::from_str(name) });
    }
    let mut args: Vec<String> = Vec::new();
    args.push(String::from_str("create"));
    let ghost propsv: Seq<(Seq<char>, Seq<char>)> = match properties {
        Option::Some(ps) => pairs_view(ps@),
        Option::None => Seq::empty(),
    };
    proof {
        assert(strs_view(args@) =~~= seq!["create"@] + props_args(propsv.subrange(0, 0)));
    }
    match properties {
        Option::Some(ps) => {
            let n = ps.len();
            let mut i: usize = 0;
            while i < n
                invariant
                    i <= n,
                    n == ps@.len(),
                    propsv == pairs_view(ps@),
                    strs_view(args@) == seq!["create"@] + props_args(propsv.subrange(0, i as int)),
                decreases n - i,
            {
                let ghost args0 = strs_view(args@);
                args.push(String::from_str("-o"));
                args.push(ps[i].0.clone().concat("=").concat(ps[i].1.as_str()));
                i = i + 1;
                proof {
                    assert(strs_view(args@) =~~= args0 + seq![
                        "-o"@,
                        propsv[i - 1].0 + "="@ + propsv[i - 1].1,
                    ]);
                    assert(propsv.subrange(0, i as int).drop_last() =~~= propsv.subrange(
                        0,
                        i - 1,
                    ));
                    assert(propsv.subrange(0, i as int).last() == propsv[i - 1]);
                    assert(props_args(propsv.subrange(0, i as int)) == props_args(
                        propsv.subrange(0, i - 1),
                    ) + seq!["-o"@, propsv[i - 1].0 + "="@ + propsv[i - 1].1]);
                    assert(strs_view(args@) =~~= seq!["create"@] + props_args(
                        propsv.subrange(0, i as int),
                    ));
                }
            }
            proof {
                assert(propsv.subrange(0, n as int) =~~= propsv);
            }
        },
        Option::None => {},
    }
    args.push(String::from_str(name));
    proof {
        assert(strs_view(args@) =~~= seq!["create"@] + props_args(propsv) + seq![name@]);
    }
    let a = Action::RunCommand {
        program: String::from_str("/usr/sbin/zfs"),
        env: Vec::new(),
        args,
    };
    let mut r: Vec<Action> = Vec::new();
    r.push(a);
    Ok(r)
}

/// The content of the node-name file: the hostname and a line feed.
pub open spec fn nodename_content(hostname: Seq<char>) -> Seq<char> {
    hostname + "\n"@
}

/// The content of the hosts table: a short heading and the two loopback
/// entries naming the host. The upstream operating system ships this file
/// with a long license preamble; only the functional lines are produced
/// here, deliberately.
pub open spec fn hosts_content(hostname: Seq<char>) -> Seq<char> {
    "# Internet host table\n::1 "@ + hostname + " "@ + hostname
        + ".local localhost loghost\n127.0.0.1 "@ + hostname + " "@ + hostname
        + ".local localhost loghost\n"@
}

fn push_str(out: &mut Vec<char>, s: &str)
    ensures
        final(out)@ == old(out)@ + s@,
{
    let mut cs = str_chars(s);
    out.append(&mut cs);
}

/// The hostname files a hostname instruction writes under the target root.
pub fn set_hostname(root_path: &str, hostname: &str) -> (r: Vec<Action>)
    ensures
        r@.len() == 2,
        (r@[0] matches Action::WriteFile { path, content } && path@ == spec_join(
            root_path@,
            "/etc/nodename"@,
        ) && content@ == nodename_content(hostname@)),
        (r@[1] matches Action::WriteFile { path, content } && path@ == spec_join(
            root_path@,
            "/etc/inet/hosts"@,
        ) && content@ == hosts_content(hostname@)),
        actions_confined(root_path@, r@),
{
    proof {
        lemma_path_literals();
    }
    let mut nodename: Vec<char> = Vec::new();
    push_str(&mut nodename, hostname);
    push_str(&mut nodename, "\n");
    let mut hosts: Vec<char> = Vec::new();
    push_str(&mut hosts, "# Internet host table\n::1 ");
    push_str(&mut hosts, hostname);
    push_str(&mut hosts, " ");
    push_str(&mut hosts, hostname);
    push_str(&mut hosts, ".local localhost loghost\n127.0.0.1 ");
    push_str(&mut hosts, hostname);
    push_str(&mut hosts, " ");
    push_str(&mut hosts, hostname);
    push_str(&mut hosts, ".local localhost loghost\n");
    let mut r: Vec<Action> = Vec::new();
    r.push(
        Action::WriteFile {
            path: join_under(root_path, "/etc/nodename"),
            content: chars_to_string(&nodename),
        },
    );
    r.push(
        Action::WriteFile {
            path: join_under(root_path, "/etc/inet/hosts"),
            content: chars_to_string(&hosts),
        },
    );
    r
}

/// The name-server lines of the resolver configuration, in order.
pub open spec fn ns_lines(ns: Seq<Seq<char>>) -> Seq<char>
    decreases ns.len(),
{
    if ns.len() == 0 {
        Seq::empty()
    } else if ns.len() == 1 {
        "nameserver "@ + ns[0]
    } else {
        ns_lines(ns.drop_last()) + "\nnameserver "@ + ns.last()
    }
}

/// The whole resolver configuration: name servers, then the optional domain
/// and search entries.
pub open spec fn resolv_content(
    ns: Seq<Seq<char>>,
    domain: Option<String>,
    search: Option<String>,
) -> Seq<char> {
    ns_lines(ns) + (match domain {
        Option::Some(d) => "\ndomain "@ + d@,
        Option::None => Seq::empty(),
    }) + (match search {
        Option::Some(s) => "\nsearch "@ + s@,
        Option::None => Seq::empty(),
    })
}

/// The resolver configuration a DNS instruction writes, and the name-service
/// switch it copies into place.
pub fn setup_dns(
    root_path: &str,
    nameservers: &Vec<String>,
    domain: Option<String>,
    search: Option<String>,
) -> (r: Vec<Action>)
    ensures
        r@.len() == 2,
        (r@[0] matches Action::WriteFile { path, content } && path@ == spec_join(
            root_path@,
            "/etc/resolv.conf"@,
        ) && content@ == resolv_content(strs_view(nameservers@), domain, search)),
        (r@[1] matches Action::RunCommand { program, env, args } && program@ == "/usr/bin/cp"@
            && env@.len() == 0 && strs_view(args@) =~= seq![
            spec_join(root_path@, "/etc/nsswitch.dns"@),
            spec_join(root_path@, "/etc/nsswitch.conf"@),
        ]),
        actions_confined(root_path@, r@),
{
    proof {
        lemma_path_literals();
    }
    let ghost nsv = strs_view(nameservers@);
    let mut out: Vec<char> = Vec::new();
    let n = nameservers.len();
    let mut i: usize = 0;
    while i < n
        invariant
            i <= n,
            n == nameservers@.len(),
            nsv == strs_view(nameservers@),
            out@ == ns_lines(nsv.subrange(0, i as int)),
        decreases n - i,
    {
        if i > 0 {
            push_str(&mut out, "\nnameserver ");
        } else {
            push_str(&mut out, "nameserver ");
        }
        push_str(&mut out, nameservers[i].as_str());
        i = i + 1;
        proof {
            assert(nsv.subrange(0, i as int).drop_last() =~~= nsv.subrange(0, i - 1));
            assert(out@ =~= ns_lines(nsv.subrange(0, i as int)));
        }
    }
    proof {
        assert(nsv.subrange(0, n as int) =~~= nsv);
    }
    match &domain {
        Option::Some(d) => {
            push_str(&mut out, "\ndomain ");
            push_str(&mut out, d.as_str());
        },
        Option::None => {},
    }
    match &search {
        Option::Some(s) => {
            push_str(&mut out, "\nsearch ");
            push_str(&mut out, s.as_str());
        },
        Option::None => {},
    }
    proof {
        assert(out@ =~= resolv_content(nsv, domain, search));
    }
    let mut r: Vec<Action> = Vec::new();
    r.push(
        Action::WriteFile {
            path: join_under(root_path, "/etc/resolv.conf"),
            content: chars_to_string(&out),
        },
    );
    let mut cp_args: Vec<String> = Vec::new();
    cp_args.push(join_under(root_path, "/etc/nsswitch.dns"));
    cp_args.push(join_under(root_path, "/etc/nsswitch.conf"));
    r.push(
        Action::RunCommand {
            program: String::from_str("/usr/bin/cp"),
            env: Vec::new(),
            args: cp_args,
        },
    );
    proof {
        assert(strs_view(r@[1]->RunCommand_args@) =~~= seq![
            spec_join(root_path@, "/etc/nsswitch.dns"@),
            spec_join(root_path@, "/etc/nsswitch.conf"@),
        ]);
    }
    r
}


/// The lines with the first one starting with `key` replaced by `repl`.
pub open spec fn replace_env_line(ls: Seq<Seq<char>>, key: Seq<char>, repl: Seq<char>) -> Seq<
    Seq<char>,
>
    decreases ls.len(),
{
    if ls.len() == 0 {
        Seq::empty()
    } else if crate::strutil::seq_starts_with(ls[0], key) {
        seq![repl] + ls.drop_first()
    } else {
        seq![ls[0]] + replace_env_line(ls.drop_first(), key, repl)
    }
}

/// True when some line starts with `key`.
pub open spec fn has_env_line(ls: Seq<Seq<char>>, key: Seq<char>) -> bool {
    exists|i: int| 0 <= i < ls.len() && crate::strutil::seq_starts_with(#[trigger] ls[i], key)
}

/// Lines joined by line feeds, without a trailing one.
pub open spec fn join_lines(ls: Seq<Seq<char>>) -> Seq<char>
    decreases ls.len(),
{
    if ls.len() == 0 {
        Seq::empty()
    } else if ls.len() == 1 {
        ls[0]
    } else {
        join_lines(ls.drop_last()) + seq!['\n'] + ls.last()
    }
}

/// The environment defaults file with the `key` line set to `key` followed by
/// `value`: the first existing `key` line is replaced in place, or the
/// assignment is appended as a new line with a trailing line feed.
pub open spec fn upsert_env_line(content: Seq<char>, key: Seq<char>, value: Seq<char>) -> Seq<
    char,
> {
    let ls = crate::shadow::split_from(content, 0, '\n');
    if has_env_line(ls, key) {
        join_lines(replace_env_line(ls, key, key + value))
    } else {
        content + seq!['\n'] + key + value + seq!['\n']
    }
}

proof fn lemma_replace_env_hit(ls: Seq<Seq<char>>, key: Seq<char>, repl: Seq<char>, j: int)
    requires
        0 <= j < ls.len(),
        crate::strutil::seq_starts_with(ls[j], key),
        forall|x: int| 0 <= x < j ==> !crate::strutil::seq_starts_with(#[trigger] ls[x], key),
    ensures
        replace_env_line(ls, key, repl) =~~= ls.update(j, repl),
    decreases ls.len(),
{
    if j > 0 {
        lemma_replace_env_hit(ls.drop_first(), key, repl, j - 1);
        assert(ls.drop_first().update(j - 1, repl) =~~= ls.update(j, repl).drop_first());
    }
}

fn line_has_prefix(line: &Vec<char>, key: &Vec<char>) -> (r: bool)
    ensures
        r == crate::strutil::seq_starts_with(line@, key@),
{
    let kl = key.len();
    if line.len() < kl {
        return false;
    }
    let mut i: usize = 0;
    while i < kl
        invariant
            i <= kl,
            kl == key@.len(),
            kl <= line@.len(),
            forall|x: int| 0 <= x < i ==> line@[x] == key@[x],
        decreases kl - i,
    {
        if line[i] != key[i] {
            proof {
                assert(line@.subrange(0, kl as int)[i as int] != key@[i as int]);
            }
            return false;
        }
        i = i + 1;
    }
    proof {
        assert(line@.subrange(0, kl as int) =~= key@);
    }
    true
}

fn upsert_env_line_x(content: &str, key: &str, value: &str) -> (r: String)
    ensures
        r@ == upsert_env_line(content@, key@, value@),
{
    let cs = str_chars(content);
    let lines = crate::shadow::split_x(&cs, 0, '\n');
    let ghost lsv = crate::shadow::vecs_view(lines@);
    let kv = str_chars(key);
    let n = lines.len();
    let mut j: usize = 0;
    while j < n
        invariant
            j <= n,
            n == lines@.len(),
            lsv == crate::shadow::vecs_view(lines@),
            lsv == crate::shadow::split_from(content@, 0, '\n'),
            kv@ == key@,
            forall|x: int| 0 <= x < j ==> !crate::strutil::seq_starts_with(#[trigger] lsv[x], key@),
        decreases n - j,
    {
        if line_has_prefix(&lines[j], &kv) {
            proof {
                assert(crate::strutil::seq_starts_with(lsv[j as int], key@));
                lemma_replace_env_hit(lsv, key@, key@ + value@, j as int);
            }
            let ghost target = lsv.update(j as int, key@ + value@);
            let mut out: Vec<char> = Vec::new();
            let mut i: usize = 0;
            while i < n
                invariant
                    i <= n,
                    n == lines@.len(),
                    lsv == crate::shadow::vecs_view(lines@),
                    j < n,
                    kv@ == key@,
                    target == lsv.update(j as int, key@ + value@),
                    out@ == join_lines(target.subrange(0, i as int)),
                decreases n - i,
            {
                if i > 0 {
                    out.push('\n');
                }
                if i == j {
                    let mut kc = str_chars(key);
                    out.append(&mut kc);
                    let mut vc = str_chars(value);
                    out.append(&mut vc);
                } else {
                    let mut lc = crate::shadow::char_range_all(&lines[i]);
                    out.append(&mut lc);
                }
                i = i + 1;
                proof {
                    assert(target.subrange(0, i as int).drop_last() =~~= target.subrange(
                        0,
                        i - 1,
                    ));
                    assert(out@ =~= join_lines(target.subrange(0, i as int)));
                }
            }
            proof {
                assert(target.subrange(0, n as int) =~~= target);
                assert(out@ == join_lines(target));
                assert(lsv == crate::shadow::split_from(content@, 0, '\n'));
                assert(has_env_line(lsv, key@));
                assert(join_lines(replace_env_line(lsv, key@, key@ + value@)) == join_lines(
                    target,
                ));
                assert(out@ == upsert_env_line(content@, key@, value@));
            }
            return chars_to_string(&out);
        }
        j = j + 1;
    }
    let mut out: Vec<char> = Vec::new();
    push_str(&mut out, content);
    out.push('\n');
    push_str(&mut out, key);
    push_str(&mut out, value);
    out.push('\n');
    proof {
        assert(out@ =~= content@ + seq!['\n'] + key@ + value@ + seq!['\n']);
    }
    chars_to_string(&out)
}

/// True when `pat` occurs in `s` at position `k`.
pub open spec fn seq_has_at(s: Seq<char>, pat: Seq<char>, k: int) -> bool {
    0 <= k && k + pat.len() <= s.len() && s.subrange(k, k + pat.len() as int) == pat
}

/// True when `pat` occurs somewhere in `s`.
pub open spec fn contains_seq(s: Seq<char>, pat: Seq<char>) -> bool {
    exists|k: int| seq_has_at(s, pat, k)
}

fn match_at(v: &Vec<char>, pat: &Vec<char>, k: usize) -> (r: bool)
    requires
        k + pat@.len() <= v@.len(),
    ensures
        r == (v@.subrange(k as int, k + pat@.len() as int) == pat@),
{
    let total = v.len();
    let m = pat.len();
    let mut d: usize = 0;
    while d < m
        invariant
            d <= m,
            m == pat@.len(),
            total == v@.len(),
            k + m <= v@.len(),
            forall|x: int| 0 <= x < d ==> v@[k + x] == pat@[x],
        decreases m - d,
    {
        if v[k + d] != pat[d] {
            proof {
                assert(v@.subrange(k as int, k + m as int)[d as int] != pat@[d as int]);
            }
            return false;
        }
        d = d + 1;
    }
    proof {
        assert(v@.subrange(k as int, k + m as int) =~= pat@);
    }
    true
}

fn contains_seq_x(v: &Vec<char>, pat: &Vec<char>) -> (r: bool)
    requires
        pat@.len() > 0,
    ensures
        r == contains_seq(v@, pat@),
{
    let n = v.len();
    let m = pat.len();
    if m > n {
        proof {
            assert(forall|k: int| !seq_has_at(v@, pat@, k));
        }
        return false;
    }
    let mut k: usize = 0;
    while k <= n - m
        invariant
            1 <= m <= n,
            k <= n - m + 1,
            n == v@.len(),
            m == pat@.len(),
            forall|x: int| 0 <= x < k ==> !seq_has_at(v@, pat@, x),
        decreases n - k,
    {
        if match_at(v, pat, k) {
            proof {
                assert(seq_has_at(v@, pat@, k as int));
            }
            return true;
        }
        k = k + 1;
    }
    proof {
        assert(forall|x: int| #![auto] !seq_has_at(v@, pat@, x)) by {
            assert(forall|x: int| x > n - m ==> !seq_has_at(v@, pat@, x));
        }
    }
    false
}

/// The locale actually written: the UTF-8 charset suffix is added when the
/// unicode flag is set and the locale does not already name it.
pub open spec fn locale_value(locale: Seq<char>, unicode: bool) -> Seq<char> {
    if unicode && !contains_seq(locale, "UTF-8"@) {
        locale + ".UTF-8"@
    } else {
        locale
    }
}

/// The environment-defaults rewrite a locale instruction performs: the LANG
/// line is set to the locale, with the UTF-8 suffix under the unicode flag.
pub fn set_locale(root_path: &str, init_content: &str, locale: &str, unicode: bool) -> (r: Vec<
    Action,
>)
    ensures
        r@.len() == 1,
        (r@[0] matches Action::WriteFile { path, content } && path@ == spec_join(
            root_path@,
            "/etc/default/init"@,
        ) && content@ == upsert_env_line(
            init_content@,
            "LANG="@,
            locale_value(locale@, unicode),
        )),
        actions_confined(root_path@, r@),
{
    proof {
        lemma_path_literals();
        reveal_strlit("UTF-8");
    }
    let lc = str_chars(locale);
    let pat = str_chars("UTF-8");
    let value = if unicode && !contains_seq_x(&lc, &pat) {
        String::from_str(locale).concat(".UTF-8")
    } else {
        String::from_str(locale)
    };
    let content = upsert_env_line_x(init_content, "LANG=", value.as_str());
    let mut r: Vec<Action> = Vec::new();
    r.push(
        Action::WriteFile { path: join_under(root_path, "/etc/default/init"), content },
    );
    r
}

/// The environment-defaults rewrite a timezone instruction performs: the TZ
/// line is set to the timezone.
pub fn setup_timezone(root_path: &str, init_content: &str, timezone: &str) -> (r: Vec<Action>)
    ensures
        r@.len() == 1,
        (r@[0] matches Action::WriteFile { path, content } && path@ == spec_join(
            root_path@,
            "/etc/default/init"@,
        ) && content@ == upsert_env_line(init_content@, "TZ="@, timezone@)),
        actions_confined(root_path@, r@),
{
    proof {
        lemma_path_literals();
    }
    let content = upsert_env_line_x(init_content, "TZ=", timezone);
    let mut r: Vec<Action> = Vec::new();
    r.push(
        Action::WriteFile { path: join_under(root_path, "/etc/default/init"), content },
    );
    r
}

/// The credential-store rewrite a root-password instruction performs: the
/// root entry's hash is replaced and the store is written back byte for byte,
/// keeping every other entry and the field order. A store without a root
/// entry is left untouched.
pub fn set_root_password_hash(root_path: &str, shadow_content: &str, hash: &str) -> (r: Result<
    Vec<Action>,
    SysConfigError,
>)
    ensures
        (match r {
            Ok(acts) => actions_confined(root_path@, acts@) && (match crate::shadow::spec_parse_shadow(
                shadow_content@,
            ) {
                Ok(entries) => (match crate::shadow::lookup_entry(entries, "root"@) {
                    Option::Some(e) => acts@.len() == 1 && (acts@[0] matches Action::WriteFile {
                        path,
                        content,
                    } && path@ == spec_join(root_path@, "/etc/shadow"@) && content@
                        == crate::shadow::shadow_render(
                        crate::shadow::upsert_entry(entries, crate::shadow::with_hash(e, hash@)),
                    )),
                    Option::None => acts@.len() == 0,
                }),
                Err(_) => false,
            }),
            Err(e) => (e matches SysConfigError::ShadowFileError(se))
                && crate::shadow::spec_parse_shadow(shadow_content@) is Err,
        }),
{
    proof {
        lemma_path_literals();
    }
    match crate::shadow::parse_shadow_file(shadow_content) {
        Err(se) => Err(SysConfigError::ShadowFileError(se)),
        Ok(mut sf) => {
            match sf.get_entry("root") {
                Option::None => Ok(Vec::new()),
                Option::Some(mut e) => {
                    e.set_password_hash(hash);
                    sf.insert_or_update(e);
                    let content = sf.serialize();
                    let mut r: Vec<Action> = Vec::new();
                    r.push(
                        Action::WriteFile { path: join_under(root_path, "/etc/shadow"), content },
                    );
                    Ok(r)
                },
            }
        },
    }
}


/// The address object name the adapter is configured under.
pub open spec fn iface_dev_name(
    device: Seq<char>,
    name: Option<String>,
    ipv6: Option<NetworkConfig>,
) -> Seq<char> {
    match name {
        Option::Some(n) => device + n@,
        Option::None => if ipv6 is Some {
            device + "/v6"@
        } else {
            device + "/v4"@
        },
    }
}

/// The address-type arguments of the main adapter command. A static IPv4
/// address wins; otherwise a static IPv6 address; everything else is DHCP.
pub open spec fn iface_addr_args(
    ipv4: Option<NetworkConfig>,
    ipv6: Option<NetworkConfig>,
    primary: bool,
) -> Seq<Seq<char>> {
    match ipv4 {
        Option::Some(NetworkConfig::Static(v)) => if primary {
            seq!["-T"@, "static"@, "-1"@, "-a"@, v@]
        } else {
            seq!["-T"@, "static"@, "-a"@, v@]
        },
        Option::Some(_) => seq!["-T"@, "dhcp"@],
        Option::None => match ipv6 {
            Option::Some(NetworkConfig::Static(v6)) => seq!["-T"@, "static"@, "-a"@, v6@],
            _ => seq!["-T"@, "dhcp"@],
        },
    }
}

/// The address-autoconfiguration command that precedes the main one for the
/// IPv6-only configurations that need it.
pub open spec fn iface_pre_args(
    root: Seq<char>,
    device: Seq<char>,
    ipv4: Option<NetworkConfig>,
    ipv6: Option<NetworkConfig>,
) -> Option<Seq<Seq<char>>> {
    if ipv4 is Some {
        Option::None
    } else {
        match ipv6 {
            Option::Some(NetworkConfig::DHCPStateful) => Option::Some(
                seq![
                    "-R"@,
                    root,
                    "-T"@,
                    "addrconf"@,
                    "-p"@,
                    "stateful=yes"@,
                    device + "/v6_local"@,
                ],
            ),
            Option::Some(NetworkConfig::DHCPStateless) => Option::Some(
                seq![
                    "-R"@,
                    root,
                    "-T"@,
                    "addrconf"@,
                    "-p"@,
                    "stateless=yes"@,
                    device + "/v6_local"@,
                ],
            ),
            Option::Some(NetworkConfig::Static(_)) => Option::Some(
                seq![
                    "-R"@,
                    root,
                    "-T"@,
                    "addrconf"@,
                    "-p"@,
                    "stateless=yes"@,
                    device + "/v6_local"@,
                ],
            ),
            _ => Option::None,
        }
    }
}

/// An adapter command: the interface administration tool with no extra
/// environment and exactly the given arguments.
pub open spec fn is_ipadm(a: Action, args: Seq<Seq<char>>) -> bool {
    a matches Action::RunCommand { program, env, args: aa } && program@ == "/usr/sbin/ipadm"@
        && env@.len() == 0 && strs_view(aa@) == args
}

fn ipadm_action(args: Vec<String>) -> (r: Action)
    ensures
        is_ipadm(r, strs_view(args@)),
{
    Action::RunCommand { program: String::from_str("/usr/sbin/ipadm"), env: Vec::new(), args }
}

/// The adapter commands a network-adapter instruction runs: an optional
/// autoconfiguration command, then the address creation under the target
/// root.
pub fn setup_interface(
    root_path: &str,
    device: String,
    name: Option<String>,
    ipv4: Option<NetworkConfig>,
    ipv6: Option<NetworkConfig>,
    primary: bool,
) -> (r: Vec<Action>)
    ensures
        ({
            let pre = iface_pre_args(root_path@, device@, ipv4, ipv6);
            let main_args = seq!["-R"@, root_path@] + iface_addr_args(ipv4, ipv6, primary) + seq![
                iface_dev_name(device@, name, ipv6),
            ];
            match pre {
                Option::Some(p) => r@.len() == 2 && is_ipadm(r@[0], p) && is_ipadm(r@[1], main_args),
                Option::None => r@.len() == 1 && is_ipadm(r@[0], main_args),
            }
        }),
        actions_confined(root_path@, r@),
{
    let ghost prev = iface_pre_args(root_path@, device@, ipv4, ipv6);
    let mut r: Vec<Action> = Vec::new();
    let dev_name: String = match &name {
        Option::Some(n) => device.clone().concat(n.as_str()),
        Option::None => {
            if matches!(ipv6, Option::Some(_)) {
                device.clone().concat("/v6")
            } else {
                device.clone().concat("/v4")
            }
        },
    };
    let needs_pre: Option<&str> = if matches!(ipv4, Option::Some(_)) {
        Option::None
    } else {
        match &ipv6 {
            Option::Some(NetworkConfig::DHCPStateful) => Option::Some("stateful=yes"),
            Option::Some(NetworkConfig::DHCPStateless) => Option::Some("stateless=yes"),
            Option::Some(NetworkConfig::Static(_)) => Option::Some("stateless=yes"),
            _ => Option::None,
        }
    };
    match needs_pre {
        Option::Some(p) => {
            let mut pre_args: Vec<String> = Vec::new();
            pre_args.push(String::from_str("-R"));
            pre_args.push(String::from_str(root_path));
            pre_args.push(String::from_str("-T"));
            pre_args.push(String::from_str("addrconf"));
            pre_args.push(String::from_str("-p"));
            pre_args.push(String::from_str(p));
            pre_args.push(device.clone().concat("/v6_local"));
            proof {
                assert(strs_view(pre_args@) =~~= prev->Some_0);
            }
            r.push(ipadm_action(pre_args));
        },
        Option::None => {},
    }
    let mut args: Vec<String> = Vec::new();
    args.push(String::from_str("-R"));
    args.push(String::from_str(root_path));
    match &ipv4 {
        Option::Some(NetworkConfig::Static(v)) => {
            args.push(String::from_str("-T"));
            args.push(String::from_str("static"));
            if primary {
                args.push(String::from_str("-1"));
            }
            args.push(String::from_str("-a"));
            args.push(v.clone());
        },
        Option::Some(_) => {
            args.push(String::from_str("-T"));
            args.push(String::from_str("dhcp"));
        },
        Option::None => {
            match &ipv6 {
                Option::Some(NetworkConfig::Static(v6)) => {
                    args.push(String::from_str("-T"));
                    args.push(String::from_str("static"));
                    args.push(String::from_str("-a"));
                    args.push(v6.clone());
                },
                _ => {
                    args.push(String::from_str("-T"));
                    args.push(String::from_str("dhcp"));
                },
            }
        },
    }
    args.push(dev_name);
    proof {
        assert(strs_view(args@) =~~= seq!["-R"@, root_path@] + iface_addr_args(ipv4, ipv6, primary)
            + seq![iface_dev_name(device@, name, ipv6)]);
    }
    r.push(ipadm_action(args));
    r
}

/// One property line of the terminal-service script, with its default when
/// the option was not given.
pub open spec fn term_prop(prefix: Seq<char>, v: Option<String>, dflt: Seq<char>) -> Seq<char> {
    match v {
        Option::Some(s) => prefix + s@ + "\n"@,
        Option::None => prefix + dflt + "\n"@,
    }
}

/// The whole terminal-service configuration script.
pub open spec fn terminal_script(
    name: Option<String>,
    label: Option<String>,
    modules: Option<String>,
    prompt: Option<String>,
    terminal_type: Seq<char>,
) -> Seq<char> {
    (match name {
        Option::Some(n) => "select svc:/system/console-login\nadd "@ + n@
            + "\nselect svc:/system/console-login:"@ + n@ + "\n"@,
        Option::None => "select svc:/system/console-login:default\n"@,
    }) + "addpg ttymon application\n"@ + (match name {
        Option::Some(n) => "setprop ttymon/device = astring: /dev/term/"@ + n@ + "\n"@,
        Option::None => Seq::empty(),
    }) + "setprop ttymon/terminal_type = astring: "@ + terminal_type + "\n"@ + term_prop(
        "setprop ttymon/label = astring: "@,
        label,
        "console"@,
    ) + term_prop("setprop ttymon/modules = astring: "@, modules, "ldterm,ttcompat"@)
        + "setprop ttymon/nohangup = boolean: true\n"@ + (match prompt {
        Option::Some(p) => "setprop ttymon/prompt = astring: \""@ + p@ + "\"\n"@,
        Option::None => "setprop ttymon/prompt = astring: \"`uname -n` console login:\"\n"@,
    }) + "addpg general framework\n"@
}

/// The terminal-service work a terminal instruction runs: a single property
/// change when only the terminal type is given, and a full configuration
/// script on the command's standard input otherwise.
#[verifier::rlimit(100)]
pub fn setup_terminal(
    root_path: &str,
    name: Option<String>,
    label: Option<String>,
    modules: Option<String>,
    prompt: Option<String>,
    terminal_type: &str,
) -> (r: Vec<Action>)
    ensures
        r@.len() == 1,
        (name is None && label is None && modules is None && prompt is None) ==> (
        r@[0] matches Action::RunCommand { program, env, args } && program@ == "/usr/sbin/svccfg"@
            && svccfg_env(root_path@, env@) && strs_view(args@) =~= seq![
            "-s"@,
            "svc:/system/console-login:default"@,
            "setprop"@,
            "ttymon/terminal_type="@ + terminal_type@,
        ]),
        !(name is None && label is None && modules is None && prompt is None) ==> (
        r@[0] matches Action::RunCommandStdin { program, env, stdin } && program@
            == "/usr/sbin/svccfg"@ && svccfg_env(root_path@, env@) && stdin@ == terminal_script(
            name,
            label,
            modules,
            prompt,
            terminal_type@,
        )),
        actions_confined(root_path@, r@),
{
    let all_none = matches!(name, Option::None) && matches!(label, Option::None) && matches!(
        modules,
        Option::None,
    ) && matches!(prompt, Option::None);
    if all_none {
        let mut args: Vec<String> = Vec::new();
        args.push(String::from_str("-s"));
        args.push(String::from_str("svc:/system/console-login:default"));
        args.push(String::from_str("setprop"));
        args.push(String::from_str("ttymon/terminal_type=").concat(terminal_type));
        let a = svccfg(root_path, args);
        let mut r: Vec<Action> = Vec::new();
        r.push(a);
        r
    } else {
        let mut sc: Vec<char> = Vec::new();
        match &name {
            Option::Some(n) => {
                push_str(&mut sc, "select svc:/system/console-login\nadd ");
                push_str(&mut sc, n.as_str());
                push_str(&mut sc, "\nselect svc:/system/console-login:");
                push_str(&mut sc, n.as_str());
                push_str(&mut sc, "\n");
            },
            Option::None => {
                push_str(&mut sc, "select svc:/system/console-login:default\n");
            },
        }
        push_str(&mut sc, "addpg ttymon application\n");
        match &name {
            Option::Some(n) => {
                push_str(&mut sc, "setprop ttymon/device = astring: /dev/term/");
                push_str(&mut sc, n.as_str());
                push_str(&mut sc, "\n");
            },
            Option::None => {},
        }
        push_str(&mut sc, "setprop ttymon/terminal_type = astring: ");
        push_str(&mut sc, terminal_type);
        push_str(&mut sc, "\n");
        match &label {
            Option::Some(l) => {
                push_str(&mut sc, "setprop ttymon/label = astring: ");
                push_str(&mut sc, l.as_str());
                push_str(&mut sc, "\n");
            },
            Option::None => {
                push_str(&mut sc, "setprop ttymon/label = astring: ");
                push_str(&mut sc, "console");
                push_str(&mut sc, "\n");
            },
        }
        match &modules {
            Option::Some(m) => {
                push_str(&mut sc, "setprop ttymon/modules = astring: ");
                push_str(&mut sc, m.as_str());
                push_str(&mut sc, "\n");
            },
            Option::None => {
                push_str(&mut sc, "setprop ttymon/modules = astring: ");
                push_str(&mut sc, "ldterm,ttcompat");
                push_str(&mut sc, "\n");
            },
        }
        push_str(&mut sc, "setprop ttymon/nohangup = boolean: true\n");
        match &prompt {
            Option::Some(p) => {
                push_str(&mut sc, "setprop ttymon/prompt = astring: \"");
                push_str(&mut sc, p.as_str());
                push_str(&mut sc, "\"\n");
            },
            Option::None => {
                push_str(&mut sc, "setprop ttymon/prompt = astring: \"`uname -n` console login:\"\n");
            },
        }
        push_str(&mut sc, "addpg general framework\n");
        proof {
            assert(sc@ =~= terminal_script(name, label, modules, prompt, terminal_type@));
        }
        let a = Action::RunCommandStdin {
            program: String::from_str("/usr/sbin/svccfg"),
            env: svccfg_environment(root_path),
            stdin: chars_to_string(&sc),
        };
        let mut r: Vec<Action> = Vec::new();
        r.push(a);
        r
    }
}

/// A file write of exactly this path and content.
pub open spec fn is_write(a: Action, path: Seq<char>, content: Seq<char>) -> bool {
    a matches Action::WriteFile { path: p, content: c } && p@ == path && c@ == content
}

/// A command with no extra environment and exactly these arguments.
pub open spec fn is_run(a: Action, prog: Seq<char>, args: Seq<Seq<char>>) -> bool {
    a matches Action::RunCommand { program, env, args: aa } && program@ == prog && env@.len() == 0
        && strs_view(aa@) == args
}

/// A service-configuration command for the root, with exactly these
/// arguments.
pub open spec fn is_svccfg_run(root: Seq<char>, a: Action, args: Seq<Seq<char>>) -> bool {
    a matches Action::RunCommand { program, env, args: aa } && program@ == "/usr/sbin/svccfg"@
        && svccfg_env(root, env@) && strs_view(aa@) == args
}

/// What the real backend plans for each instruction it supports: exactly the
/// work of the matching planner, tied to the instruction's own fields and the
/// supplied file contents.
pub open spec fn illumos_planned(
    root: Seq<char>,
    ins: Instruction,
    ctx: PlanContext,
    acts: Seq<Action>,
) -> bool {
    match ins {
        Instruction::CreateDataset { name, properties } => {
            &&& !name@.contains('@')
            &&& acts.len() == 1
            &&& is_run(acts[0], "/usr/sbin/zfs"@, seq!["create"@] + props_args(
                (match properties {
                    Option::Some(ps) => pairs_view(ps@),
                    Option::None => Seq::empty(),
                }),
            ) + seq![name@])
        },
        Instruction::SetLocale { name, unicode } => {
            &&& ctx.init_file matches Option::Some(c)
            &&& acts.len() == 1
            &&& is_write(acts[0], spec_join(root, "/etc/default/init"@), upsert_env_line(
                ctx.init_file->0@,
                "LANG="@,
                locale_value(name@, unicode),
            ))
        },
        Instruction::SetTimezone(tz) => {
            &&& ctx.init_file matches Option::Some(c)
            &&& acts.len() == 1
            &&& is_write(acts[0], spec_join(root, "/etc/default/init"@), upsert_env_line(
                ctx.init_file->0@,
                "TZ="@,
                tz@,
            ))
        },
        Instruction::SetupDNS { domain, search, nameservers } => {
            &&& acts.len() == 2
            &&& is_write(acts[0], spec_join(root, "/etc/resolv.conf"@), resolv_content(
                strs_view(nameservers@),
                domain,
                search,
            ))
            &&& is_run(acts[1], "/usr/bin/cp"@, seq![
                spec_join(root, "/etc/nsswitch.dns"@),
                spec_join(root, "/etc/nsswitch.conf"@),
            ])
        },
        Instruction::AddRoute { name, route_match, gateway } => {
            &&& acts.len() == 1
            &&& is_run(acts[0], "/usr/sbin/route"@, seq![
                "-R"@,
                root,
                "-p"@,
                route_match@,
                gateway@,
            ])
        },
        Instruction::SetRootPassword(tp) => {
            &&& tp matches RootPasswordType::Hash(h)
            &&& ctx.shadow_file matches Option::Some(c)
            &&& (match crate::shadow::spec_parse_shadow(ctx.shadow_file->0@) {
                Ok(entries) => (match crate::shadow::lookup_entry(entries, "root"@) {
                    Option::Some(e) => acts.len() == 1 && is_write(
                        acts[0],
                        spec_join(root, "/etc/shadow"@),
                        crate::shadow::shadow_render(
                            crate::shadow::upsert_entry(
                                entries,
                                crate::shadow::with_hash(e, tp->Hash_0@),
                            ),
                        ),
                    ),
                    Option::None => acts.len() == 0,
                }),
                Err(_) => false,
            })
        },
        Instruction::SetHostname(h) => {
            &&& acts.len() == 2
            &&& is_write(acts[0], spec_join(root, "/etc/nodename"@), nodename_content(h@))
            &&& is_write(acts[1], spec_join(root, "/etc/inet/hosts"@), hosts_content(h@))
        },
        Instruction::SetKeymap(k) => {
            &&& acts.len() == 1
            &&& is_svccfg_run(root, acts[0], seq![
                "-s"@,
                "svc:/system/keymap:default"@,
                "setprop"@,
                "keymap/layout="@ + k@,
            ])
        },
        Instruction::SetupTerminal { name, label, modules, prompt, terminal_type } => {
            &&& acts.len() == 1
            &&& (if name is None && label is None && modules is None && prompt is None {
                is_svccfg_run(root, acts[0], seq![
                    "-s"@,
                    "svc:/system/console-login:default"@,
                    "setprop"@,
                    "ttymon/terminal_type="@ + terminal_type@,
                ])
            } else {
                acts[0] matches Action::RunCommandStdin { program, env, stdin } && program@
                    == "/usr/sbin/svccfg"@ && svccfg_env(root, env@) && stdin@ == terminal_script(
                    name,
                    label,
                    modules,
                    prompt,
                    terminal_type@,
                )
            })
        },
        Instruction::ConfigureNetworkAdapter { device, name, ipv4, ipv6, primary } => {
            let pre = iface_pre_args(root, device@, ipv4, ipv6);
            let main_args = seq!["-R"@, root] + iface_addr_args(ipv4, ipv6, primary) + seq![
                iface_dev_name(device@, name, ipv6),
            ];
            match pre {
                Option::Some(p) => acts.len() == 2 && is_ipadm(acts[0], p) && is_ipadm(
                    acts[1],
                    main_args,
                ),
                Option::None => acts.len() == 1 && is_ipadm(acts[0], main_args),
            }
        },
        _ => false,
    }
}

/// Which backend applies the instructions.
#[derive(Debug, Clone, Copy, PartialEq, Eq, Structural)]
pub enum Driver {
    Mock,
    Illumos,
}

/// A target image: a root path under which every instruction is applied, and
/// the backend that applies them.
#[derive(Debug)]
pub struct Image {
    pub root_path: String,
    pub driver: Driver,
}

/// The instructions the real backend knows how to plan. The time-server
/// instruction has no backend work yet, and the installer-side instructions
/// are planned by the installer's own state machine.
pub open spec fn illumos_supported(ins: Instruction) -> bool {
    &&& !(ins matches Instruction::SetTimeServer(_))
    &&& !(ins matches Instruction::CreatePool { .. })
    &&& !(ins matches Instruction::CreateBootEnvironment { .. })
    &&& !(ins matches Instruction::InstallImage { .. })
}

impl Image {
    /// A target image applied by the real backend.
    pub fn new(root_path: &str) -> (r: Image)
        ensures
            r.root_path@ == root_path@,
            r.driver == Driver::Illumos,
    {
        Image { root_path: String::from_str(root_path), driver: Driver::Illumos }
    }

    /// A target image applied by the chosen backend.
    pub fn new_with_driver(root_path: &str, driver: Driver) -> (r: Image)
        ensures
            r.root_path@ == root_path@,
            r.driver == driver,
    {
        Image { root_path: String::from_str(root_path), driver }
    }

    /// Plan one instruction against this image: the diagnostics record and
    /// the actions the caller must perform. The mock backend performs no
    /// side effects and echoes the instruction; the real backend plans
    /// exactly the matching planner's work, refuses a cleartext root
    /// password outright, and every file its plans write stays under the
    /// image's root path. The real backend takes no time-server instruction
    /// (it has no backend work) and none of the three installer
    /// instructions (the pool setup state machine plans those), so callers
    /// route them there first.
    pub fn apply_instruction(&self, instruction: &Instruction, ctx: &PlanContext) -> (r: Result<
        (CommandOutput, Vec<Action>),
        SysConfigError,
    >)
        requires
            self.driver == Driver::Illumos ==> illumos_supported(*instruction),
        ensures
            (match r {
                Ok((out, acts)) => actions_confined(self.root_path@, acts@) && out.root_path@
                    == self.root_path@,
                Err(_) => true,
            }),
            self.driver == Driver::Mock ==> (r matches Ok((out, acts)) && acts@.len() == 0
                && out.command@ == "mock"@ && out.output@ == crate::instructions::instr_tag(
                *instruction,
            )),
            (self.driver == Driver::Illumos && (*instruction matches Instruction::SetRootPassword(
                RootPasswordType::Clear(_),
            ))) <==> (r matches Err(SysConfigError::UnencryptedPassword)),
            self.driver == Driver::Illumos ==> (match r {
                Ok((out, acts)) => illumos_planned(self.root_path@, *instruction, *ctx, acts@),
                Err(_) => true,
            }),
    {
        if matches!(self.driver, Driver::Mock) {
            let out = CommandOutput {
                command: String::from_str("mock"),
                root_path: self.root_path.clone(),
                output: instruction.describe(),
            };
            return Ok((out, Vec::new()));
        }
        proof {
            lemma_path_literals();
        }
        let root = self.root_path.as_str();
        match instruction {
            Instruction::CreateDataset { name, properties } => {
                match create_dataset(root, name.as_str(), properties) {
                    Ok(acts) => Ok((self.internal_output("/usr/sbin/zfs"), acts)),
                    Err(e) => Err(e),
                }
            },
            Instruction::SetLocale { name, unicode } => {
                match &ctx.init_file {
                    Option::Some(content) => {
                        let acts = set_locale(root, content.as_str(), name.as_str(), *unicode);
                        Ok((self.internal_output("internal"), acts))
                    },
                    Option::None => Err(
                        SysConfigError::MissingInput {
                            path: join_under(root, "/etc/default/init"),
                        },
                    ),
                }
            },
            Instruction::SetTimezone(tz) => {
                match &ctx.init_file {
                    Option::Some(content) => {
                        let acts = setup_timezone(root, content.as_str(), tz.as_str());
                        Ok((self.internal_output("internal"), acts))
                    },
                    Option::None => Err(
                        SysConfigError::MissingInput {
                            path: join_under(root, "/etc/default/init"),
                        },
                    ),
                }
            },
            Instruction::SetupDNS { domain, search, nameservers } => {
                let d = match domain {
                    Option::Some(x) => Option::Some(x.clone()),
                    Option::None => Option::None,
                };
                let se = match search {
                    Option::Some(x) => Option::Some(x.clone()),
                    Option::None => Option::None,
                };
                let acts = setup_dns(root, nameservers, d, se);
                Ok((self.internal_output("internal"), acts))
            },
            Instruction::AddRoute { name: _, route_match, gateway } => {
                let acts = add_route(root, route_match.clone(), gateway.clone());
                Ok((self.internal_output("/usr/sbin/route"), acts))
            },
            Instruction::SetRootPassword(tp) => {
                match tp {
                    RootPasswordType::Clear(_) => Err(SysConfigError::UnencryptedPassword),
                    RootPasswordType::Hash(hash) => {
                        match &ctx.shadow_file {
                            Option::Some(content) => {
                                match set_root_password_hash(root, content.as_str(), hash.as_str()) {
                                    Ok(acts) => Ok((self.internal_output("libshadow"), acts)),
                                    Err(e) => Err(e),
                                }
                            },
                            Option::None => Err(
                                SysConfigError::MissingInput {
                                    path: join_under(root, "/etc/shadow"),
                                },
                            ),
                        }
                    },
                }
            },
            Instruction::SetHostname(hostname) => {
                let acts = set_hostname(root, hostname.as_str());
                Ok((self.internal_output("internal"), acts))
            },
            Instruction::SetKeymap(keymap) => {
                let acts = setup_keyboard(root, keymap.as_str());
                Ok((self.internal_output("/usr/sbin/svccfg"), acts))
            },
            Instruction::SetupTerminal { name, label, modules, prompt, terminal_type } => {
                let n = match name {
                    Option::Some(x) => Option::Some(x.clone()),
                    Option::None => Option::None,
                };
                let l = match label {
                    Option::Some(x) => Option::Some(x.clone()),
                    Option::None => Option::None,
                };
                let m = match modules {
                    Option::Some(x) => Option::Some(x.clone()),
                    Option::None => Option::None,
                };
                let p = match prompt {
                    Option::Some(x) => Option::Some(x.clone()),
                    Option::None => Option::None,
                };
                let acts = setup_terminal(root, n, l, m, p, terminal_type.as_str());
                Ok((self.internal_output("/usr/sbin/svccfg"), acts))
            },
            Instruction::ConfigureNetworkAdapter { device, name, ipv4, ipv6, primary } => {
                let n = match name {
                    Option::Some(x) => Option::Some(x.clone()),
                    Option::None => Option::None,
                };
                let v4 = clone_net_config(ipv4);
                let v6 = clone_net_config(ipv6);
                let acts = setup_interface(root, device.clone(), n, v4, v6, *primary);
                Ok((self.internal_output("/usr/sbin/ipadm"), acts))
            },
            _ => {
                proof {
                    assert(false);
                }
                Err(SysConfigError::UnencryptedPassword)
            },
        }
    }

    fn internal_output(&self, command: &str) -> (r: CommandOutput)
        ensures
            r.root_path@ == self.root_path@,
            r.command@ == command@,
            r.output@.len() == 0,
    {
        CommandOutput {
            command: String::from_str(command),
            root_path: self.root_path.clone(),
            output: String::new(),
        }
    }
}

fn clone_net_config(c: &Option<NetworkConfig>) -> (r: Option<NetworkConfig>)
    ensures
        (match (c, r) {
            (Option::Some(NetworkConfig::Static(a)), Option::Some(NetworkConfig::Static(b))) => a@
                == b@ && a == b,
            (Option::Some(NetworkConfig::DHCP), Option::Some(NetworkConfig::DHCP)) => true,
            (
                Option::Some(NetworkConfig::DHCPStateful),
                Option::Some(NetworkConfig::DHCPStateful),
            ) => true,
            (
                Option::Some(NetworkConfig::DHCPStateless),
                Option::Some(NetworkConfig::DHCPStateless),
            ) => true,
            (Option::None, Option::None) => true,
            _ => false,
        }),
        r == *c,
{
    match c {
        Option::Some(NetworkConfig::Static(a)) => Option::Some(NetworkConfig::Static(a.clone())),
        Option::Some(NetworkConfig::DHCP) => Option::Some(NetworkConfig::DHCP),
        Option::Some(NetworkConfig::DHCPStateful) => Option::Some(NetworkConfig::DHCPStateful),
        Option::Some(NetworkConfig::DHCPStateless) => Option::Some(NetworkConfig::DHCPStateless),
        Option::None => Option::None,
    }
}

} // verus!
