//! The installer side: identity translation for the target image, pool and
//! dataset command construction, interpretation of the storage tools'
//! failures, the bounded retry for a busy pool export, and the state machine
//! that takes a fresh pool to a bootable boot environment.

use vstd::prelude::*;
use crate::driver::Action;
use crate::instructions::VDEVType;
use crate::instructions::VDEVConfiguration;
use crate::cfgparser::strs_view;
use crate::cfgparser::pairs_view;
use crate::strutil::str_eq;
use crate::strutil::str_chars;
use crate::strutil::chars_contain;
use crate::strutil::chars_to_string;
use crate::strutil::u64_dec_chars;
use crate::strutil::spec_udec;

verus! {

/// Errors of the installer layer.
#[derive(Debug, Clone)]
pub enum InstallError {
    /// A user or group name the target image's databases are not guaranteed
    /// to hold.
    UnknownUser(String),
    UnknownGroup(String),
    /// A pool or dataset name with a separator where none is allowed.
    InvalidName(String),
    /// A pool definition with more than one single disk outside a typed
    /// group, or an untyped group without exactly one device.
    MultipleSingleDisks { pool: String },
}

/// The handful of well-known users of a fresh image, by fixed id. The name
/// service of the target image cannot be consulted while it is offline.
pub fn translate_uid(user: &str) -> (r: Result<u32, InstallError>)
    ensures
        (user@ == "root"@ ==> r == Ok::<u32, InstallError>(0u32)),
        (user@ == "daemon"@ ==> r == Ok::<u32, InstallError>(1u32)),
        (user@ == "bin"@ ==> r == Ok::<u32, InstallError>(2u32)),
        (user@ == "sys"@ ==> r == Ok::<u32, InstallError>(3u32)),
        (user@ == "adm"@ ==> r == Ok::<u32, InstallError>(4u32)),
        (r is Err <==> (user@ != "root"@ && user@ != "daemon"@ && user@ != "bin"@ && user@
            != "sys"@ && user@ != "adm"@)),
{
    proof {
        lemma_id_literals();
    }
    if str_eq(user, "root") {
        Ok(0)
    } else if str_eq(user, "daemon") {
        Ok(1)
    } else if str_eq(user, "bin") {
        Ok(2)
    } else if str_eq(user, "sys") {
        Ok(3)
    } else if str_eq(user, "adm") {
        Ok(4)
    } else {
        Err(InstallError::UnknownUser(String::from_str(user)))
    }
}

/// The handful of well-known groups of a fresh image, by fixed id.
pub fn translate_gid(group: &str) -> (r: Result<u32, InstallError>)
    ensures
        (group@ == "root"@ ==> r == Ok::<u32, InstallError>(0u32)),
        (group@ == "other"@ ==> r == Ok::<u32, InstallError>(1u32)),
        (group@ == "bin"@ ==> r == Ok::<u32, InstallError>(2u32)),
        (group@ == "sys"@ ==> r == Ok::<u32, InstallError>(3u32)),
        (group@ == "adm"@ ==> r == Ok::<u32, InstallError>(4u32)),
        (r is Err <==> (group@ != "root"@ && group@ != "other"@ && group@ != "bin"@ && group@
            != "sys"@ && group@ != "adm"@)),
{
    proof {
        lemma_id_literals();
    }
    if str_eq(group, "root") {
        Ok(0)
    } else if str_eq(group, "other") {
        Ok(1)
    } else if str_eq(group, "bin") {
        Ok(2)
    } else if str_eq(group, "sys") {
        Ok(3)
    } else if str_eq(group, "adm") {
        Ok(4)
    } else {
        Err(InstallError::UnknownGroup(String::from_str(group)))
    }
}

proof fn lemma_id_literals()
    ensures
        "root"@.len() == 4,
        "daemon"@.len() == 6,
        "bin"@.len() == 3,
        "sys"@.len() == 3,
        "adm"@.len() == 3,
        "other"@.len() == 5,
        "bin"@[0] == 'b',
        "sys"@[0] == 's',
        "adm"@[0] == 'a',
{
    reveal_strlit("root");
    reveal_strlit("daemon");
    reveal_strlit("bin");
    reveal_strlit("sys");
    reveal_strlit("adm");
    reveal_strlit("other");
}

/// The temporary name a pool carries while it is imported on the build
/// system.
pub fn installer_pool_name(name: &str) -> (r: String)
    ensures
        r@ == "INSTALLER-"@ + name@,
{
    String::from_str("INSTALLER-").concat(name)
}

/// The alternate root a pool is mounted under while it is being built.
pub fn installer_altroot(name: &str) -> (r: String)
    ensures
        r@ == "/altroot-"@ + name@,
{
    String::from_str("/altroot-").concat(name)
}

fn zpool_action(args: Vec<String>) -> (r: Action)
    ensures
        (r matches Action::RunCommand { program, env, args: a } && program@ == "/sbin/zpool"@
            && env@.len() == 0 && strs_view(a@) == strs_view(args@)),
{
    Action::RunCommand { program: String::from_str("/sbin/zpool"), env: Vec::new(), args }
}

fn zfs_action(args: Vec<String>) -> (r: Action)
    ensures
        (r matches Action::RunCommand { program, env, args: a } && program@ == "/sbin/zfs"@
            && env@.len() == 0 && strs_view(a@) == strs_view(args@)),
{
    Action::RunCommand { program: String::from_str("/sbin/zfs"), env: Vec::new(), args }
}

/// Set one property on a pool. A pool name with a dataset separator is
/// refused.
pub fn zpool_set(pool: &str, n: &str, v: &str) -> (r: Result<Action, InstallError>)
    ensures
        (match r {
            Ok(a) => !pool@.contains('/') && (a matches Action::RunCommand { program, env, args }
                && program@ == "/sbin/zpool"@ && env@.len() == 0 && strs_view(args@) =~= seq![
                "set"@,
                n@ + "="@ + v@,
                pool@,
            ]),
            Err(_) => pool@.contains('/'),
        }),
{
    let pc = str_chars(pool);
    if chars_contain(&pc, '/') {
        return Err(InstallError::InvalidName(String::from_str(pool)));
    }
    let mut args: Vec<String> = Vec::new();
    args.push(String::from_str("set"));
    args.push(String::from_str(n).concat("=").concat(v));
    args.push(String::from_str(pool));
    Ok(zpool_action(args))
}

/// Set one property on a dataset.
pub fn zfs_set(dataset: &str, n: &str, v: &str) -> (r: Action)
    ensures
        (r matches Action::RunCommand { program, env, args } && program@ == "/sbin/zfs"@
            && env@.len() == 0 && strs_view(args@) =~= seq!["set"@, n@ + "="@ + v@, dataset@]),
{
    let mut args: Vec<String> = Vec::new();
    args.push(String::from_str("set"));
    args.push(String::from_str(n).concat("=").concat(v));
    args.push(String::from_str(dataset));
    zfs_action(args)
}

/// Read one property of a dataset.
pub fn zfs_get(dataset: &str, n: &str) -> (r: Action)
    ensures
        (r matches Action::RunCommand { program, env, args } && program@ == "/sbin/zfs"@
            && env@.len() == 0 && strs_view(args@) =~= seq![
            "get"@,
            "-H"@,
            "-o"@,
            "value"@,
            n@,
            dataset@,
        ]),
{
    let mut args: Vec<String> = Vec::new();
    args.push(String::from_str("get"));
    args.push(String::from_str("-H"));
    args.push(String::from_str("-o"));
    args.push(String::from_str("value"));
    args.push(String::from_str(n));
    args.push(String::from_str(dataset));
    zfs_action(args)
}

/// The query asking whether a dataset exists. A name holding a snapshot
/// separator is refused.
pub fn dataset_exists(dataset: &str) -> (r: Result<Action, InstallError>)
    ensures
        (match r {
            Ok(a) => !dataset@.contains('@') && (a matches Action::RunCommand {
                program,
                env,
                args,
            } && program@ == "/sbin/zfs"@ && env@.len() == 0 && strs_view(args@) =~= seq![
                "list"@,
                "-Ho"@,
                "name"@,
                dataset@,
            ]),
            Err(_) => dataset@.contains('@'),
        }),
{
    let dc = str_chars(dataset);
    if chars_contain(&dc, '@') {
        return Err(InstallError::InvalidName(String::from_str(dataset)));
    }
    let mut args: Vec<String> = Vec::new();
    args.push(String::from_str("list"));
    args.push(String::from_str("-Ho"));
    args.push(String::from_str("name"));
    args.push(String::from_str(dataset));
    Ok(zfs_action(args))
}

/// The recursive removal of a dataset. A name holding a snapshot separator
/// is refused.
pub fn dataset_remove(dataset: &str) -> (r: Result<Action, InstallError>)
    ensures
        (match r {
            Ok(a) => !dataset@.contains('@') && (a matches Action::RunCommand {
                program,
                env,
                args,
            } && program@ == "/sbin/zfs"@ && env@.len() == 0 && strs_view(args@) =~= seq![
                "destroy"@,
                "-r"@,
                dataset@,
            ]),
            Err(_) => dataset@.contains('@'),
        }),
{
    let dc = str_chars(dataset);
    if chars_contain(&dc, '@') {
        return Err(InstallError::InvalidName(String::from_str(dataset)));
    }
    let mut args: Vec<String> = Vec::new();
    args.push(String::from_str("destroy"));
    args.push(String::from_str("-r"));
    args.push(String::from_str(dataset));
    Ok(zfs_action(args))
}

/// The forced destruction of a pool.
pub fn pool_destroy(name: &str) -> (r: Result<Action, InstallError>)
    ensures
        (match r {
            Ok(a) => !name@.contains('@') && (a matches Action::RunCommand { program, env, args }
                && program@ == "/sbin/zpool"@ && env@.len() == 0 && strs_view(args@) =~= seq![
                "destroy"@,
                "-f"@,
                name@,
            ]),
            Err(_) => name@.contains('@'),
        }),
{
    let nc = str_chars(name);
    if chars_contain(&nc, '@') {
        return Err(InstallError::InvalidName(String::from_str(name)));
    }
    let mut args: Vec<String> = Vec::new();
    args.push(String::from_str("destroy"));
    args.push(String::from_str("-f"));
    args.push(String::from_str(name));
    Ok(zpool_action(args))
}

/// The export of a pool.
pub fn pool_export(name: &str) -> (r: Result<Action, InstallError>)
    ensures
        (match r {
            Ok(a) => !name@.contains('@') && (a matches Action::RunCommand { program, env, args }
                && program@ == "/sbin/zpool"@ && env@.len() == 0 && strs_view(args@) =~= seq![
                "export"@,
                name@,
            ]),
            Err(_) => name@.contains('@'),
        }),
{
    let nc = str_chars(name);
    if chars_contain(&nc, '@') {
        return Err(InstallError::InvalidName(String::from_str(name)));
    }
    let mut args: Vec<String> = Vec::new();
    args.push(String::from_str("export"));
    args.push(String::from_str(name));
    Ok(zpool_action(args))
}

/// Inline whitespace and line ends, as the storage tools print them.
pub open spec fn is_space(c: char) -> bool {
    c == ' ' || c == '\t' || c == '\n' || c == '\r'
}

/// The text without trailing whitespace.
pub open spec fn trimmed_end(s: Seq<char>) -> Seq<char>
    decreases s.len(),
{
    if s.len() > 0 && is_space(s.last()) {
        trimmed_end(s.drop_last())
    } else {
        s
    }
}

/// True when `s` ends with `suffix`.
pub open spec fn seq_ends_with(s: Seq<char>, suffix: Seq<char>) -> bool {
    suffix.len() <= s.len() && s.subrange(s.len() - suffix.len(), s.len() as int) == suffix
}

fn trim_end_chars(v: Vec<char>) -> (r: Vec<char>)
    ensures
        r@ == trimmed_end(v@),
    decreases v@.len(),
{
    let n = v.len();
    if n == 0 {
        return v;
    }
    let c = v[n - 1];
    if c == ' ' || c == '\t' || c == '\n' || c == '\r' {
        let mut v2 = v;
        let _ = v2.pop();
        trim_end_chars(v2)
    } else {
        v
    }
}

fn ends_with_chars(v: &Vec<char>, suffix: &Vec<char>) -> (r: bool)
    ensures
        r == seq_ends_with(v@, suffix@),
{
    let n = v.len();
    let m = suffix.len();
    if m > n {
        return false;
    }
    let mut i: usize = 0;
    while i < m
        invariant
            i <= m,
            m <= n,
            n == v@.len(),
            m == suffix@.len(),
            forall|x: int| 0 <= x < i ==> v@[n - m + x] == suffix@[x],
        decreases m - i,
    {
        if v[n - m + i] != suffix[i] {
            proof {
                assert(v@.subrange(n - m, n as int)[i as int] != suffix@[i as int]);
            }
            return false;
        }
        i = i + 1;
    }
    proof {
        assert(v@.subrange(n - m, n as int) =~= suffix@);
    }
    true
}

/// Whether a failed query means "the thing is absent" rather than a real
/// failure: the tool's error output, trailing whitespace aside, ends with the
/// given marker.
pub fn absent_marker(stderr: &str, marker: &str) -> (r: bool)
    ensures
        r == seq_ends_with(trimmed_end(stderr@), marker@),
{
    let sc = str_chars(stderr);
    let trimmed = trim_end_chars(sc);
    let mc = str_chars(marker);
    ends_with_chars(&trimmed, &mc)
}

/// What one query outcome means: present on success, absent when the error
/// names the marker, and a fatal failure otherwise.
pub fn interpret_query(success: bool, stderr: &str, marker: &str) -> (r: Result<bool, ()>)
    ensures
        success ==> r == Ok::<bool, ()>(true),
        (!success && seq_ends_with(trimmed_end(stderr@), marker@)) ==> r == Ok::<bool, ()>(false),
        (!success && !seq_ends_with(trimmed_end(stderr@), marker@)) ==> r is Err,
{
    if success {
        Ok(true)
    } else if absent_marker(stderr, marker) {
        Ok(false)
    } else {
        Err(())
    }
}

/// What to do after one export attempt: done on success; one more attempt
/// when the pool was busy and attempts remain; give up otherwise. The retry
/// is bounded by the attempt budget.
#[derive(Debug, Clone, Copy, PartialEq, Eq, Structural)]
pub enum ExportDecision {
    Done,
    Retry,
    Failed,
}

/// Decide the next step of a pool export.
pub fn pool_export_next(attempts_left: u64, success: bool, stderr: &str) -> (r: ExportDecision)
    ensures
        success ==> r == ExportDecision::Done,
        (!success && seq_ends_with(trimmed_end(stderr@), "pool is busy"@) && attempts_left > 0)
            ==> r == ExportDecision::Retry,
        (!success && seq_ends_with(trimmed_end(stderr@), "pool is busy"@) && attempts_left == 0)
            ==> r == ExportDecision::Failed,
        (!success && !seq_ends_with(trimmed_end(stderr@), "pool is busy"@)) ==> r
            == ExportDecision::Failed,
{
    if success {
        ExportDecision::Done
    } else if absent_marker(stderr, "pool is busy") && attempts_left > 0 {
        ExportDecision::Retry
    } else {
        ExportDecision::Failed
    }
}

/// The command tokens of a pool's virtual device groups: each typed group is
/// its kind token followed by its devices; an untyped group is its single
/// device alone.
pub open spec fn vdev_tokens(gs: Seq<VDEVConfiguration>) -> Seq<Seq<char>>
    decreases gs.len(),
{
    if gs.len() == 0 {
        Seq::empty()
    } else {
        vdev_tokens(gs.drop_last()) + (if gs.last().vdev_type == VDEVType::Empty {
            strs_view(gs.last().devices@)
        } else {
            seq![vdev_token_name(gs.last().vdev_type)] + strs_view(gs.last().devices@)
        })
    }
}

/// The token of a typed group kind.
pub open spec fn vdev_token_name(t: VDEVType) -> Seq<char> {
    match t {
        VDEVType::Empty => ""@,
        VDEVType::Mirror => "mirror"@,
        VDEVType::RaidZ1 => "raidz1"@,
        VDEVType::RaidZ2 => "raidz2"@,
        VDEVType::RaidZ3 => "raidz3"@,
    }
}

/// One untyped group must hold exactly one device, and at most one untyped
/// group may stand in a pool.
pub open spec fn single_disks_ok(gs: Seq<VDEVConfiguration>) -> bool {
    &&& forall|i: int|
        0 <= i < gs.len() && (#[trigger] gs[i]).vdev_type == VDEVType::Empty ==> gs[i].devices@.len()
            == 1
    &&& forall|i: int, j: int|
        0 <= i < j < gs.len() ==> !((#[trigger] gs[i]).vdev_type == VDEVType::Empty && (
        #[trigger] gs[j]).vdev_type == VDEVType::Empty)
}

/// The full argument list of a pool creation: temporary installer name,
/// compression, alternate root, the optional firmware slice and sector-shift
/// options, the pool name, its passed-through options, and the device groups.
pub open spec fn create_pool_args_spec(
    name: Seq<char>,
    vdevs: Seq<VDEVConfiguration>,
    ashift: Option<u64>,
    uefi: bool,
    pool_options: Seq<(Seq<char>, Seq<char>)>,
) -> Seq<Seq<char>> {
    seq![
        "create"@,
        "-d"@,
        "-t"@,
        "INSTALLER-"@ + name,
        "-O"@,
        "compression=on"@,
        "-R"@,
        "/altroot-"@ + name,
    ] + (if uefi {
        seq!["-B"@]
    } else {
        Seq::empty()
    }) + (match ashift {
        Option::Some(a) => seq!["-o"@, "ashift="@ + spec_udec(a as nat)],
        Option::None => Seq::empty(),
    }) + seq![name] + crate::driver::props_args(pool_options) + vdev_tokens(vdevs)
}

/// Build the pool creation command. A pool whose untyped groups break the
/// single-disk rule is refused.
pub fn create_pool(
    name: &str,
    vdevs: &Vec<VDEVConfiguration>,
    ashift: Option<u64>,
    uefi: bool,
    pool_options: &Vec<(String, String)>,
) -> (r: Result<Action, InstallError>)
    ensures
        (match r {
            Ok(a) => single_disks_ok(vdevs@) && (a matches Action::RunCommand {
                program,
                env,
                args,
            } && program@ == "/sbin/zpool"@ && env@.len() == 0 && strs_view(args@)
                == create_pool_args_spec(
                name@,
                vdevs@,
                ashift,
                uefi,
                pairs_view(pool_options@),
            )),
            Err(_) => !single_disks_ok(vdevs@),
        }),
{
    let n = vdevs.len();
    let mut i: usize = 0;
    let mut seen_single = false;
    while i < n
        invariant
            i <= n,
            n == vdevs@.len(),
            forall|x: int|
                0 <= x < i && (#[trigger] vdevs@[x]).vdev_type == VDEVType::Empty
                    ==> vdevs@[x].devices@.len() == 1,
            seen_single <==> exists|x: int|
                0 <= x < i && (#[trigger] vdevs@[x]).vdev_type == VDEVType::Empty,
            forall|x: int, y: int|
                0 <= x < y < i ==> !((#[trigger] vdevs@[x]).vdev_type == VDEVType::Empty && (
                #[trigger] vdevs@[y]).vdev_type == VDEVType::Empty),
        decreases n - i,
    {
        if matches!(vdevs[i].vdev_type, VDEVType::Empty) {
            if vdevs[i].devices.len() != 1 || seen_single {
                return Err(InstallError::MultipleSingleDisks { pool: String::from_str(name) });
            }
            seen_single = true;
            proof {
                assert(vdevs@[i as int].vdev_type == VDEVType::Empty);
            }
        }
        i = i + 1;
    }
    let ghost poolv = pairs_view(pool_options@);
    let mut args: Vec<String> = Vec::new();
    args.push(String::from_str("create"));
    args.push(String::from_str("-d"));
    args.push(String::from_str("-t"));
    args.push(installer_pool_name(name));
    args.push(String::from_str("-O"));
    args.push(String::from_str("compression=on"));
    args.push(String::from_str("-R"));
    args.push(installer_altroot(name));
    if uefi {
        args.push(String::from_str("-B"));
    }
    match ashift {
        Option::Some(a) => {
            args.push(String::from_str("-o"));
            let digits = u64_dec_chars(a);
            args.push(String::from_str("ashift=").concat(chars_to_string(&digits).as_str()));
        },
        Option::None => {},
    }
    args.push(String::from_str(name));
    let ghost mid = strs_view(args@);
    proof {
        assert(strs_view(args@) =~~= mid + crate::driver::props_args(poolv.subrange(0, 0)));
    }
    let m = pool_options.len();
    let mut k: usize = 0;
    while k < m
        invariant
            k <= m,
            m == pool_options@.len(),
            poolv == pairs_view(pool_options@),
            strs_view(args@) == mid + crate::driver::props_args(poolv.subrange(0, k as int)),
        decreases m - k,
    {
        let ghost args0 = strs_view(args@);
        args.push(String::from_str("-o"));
        args.push(pool_options[k].0.clone().concat("=").concat(pool_options[k].1.as_str()));
        k = k + 1;
        proof {
            assert(strs_view(args@) =~~= args0 + seq![
                "-o"@,
                poolv[k - 1].0 + "="@ + poolv[k - 1].1,
            ]);
            assert(poolv.subrange(0, k as int).drop_last() =~~= poolv.subrange(0, k - 1));
            assert(poolv.subrange(0, k as int).last() == poolv[k - 1]);
            assert(crate::driver::props_args(poolv.subrange(0, k as int)) == crate::driver::props_args(
                poolv.subrange(0, k - 1),
            ) + seq!["-o"@, poolv[k - 1].0 + "="@ + poolv[k - 1].1]);
            assert(strs_view(args@) =~~= mid + crate::driver::props_args(
                poolv.subrange(0, k as int),
            ));
        }
    }
    proof {
        assert(poolv.subrange(0, m as int) =~~= poolv);
    }
    let ghost with_opts = strs_view(args@);
    proof {
        assert(strs_view(args@) =~~= with_opts + vdev_tokens(vdevs@.subrange(0, 0)));
    }
    let mut g: usize = 0;
    while g < n
        invariant
            g <= n,
            n == vdevs@.len(),
            strs_view(args@) == with_opts + vdev_tokens(vdevs@.subrange(0, g as int)),
        decreases n - g,
    {
        let ghost args0 = strs_view(args@);
        let ghost gv = vdevs@[g as int];
        if !matches!(vdevs[g].vdev_type, VDEVType::Empty) {
            args.push(vdevs[g].vdev_type.to_string());
        }
        let dn = vdevs[g].devices.len();
        let mut d: usize = 0;
        let ghost base = strs_view(args@);
        proof {
            assert(strs_view(args@) =~~= base + strs_view(gv.devices@).subrange(0, 0));
        }
        while d < dn
            invariant
                d <= dn,
                g < n,
                n == vdevs@.len(),
                dn == vdevs@[g as int].devices@.len(),
                gv == vdevs@[g as int],
                strs_view(args@) == base + strs_view(gv.devices@).subrange(0, d as int),
            decreases dn - d,
        {
            let ghost prevv = strs_view(args@);
            args.push(vdevs[g].devices[d].clone());
            d = d + 1;
            proof {
                assert(strs_view(args@) =~~= prevv.push(gv.devices@[d - 1]@));
                assert(strs_view(gv.devices@).subrange(0, d as int).drop_last() =~~= strs_view(
                    gv.devices@,
                ).subrange(0, d - 1));
                assert(strs_view(gv.devices@).subrange(0, d as int).last() == gv.devices@[d - 1]@);
                assert(strs_view(args@) =~~= base + strs_view(gv.devices@).subrange(0, d as int));
            }
        }
        g = g + 1;
        proof {
            assert(strs_view(gv.devices@).subrange(0, dn as int) =~~= strs_view(gv.devices@));
            assert(vdevs@.subrange(0, g as int).drop_last() =~~= vdevs@.subrange(0, g - 1));
            assert(vdevs@.subrange(0, g as int).last() == gv);
            if gv.vdev_type == VDEVType::Empty {
                assert(strs_view(args@) =~~= with_opts + vdev_tokens(
                    vdevs@.subrange(0, g as int),
                ));
            } else {
                assert(base =~~= args0 + seq![vdev_token_name(gv.vdev_type)]);
                assert(strs_view(args@) =~~= with_opts + vdev_tokens(
                    vdevs@.subrange(0, g as int),
                ));
            }
        }
    }
    proof {
        assert(vdevs@.subrange(0, n as int) =~~= vdevs@);
        assert(strs_view(args@) =~~= create_pool_args_spec(
            name@,
            vdevs@,
            ashift,
            uefi,
            poolv,
        ));
    }
    Ok(zpool_action(args))
}


/// A command with no extra environment and exactly the given arguments.
pub open spec fn is_cmd(a: Action, prog: Seq<char>, args: Seq<Seq<char>>) -> bool {
    a matches Action::RunCommand { program, env, args: aa } && program@ == prog && env@.len() == 0
        && strs_view(aa@) == args
}

fn cmd_action(prog: &str, args: Vec<String>) -> (r: Action)
    ensures
        is_cmd(r, prog@, strs_view(args@)),
{
    Action::RunCommand { program: String::from_str(prog), env: Vec::new(), args }
}

/// A character of a hyphenated identifier: a lowercase hexadecimal digit or
/// a hyphen.
pub open spec fn is_uuid_char(c: char) -> bool {
    crate::strutil::spec_is_digit(c) || (97 <= c as u32 && c as u32 <= 102) || c == '-'
}

/// Relies on `uuid::Uuid::new_v4` and its hyphenated rendering: the value is
/// freshly drawn at random, so only the documented text shape is stated —
/// 36 characters, each a lowercase hexadecimal digit or a hyphen.
#[verifier::external_body]
fn uuid_hyphenated() -> (r: String)
    ensures
        r@.len() == 36,
        forall|i: int| 0 <= i < r@.len() ==> is_uuid_char(#[trigger] r@[i]),
{
    uuid::Uuid::new_v4().hyphenated().to_string()
}

/// A fresh boot-environment name: the first eight characters of a random
/// identifier, unique enough not to clash with the host's own boot
/// environments.
pub fn gen_be_name() -> (r: String)
    ensures
        r@.len() == 8,
{
    let u = uuid_hyphenated();
    let cs = str_chars(u.as_str());
    let mut first: Vec<char> = Vec::new();
    let mut i: usize = 0;
    while i < 8
        invariant
            i <= 8,
            cs@.len() == 36,
            first@ == cs@.subrange(0, i as int),
        decreases 8 - i,
    {
        first.push(cs[i]);
        i = i + 1;
        proof {
            assert(first@ =~= cs@.subrange(0, i as int));
        }
    }
    chars_to_string(&first)
}

/// The root dataset of a pool being built.
pub open spec fn root_ds_of(pool: Seq<char>) -> Seq<char> {
    "INSTALLER-"@ + pool + "/ROOT"@
}

/// The boot-environment dataset of a pool being built.
pub open spec fn beds_of(pool: Seq<char>, be_name: Seq<char>) -> Seq<char> {
    root_ds_of(pool) + "/"@ + be_name
}

/// The commands that make a pool's boot environment bootable: the pool's
/// boot filesystem is set, the environment activated, and the boot loader
/// and archive refreshed under the installer's alternate root.
pub fn make_bootable(pool: &str, be_name: &str) -> (r: Result<Vec<Action>, InstallError>)
    ensures
        (match r {
            Ok(acts) => {
                &&& !pool@.contains('/')
                &&& acts@.len() == 4
                &&& is_cmd(acts@[0], "/sbin/zpool"@, seq![
                    "set"@,
                    "bootfs="@ + beds_of(pool@, be_name@),
                    pool@,
                ])
                &&& is_cmd(acts@[1], "/sbin/beadm"@, seq!["activate"@, be_name@])
                &&& is_cmd(acts@[2], "/sbin/bootadm"@, seq![
                    "install-bootloader"@,
                    "-M"@,
                    "-f"@,
                    "-P"@,
                    "INSTALLER-"@ + pool@,
                    "-R"@,
                    "/altroot-"@ + pool@,
                ])
                &&& is_cmd(acts@[3], "/sbin/bootadm"@, seq![
                    "update-archive"@,
                    "-f"@,
                    "-R"@,
                    "/altroot-"@ + pool@,
                ])
            },
            Err(_) => pool@.contains('/'),
        }),
{
    let root_ds = installer_pool_name(pool).concat("/ROOT");
    let beds = root_ds.clone().concat("/").concat(be_name);
    let set_cmd = match zpool_set(pool, "bootfs", beds.as_str()) {
        Ok(a) => a,
        Err(e) => {
            return Err(e);
        },
    };
    proof {
        reveal_strlit("bootfs");
        reveal_strlit("bootfs=");
        reveal_strlit("=");
        assert("bootfs"@ + "="@ =~= "bootfs="@);
        assert(beds@ =~= beds_of(pool@, be_name@));
        assert("bootfs"@ + "="@ + beds@ =~= "bootfs="@ + beds_of(pool@, be_name@));
    }
    let mut r: Vec<Action> = Vec::new();
    r.push(set_cmd);
    let mut be_args: Vec<String> = Vec::new();
    be_args.push(String::from_str("activate"));
    be_args.push(String::from_str(be_name));
    proof {
        assert(strs_view(be_args@) =~~= seq!["activate"@, be_name@]);
    }
    r.push(cmd_action("/sbin/beadm", be_args));
    let mut bl_args: Vec<String> = Vec::new();
    bl_args.push(String::from_str("install-bootloader"));
    bl_args.push(String::from_str("-M"));
    bl_args.push(String::from_str("-f"));
    bl_args.push(String::from_str("-P"));
    bl_args.push(installer_pool_name(pool));
    bl_args.push(String::from_str("-R"));
    bl_args.push(installer_altroot(pool));
    proof {
        assert(strs_view(bl_args@) =~~= seq![
            "install-bootloader"@,
            "-M"@,
            "-f"@,
            "-P"@,
            "INSTALLER-"@ + pool@,
            "-R"@,
            "/altroot-"@ + pool@,
        ]);
    }
    r.push(cmd_action("/sbin/bootadm", bl_args));
    let mut ua_args: Vec<String> = Vec::new();
    ua_args.push(String::from_str("update-archive"));
    ua_args.push(String::from_str("-f"));
    ua_args.push(String::from_str("-R"));
    ua_args.push(installer_altroot(pool));
    proof {
        assert(strs_view(ua_args@) =~~= seq![
            "update-archive"@,
            "-f"@,
            "-R"@,
            "/altroot-"@ + pool@,
        ]);
    }
    r.push(cmd_action("/sbin/bootadm", ua_args));
    Ok(r)
}

/// The states a pool passes through on its way to holding a bootable boot
/// environment. Each transition is one batch of external commands; a failure
/// at any step is fatal for the instruction, with no rollback of the earlier
/// steps.
#[derive(Debug, Clone, Copy, PartialEq, Eq, Structural)]
pub enum PoolSetupState {
    NotCreated,
    PoolCreated,
    RootDatasetCreated,
    BootEnvironmentCreated,
    Mounted,
    BootPropertiesSet,
    Bootable,
}

/// How far along a state is.
pub open spec fn pool_state_index(s: PoolSetupState) -> int {
    match s {
        PoolSetupState::NotCreated => 0,
        PoolSetupState::PoolCreated => 1,
        PoolSetupState::RootDatasetCreated => 2,
        PoolSetupState::BootEnvironmentCreated => 3,
        PoolSetupState::Mounted => 4,
        PoolSetupState::BootPropertiesSet => 5,
        PoolSetupState::Bootable => 6,
    }
}

/// What each setup step plans: the exact commands of the state's transition.
pub open spec fn pool_step_plan(
    state: PoolSetupState,
    name: Seq<char>,
    vdevs: Seq<VDEVConfiguration>,
    ashift: Option<u64>,
    uefi: bool,
    pool_options: Seq<(Seq<char>, Seq<char>)>,
    be_name: Seq<char>,
    be_uuid: Seq<char>,
    acts: Seq<Action>,
) -> bool {
    match state {
        PoolSetupState::NotCreated => {
            &&& single_disks_ok(vdevs)
            &&& acts.len() == 1
            &&& is_cmd(acts[0], "/sbin/zpool"@, create_pool_args_spec(
                name,
                vdevs,
                ashift,
                uefi,
                pool_options,
            ))
        },
        PoolSetupState::PoolCreated => {
            &&& !name.contains('@')
            &&& acts.len() == 1
            &&& is_cmd(acts[0], "/sbin/zfs"@, seq![
                "create"@,
                "-o"@,
                "canmount=off"@,
                "-o"@,
                "mountpoint=legacy"@,
                root_ds_of(name),
            ])
        },
        PoolSetupState::RootDatasetCreated => {
            &&& !name.contains('@') && !be_name.contains('@')
            &&& acts.len() == 1
            &&& is_cmd(acts[0], "/sbin/zfs"@, seq![
                "create"@,
                "-o"@,
                "canmount=noauto"@,
                "-o"@,
                "mountpoint=legacy"@,
                beds_of(name, be_name),
            ])
        },
        PoolSetupState::BootEnvironmentCreated => {
            &&& acts.len() == 2
            &&& (acts[0] matches Action::EnsureDir { path, owner, group, mode } && path@ == "/a"@
                && owner == 0 && group == 0 && mode == 0o755)
            &&& is_cmd(acts[1], "/sbin/mount"@, seq![
                "-F"@,
                "zfs"@,
                beds_of(name, be_name),
                "/a"@,
            ])
        },
        PoolSetupState::Mounted => {
            &&& acts.len() == 2
            &&& is_cmd(acts[0], "/sbin/zfs"@, seq![
                "set"@,
                "org.opensolaris.libbe:uuid="@ + be_uuid,
                beds_of(name, be_name),
            ])
            &&& is_cmd(acts[1], "/sbin/zfs"@, seq![
                "set"@,
                "org.opensolaris.libbe:policy=static"@,
                beds_of(name, be_name),
            ])
        },
        PoolSetupState::BootPropertiesSet => {
            &&& !name.contains('/')
            &&& acts.len() == 4
            &&& is_cmd(acts[0], "/sbin/zpool"@, seq![
                "set"@,
                "bootfs="@ + beds_of(name, be_name),
                name,
            ])
            &&& is_cmd(acts[1], "/sbin/beadm"@, seq!["activate"@, be_name])
            &&& is_cmd(acts[2], "/sbin/bootadm"@, seq![
                "install-bootloader"@,
                "-M"@,
                "-f"@,
                "-P"@,
                "INSTALLER-"@ + name,
                "-R"@,
                "/altroot-"@ + name,
            ])
            &&& is_cmd(acts[3], "/sbin/bootadm"@, seq![
                "update-archive"@,
                "-f"@,
                "-R"@,
                "/altroot-"@ + name,
            ])
        },
        PoolSetupState::Bootable => false,
    }
}

/// When each setup step refuses to plan: a pool definition breaking the
/// single-disk rule, a dataset name holding a snapshot separator, or a pool
/// name holding a dataset separator.
pub open spec fn pool_step_refused(
    state: PoolSetupState,
    name: Seq<char>,
    vdevs: Seq<VDEVConfiguration>,
    be_name: Seq<char>,
) -> bool {
    match state {
        PoolSetupState::NotCreated => !single_disks_ok(vdevs),
        PoolSetupState::PoolCreated => name.contains('@'),
        PoolSetupState::RootDatasetCreated => name.contains('@') || be_name.contains('@'),
        PoolSetupState::BootPropertiesSet => name.contains('/'),
        _ => false,
    }
}

/// One step of the pool setup: the commands to run for the current state and
/// the state reached when they all succeed. Every step moves the setup
/// strictly forward, so the chain always ends, bootable, after six steps.
pub fn pool_setup_next(
    state: &PoolSetupState,
    name: &str,
    vdevs: &Vec<VDEVConfiguration>,
    ashift: Option<u64>,
    uefi: bool,
    pool_options: &Vec<(String, String)>,
    be_name: &str,
    be_uuid: &str,
) -> (r: Result<(PoolSetupState, Vec<Action>), InstallError>)
    requires
        *state != PoolSetupState::Bootable,
    ensures
        (match r {
            Ok((next, acts)) => pool_state_index(next) == pool_state_index(*state) + 1
                && pool_step_plan(
                *state,
                name@,
                vdevs@,
                ashift,
                uefi,
                pairs_view(pool_options@),
                be_name@,
                be_uuid@,
                acts@,
            ),
            Err(_) => pool_step_refused(*state, name@, vdevs@, be_name@),
        }),
{
    match state {
        PoolSetupState::NotCreated => {
            match create_pool(name, vdevs, ashift, uefi, pool_options) {
                Ok(a) => {
                    let mut acts: Vec<Action> = Vec::new();
                    acts.push(a);
                    Ok((PoolSetupState::PoolCreated, acts))
                },
                Err(e) => Err(e),
            }
        },
        PoolSetupState::PoolCreated => {
            let nc = str_chars(name);
            if chars_contain(&nc, '@') {
                return Err(InstallError::InvalidName(String::from_str(name)));
            }
            let root_ds = installer_pool_name(name).concat("/ROOT");
            proof {
                assert(root_ds@ =~= root_ds_of(name@));
            }
            let mut args: Vec<String> = Vec::new();
            args.push(String::from_str("create"));
            args.push(String::from_str("-o"));
            args.push(String::from_str("canmount=off"));
            args.push(String::from_str("-o"));
            args.push(String::from_str("mountpoint=legacy"));
            args.push(root_ds);
            proof {
                assert(strs_view(args@) =~~= seq![
                    "create"@,
                    "-o"@,
                    "canmount=off"@,
                    "-o"@,
                    "mountpoint=legacy"@,
                    root_ds_of(name@),
                ]);
            }
            let mut acts: Vec<Action> = Vec::new();
            acts.push(cmd_action("/sbin/zfs", args));
            Ok((PoolSetupState::RootDatasetCreated, acts))
        },
        PoolSetupState::RootDatasetCreated => {
            let nc = str_chars(name);
            let bc = str_chars(be_name);
            if chars_contain(&nc, '@') || chars_contain(&bc, '@') {
                return Err(InstallError::InvalidName(String::from_str(name)));
            }
            let beds = installer_pool_name(name).concat("/ROOT").concat("/").concat(be_name);
            proof {
                assert(beds@ =~= beds_of(name@, be_name@));
            }
            let mut args: Vec<String> = Vec::new();
            args.push(String::from_str("create"));
            args.push(String::from_str("-o"));
            args.push(String::from_str("canmount=noauto"));
            args.push(String::from_str("-o"));
            args.push(String::from_str("mountpoint=legacy"));
            args.push(beds);
            proof {
                assert(strs_view(args@) =~~= seq![
                    "create"@,
                    "-o"@,
                    "canmount=noauto"@,
                    "-o"@,
                    "mountpoint=legacy"@,
                    beds_of(name@, be_name@),
                ]);
            }
            let mut acts: Vec<Action> = Vec::new();
            acts.push(cmd_action("/sbin/zfs", args));
            Ok((PoolSetupState::BootEnvironmentCreated, acts))
        },
        PoolSetupState::BootEnvironmentCreated => {
            let beds = installer_pool_name(name).concat("/ROOT").concat("/").concat(be_name);
            proof {
                assert(beds@ =~= beds_of(name@, be_name@));
            }
            let mut acts: Vec<Action> = Vec::new();
            acts.push(
                Action::EnsureDir {
                    path: String::from_str("/a"),
                    owner: 0,
                    group: 0,
                    mode: 0o755,
                },
            );
            let mut margs: Vec<String> = Vec::new();
            margs.push(String::from_str("-F"));
            margs.push(String::from_str("zfs"));
            margs.push(beds);
            margs.push(String::from_str("/a"));
            proof {
                assert(strs_view(margs@) =~~= seq![
                    "-F"@,
                    "zfs"@,
                    beds_of(name@, be_name@),
                    "/a"@,
                ]);
            }
            acts.push(cmd_action("/sbin/mount", margs));
            Ok((PoolSetupState::Mounted, acts))
        },
        PoolSetupState::Mounted => {
            let beds = installer_pool_name(name).concat("/ROOT").concat("/").concat(be_name);
            proof {
                assert(beds@ =~= beds_of(name@, be_name@));
                reveal_strlit("org.opensolaris.libbe:uuid");
                reveal_strlit("org.opensolaris.libbe:uuid=");
                reveal_strlit("org.opensolaris.libbe:policy");
                reveal_strlit("org.opensolaris.libbe:policy=static");
                reveal_strlit("static");
                reveal_strlit("=");
                assert("org.opensolaris.libbe:uuid"@ + "="@ =~= "org.opensolaris.libbe:uuid="@);
                assert("org.opensolaris.libbe:policy"@ + "="@ + "static"@
                    =~= "org.opensolaris.libbe:policy=static"@);
            }
            let mut acts: Vec<Action> = Vec::new();
            acts.push(zfs_set(beds.as_str(), "org.opensolaris.libbe:uuid", be_uuid));
            acts.push(zfs_set(beds.as_str(), "org.opensolaris.libbe:policy", "static"));
            proof {
                assert("org.opensolaris.libbe:uuid"@ + "="@ + be_uuid@
                    =~= "org.opensolaris.libbe:uuid="@ + be_uuid@);
            }
            Ok((PoolSetupState::BootPropertiesSet, acts))
        },
        PoolSetupState::BootPropertiesSet => {
            match make_bootable(name, be_name) {
                Ok(acts) => Ok((PoolSetupState::Bootable, acts)),
                Err(e) => Err(e),
            }
        },
        PoolSetupState::Bootable => {
            proof {
                assert(false);
            }
            Err(InstallError::InvalidName(String::from_str(name)))
        },
    }
}

/// The boot-environment name to use: the given one, or a freshly generated
/// short name.
pub fn create_be(pool_name: &str, name: Option<String>) -> (r: String)
    ensures
        (match name {
            Option::Some(n) => r@ == n@,
            Option::None => r@.len() == 8,
        }),
{
    match name {
        Option::Some(n) => n,
        Option::None => gen_be_name(),
    }
}


/// The final path segment: the characters after the last separator, or the
/// whole name when it has none.
pub open spec fn basename_of(s: Seq<char>) -> Seq<char>
    decreases s.len(),
{
    if s.len() == 0 {
        s
    } else if s.last() == '/' {
        Seq::empty()
    } else {
        basename_of(s.drop_last()).push(s.last())
    }
}

fn basename_from(v: &Vec<char>, n: usize) -> (r: Vec<char>)
    requires
        n <= v@.len(),
    ensures
        r@ == basename_of(v@.subrange(0, n as int)),
    decreases n,
{
    if n == 0 {
        proof {
            assert(v@.subrange(0, 0) =~= Seq::<char>::empty());
        }
        Vec::new()
    } else if v[n - 1] == '/' {
        proof {
            assert(v@.subrange(0, n as int).last() == '/');
        }
        Vec::new()
    } else {
        let mut r = basename_from(v, n - 1);
        proof {
            assert(v@.subrange(0, n as int).drop_last() =~= v@.subrange(0, n - 1));
            assert(v@.subrange(0, n as int).last() == v@[n - 1]);
        }
        r.push(v[n - 1]);
        r
    }
}

/// The file name a downloaded image is stored under: the last path segment
/// of its source.
pub fn download_file_name(url: &str) -> (r: String)
    ensures
        r@ == basename_of(url@),
{
    let cs = str_chars(url);
    let n = cs.len();
    let base = basename_from(&cs, n);
    proof {
        assert(cs@.subrange(0, n as int) =~= cs@);
    }
    chars_to_string(&base)
}

/// The directory downloaded images are kept under while installing.
pub fn installer_download_dir() -> (r: String)
    ensures
        r@ == "/var/tmp/installer/download"@,
{
    String::from_str("/var/tmp/installer/download")
}

/// The extraction an image installation runs once its archive is on local
/// storage: unpack it into the pool's alternate root.
pub fn install_image_commands(pool: &str, archive_path: &str) -> (r: Vec<Action>)
    ensures
        r@.len() == 1,
        is_cmd(r@[0], "/usr/sbin/tar"@, seq![
            "xzeEp@/f"@,
            archive_path@,
            "-C"@,
            "/altroot-"@ + pool@,
        ]),
{
    let mut args: Vec<String> = Vec::new();
    args.push(String::from_str("xzeEp@/f"));
    args.push(String::from_str(archive_path));
    args.push(String::from_str("-C"));
    args.push(installer_altroot(pool));
    proof {
        assert(strs_view(args@) =~~= seq![
            "xzeEp@/f"@,
            archive_path@,
            "-C"@,
            "/altroot-"@ + pool@,
        ]);
    }
    let mut r: Vec<Action> = Vec::new();
    r.push(cmd_action("/usr/sbin/tar", args));
    r
}

/// The commands that create and mount a boot environment on an existing
/// pool, with its properties set: the middle of the pool setup chain, for a
/// standalone boot-environment instruction. Dataset names holding a snapshot
/// separator are refused.
pub fn create_boot_environment(pool: &str, be_name: &str, be_uuid: &str) -> (r: Result<
    Vec<Action>,
    InstallError,
>)
    ensures
        (match r {
            Ok(acts) => {
                &&& !pool@.contains('@') && !be_name@.contains('@')
                &&& acts@.len() == 6
                &&& is_cmd(acts@[0], "/sbin/zfs"@, seq![
                    "create"@,
                    "-o"@,
                    "canmount=off"@,
                    "-o"@,
                    "mountpoint=legacy"@,
                    root_ds_of(pool@),
                ])
                &&& is_cmd(acts@[1], "/sbin/zfs"@, seq![
                    "create"@,
                    "-o"@,
                    "canmount=noauto"@,
                    "-o"@,
                    "mountpoint=legacy"@,
                    beds_of(pool@, be_name@),
                ])
                &&& (acts@[2] matches Action::EnsureDir { path, owner, group, mode } && path@
                    == "/a"@ && owner == 0 && group == 0 && mode == 0o755)
                &&& is_cmd(acts@[3], "/sbin/mount"@, seq![
                    "-F"@,
                    "zfs"@,
                    beds_of(pool@, be_name@),
                    "/a"@,
                ])
                &&& is_cmd(acts@[4], "/sbin/zfs"@, seq![
                    "set"@,
                    "org.opensolaris.libbe:uuid="@ + be_uuid@,
                    beds_of(pool@, be_name@),
                ])
                &&& is_cmd(acts@[5], "/sbin/zfs"@, seq![
                    "set"@,
                    "org.opensolaris.libbe:policy=static"@,
                    beds_of(pool@, be_name@),
                ])
            },
            Err(_) => pool@.contains('@') || be_name@.contains('@'),
        }),
{
    let pc = str_chars(pool);
    let bc = str_chars(be_name);
    if chars_contain(&pc, '@') || chars_contain(&bc, '@') {
        return Err(InstallError::InvalidName(String::from_str(pool)));
    }
    let root_ds = installer_pool_name(pool).concat("/ROOT");
    let beds = root_ds.clone().concat("/").concat(be_name);
    proof {
        assert(root_ds@ =~= root_ds_of(pool@));
        assert(beds@ =~= beds_of(pool@, be_name@));
        reveal_strlit("org.opensolaris.libbe:uuid");
        reveal_strlit("org.opensolaris.libbe:uuid=");
        reveal_strlit("org.opensolaris.libbe:policy");
        reveal_strlit("org.opensolaris.libbe:policy=static");
        reveal_strlit("static");
        reveal_strlit("=");
        assert("org.opensolaris.libbe:uuid"@ + "="@ =~= "org.opensolaris.libbe:uuid="@);
        assert("org.opensolaris.libbe:policy"@ + "="@ + "static"@
            =~= "org.opensolaris.libbe:policy=static"@);
    }
    let mut acts: Vec<Action> = Vec::new();
    let mut root_args: Vec<String> = Vec::new();
    root_args.push(String::from_str("create"));
    root_args.push(String::from_str("-o"));
    root_args.push(String::from_str("canmount=off"));
    root_args.push(String::from_str("-o"));
    root_args.push(String::from_str("mountpoint=legacy"));
    root_args.push(root_ds);
    proof {
        assert(strs_view(root_args@) =~~= seq![
            "create"@,
            "-o"@,
            "canmount=off"@,
            "-o"@,
            "mountpoint=legacy"@,
            root_ds_of(pool@),
        ]);
    }
    acts.push(cmd_action("/sbin/zfs", root_args));
    let mut be_args: Vec<String> = Vec::new();
    be_args.push(String::from_str("create"));
    be_args.push(String::from_str("-o"));
    be_args.push(String::from_str("canmount=noauto"));
    be_args.push(String::from_str("-o"));
    be_args.push(String::from_str("mountpoint=legacy"));
    be_args.push(beds.clone());
    proof {
        assert(strs_view(be_args@) =~~= seq![
            "create"@,
            "-o"@,
            "canmount=noauto"@,
            "-o"@,
            "mountpoint=legacy"@,
            beds_of(pool@, be_name@),
        ]);
    }
    acts.push(cmd_action("/sbin/zfs", be_args));
    acts.push(
        Action::EnsureDir { path: String::from_str("/a"), owner: 0, group: 0, mode: 0o755 },
    );
    let mut margs: Vec<String> = Vec::new();
    margs.push(String::from_str("-F"));
    margs.push(String::from_str("zfs"));
    margs.push(beds.clone());
    margs.push(String::from_str("/a"));
    proof {
        assert(strs_view(margs@) =~~= seq!["-F"@, "zfs"@, beds_of(pool@, be_name@), "/a"@]);
    }
    acts.push(cmd_action("/sbin/mount", margs));
    acts.push(zfs_set(beds.as_str(), "org.opensolaris.libbe:uuid", be_uuid));
    acts.push(zfs_set(beds.as_str(), "org.opensolaris.libbe:policy", "static"));
    proof {
        assert("org.opensolaris.libbe:uuid"@ + "="@ + be_uuid@ =~= "org.opensolaris.libbe:uuid="@
            + be_uuid@);
    }
    Ok(acts)
}

} // verus!
