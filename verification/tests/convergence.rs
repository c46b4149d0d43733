//! The convergence primitives and the driver's planning: idempotence on the
//! model, and root confinement of the planned writes.

use sysconfig::driver::Action;
use sysconfig::driver::Driver;
use sysconfig::driver::Image;
use sysconfig::driver::PlanContext;
use sysconfig::driver::SysConfigError;
use sysconfig::driver::set_hostname;
use sysconfig::driver::set_locale;
use sysconfig::driver::setup_dns;
use sysconfig::ensure::Create;
use sysconfig::ensure::Entry;
use sysconfig::ensure::FileInfo;
use sysconfig::ensure::FileType;
use sysconfig::ensure::FsOp;
use sysconfig::ensure::HashType;
use sysconfig::ensure::Id;
use sysconfig::ensure::directory;
use sysconfig::ensure::filestr;
use sysconfig::ensure::hash_file;
use sysconfig::ensure::perms;
use sysconfig::ensure::removed;
use sysconfig::ensure::symlink;
use sysconfig::instructions::Instruction;
use sysconfig::instructions::RootPasswordType;

#[test]
fn it_works() {
    let result = 2 + 2;
    assert_eq!(result, 4);
}

#[test]
fn ensure_file_end_to_end() {
    let desired: Vec<u8> = b"hello".to_vec();

    let (state1, did_work1, ops1) = sysconfig::ensure::file(&None, &desired, 0, 0, 0o644, Create::Always).unwrap();
    assert!(did_work1);
    assert_eq!(state1.content, b"hello".to_vec());
    assert_eq!(state1.info.filetype, FileType::File);
    assert_eq!(state1.info.perms, 0o644);
    assert!(!ops1.is_empty());

    let (state2, did_work2, ops2) =
        sysconfig::ensure::file(&Some(state1.clone()), &desired, 0, 0, 0o644, Create::Always).unwrap();
    assert!(!did_work2);
    assert!(ops2.is_empty());
    assert_eq!(state2, state1);

    let changed: Vec<u8> = b"goodbye".to_vec();
    let (state3, did_work3, ops3) =
        sysconfig::ensure::file(&Some(state2), &changed, 0, 0, 0o644, Create::Always).unwrap();
    assert!(did_work3);
    assert_eq!(state3.content, b"goodbye".to_vec());
    assert!(ops3.contains(&FsOp::RemoveEntry));
    assert!(ops3.contains(&FsOp::WriteDesiredContent));
}

#[test]
fn ensure_filestr_matches_bytes() {
    let (state, did_work, _) = filestr("hello", &None, 0, 0, 0o644, Create::Always).unwrap();
    assert!(did_work);
    assert_eq!(state.content, b"hello".to_vec());
}

#[test]
fn ensure_directory_idempotent() {
    let (state1, did_work1, ops1) = directory(&None, 0, 0, 0o755).unwrap();
    assert!(did_work1);
    assert_eq!(ops1[0], FsOp::CreateDir { mode: 0o755 });
    let (state2, did_work2, ops2) = directory(&Some(state1.clone()), 0, 0, 0o755).unwrap();
    assert!(!did_work2);
    assert!(ops2.is_empty());
    assert_eq!(state2, state1);
}

#[test]
fn ensure_directory_refuses_other_types() {
    let info = FileInfo {
        filetype: FileType::File,
        perms: 0o644,
        owner: Id::Id(0),
        group: Id::Id(0),
        target: None,
    };
    assert!(directory(&Some(info), 0, 0, 0o755).is_err());
}

#[test]
fn ensure_if_missing_keeps_content() {
    let existing = Entry {
        info: FileInfo {
            filetype: FileType::File,
            perms: 0o600,
            owner: Id::Id(0),
            group: Id::Id(0),
            target: None,
        },
        content: b"old".to_vec(),
    };
    let desired: Vec<u8> = b"new".to_vec();
    let (state, did_work, ops) =
        sysconfig::ensure::file(&Some(existing), &desired, 0, 0, 0o644, Create::IfMissing).unwrap();
    assert_eq!(state.content, b"old".to_vec());
    assert!(did_work);
    assert_eq!(ops, vec![FsOp::Chmod { mode: 0o644 }]);
}

#[test]
fn ensure_symlink_idempotent() {
    let target = String::from("/etc/real");
    let (state1, did_work1, _) = symlink(&None, &target, 0, 0).unwrap();
    assert!(did_work1);
    assert_eq!(state1.filetype, FileType::Link);
    assert_eq!(state1.target, Some(String::from("/etc/real")));
    let (state2, did_work2, ops2) = symlink(&Some(state1.clone()), &target, 0, 0).unwrap();
    assert!(!did_work2);
    assert!(ops2.is_empty());
    assert_eq!(state2, state1);
}

#[test]
fn ensure_perms_reconciles_on_mismatch() {
    let info = FileInfo {
        filetype: FileType::File,
        perms: 0o600,
        owner: Id::Id(5),
        group: Id::Id(5),
        target: None,
    };
    let (fixed, did_work, ops) = perms(&Some(info), 0, 0, 0o644).unwrap();
    assert!(did_work);
    assert_eq!(fixed.perms, 0o644);
    assert_eq!(fixed.owner, Id::Id(0));
    assert_eq!(ops, vec![FsOp::Chmod { mode: 0o644 }, FsOp::Chown { owner: 0, group: 0 }]);
    assert!(perms(&None, 0, 0, 0o644).is_err());
}

#[test]
fn ensure_removed_cases() {
    let (did, ops) = removed(&None).unwrap();
    assert!(!did);
    assert!(ops.is_empty());
    let link = FileInfo {
        filetype: FileType::Link,
        perms: 0o777,
        owner: Id::Id(0),
        group: Id::Id(0),
        target: Some(String::from("/x")),
    };
    let (did, ops) = removed(&Some(link)).unwrap();
    assert!(did);
    assert_eq!(ops, vec![FsOp::RemoveEntry]);
    let dir = FileInfo {
        filetype: FileType::Directory,
        perms: 0o755,
        owner: Id::Id(0),
        group: Id::Id(0),
        target: None,
    };
    assert!(removed(&Some(dir)).is_err());
}

#[test]
fn hash_file_digests() {
    let content = b"hello".to_vec();
    assert_eq!(hash_file(&content, &HashType::NoHash), "");
    assert_eq!(hash_file(&content, &HashType::MD5), "5d41402abc4b2a76b9719d911017c592");
    assert_eq!(
        hash_file(&content, &HashType::SHA1),
        "aaf4c61ddcc5e8a2dabede0f3b482cd9aea9434d"
    );
}

fn written_paths(actions: &[Action]) -> Vec<String> {
    actions
        .iter()
        .filter_map(|a| match a {
            Action::WriteFile { path, .. } => Some(path.clone()),
            _ => None,
        })
        .collect()
}

#[test]
fn root_confinement_of_planned_writes() {
    let hostname_actions = set_hostname("/a", "myhost");
    for p in written_paths(&hostname_actions) {
        assert!(p.starts_with("/a/"), "path {} escapes the root", p);
    }
    let locale_actions = set_locale("/a", "LANG=C\n", "en_US", true);
    for p in written_paths(&locale_actions) {
        assert!(p.starts_with("/a/"), "path {} escapes the root", p);
    }
    let dns_actions = setup_dns("/a", &vec![String::from("192.0.2.1")], None, None);
    for p in written_paths(&dns_actions) {
        assert!(p.starts_with("/a/"), "path {} escapes the root", p);
    }
}

#[test]
fn set_hostname_writes_both_files() {
    let actions = set_hostname("/a", "myhost");
    assert_eq!(actions.len(), 2);
    match &actions[0] {
        Action::WriteFile { path, content } => {
            assert_eq!(path, "/a/etc/nodename");
            assert_eq!(content, "myhost\n");
        },
        other => panic!("expected a file write, got {:?}", other),
    }
    match &actions[1] {
        Action::WriteFile { path, content } => {
            assert_eq!(path, "/a/etc/inet/hosts");
            assert!(content.contains("::1 myhost myhost.local localhost loghost"));
            assert!(content.contains("127.0.0.1 myhost myhost.local localhost loghost"));
        },
        other => panic!("expected a file write, got {:?}", other),
    }
}

#[test]
fn set_locale_replaces_lang_line() {
    let actions = set_locale("/", "LANG=C\nTZ=UTC", "en_US", true);
    match &actions[0] {
        Action::WriteFile { path, content } => {
            assert_eq!(path, "/etc/default/init");
            assert_eq!(content, "LANG=en_US.UTF-8\nTZ=UTC");
        },
        other => panic!("expected a file write, got {:?}", other),
    }
    let actions = set_locale("/", "TZ=UTC", "en_US.UTF-8", true);
    match &actions[0] {
        Action::WriteFile { content, .. } => {
            assert_eq!(content, "TZ=UTC\nLANG=en_US.UTF-8\n");
        },
        other => panic!("expected a file write, got {:?}", other),
    }
}

#[test]
fn setup_dns_builds_resolver_config() {
    let actions = setup_dns(
        "/a",
        &vec![String::from("192.0.2.1"), String::from("192.0.2.2")],
        Some(String::from("example.com")),
        Some(String::from("example.com local")),
    );
    match &actions[0] {
        Action::WriteFile { path, content } => {
            assert_eq!(path, "/a/etc/resolv.conf");
            assert_eq!(
                content,
                "nameserver 192.0.2.1\nnameserver 192.0.2.2\ndomain example.com\nsearch example.com local"
            );
        },
        other => panic!("expected a file write, got {:?}", other),
    }
    match &actions[1] {
        Action::RunCommand { program, args, .. } => {
            assert_eq!(program, "/usr/bin/cp");
            assert_eq!(args, &vec!["/a/etc/nsswitch.dns", "/a/etc/nsswitch.conf"]);
        },
        other => panic!("expected a command, got {:?}", other),
    }
}

#[test]
fn mock_driver_echoes_instruction() {
    let img = Image::new_with_driver("/", Driver::Mock);
    let ctx = PlanContext::default();
    let (out, actions) = img
        .apply_instruction(&Instruction::SetHostname(String::from("h")), &ctx)
        .unwrap();
    assert_eq!(out.command, "mock");
    assert_eq!(out.root_path, "/");
    assert_eq!(out.output, "set_hostname");
    assert!(actions.is_empty());
}

#[test]
fn driver_refuses_cleartext_password() {
    let img = Image::new("/a");
    let ctx = PlanContext::default();
    let r = img.apply_instruction(
        &Instruction::SetRootPassword(RootPasswordType::Clear(String::from("secret"))),
        &ctx,
    );
    assert!(matches!(r, Err(SysConfigError::UnencryptedPassword)));
}

#[test]
fn driver_requires_init_file_content() {
    let img = Image::new("/a");
    let ctx = PlanContext::default();
    let r = img.apply_instruction(&Instruction::SetTimezone(String::from("UTC")), &ctx);
    assert!(matches!(r, Err(SysConfigError::MissingInput { .. })));
}

#[test]
fn driver_plans_password_rewrite() {
    let img = Image::new("/a");
    let ctx = PlanContext {
        init_file: None,
        shadow_file: Some(String::from("root:$6$old$x:6445::::::\nbin:NP:6445::::::")),
    };
    let (out, actions) = img
        .apply_instruction(
            &Instruction::SetRootPassword(RootPasswordType::Hash(String::from("$6$s$h"))),
            &ctx,
        )
        .unwrap();
    assert_eq!(out.command, "libshadow");
    assert_eq!(actions.len(), 1);
    match &actions[0] {
        Action::WriteFile { path, content } => {
            assert_eq!(path, "/a/etc/shadow");
            assert_eq!(content, "root:$6$s$h:6445::::::\nbin:NP:6445::::::");
        },
        other => panic!("expected a file write, got {:?}", other),
    }
}

#[test]
fn setup_terminal_single_property() {
    let actions = sysconfig::driver::setup_terminal("/", None, None, None, None, "vt100");
    assert_eq!(actions.len(), 1);
    match &actions[0] {
        Action::RunCommand { program, env, args } => {
            assert_eq!(program, "/usr/sbin/svccfg");
            assert!(env.is_empty());
            assert_eq!(
                args,
                &vec![
                    "-s",
                    "svc:/system/console-login:default",
                    "setprop",
                    "ttymon/terminal_type=vt100",
                ]
            );
        },
        other => panic!("expected a command, got {:?}", other),
    }
}

#[test]
fn setup_terminal_scripted() {
    let actions = sysconfig::driver::setup_terminal(
        "/a",
        None,
        Some(String::from("serial")),
        None,
        None,
        "vt100",
    );
    match &actions[0] {
        Action::RunCommandStdin { program, stdin, .. } => {
            assert_eq!(program, "/usr/sbin/svccfg");
            assert!(stdin.contains("select svc:/system/console-login:default\n"));
            assert!(stdin.contains("setprop ttymon/terminal_type = astring: vt100\n"));
            assert!(stdin.contains("setprop ttymon/label = astring: serial\n"));
            assert!(stdin.contains("setprop ttymon/modules = astring: ldterm,ttcompat\n"));
            assert!(stdin.ends_with("addpg general framework\n"));
        },
        other => panic!("expected a scripted command, got {:?}", other),
    }
}

#[test]
fn setup_interface_stateless_autoconf() {
    let actions = sysconfig::driver::setup_interface(
        "/a",
        String::from("e1000g0"),
        None,
        None,
        Some(sysconfig::instructions::NetworkConfig::Static(String::from("fe80::1/64"))),
        false,
    );
    assert_eq!(actions.len(), 2);
    match &actions[0] {
        Action::RunCommand { program, args, .. } => {
            assert_eq!(program, "/usr/sbin/ipadm");
            assert_eq!(
                args,
                &vec!["-R", "/a", "-T", "addrconf", "-p", "stateless=yes", "e1000g0/v6_local"]
            );
        },
        other => panic!("expected a command, got {:?}", other),
    }
    match &actions[1] {
        Action::RunCommand { args, .. } => {
            assert_eq!(
                args,
                &vec!["-R", "/a", "-T", "static", "-a", "fe80::1/64", "e1000g0/v6"]
            );
        },
        other => panic!("expected a command, got {:?}", other),
    }
}

#[test]
fn create_dataset_refuses_snapshot_separator() {
    let r = sysconfig::driver::create_dataset("/a", "rpool/ds@snap", &None);
    assert!(matches!(r, Err(SysConfigError::InvalidName { .. })));
    let acts = sysconfig::driver::create_dataset("/a", "rpool/ds", &None).unwrap();
    match &acts[0] {
        Action::RunCommand { program, args, .. } => {
            assert_eq!(program, "/usr/sbin/zfs");
            assert_eq!(args, &vec!["create", "rpool/ds"]);
        },
        other => panic!("expected a command, got {:?}", other),
    }
}
