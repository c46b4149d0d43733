//! The installer side: identity translation, command construction, failure
//! interpretation, the bounded export retry, and the pool setup chain.

use sysconfig::driver::Action;
use sysconfig::install::ExportDecision;
use sysconfig::install::InstallError;
use sysconfig::install::PoolSetupState;
use sysconfig::install::create_be;
use sysconfig::install::create_boot_environment;
use sysconfig::install::download_file_name;
use sysconfig::install::install_image_commands;
use sysconfig::install::create_pool;
use sysconfig::install::installer_altroot;
use sysconfig::install::installer_pool_name;
use sysconfig::install::interpret_query;
use sysconfig::install::make_bootable;
use sysconfig::install::pool_export_next;
use sysconfig::install::pool_setup_next;
use sysconfig::install::translate_gid;
use sysconfig::install::translate_uid;
use sysconfig::install::zfs_set;
use sysconfig::install::zpool_set;
use sysconfig::instructions::VDEVConfiguration;
use sysconfig::manifest::ImageType;
use sysconfig::instructions::VDEVType;

fn args_of(a: &Action) -> Vec<String> {
    match a {
        Action::RunCommand { args, .. } => args.clone(),
        other => panic!("expected a command, got {:?}", other),
    }
}

#[test]
fn identity_translation() {
    assert_eq!(translate_uid("root").unwrap(), 0);
    assert_eq!(translate_uid("daemon").unwrap(), 1);
    assert_eq!(translate_uid("adm").unwrap(), 4);
    assert!(translate_uid("nobody").is_err());
    assert_eq!(translate_gid("other").unwrap(), 1);
    assert!(translate_gid("daemon").is_err());
}

#[test]
fn installer_names() {
    assert_eq!(installer_pool_name("rpool"), "INSTALLER-rpool");
    assert_eq!(installer_altroot("rpool"), "/altroot-rpool");
}

#[test]
fn property_commands() {
    let a = zpool_set("rpool", "bootfs", "rpool/ROOT/x").unwrap();
    assert_eq!(args_of(&a), vec!["set", "bootfs=rpool/ROOT/x", "rpool"]);
    assert!(zpool_set("rpool/ds", "a", "b").is_err());
    let a = zfs_set("rpool/ds", "mountpoint", "legacy");
    assert_eq!(args_of(&a), vec!["set", "mountpoint=legacy", "rpool/ds"]);
}

#[test]
fn query_interpretation() {
    assert_eq!(interpret_query(true, "", "dataset does not exist"), Ok(true));
    assert_eq!(
        interpret_query(false, "cannot open 'x': dataset does not exist\n", "dataset does not exist"),
        Ok(false)
    );
    assert!(interpret_query(false, "permission denied", "dataset does not exist").is_err());
}

#[test]
fn export_retry_is_bounded() {
    assert_eq!(pool_export_next(3, true, ""), ExportDecision::Done);
    assert_eq!(
        pool_export_next(3, false, "cannot export: pool is busy\n"),
        ExportDecision::Retry
    );
    assert_eq!(
        pool_export_next(0, false, "cannot export: pool is busy\n"),
        ExportDecision::Failed
    );
    assert_eq!(pool_export_next(3, false, "no such pool"), ExportDecision::Failed);
}

#[test]
fn create_pool_full_argument_list() {
    let vdevs = vec![VDEVConfiguration {
        vdev_type: VDEVType::Mirror,
        devices: vec![String::from("c1t0d0s0"), String::from("c2t0d0s0")],
    }];
    let opts = vec![(String::from("blub"), String::from("12"))];
    let a = create_pool("rpool", &vdevs, Some(12), true, &opts).unwrap();
    assert_eq!(
        args_of(&a),
        vec![
            "create",
            "-d",
            "-t",
            "INSTALLER-rpool",
            "-O",
            "compression=on",
            "-R",
            "/altroot-rpool",
            "-B",
            "-o",
            "ashift=12",
            "rpool",
            "-o",
            "blub=12",
            "mirror",
            "c1t0d0s0",
            "c2t0d0s0",
        ]
    );
}

#[test]
fn create_pool_refuses_second_single_disk() {
    let vdevs = vec![
        VDEVConfiguration { vdev_type: VDEVType::Empty, devices: vec![String::from("d1")] },
        VDEVConfiguration { vdev_type: VDEVType::Empty, devices: vec![String::from("d2")] },
    ];
    match create_pool("p", &vdevs, None, false, &vec![]) {
        Err(InstallError::MultipleSingleDisks { pool }) => assert_eq!(pool, "p"),
        other => panic!("expected a single-disk failure, got {:?}", other),
    }
}

#[test]
fn make_bootable_commands() {
    let acts = make_bootable("rpool", "be1").unwrap();
    assert_eq!(acts.len(), 4);
    assert_eq!(args_of(&acts[0]), vec!["set", "bootfs=INSTALLER-rpool/ROOT/be1", "rpool"]);
    assert_eq!(args_of(&acts[1]), vec!["activate", "be1"]);
    assert_eq!(
        args_of(&acts[2]),
        vec![
            "install-bootloader",
            "-M",
            "-f",
            "-P",
            "INSTALLER-rpool",
            "-R",
            "/altroot-rpool",
        ]
    );
    assert_eq!(args_of(&acts[3]), vec!["update-archive", "-f", "-R", "/altroot-rpool"]);
}

#[test]
fn pool_setup_walks_to_bootable() {
    let vdevs = vec![VDEVConfiguration {
        vdev_type: VDEVType::Empty,
        devices: vec![String::from("c1t0d0s0")],
    }];
    let mut state = PoolSetupState::NotCreated;
    let mut steps = 0;
    while state != PoolSetupState::Bootable {
        let (next, actions) = pool_setup_next(
            &state,
            "rpool",
            &vdevs,
            None,
            false,
            &vec![],
            "be1",
            "11111111-2222-3333-4444-555555555555",
        )
        .unwrap();
        assert!(!actions.is_empty());
        state = next;
        steps += 1;
        assert!(steps <= 6);
    }
    assert_eq!(steps, 6);
}

#[test]
fn boot_environment_names() {
    assert_eq!(create_be("rpool", Some(String::from("myname"))), "myname");
    let generated = create_be("rpool", None);
    assert_eq!(generated.len(), 8);
}

#[test]
fn pool_setup_refuses_snapshot_separator() {
    let vdevs = vec![VDEVConfiguration {
        vdev_type: VDEVType::Empty,
        devices: vec![String::from("d1")],
    }];
    let r = pool_setup_next(
        &PoolSetupState::PoolCreated,
        "bad@pool",
        &vdevs,
        None,
        false,
        &vec![],
        "be1",
        "u",
    );
    assert!(matches!(r, Err(InstallError::InvalidName(_))));
    let r = pool_setup_next(
        &PoolSetupState::RootDatasetCreated,
        "rpool",
        &vdevs,
        None,
        false,
        &vec![],
        "be@1",
        "u",
    );
    assert!(matches!(r, Err(InstallError::InvalidName(_))));
}

#[test]
fn image_type_names() {
    assert_eq!(ImageType::ZoneDataset.to_string(), "zone-dataset");
    assert_eq!(ImageType::LxDataset.to_string(), "lx-dataset");
    assert_eq!(ImageType::Zvol.to_string(), "zvol");
}

#[test]
fn image_extraction_command() {
    assert_eq!(
        download_file_name("https://dlc.openindiana.org/latest/openindiana_minimal.tar.gz"),
        "openindiana_minimal.tar.gz"
    );
    assert_eq!(download_file_name("plain.tar.gz"), "plain.tar.gz");
    let acts = install_image_commands("rpool", "/var/tmp/installer/download/img.tar.gz");
    assert_eq!(
        args_of(&acts[0]),
        vec!["xzeEp@/f", "/var/tmp/installer/download/img.tar.gz", "-C", "/altroot-rpool"]
    );
}

#[test]
fn boot_environment_commands() {
    let acts = create_boot_environment("rpool", "be1", "u-u-i-d").unwrap();
    assert_eq!(acts.len(), 6);
    assert_eq!(
        args_of(&acts[0]),
        vec!["create", "-o", "canmount=off", "-o", "mountpoint=legacy", "INSTALLER-rpool/ROOT"]
    );
    assert_eq!(
        args_of(&acts[1]),
        vec![
            "create",
            "-o",
            "canmount=noauto",
            "-o",
            "mountpoint=legacy",
            "INSTALLER-rpool/ROOT/be1",
        ]
    );
    assert!(matches!(&acts[2], Action::EnsureDir { mode: 0o755, .. }));
    assert_eq!(args_of(&acts[3]), vec!["-F", "zfs", "INSTALLER-rpool/ROOT/be1", "/a"]);
    assert_eq!(
        args_of(&acts[4]),
        vec!["set", "org.opensolaris.libbe:uuid=u-u-i-d", "INSTALLER-rpool/ROOT/be1"]
    );
    assert_eq!(
        args_of(&acts[5]),
        vec!["set", "org.opensolaris.libbe:policy=static", "INSTALLER-rpool/ROOT/be1"]
    );
    assert!(create_boot_environment("rpool", "be@1", "u").is_err());
}
