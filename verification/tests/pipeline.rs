//! The parser and compiler, end to end: the configuration language, schema
//! validation, vdev grouping and password handling.

use sysconfig::cfgparser::Keyword;
use sysconfig::cfgparser::KeywordDefinition;
use sysconfig::cfgparser::SysConfigParser;
use sysconfig::compile::parse_keywords;
use sysconfig::instructions::CompileError;
use sysconfig::instructions::Instruction;
use sysconfig::instructions::NetworkConfig;
use sysconfig::instructions::RootPasswordType;
use sysconfig::instructions::VDEVType;
use sysconfig::keywords::get_supported_keywords;

fn zpool_registry() -> Vec<(String, KeywordDefinition)> {
    vec![
        (
            String::from("zpool-create"),
            KeywordDefinition {
                options: vec![
                    String::from("ashift"),
                    String::from("uefi"),
                    String::from("be_name"),
                ],
            },
        ),
    ]
}

fn record(name: &str, options: Option<Vec<(&str, &str)>>, arguments: Vec<&str>) -> Keyword {
    Keyword {
        name: String::from(name),
        options: options.map(|os| {
            os.into_iter().map(|(k, v)| (String::from(k), String::from(v))).collect()
        }),
        arguments: arguments.into_iter().map(String::from).collect(),
    }
}

#[test]
fn initial_test() {
    let config_file = "zpool-create --ashift=\"12\" mirror c1t0d0s0 c2t0d0s0 c3t0d0s0\nlocale en_US\n";
    let mut parser = SysConfigParser::default();
    parser.add_keyword(
        String::from("zpool-create"),
        KeywordDefinition { options: vec![String::from("ashift")] },
    );
    parser.add_keyword(String::from("locale"), KeywordDefinition { options: vec![] });
    let config_ast = parser.parse_config(config_file).unwrap();
    println!("{:?}", config_ast);
    assert_eq!(config_ast.len(), 2);
    assert_eq!(config_ast[0].name, "zpool-create");
    assert_eq!(
        config_ast[0].options,
        Some(vec![(String::from("ashift"), String::from("12"))])
    );
    assert_eq!(config_ast[0].arguments, vec!["mirror", "c1t0d0s0", "c2t0d0s0", "c3t0d0s0"]);
    assert_eq!(config_ast[1].name, "locale");
    assert_eq!(config_ast[1].options, None);
    assert_eq!(config_ast[1].arguments, vec!["en_US"]);
}

#[test]
fn parser_ignores_comments_and_blank_lines() {
    let parser = SysConfigParser::default();
    let text = "# a comment\n\n  \nkeyboard US-English # trailing comment\n";
    let records = parser.parse_config(text).unwrap();
    assert_eq!(records.len(), 1);
    assert_eq!(records[0].name, "keyboard");
    assert_eq!(records[0].arguments, vec!["US-English"]);
}

#[test]
fn parser_quoted_arguments_and_escapes() {
    let parser = SysConfigParser::default();
    let records = parser.parse_config("terminal \"a \\\"quoted\\\" type\"\n").unwrap();
    assert_eq!(records.len(), 1);
    assert_eq!(records[0].arguments, vec!["a \"quoted\" type"]);
}

#[test]
fn parser_duplicate_option_last_wins() {
    let parser = SysConfigParser::default();
    let records = parser.parse_config("dataset --atime=on --atime=off rpool/x\n").unwrap();
    assert_eq!(records[0].options, Some(vec![(String::from("atime"), String::from("off"))]));
}

#[test]
fn parser_rejects_unterminated_quote() {
    let parser = SysConfigParser::default();
    let err = parser.parse_config("keyboard US\nterminal \"oops\n").unwrap_err();
    assert_eq!(err.line, 2);
}

#[test]
fn parser_rejects_bad_leading_token() {
    let parser = SysConfigParser::default();
    assert!(parser.parse_config("--opt=1 keyboard US\n").is_err());
    assert!(parser.parse_config("\"quoted\" start\n").is_err());
}

#[test]
fn schema_closure_unknown_keyword_fails() {
    let registry = get_supported_keywords();
    let records = vec![record("frobnicate", None, vec!["x"])];
    match parse_keywords(&registry, records) {
        Err(CompileError::UnknownInstruction(name)) => assert_eq!(name, "frobnicate"),
        other => panic!("expected an unknown-instruction failure, got {:?}", other),
    }
}

#[test]
fn option_closure_unknown_option_fails() {
    let registry = get_supported_keywords();
    let records = vec![record(
        "setup_dns",
        Some(vec![("domain", "example.com"), ("bogus", "1")]),
        vec!["192.0.2.1"],
    )];
    match parse_keywords(&registry, records) {
        Err(CompileError::UnknownOptionInInstruction { instruction, option }) => {
            assert_eq!(instruction, "setup_dns");
            assert_eq!(option, "bogus");
        },
        other => panic!("expected an unknown-option failure, got {:?}", other),
    }
}

#[test]
fn vdev_grouping_mirror_and_raidz() {
    let registry = zpool_registry();
    let parser = SysConfigParser::default();
    let records = parser
        .parse_config("zpool-create pool1 mirror d1 d2 raidz1 d3 d4 d5\n")
        .unwrap();
    let set = parse_keywords(&registry, records).unwrap();
    assert_eq!(set.len(), 1);
    match &set[0] {
        Instruction::CreatePool { name, vdevs, .. } => {
            assert_eq!(name, "pool1");
            assert_eq!(vdevs.len(), 2);
            assert_eq!(vdevs[0].vdev_type, VDEVType::Mirror);
            assert_eq!(vdevs[0].devices, vec!["d1", "d2"]);
            assert_eq!(vdevs[1].vdev_type, VDEVType::RaidZ1);
            assert_eq!(vdevs[1].devices, vec!["d3", "d4", "d5"]);
        },
        other => panic!("expected a pool creation, got {:?}", other),
    }
}

#[test]
fn vdev_grouping_single_disk() {
    let registry = zpool_registry();
    let parser = SysConfigParser::default();
    let records = parser.parse_config("zpool-create pool1 d1\n").unwrap();
    let set = parse_keywords(&registry, records).unwrap();
    match &set[0] {
        Instruction::CreatePool { vdevs, .. } => {
            assert_eq!(vdevs.len(), 1);
            assert_eq!(vdevs[0].vdev_type, VDEVType::Empty);
            assert_eq!(vdevs[0].devices, vec!["d1"]);
        },
        other => panic!("expected a pool creation, got {:?}", other),
    }
}

#[test]
fn vdev_grouping_two_untyped_devices_fails() {
    let registry = zpool_registry();
    let parser = SysConfigParser::default();
    let records = parser.parse_config("zpool-create pool1 d1 d2\n").unwrap();
    match parse_keywords(&registry, records) {
        Err(CompileError::InvalidVdevGrouping { pool }) => assert_eq!(pool, "pool1"),
        other => panic!("expected a grouping failure, got {:?}", other),
    }
}

#[test]
fn password_hash_stored_verbatim() {
    let registry = get_supported_keywords();
    let records = vec![record("root_password", None, vec!["$6$abc$def"])];
    let set = parse_keywords(&registry, records).unwrap();
    match &set[0] {
        Instruction::SetRootPassword(RootPasswordType::Hash(h)) => assert_eq!(h, "$6$abc$def"),
        other => panic!("expected a stored hash, got {:?}", other),
    }
}

#[test]
fn password_cleartext_never_stored() {
    let registry = get_supported_keywords();
    let records = vec![record("root_password", None, vec!["plaintext"])];
    let set = parse_keywords(&registry, records).unwrap();
    match &set[0] {
        Instruction::SetRootPassword(RootPasswordType::Hash(h)) => {
            assert!(h.starts_with("$6$"));
            assert_ne!(h, "plaintext");
        },
        other => panic!("expected a stored hash, got {:?}", other),
    }
}

#[test]
fn locale_unicode_flag() {
    let registry = get_supported_keywords();
    for (locale, expected) in [
        ("en_US", true),
        ("en_US.UTF-8", true),
        ("de_DE.utf-8", true),
        ("ja_JP.eucJP", false),
    ] {
        let set =
            parse_keywords(&registry, vec![record("system_locale", None, vec![locale])]).unwrap();
        match &set[0] {
            Instruction::SetLocale { name, unicode } => {
                assert_eq!(name, locale);
                assert_eq!(*unicode, expected, "locale {}", locale);
            },
            other => panic!("expected a locale instruction, got {:?}", other),
        }
    }
}

#[test]
fn route_argument_forms() {
    let registry = get_supported_keywords();
    let set = parse_keywords(
        &registry,
        vec![record("route", None, vec!["default", "10.0.0.1"])],
    )
    .unwrap();
    match &set[0] {
        Instruction::AddRoute { name, route_match, gateway } => {
            assert_eq!(name, "default");
            assert_eq!(route_match, "default");
            assert_eq!(gateway, "10.0.0.1");
        },
        other => panic!("expected a route, got {:?}", other),
    }
    let set = parse_keywords(
        &registry,
        vec![record("route", None, vec!["net1", "192.0.2.0/24", "10.0.0.1"])],
    )
    .unwrap();
    match &set[0] {
        Instruction::AddRoute { name, route_match, gateway } => {
            assert_eq!(name, "net1");
            assert_eq!(route_match, "192.0.2.0/24");
            assert_eq!(gateway, "10.0.0.1");
        },
        other => panic!("expected a route, got {:?}", other),
    }
    match parse_keywords(&registry, vec![record("route", None, vec!["only-one"])]) {
        Err(CompileError::MissingArgument { instruction }) => assert_eq!(instruction, "route"),
        other => panic!("expected a missing-argument failure, got {:?}", other),
    }
}

#[test]
fn network_interface_static_selection() {
    let registry = get_supported_keywords();
    let set = parse_keywords(
        &registry,
        vec![record(
            "network_interface",
            Some(vec![("static", "fe80::1/64"), ("primary", "")]),
            vec!["e1000g0"],
        )],
    )
    .unwrap();
    match &set[0] {
        Instruction::ConfigureNetworkAdapter { device, ipv4, ipv6, primary, .. } => {
            assert_eq!(device, "e1000g0");
            assert!(ipv4.is_none());
            assert!(matches!(ipv6, Some(NetworkConfig::Static(a)) if a == "fe80::1/64"));
            assert!(*primary);
        },
        other => panic!("expected an adapter configuration, got {:?}", other),
    }
    let set = parse_keywords(
        &registry,
        vec![record("network_interface", None, vec!["e1000g0"])],
    )
    .unwrap();
    match &set[0] {
        Instruction::ConfigureNetworkAdapter { ipv4, ipv6, primary, .. } => {
            assert!(matches!(ipv4, Some(NetworkConfig::DHCP)));
            assert!(matches!(ipv6, Some(NetworkConfig::DHCPStateful)));
            assert!(!*primary);
        },
        other => panic!("expected an adapter configuration, got {:?}", other),
    }
}

#[test]
fn supported_keywords_registry() {
    let registry = get_supported_keywords();
    assert_eq!(registry.len(), 10);
    let names: Vec<&str> = registry.iter().map(|(n, _)| n.as_str()).collect();
    assert_eq!(
        names,
        vec![
            "keyboard",
            "timezone",
            "terminal",
            "timeserver",
            "system_locale",
            "network_interface",
            "dataset",
            "setup_dns",
            "route",
            "root_password",
        ]
    );
    let net = &registry[5].1;
    assert_eq!(net.options, vec!["name", "static", "static6", "primary"]);
}

#[test]
fn compile_is_all_or_nothing() {
    let registry = get_supported_keywords();
    let records = vec![
        record("keyboard", None, vec!["US-English"]),
        record("frobnicate", None, vec![]),
    ];
    assert!(parse_keywords(&registry, records).is_err());
}

#[test]
fn pool_uefi_follows_option_presence() {
    let registry = zpool_registry();
    let set = parse_keywords(&registry, vec![record("zpool-create", None, vec!["p", "d1"])]).unwrap();
    match &set[0] {
        Instruction::CreatePool { uefi, ashift, be_name, pool_options, .. } => {
            assert!(!uefi);
            assert!(ashift.is_none());
            assert!(be_name.is_none());
            assert!(pool_options.is_empty());
        },
        other => panic!("expected a pool creation, got {:?}", other),
    }
    let set = parse_keywords(
        &registry,
        vec![record("zpool-create", Some(vec![("uefi", "")]), vec!["p", "d1"])],
    )
    .unwrap();
    match &set[0] {
        Instruction::CreatePool { uefi, pool_options, .. } => {
            assert!(uefi);
            assert!(pool_options.is_empty());
        },
        other => panic!("expected a pool creation, got {:?}", other),
    }
}
