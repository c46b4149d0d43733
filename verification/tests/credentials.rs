//! The credential store: parsing, byte-for-byte serialization, and password
//! hashing through the real collaborator.

use sysconfig::shadow::ShadowError;
use sysconfig::shadow::gen_password_hash;
use sysconfig::shadow::parse_shadow_file;

static EXAMPLE_SHADOW: &str = r#"root:$6$L2Yjwxe3zlIDk4yf$1RwTeVJL2erBYnyIVerOlN5/aoyELMyquctogNESxd/gZQ11mzh4NM5QS6.S.CIslv4LzRYZ1sqVDEqBKTKvv1:6445::::::
daemon:NP:6445::::::
bin:NP:6445::::::
sys:NP:6445::::::
adm:NP:6445::::::
lp:NP:6445::::::
uucp:NP:6445::::::
nuucp:NP:6445::::::
dladm:*LK*:18675::::::
netadm:*LK*:18675::::::
netcfg:*LK*:18675::::::
smmsp:NP:18675::::::
listen:*LK*:::::::
gdm:*LK*:::::::
zfssnap:NP:::::::
upnp:NP:::::::
xvm:*LK*:6445::::::
mysql:NP:::::::
openldap:*LK*:18675::::::
webservd:*LK*:::::::
svctag:*LK*:6445::::::
unknown:*LK*:18675::::::
nobody:*LK*:6445::::::
noaccess:*LK*:6445::::::
nobody4:*LK*:6445::::::
ftp:*LK*:18675::::::
sshd:*LK*:18675::::::
named:NP:18675::::::
pkg5srv:NP:18675::::::
jenkins:NL:18676::::::"#;

#[test]
fn parse_example() {
    let shadow_file = parse_shadow_file(EXAMPLE_SHADOW).unwrap();
    let serialized = shadow_file.serialize();
    assert_eq!(EXAMPLE_SHADOW, serialized)
}

#[test]
fn root_modify_example() {
    let mut shadow_file = parse_shadow_file(EXAMPLE_SHADOW).unwrap();
    let mut root_entry = shadow_file.get_entry("root").unwrap();
    root_entry.update_password_hash("blubber").unwrap();
    root_entry.check_password("blubber").unwrap();
    shadow_file.insert_or_update(root_entry);
    let serialized = shadow_file.serialize();
    assert_ne!(EXAMPLE_SHADOW, serialized)
}

#[test]
fn generated_hash_shape_and_verification() {
    let hash = gen_password_hash("clear_password").unwrap();
    assert!(hash.starts_with("$6$"));
    assert_ne!(hash, "clear_password");
    let mut shadow_file = parse_shadow_file("root:$6$x$y:6445::::::").unwrap();
    let mut entry = shadow_file.get_entry("root").unwrap();
    entry.set_password_hash(&hash);
    assert!(entry.check_password("clear_password").is_ok());
    assert!(entry.check_password("wrong").is_err());
    shadow_file.insert_or_update(entry);
    assert!(shadow_file.serialize().contains(&hash));
}

#[test]
fn insert_appends_new_entry() {
    let mut shadow_file = parse_shadow_file("root:NP:6445::::::").unwrap();
    let mut entry = shadow_file.get_entry("root").unwrap();
    entry.username = String::from("builder");
    shadow_file.insert_or_update(entry);
    assert_eq!(shadow_file.serialize(), "root:NP:6445::::::\nbuilder:NP:6445::::::");
}

#[test]
fn parse_rejects_malformed_line() {
    match parse_shadow_file("root:NP:6445::::::\nbroken-line") {
        Err(ShadowError::Malformed { line }) => assert_eq!(line, 2),
        other => panic!("expected a malformed-line failure, got {:?}", other),
    }
    match parse_shadow_file("root:NP:notanumber::::::") {
        Err(ShadowError::Malformed { line }) => assert_eq!(line, 1),
        other => panic!("expected a malformed-line failure, got {:?}", other),
    }
}

#[test]
fn lock_markers_round_trip() {
    let text = "dladm:*LK*:18675::::::\nsmmsp:NP:18675::::::\njenkins:NL:18676::::::";
    let parsed = parse_shadow_file(text).unwrap();
    let dladm = parsed.get_entry("dladm").unwrap();
    assert!(dladm.password_locked);
    assert_eq!(dladm.password_hash, "");
    let smmsp = parsed.get_entry("smmsp").unwrap();
    assert!(smmsp.no_password);
    let jenkins = parsed.get_entry("jenkins").unwrap();
    assert!(jenkins.no_login);
    assert_eq!(parsed.serialize(), text);
}
