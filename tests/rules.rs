use launcher_core::model::{OsCondition, Rule};
use launcher_core::platform::{get_classpath_separator, get_os_key, PlatformKey};
use launcher_core::rules::is_library_allowed;

fn rule(action: &str, os: Option<&str>) -> Rule {
    Rule {
        action: action.to_string(),
        os: os.map(|n| OsCondition { name: n.to_string() }),
    }
}

#[test]
fn absent_rules_allow() {
    assert!(is_library_allowed(&None, PlatformKey::Linux));
    assert!(is_library_allowed(&None, PlatformKey::Windows));
}

#[test]
fn empty_rule_list_denies() {
    assert!(!is_library_allowed(&Some(vec![]), PlatformKey::MacOS));
}

#[test]
fn allow_everywhere_disallow_on_osx() {
    let rules = Some(vec![rule("allow", None), rule("disallow", Some("osx"))]);
    assert!(is_library_allowed(&rules, PlatformKey::Linux));
    assert!(is_library_allowed(&rules, PlatformKey::Windows));
    assert!(!is_library_allowed(&rules, PlatformKey::MacOS));
}

#[test]
fn last_matching_rule_wins() {
    let rules = Some(vec![
        rule("disallow", None),
        rule("allow", Some("linux")),
        rule("disallow", Some("windows")),
    ]);
    assert!(is_library_allowed(&rules, PlatformKey::Linux));
    assert!(!is_library_allowed(&rules, PlatformKey::Windows));
    assert!(!is_library_allowed(&rules, PlatformKey::MacOS));
}

#[test]
fn no_matching_rule_denies() {
    let rules = Some(vec![rule("allow", Some("windows"))]);
    assert!(!is_library_allowed(&rules, PlatformKey::Linux));
    assert!(is_library_allowed(&rules, PlatformKey::Windows));
}

#[test]
fn unknown_action_denies() {
    let rules = Some(vec![rule("allow", None), rule("maybe", None)]);
    assert!(!is_library_allowed(&rules, PlatformKey::Linux));
}

#[test]
fn evaluation_is_deterministic() {
    let rules = Some(vec![rule("allow", None), rule("disallow", Some("linux"))]);
    let a = is_library_allowed(&rules, PlatformKey::Linux);
    let b = is_library_allowed(&rules, PlatformKey::Linux);
    assert_eq!(a, b);
    assert!(!a);
}

#[test]
fn platform_keys() {
    assert_eq!(get_os_key(PlatformKey::Windows), "windows");
    assert_eq!(get_os_key(PlatformKey::MacOS), "osx");
    assert_eq!(get_os_key(PlatformKey::Linux), "linux");
}

#[test]
fn classpath_separators() {
    assert_eq!(get_classpath_separator(PlatformKey::Windows), ";");
    assert_eq!(get_classpath_separator(PlatformKey::Linux), ":");
    assert_eq!(get_classpath_separator(PlatformKey::MacOS), ":");
}
