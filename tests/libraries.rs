use launcher_core::libraries::{is_jar_file_name, library_downloads, native_artifact, plan_library_downloads, plan_native_archives};
use launcher_core::model::{Artifact, Library, OsCondition, Rule};
use launcher_core::platform::PlatformKey;

fn art(name: &str) -> Artifact {
    Artifact { url: format!("https://libs.example/{}", name), path: name.to_string() }
}

fn lwjgl() -> Library {
    Library {
        rules: None,
        artifact: Some(art("lwjgl.jar")),
        classifiers: Some(vec![
            ("natives-linux".to_string(), art("lwjgl-natives-linux.jar")),
            ("natives-windows".to_string(), art("lwjgl-natives-windows.jar")),
        ]),
        natives: Some(vec![
            ("linux".to_string(), "natives-linux".to_string()),
            ("windows".to_string(), "natives-windows".to_string()),
        ]),
    }
}

fn windows_only() -> Library {
    Library {
        rules: Some(vec![Rule {
            action: "allow".to_string(),
            os: Some(OsCondition { name: "windows".to_string() }),
        }]),
        artifact: Some(art("win.jar")),
        classifiers: None,
        natives: None,
    }
}

#[test]
fn native_classifier_follows_platform() {
    assert_eq!(native_artifact(&lwjgl(), PlatformKey::Linux).unwrap().path, "lwjgl-natives-linux.jar");
    assert_eq!(native_artifact(&lwjgl(), PlatformKey::Windows).unwrap().path, "lwjgl-natives-windows.jar");
    assert!(native_artifact(&lwjgl(), PlatformKey::MacOS).is_none());
}

#[test]
fn native_key_without_classifier_table() {
    let mut lib = lwjgl();
    lib.classifiers = None;
    assert!(native_artifact(&lib, PlatformKey::Linux).is_none());
}

#[test]
fn library_downloads_artifact_then_native() {
    let d = library_downloads(&lwjgl(), PlatformKey::Linux);
    let paths: Vec<&str> = d.iter().map(|a| a.path.as_str()).collect();
    assert_eq!(paths, vec!["lwjgl.jar", "lwjgl-natives-linux.jar"]);
    assert_eq!(d[0].url, "https://libs.example/lwjgl.jar");
}

#[test]
fn ineligible_library_downloads_nothing() {
    assert!(library_downloads(&windows_only(), PlatformKey::Linux).is_empty());
    assert_eq!(library_downloads(&windows_only(), PlatformKey::Windows).len(), 1);
}

#[test]
fn plan_keeps_library_order() {
    let libs = vec![windows_only(), lwjgl(), windows_only()];
    let plan = plan_library_downloads(&libs, PlatformKey::Windows);
    let paths: Vec<&str> = plan.iter().map(|a| a.path.as_str()).collect();
    assert_eq!(paths, vec!["win.jar", "lwjgl.jar", "lwjgl-natives-windows.jar", "win.jar"]);
}

#[test]
fn native_archives_only_for_eligible_libraries() {
    let mut restricted = lwjgl();
    restricted.rules = Some(vec![Rule {
        action: "allow".to_string(),
        os: Some(OsCondition { name: "windows".to_string() }),
    }]);
    let libs = vec![lwjgl(), restricted, windows_only()];
    let linux = plan_native_archives(&libs, PlatformKey::Linux);
    assert_eq!(linux.len(), 1);
    assert_eq!(linux[0].path, "lwjgl-natives-linux.jar");
    let windows = plan_native_archives(&libs, PlatformKey::Windows);
    assert_eq!(windows.len(), 2);
}

#[test]
fn jar_file_names() {
    assert!(is_jar_file_name("lwjgl-3.3.1.jar"));
    assert!(is_jar_file_name("a.jar"));
    assert!(!is_jar_file_name(".jar"));
    assert!(!is_jar_file_name("lib.jar.sha1"));
    assert!(!is_jar_file_name("libfoo.so"));
}
