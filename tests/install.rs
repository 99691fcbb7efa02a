use launcher_core::install::{advance, find_version, status_message, InstallError, Stage};
use launcher_core::json::{parse_asset_index, parse_version_descriptor, parse_version_index};
use launcher_core::libraries::plan_library_downloads;
use launcher_core::model::VersionIndexEntry;
use launcher_core::platform::PlatformKey;

const INDEX: &str = r#"{"latest":{"release":"1.20.1"},"versions":[
  {"id":"1.20.2","url":"https://meta.example/1.20.2.json","type":"release"},
  {"id":"1.20.1","url":"https://meta.example/1.20.1.json","type":"release"}]}"#;

const DESCRIPTOR: &str = r#"{
  "downloads":{"client":{"url":"https://dl.example/client.jar","sha1":"x","size":5}},
  "libraries":[
    {"name":"a","downloads":{"artifact":{"path":"a/a.jar","url":"https://dl.example/a.jar","sha1":"y","size":1}}},
    {"name":"w","downloads":{"artifact":{"path":"w/w.jar","url":"https://dl.example/w.jar"}},
     "rules":[{"action":"allow","os":{"name":"windows"}}]}
  ],
  "assetIndex":{"id":"5","url":"https://dl.example/5.json"}}"#;

fn entry(id: &str, url: &str) -> VersionIndexEntry {
    VersionIndexEntry { id: id.to_string(), url: url.to_string() }
}

#[test]
fn finds_first_entry_with_id() {
    let index = vec![entry("a", "u1"), entry("b", "u2"), entry("b", "u3")];
    let e = find_version(&index, "b").unwrap();
    assert_eq!(e.url, "u2");
}

#[test]
fn missing_version_is_not_found() {
    let index = vec![entry("a", "u1")];
    match find_version(&index, "9.9") {
        Err(InstallError::NotFound(id)) => assert_eq!(id, "9.9"),
        other => panic!("unexpected {:?}", other),
    }
    assert!(find_version(&vec![], "a").is_err());
}

#[test]
fn not_found_message_names_version() {
    let e = InstallError::NotFound("1.2.3".to_string());
    assert_eq!(e.message(), "Version 1.2.3 not found");
    assert_eq!(InstallError::Network("timeout".to_string()).message(), "timeout");
}

#[test]
fn stages_run_in_order() {
    let mut s = Stage::FetchVersionManifest;
    let mut seen = vec![s];
    while s != Stage::Complete {
        s = advance(s, true);
        seen.push(s);
    }
    assert_eq!(seen.len(), 9);
    assert_eq!(seen[4], Stage::DownloadClient);
    assert_eq!(seen[7], Stage::ExtractNatives);
    assert_eq!(advance(Stage::Complete, false), Stage::Complete);
}

#[test]
fn failure_is_terminal() {
    assert_eq!(advance(Stage::DownloadClient, false), Stage::Failed);
    assert_eq!(advance(Stage::Failed, true), Stage::Failed);
    assert!(status_message(Stage::Failed).is_none());
}

#[test]
fn install_scenario_on_linux() {
    let index = parse_version_index(INDEX).unwrap();
    let v = find_version(&index, "1.20.1").unwrap();
    assert_eq!(v.url, "https://meta.example/1.20.1.json");
    let d = parse_version_descriptor(DESCRIPTOR).unwrap();
    assert_eq!(d.client_url, "https://dl.example/client.jar");
    let plan = plan_library_downloads(&d.libraries, PlatformKey::Linux);
    assert_eq!(plan.len(), 1);
    assert_eq!(plan[0].path, "a/a.jar");
    let mut s = Stage::FetchVersionManifest;
    let mut statuses = Vec::new();
    loop {
        if let Some(m) = status_message(s) {
            statuses.push(m);
        }
        if s == Stage::Complete || s == Stage::Failed {
            break;
        }
        s = advance(s, true);
    }
    assert_eq!(
        statuses,
        vec![
            "Fetching Manifest...",
            "Downloading Client...",
            "Downloading Libraries...",
            "Downloading Assets...",
            "Installation Complete!"
        ]
    );
    assert_eq!(s, Stage::Complete);
}

#[test]
fn install_scenario_unknown_version() {
    let index = parse_version_index(INDEX).unwrap();
    let mut s = Stage::FetchVersionManifest;
    let mut statuses = Vec::new();
    let mut errors = Vec::new();
    let mut downloads_started = false;
    loop {
        if let Some(m) = status_message(s) {
            statuses.push(m);
        }
        if s == Stage::Complete || s == Stage::Failed {
            break;
        }
        if s == Stage::DownloadClient {
            downloads_started = true;
        }
        let ok = if s == Stage::ResolveVersionEntry {
            match find_version(&index, "0.0.1") {
                Ok(_) => true,
                Err(e) => {
                    errors.push(e.message());
                    false
                }
            }
        } else {
            true
        };
        s = advance(s, ok);
    }
    assert_eq!(s, Stage::Failed);
    assert!(!downloads_started);
    assert_eq!(statuses, vec!["Fetching Manifest..."]);
    assert_eq!(errors.len(), 1);
    assert!(errors[0].contains("0.0.1"));
}

#[test]
fn descriptor_reads_natives_and_classifiers() {
    let text = r#"{"downloads":{"client":{"url":"c"}},"assetIndex":{"id":"1","url":"i"},
      "libraries":[{"downloads":{"classifiers":{"natives-osx":{"path":"n.jar","url":"nu"}}},
                    "natives":{"osx":"natives-osx"},
                    "rules":[{"action":"allow"},{"action":"disallow","os":{"name":"linux"}}]}]}"#;
    let d = parse_version_descriptor(text).unwrap();
    assert_eq!(d.asset_index_id, "1");
    assert_eq!(d.asset_index_url, "i");
    let lib = &d.libraries[0];
    assert!(lib.artifact.is_none());
    assert_eq!(lib.rules.as_ref().unwrap().len(), 2);
    assert_eq!(lib.natives.as_ref().unwrap()[0].1, "natives-osx");
    let mac = plan_library_downloads(&d.libraries, PlatformKey::MacOS);
    assert_eq!(mac.len(), 1);
    assert_eq!(mac[0].path, "n.jar");
    assert!(plan_library_downloads(&d.libraries, PlatformKey::Linux).is_empty());
}

#[test]
fn malformed_documents_are_parse_errors() {
    assert!(matches!(parse_version_index("{"), Err(InstallError::Parse(_))));
    assert!(matches!(parse_version_index("{\"versions\":3}"), Err(InstallError::Parse(_))));
    assert!(matches!(parse_version_descriptor("{}"), Err(InstallError::Parse(_))));
    assert!(matches!(parse_asset_index("{\"objects\":{\"a\":{\"hash\":1}}}"), Err(InstallError::Parse(_))));
}

#[test]
fn asset_index_objects() {
    let objs = parse_asset_index(r#"{"objects":{"icons/x.png":{"hash":"abcd1234","size":12}}}"#).unwrap();
    assert_eq!(objs.len(), 1);
    assert_eq!(objs[0].hash, "abcd1234");
    assert_eq!(objs[0].size, 12);
}

#[test]
fn null_optional_members_count_as_missing() {
    let text = r#"{"downloads":{"client":{"url":"c"}},"assetIndex":{"id":"1","url":"i"},
      "libraries":[{"downloads":{"artifact":null},"rules":null,"natives":null}]}"#;
    let d = parse_version_descriptor(text).unwrap();
    let lib = &d.libraries[0];
    assert!(lib.rules.is_none());
    assert!(lib.artifact.is_none());
    assert!(lib.natives.is_none());
}

#[test]
fn library_without_downloads_is_rejected() {
    let text = r#"{"downloads":{"client":{"url":"c"}},"assetIndex":{"id":"1","url":"i"},
      "libraries":[{"name":"x"}]}"#;
    assert!(matches!(parse_version_descriptor(text), Err(InstallError::Parse(_))));
}
