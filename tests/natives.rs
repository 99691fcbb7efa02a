use std::collections::BTreeMap;
use std::io::Write;

use launcher_core::natives::{extract_archive, is_contained_name, is_metadata_entry, plan_extraction, should_extract, DirOp, ExtractError};
use zip::write::SimpleFileOptions;
use zip::CompressionMethod;

fn archive(files: &[(&str, &[u8])], dirs: &[&str]) -> Vec<u8> {
    let mut w = zip::ZipWriter::new(std::io::Cursor::new(Vec::new()));
    let opts = SimpleFileOptions::default().compression_method(CompressionMethod::Stored);
    for d in dirs {
        w.add_directory(*d, opts).unwrap();
    }
    for (name, data) in files {
        w.start_file(*name, opts).unwrap();
        w.write_all(data).unwrap();
    }
    w.finish().unwrap().into_inner()
}

fn apply(dir: &mut BTreeMap<String, Vec<u8>>, ops: Vec<DirOp>) {
    for op in ops {
        match op {
            DirOp::Reset => dir.clear(),
            DirOp::Write(f) => {
                dir.insert(f.name, f.data);
            }
        }
    }
}

#[test]
fn metadata_names() {
    assert!(is_metadata_entry("META-INF"));
    assert!(is_metadata_entry("META-INF/MANIFEST.MF"));
    assert!(is_metadata_entry("META-INF\\x.SF"));
    assert!(!is_metadata_entry("META-INFO/x"));
    assert!(!is_metadata_entry("liblwjgl.so"));
    assert!(!is_metadata_entry("META"));
}

#[test]
fn directories_are_not_extracted() {
    assert!(!should_extract("linux/", true));
    assert!(!should_extract("META-INF/MANIFEST.MF", false));
    assert!(should_extract("liblwjgl.so", false));
}

#[test]
fn extraction_skips_metadata_and_directories() {
    let bytes = archive(
        &[("META-INF/MANIFEST.MF", b"m"), ("liblwjgl.so", b"elf"), ("sub/libopenal.so", b"al")],
        &["sub/"],
    );
    let files = extract_archive(&bytes).unwrap();
    let names: Vec<&str> = files.iter().map(|f| f.name.as_str()).collect();
    assert_eq!(names, vec!["liblwjgl.so", "sub/libopenal.so"]);
    assert_eq!(files[0].data, b"elf".to_vec());
}

#[test]
fn corrupt_archive_is_an_error() {
    let r = extract_archive(&vec![1, 2, 3, 4]);
    assert!(matches!(r, Err(ExtractError::InvalidArchive(_))));
}

#[test]
fn extraction_pass_starts_with_reset() {
    let a = archive(&[("a.so", b"1")], &[]);
    let b = archive(&[("b.so", b"2"), ("META-INF/x", b"3")], &[]);
    let ops = plan_extraction(&vec![a, b]).unwrap();
    assert!(matches!(ops[0], DirOp::Reset));
    assert_eq!(ops.len(), 3);
}

#[test]
fn later_archive_overwrites_same_name() {
    let a = archive(&[("x.so", b"first")], &[]);
    let b = archive(&[("x.so", b"second")], &[]);
    let mut dir = BTreeMap::new();
    apply(&mut dir, plan_extraction(&vec![a, b]).unwrap());
    assert_eq!(dir.len(), 1);
    assert_eq!(dir["x.so"], b"second".to_vec());
}

#[test]
fn second_extraction_leaves_no_leftovers() {
    let mut dir = BTreeMap::new();
    dir.insert("stale.so".to_string(), b"old".to_vec());
    let first = archive(&[("one.so", b"1"), ("two.so", b"2")], &[]);
    apply(&mut dir, plan_extraction(&vec![first]).unwrap());
    assert!(!dir.contains_key("stale.so"));
    let second = archive(&[("three.so", b"3")], &[]);
    apply(&mut dir, plan_extraction(&vec![second]).unwrap());
    let names: Vec<&String> = dir.keys().collect();
    assert_eq!(names, vec!["three.so"]);
}

#[test]
fn bad_archive_fails_the_pass() {
    let good = archive(&[("ok.so", b"1")], &[]);
    let r = plan_extraction(&vec![good, vec![0u8; 10]]);
    assert!(r.is_err());
}

#[test]
fn names_leaving_the_directory_are_refused() {
    assert!(is_contained_name("liblwjgl.so"));
    assert!(is_contained_name("sub/..x/a..b.so"));
    assert!(!is_contained_name("../evil.so"));
    assert!(!is_contained_name("a/../../evil.so"));
    assert!(!is_contained_name("a\\..\\b"));
    assert!(!is_contained_name("/etc/evil.so"));
    assert!(!is_contained_name("\\evil.dll"));
    assert!(!is_contained_name("C:evil.dll"));
    assert!(is_contained_name("lib:x.so"));
    assert!(!is_contained_name(""));
    assert!(!should_extract("../evil.so", false));
}

#[test]
fn escaping_entries_are_not_extracted() {
    let bytes = archive(&[("../up.so", b"x"), ("ok.so", b"y")], &[]);
    let files = extract_archive(&bytes).unwrap();
    assert_eq!(files.len(), 1);
    assert_eq!(files[0].name, "ok.so");
    assert_eq!(files[0].data, b"y".to_vec());
}

#[test]
fn no_archives_is_a_bare_reset() {
    let ops = plan_extraction(&vec![]).unwrap();
    assert_eq!(ops.len(), 1);
    assert!(matches!(ops[0], DirOp::Reset));
    let mut dir = BTreeMap::new();
    dir.insert("stale.so".to_string(), b"old".to_vec());
    apply(&mut dir, ops);
    assert!(dir.is_empty());
}

#[test]
fn extracted_files_keep_entry_contents() {
    let bytes = archive(&[("a.so", b"alpha"), ("b.so", b"")], &[]);
    let files = extract_archive(&bytes).unwrap();
    assert_eq!(files[0].data, b"alpha".to_vec());
    assert_eq!(files[1].name, "b.so");
    assert!(files[1].data.is_empty());
}
