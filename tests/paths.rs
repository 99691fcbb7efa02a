use launcher_core::assets::{asset_index_path, asset_object_path, asset_object_url, plan_asset_downloads};
use launcher_core::fetch::fetch_needed;
use launcher_core::model::AssetObject;

#[test]
fn asset_path_from_hash() {
    let p = asset_object_path("abcd1234ef").unwrap();
    assert_eq!(p, "objects/ab/abcd1234ef");
}

#[test]
fn asset_url_from_hash() {
    let u = asset_object_url("abcd1234ef").unwrap();
    assert_eq!(u, "https://resources.download.minecraft.net/ab/abcd1234ef");
}

#[test]
fn short_hash_has_no_path() {
    assert!(asset_object_path("a").is_none());
    assert!(asset_object_url("").is_none());
    assert_eq!(asset_object_path("ab").unwrap(), "objects/ab/ab");
}

#[test]
fn asset_index_location() {
    assert_eq!(asset_index_path("1.20"), "indexes/1.20.json");
}

#[test]
fn asset_plan_ignores_names_and_skips_short_hashes() {
    let objects = vec![
        AssetObject { hash: "ff00aa".to_string(), size: 3 },
        AssetObject { hash: "x".to_string(), size: 1 },
        AssetObject { hash: "0123".to_string(), size: 9 },
    ];
    let plan = plan_asset_downloads(&objects);
    assert_eq!(plan.len(), 2);
    assert_eq!(plan[0].path, "objects/ff/ff00aa");
    assert_eq!(plan[0].url, "https://resources.download.minecraft.net/ff/ff00aa");
    assert_eq!(plan[1].path, "objects/01/0123");
}

#[test]
fn absent_destination_is_fetched() {
    assert!(fetch_needed(false, 0));
}

#[test]
fn zero_length_destination_is_fetched() {
    assert!(fetch_needed(true, 0));
}

#[test]
fn non_empty_destination_is_kept() {
    assert!(!fetch_needed(true, 1));
    assert!(!fetch_needed(true, u64::MAX));
}

#[test]
fn second_fetch_is_a_no_op() {
    let mut transfers = 0;
    let mut dest: Option<Vec<u8>> = None;
    for _ in 0..2 {
        let (exists, len) = match &dest {
            None => (false, 0),
            Some(b) => (true, b.len() as u64),
        };
        if fetch_needed(exists, len) {
            transfers += 1;
            dest = Some(vec![1, 2, 3]);
        }
    }
    assert_eq!(transfers, 1);
    assert_eq!(dest, Some(vec![1, 2, 3]));
}
