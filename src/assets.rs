use vstd::prelude::*;
use crate::model::{Artifact, AssetObject};

verus! {

/// Path of an asset object under the assets root: `objects/<hash[0:2]>/<hash>`.
pub open spec fn asset_object_path_spec(hash: Seq<char>) -> Seq<char> {
    "objects/"@ + hash.subrange(0, 2) + "/"@ + hash
}

/// Where an asset object is served: `<asset host>/<hash[0:2]>/<hash>`.
pub open spec fn asset_object_url_spec(hash: Seq<char>) -> Seq<char> {
    "https://resources.download.minecraft.net/"@ + hash.subrange(0, 2) + "/"@ + hash
}

/// Path of an asset index under the assets root: `indexes/<id>.json`.
pub open spec fn asset_index_path_spec(id: Seq<char>) -> Seq<char> {
    "indexes/"@ + id + ".json"@
}

/// Storage path of the object with `hash`; `None` for a hash shorter than two
/// characters, which has no prefix directory.
pub fn asset_object_path(hash: &str) -> (r: Option<String>)
    ensures
        hash@.len() >= 2 <==> r is Some,
        r matches Some(s) ==> s@ == asset_object_path_spec(hash@),
{
    let n = hash.unicode_len();
    if n < 2 {
        return None;
    }
    let prefix = hash.substring_char(0, 2);
    let mut s = String::from_str("objects/");
    s.append(prefix);
    s.append("/");
    s.append(hash);
    proof {
        reveal_strlit("objects/");
        reveal_strlit("/");
    }
    assert(s@ =~= asset_object_path_spec(hash@));
    Some(s)
}

/// Download address of the object with `hash`; `None` for a hash shorter than
/// two characters.
pub fn asset_object_url(hash: &str) -> (r: Option<String>)
    ensures
        hash@.len() >= 2 <==> r is Some,
        r matches Some(s) ==> s@ == asset_object_url_spec(hash@),
{
    let n = hash.unicode_len();
    if n < 2 {
        return None;
    }
    let prefix = hash.substring_char(0, 2);
    let mut s = String::from_str("https://resources.download.minecraft.net/");
    s.append(prefix);
    s.append("/");
    s.append(hash);
    assert(s@ =~= asset_object_url_spec(hash@));
    Some(s)
}

/// Path of the asset index with `id`.
pub fn asset_index_path(id: &str) -> (r: String)
    ensures
        r@ == asset_index_path_spec(id@),
{
    let mut s = String::from_str("indexes/");
    s.append(id);
    s.append(".json");
    assert(s@ =~= asset_index_path_spec(id@));
    s
}

/// The storage path depends on the hash alone, and is the hash behind its
/// two-character prefix directory.
pub proof fn lemma_asset_path_from_hash(hash: Seq<char>)
    requires
        hash.len() >= 2,
    ensures
        asset_object_path_spec(hash).subrange(0, 8) == "objects/"@,
        asset_object_path_spec(hash)[8] == hash[0],
        asset_object_path_spec(hash)[9] == hash[1],
        asset_object_path_spec(hash)[10] == '/',
        asset_object_path_spec(hash).subrange(11, 11 + hash.len() as int) == hash,
        asset_object_path_spec(hash).len() == 11 + hash.len(),
{
    reveal_strlit("objects/");
    reveal_strlit("/");
    let p = asset_object_path_spec(hash);
    assert(p.subrange(0, 8) =~= "objects/"@);
    assert(p.subrange(11, 11 + hash.len() as int) =~= hash);
}

/// The view of a download: its address and storage path as text.
pub open spec fn artifact_text(a: Artifact) -> (Seq<char>, Seq<char>) {
    (a.url@, a.path@)
}

/// The downloads of an asset index, object by object.
pub open spec fn asset_plan_spec(objects: Seq<AssetObject>) -> Seq<(Seq<char>, Seq<char>)>
    decreases objects.len(),
{
    if objects.len() == 0 {
        Seq::empty()
    } else {
        let o = objects.last();
        asset_plan_spec(objects.drop_last()) + if o.hash@.len() >= 2 {
            seq![(asset_object_url_spec(o.hash@), asset_object_path_spec(o.hash@))]
        } else {
            Seq::empty()
        }
    }
}

/// Every object of an asset index as a download from the asset host to its
/// content-addressed path, in index order. Assets carry no platform rules.
pub fn plan_asset_downloads(objects: &Vec<AssetObject>) -> (r: Vec<Artifact>)
    ensures
        r@.map_values(|a: Artifact| artifact_text(a)) == asset_plan_spec(objects@),
{
    let mut r: Vec<Artifact> = Vec::new();
    let mut i: usize = 0;
    while i < objects.len()
        invariant
            0 <= i <= objects@.len(),
            r@.map_values(|a: Artifact| artifact_text(a)) == asset_plan_spec(
                objects@.subrange(0, i as int),
            ),
        decreases objects@.len() - i,
    {
        let ghost before = r@;
        let hash = objects[i].hash.as_str();
        match (asset_object_url(hash), asset_object_path(hash)) {
            (Some(url), Some(path)) => {
                r.push(Artifact { url, path });
                assert(r@.map_values(|a: Artifact| artifact_text(a)) =~= before.map_values(
                    |a: Artifact| artifact_text(a),
                ).push((asset_object_url_spec(hash@), asset_object_path_spec(hash@))));
            },
            _ => {},
        }
        proof {
            let s = objects@.subrange(0, i as int + 1);
            assert(s.drop_last() =~= objects@.subrange(0, i as int));
            assert(s.last() == objects@[i as int]);
        }
        i = i + 1;
    }
    assert(objects@.subrange(0, objects@.len() as int) =~= objects@);
    r
}

} // verus!
