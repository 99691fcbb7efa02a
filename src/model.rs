use vstd::prelude::*;

verus! {

/// The `os` condition of a rule.
#[derive(Clone, Debug)]
pub struct OsCondition {
    pub name: String,
}

/// One platform-conditional allow/disallow directive.
#[derive(Clone, Debug)]
pub struct Rule {
    pub action: String,
    pub os: Option<OsCondition>,
}

/// One downloadable file: where it comes from and its path relative to the
/// libraries root.
#[derive(Clone, Debug)]
pub struct Artifact {
    pub url: String,
    pub path: String,
}

/// One library entry of a version descriptor. The `classifiers` and `natives`
/// tables are kept as key/value pairs, in the order the JSON reader gives them.
#[derive(Clone, Debug)]
pub struct Library {
    pub rules: Option<Vec<Rule>>,
    pub artifact: Option<Artifact>,
    pub classifiers: Option<Vec<(String, Artifact)>>,
    pub natives: Option<Vec<(String, String)>>,
}

/// The parts of a version descriptor that an install reads.
#[derive(Clone, Debug)]
pub struct VersionDescriptor {
    pub client_url: String,
    pub libraries: Vec<Library>,
    pub asset_index_id: String,
    pub asset_index_url: String,
}

/// One published version of the version index.
#[derive(Clone, Debug)]
pub struct VersionIndexEntry {
    pub id: String,
    pub url: String,
}

/// One object of an asset index.
#[derive(Clone, Debug)]
pub struct AssetObject {
    pub hash: String,
    pub size: u64,
}

} // verus!
