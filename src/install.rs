use vstd::prelude::*;
use crate::model::VersionIndexEntry;

verus! {

/// Why an install stopped.
#[derive(Debug)]
pub enum InstallError {
    /// A request or transfer failed.
    Network(String),
    /// A manifest was not the JSON expected.
    Parse(String),
    /// Creating, writing or removing a file failed.
    Filesystem(String),
    /// A native archive could not be read.
    Archive(String),
    /// The version index has no entry with this id.
    NotFound(String),
}

/// The text reported for `NotFound(id)`.
pub open spec fn not_found_text(id: Seq<char>) -> Seq<char> {
    "Version "@ + id + " not found"@
}

/// The text reported for an error.
pub open spec fn error_text(e: InstallError) -> Seq<char> {
    match e {
        InstallError::Network(m) => m@,
        InstallError::Parse(m) => m@,
        InstallError::Filesystem(m) => m@,
        InstallError::Archive(m) => m@,
        InstallError::NotFound(id) => not_found_text(id@),
    }
}

impl InstallError {
    /// The single line sent on the error channel.
    pub fn message(&self) -> (r: String)
        ensures
            r@ == error_text(*self),
    {
        match self {
            InstallError::Network(m) => m.clone(),
            InstallError::Parse(m) => m.clone(),
            InstallError::Filesystem(m) => m.clone(),
            InstallError::Archive(m) => m.clone(),
            InstallError::NotFound(id) => {
                let mut s = String::from_str("Version ");
                s.append(id.as_str());
                s.append(" not found");
                assert(s@ =~= not_found_text(id@));
                s
            },
        }
    }
}

/// The entry for `id`: the first one of the index that carries it.
pub open spec fn first_with_id(index: Seq<VersionIndexEntry>, id: Seq<char>) -> Option<int>
    decreases index.len(),
{
    if index.len() == 0 {
        None
    } else if index[0].id@ == id {
        Some(0)
    } else {
        match first_with_id(index.drop_first(), id) {
            None => None,
            Some(k) => Some(k + 1),
        }
    }
}

proof fn lemma_first_with_id(index: Seq<VersionIndexEntry>, id: Seq<char>)
    ensures
        first_with_id(index, id) matches Some(k) ==> 0 <= k < index.len() && index[k].id@ == id
            && forall|j: int| 0 <= j < k ==> #[trigger] index[j].id@ != id,
        first_with_id(index, id) is None ==> forall|j: int|
            0 <= j < index.len() ==> #[trigger] index[j].id@ != id,
    decreases index.len(),
{
    if index.len() > 0 {
        let t = index.drop_first();
        lemma_first_with_id(t, id);
        assert forall|j: int| 0 < j < index.len() implies index[j] == t[j - 1] by {}
    }
}

/// Resolves `id` against the version index.
pub fn find_version(index: &Vec<VersionIndexEntry>, id: &str) -> (r: Result<
    VersionIndexEntry,
    InstallError,
>)
    ensures
        (exists|j: int| 0 <= j < index@.len() && #[trigger] index@[j].id@ == id@) <==> r is Ok,
        r matches Ok(e) ==> exists|k: int|
            0 <= k < index@.len() && index@[k] == e && e.id@ == id@ && forall|j: int|
                0 <= j < k ==> #[trigger] index@[j].id@ != id@,
        r matches Err(e) ==> e matches InstallError::NotFound(s) && s@ == id@,
{
    let wanted = String::from_str(id);
    let mut i: usize = 0;
    while i < index.len()
        invariant
            0 <= i <= index@.len(),
            wanted@ == id@,
            forall|j: int| 0 <= j < i ==> #[trigger] index@[j].id@ != id@,
        decreases index@.len() - i,
    {
        if index[i].id == wanted {
            return Ok(VersionIndexEntry { id: index[i].id.clone(), url: index[i].url.clone() });
        }
        i = i + 1;
    }
    Err(InstallError::NotFound(wanted))
}

/// The stages of an install, in the order they run.
#[derive(Clone, Copy, Debug, PartialEq, Eq, Structural)]
pub enum Stage {
    FetchVersionManifest,
    ResolveVersionEntry,
    FetchVersionDescriptor,
    PersistVersionDescriptor,
    DownloadClient,
    DownloadLibraries,
    DownloadAssets,
    ExtractNatives,
    Complete,
    Failed,
}

/// The stage that runs after `s` succeeds; the terminal stages stay.
pub open spec fn successor(s: Stage) -> Stage {
    match s {
        Stage::FetchVersionManifest => Stage::ResolveVersionEntry,
        Stage::ResolveVersionEntry => Stage::FetchVersionDescriptor,
        Stage::FetchVersionDescriptor => Stage::PersistVersionDescriptor,
        Stage::PersistVersionDescriptor => Stage::DownloadClient,
        Stage::DownloadClient => Stage::DownloadLibraries,
        Stage::DownloadLibraries => Stage::DownloadAssets,
        Stage::DownloadAssets => Stage::ExtractNatives,
        Stage::ExtractNatives => Stage::Complete,
        Stage::Complete => Stage::Complete,
        Stage::Failed => Stage::Failed,
    }
}

pub open spec fn is_terminal(s: Stage) -> bool {
    s is Complete || s is Failed
}

/// The stage after `s` has run: its successor when it succeeded, `Failed`
/// when it did not. A terminal stage stays where it is.
pub open spec fn advance_spec(s: Stage, succeeded: bool) -> Stage {
    if is_terminal(s) {
        s
    } else if succeeded {
        successor(s)
    } else {
        Stage::Failed
    }
}

/// The status line announced as `s` begins, if it has one.
pub open spec fn status_spec(s: Stage) -> Option<Seq<char>> {
    match s {
        Stage::FetchVersionManifest => Some("Fetching Manifest..."@),
        Stage::DownloadClient => Some("Downloading Client..."@),
        Stage::DownloadLibraries => Some("Downloading Libraries..."@),
        Stage::DownloadAssets => Some("Downloading Assets..."@),
        Stage::Complete => Some("Installation Complete!"@),
        _ => None,
    }
}

/// Moves an install on once `s` has run.
pub fn advance(s: Stage, succeeded: bool) -> (r: Stage)
    ensures
        r == advance_spec(s, succeeded),
{
    match s {
        Stage::Complete => Stage::Complete,
        Stage::Failed => Stage::Failed,
        _ => if succeeded {
            match s {
                Stage::FetchVersionManifest => Stage::ResolveVersionEntry,
                Stage::ResolveVersionEntry => Stage::FetchVersionDescriptor,
                Stage::FetchVersionDescriptor => Stage::PersistVersionDescriptor,
                Stage::PersistVersionDescriptor => Stage::DownloadClient,
                Stage::DownloadClient => Stage::DownloadLibraries,
                Stage::DownloadLibraries => Stage::DownloadAssets,
                Stage::DownloadAssets => Stage::ExtractNatives,
                _ => Stage::Complete,
            }
        } else {
            Stage::Failed
        },
    }
}

/// The status line to announce as `s` begins.
pub fn status_message(s: Stage) -> (r: Option<String>)
    ensures
        r matches Some(m) ==> status_spec(s) == Some(m@),
        r is None ==> status_spec(s) is None,
{
    match s {
        Stage::FetchVersionManifest => Some(String::from_str("Fetching Manifest...")),
        Stage::DownloadClient => Some(String::from_str("Downloading Client...")),
        Stage::DownloadLibraries => Some(String::from_str("Downloading Libraries...")),
        Stage::DownloadAssets => Some(String::from_str("Downloading Assets...")),
        Stage::Complete => Some(String::from_str("Installation Complete!")),
        _ => None,
    }
}

/// Stages left before `Complete` on a run that keeps succeeding.
pub open spec fn stages_left(s: Stage) -> nat {
    match s {
        Stage::FetchVersionManifest => 8,
        Stage::ResolveVersionEntry => 7,
        Stage::FetchVersionDescriptor => 6,
        Stage::PersistVersionDescriptor => 5,
        Stage::DownloadClient => 4,
        Stage::DownloadLibraries => 3,
        Stage::DownloadAssets => 2,
        Stage::ExtractNatives => 1,
        _ => 0,
    }
}

pub open spec fn opt_line(o: Option<Seq<char>>) -> Seq<Seq<char>> {
    match o {
        None => Seq::empty(),
        Some(m) => seq![m],
    }
}

/// The status lines of a run from `s` on in which every stage succeeds.
pub open spec fn run_statuses(s: Stage) -> Seq<Seq<char>>
    decreases stages_left(s),
{
    if is_terminal(s) {
        opt_line(status_spec(s))
    } else {
        opt_line(status_spec(s)) + run_statuses(successor(s))
    }
}

/// A run in which every stage succeeds ends `Complete` and announces exactly
/// the five status lines, in order, and no error.
pub proof fn lemma_successful_run_statuses()
    ensures
        run_statuses(Stage::FetchVersionManifest) == seq![
            "Fetching Manifest..."@,
            "Downloading Client..."@,
            "Downloading Libraries..."@,
            "Downloading Assets..."@,
            "Installation Complete!"@,
        ],
{
    let c = opt_line(status_spec(Stage::Complete));
    assert(run_statuses(Stage::Complete) == c);
    assert(opt_line(status_spec(Stage::ExtractNatives)) =~= Seq::<Seq<char>>::empty());
    assert(run_statuses(Stage::ExtractNatives) =~= c);
    assert(run_statuses(Stage::DownloadAssets) =~= seq!["Downloading Assets..."@] + c);
    assert(run_statuses(Stage::DownloadLibraries) =~= seq![
        "Downloading Libraries..."@,
        "Downloading Assets..."@,
    ] + c);
    assert(run_statuses(Stage::DownloadClient) =~= seq![
        "Downloading Client..."@,
        "Downloading Libraries..."@,
        "Downloading Assets..."@,
    ] + c);
    assert(run_statuses(Stage::PersistVersionDescriptor) == run_statuses(Stage::DownloadClient));
    assert(run_statuses(Stage::FetchVersionDescriptor) == run_statuses(Stage::DownloadClient));
    assert(run_statuses(Stage::ResolveVersionEntry) == run_statuses(Stage::DownloadClient));
    assert(run_statuses(Stage::FetchVersionManifest) =~= seq![
        "Fetching Manifest..."@,
        "Downloading Client..."@,
        "Downloading Libraries..."@,
        "Downloading Assets..."@,
        "Installation Complete!"@,
    ]);
}

/// A failure is final: once a stage fails, no later stage (no download)
/// runs, whatever is reported afterwards.
pub proof fn lemma_failure_is_final(s: Stage, later: bool)
    requires
        !is_terminal(s),
    ensures
        advance_spec(s, false) == Stage::Failed,
        advance_spec(Stage::Failed, later) == Stage::Failed,
        status_spec(Stage::Failed) is None,
{
}

} // verus!
