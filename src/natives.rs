use vstd::prelude::*;
use std::io::Cursor;
use zip::ZipArchive;
use zip::result::ZipError;

verus! {

#[verifier::external_type_specification]
#[verifier::external_body]
#[verifier::reject_recursive_types(R)]
pub struct ExZipArchive<R>(ZipArchive<R>);

#[verifier::external_type_specification]
#[verifier::external_body]
#[verifier::reject_recursive_types(T)]
pub struct ExCursor<T>(Cursor<T>);

#[verifier::external_type_specification]
#[verifier::external_body]
pub struct ExZipError(ZipError);

/// The bytes an opened archive reads from.
pub uninterp spec fn archive_bytes(a: ZipArchive<Cursor<Vec<u8>>>) -> Seq<u8>;

/// The number of entries the central directory of `bytes` lists; `None` where
/// `bytes` is not a readable archive.
pub uninterp spec fn zip_entry_count(bytes: Seq<u8>) -> Option<nat>;

/// Entry `i` of the archive `bytes` read out: its name and decompressed
/// contents; `None` where it cannot be read.
pub uninterp spec fn zip_entry(bytes: Seq<u8>, i: nat) -> Option<(Seq<char>, Seq<u8>)>;

/// Every entry of the archive `bytes`, in central directory order; `None`
/// where the archive cannot be opened or one of its entries cannot be read.
pub open spec fn zip_entries_of(bytes: Seq<u8>) -> Option<Seq<(Seq<char>, Seq<u8>)>> {
    match zip_entry_count(bytes) {
        None => None,
        Some(n) => if forall|i: nat| i < n ==> #[trigger] zip_entry(bytes, i) is Some {
            Some(Seq::new(n, |i: int| zip_entry(bytes, i as nat)->Some_0))
        } else {
            None
        },
    }
}

/// One entry read out of an archive.
#[derive(Debug)]
pub struct ArchiveEntry {
    pub name: String,
    pub is_dir: bool,
    pub data: Vec<u8>,
}

/// A file to be written into the natives directory under `name`.
#[derive(Debug)]
pub struct NativeFile {
    pub name: String,
    pub data: Vec<u8>,
}

pub open spec fn file_view(f: NativeFile) -> (Seq<char>, Seq<u8>) {
    (f.name@, f.data@)
}

/// Why an archive could not be unpacked.
#[derive(Debug)]
pub enum ExtractError {
    /// The bytes are not a readable archive.
    InvalidArchive(String),
    /// The entry at this index could not be read.
    UnreadableEntry(usize, String),
}

impl ExtractError {
    /// The cause, as the archive reader gave it.
    pub fn message(&self) -> (r: String)
        ensures
            r@ == match *self {
                ExtractError::InvalidArchive(m) => m@,
                ExtractError::UnreadableEntry(_, m) => m@,
            },
    {
        match self {
            ExtractError::InvalidArchive(m) => m.clone(),
            ExtractError::UnreadableEntry(_, m) => m.clone(),
        }
    }
}

/// An entry name that ends in a path separator denotes a directory.
pub open spec fn dir_name(n: Seq<char>) -> bool {
    n.len() > 0 && (n.last() == '/' || n.last() == '\\')
}

/// An entry inside the archive's metadata directory `META-INF`.
pub open spec fn is_metadata_name(n: Seq<char>) -> bool {
    n.len() >= 8 && n.subrange(0, 8) == "META-INF"@ && (n.len() == 8 || n[8] == '/' || n[8]
        == '\\')
}

pub open spec fn is_separator(c: char) -> bool {
    c == '/' || c == '\\'
}

/// A `..` component starts at `k`.
pub open spec fn parent_component_at(n: Seq<char>, k: int) -> bool {
    &&& 0 <= k
    &&& k + 2 <= n.len()
    &&& n[k] == '.'
    &&& n[k + 1] == '.'
    &&& (k == 0 || is_separator(n[k - 1]))
    &&& (k + 2 == n.len() || is_separator(n[k + 2]))
}

/// A name that stays inside the directory it is joined to: not empty, not
/// rooted, without a drive prefix (`C:`) and without a `..` component.
pub open spec fn contained_name(n: Seq<char>) -> bool {
    &&& n.len() > 0
    &&& !is_separator(n[0])
    &&& !(n.len() >= 2 && n[1] == ':')
    &&& forall|k: int| 0 <= k < n.len() ==> !#[trigger] parent_component_at(n, k)
}

/// Whether an entry is copied into the natives directory.
pub open spec fn extractable(n: Seq<char>) -> bool {
    !is_metadata_name(n) && !dir_name(n) && contained_name(n)
}

/// The entries, in order, that survive the extraction filter.
pub open spec fn kept_entries(es: Seq<(Seq<char>, Seq<u8>)>) -> Seq<(Seq<char>, Seq<u8>)>
    decreases es.len(),
{
    if es.len() == 0 {
        Seq::empty()
    } else {
        kept_entries(es.drop_last()) + if extractable(es.last().0) {
            seq![es.last()]
        } else {
            Seq::empty()
        }
    }
}

/// Relies on zip::ZipArchive::new: reads the central directory of an
/// in-memory archive; it fails exactly where the bytes are no archive.
#[verifier::external_body]
fn open_archive(bytes: &Vec<u8>) -> (r: Result<ZipArchive<Cursor<Vec<u8>>>, ZipError>)
    ensures
        r is Err ==> zip_entry_count(bytes@) is None,
        r matches Ok(a) ==> archive_bytes(a) == bytes@ && zip_entry_count(bytes@) is Some,
{
    ZipArchive::new(Cursor::new(bytes.clone()))
}

/// Relies on zip::ZipArchive::len: the number of central directory entries.
#[verifier::external_body]
fn archive_len(a: &ZipArchive<Cursor<Vec<u8>>>) -> (r: usize)
    ensures
        zip_entry_count(archive_bytes(*a)) == Some(r as nat),
{
    a.len()
}

/// Relies on zip::ZipArchive::by_index: the entry at `i`, with its name, its
/// directory flag (`ZipFile::is_dir`: the name ends in `/` or `\`) and its
/// decompressed bytes (`Read::read_to_end`). Reading moves the reader only.
#[verifier::external_body]
fn read_entry(a: &mut ZipArchive<Cursor<Vec<u8>>>, i: usize) -> (r: Result<ArchiveEntry, ZipError>)
    ensures
        archive_bytes(*final(a)) == archive_bytes(*old(a)),
        r is Err ==> zip_entry(archive_bytes(*old(a)), i as nat) is None,
        r matches Ok(e) ==> zip_entry(archive_bytes(*old(a)), i as nat) == Some(
            (e.name@, e.data@),
        ) && e.is_dir == dir_name(e.name@),
{
    let mut f = a.by_index(i)?;
    let mut data: Vec<u8> = Vec::new();
    std::io::Read::read_to_end(&mut f, &mut data)?;
    Ok(ArchiveEntry { name: f.name().to_string(), is_dir: f.is_dir(), data })
}

/// Relies on ZipError's `Display`: a readable cause.
#[verifier::external_body]
fn zip_error_text(e: &ZipError) -> (r: String) {
    e.to_string()
}

/// Whether `name` lies in the metadata directory.
pub fn is_metadata_entry(name: &str) -> (b: bool)
    ensures
        b == is_metadata_name(name@),
{
    let n = name.unicode_len();
    if n < 8 {
        return false;
    }
    let head = String::from_str(name.substring_char(0, 8));
    let meta = String::from_str("META-INF");
    if !(head == meta) {
        return false;
    }
    if n == 8 {
        return true;
    }
    let c = name.get_char(8);
    c == '/' || c == '\\'
}

fn separator(c: char) -> (b: bool)
    ensures
        b == is_separator(c),
{
    c == '/' || c == '\\'
}

/// Whether `name` stays inside the directory it is joined to.
pub fn is_contained_name(name: &str) -> (b: bool)
    ensures
        b == contained_name(name@),
{
    let n = name.unicode_len();
    if n == 0 {
        return false;
    }
    if separator(name.get_char(0)) {
        return false;
    }
    if n >= 2 && name.get_char(1) == ':' {
        return false;
    }
    let mut k: usize = 0;
    while k < n
        invariant
            n == name@.len(),
            0 <= k <= n,
            forall|j: int| 0 <= j < k ==> !#[trigger] parent_component_at(name@, j),
        decreases n - k,
    {
        let c = name.get_char(k);
        if c == '.' && k + 1 < n && name.get_char(k + 1) == '.' {
            let before = k == 0 || separator(name.get_char(k - 1));
            let after = k + 2 == n || separator(name.get_char(k + 2));
            if before && after {
                assert(parent_component_at(name@, k as int));
                return false;
            }
        }
        k = k + 1;
    }
    true
}

/// Whether an entry named `name`, a directory when `is_dir`, is copied out.
pub fn should_extract(name: &str, is_dir: bool) -> (b: bool)
    ensures
        b == (!is_dir && !is_metadata_name(name@) && contained_name(name@)),
{
    !is_dir && !is_metadata_entry(name) && is_contained_name(name)
}

/// Unpacks an archive: every entry outside the metadata directory that is
/// not a directory, under its own name, with its contents, in archive order.
/// An entry whose name would land outside the natives directory (empty,
/// rooted, with a drive prefix or a `..` component) is left out as well. Fails exactly where the archive or one of its
/// entries cannot be read.
pub fn extract_archive(bytes: &Vec<u8>) -> (r: Result<Vec<NativeFile>, ExtractError>)
    ensures
        r is Ok <==> zip_entries_of(bytes@) is Some,
        r matches Ok(files) ==> files@.map_values(|f: NativeFile| file_view(f)) == kept_entries(
            zip_entries_of(bytes@)->Some_0,
        ),
        r matches Ok(files) ==> forall|k: int|
            0 <= k < files@.len() ==> extractable(#[trigger] files@[k].name@),
{
    let ghost bv = bytes@;
    let mut archive = match open_archive(bytes) {
        Ok(a) => a,
        Err(e) => {
            return Err(ExtractError::InvalidArchive(zip_error_text(&e)));
        },
    };
    let n = archive_len(&archive);
    let mut files: Vec<NativeFile> = Vec::new();
    let mut i: usize = 0;
    while i < n
        invariant
            0 <= i <= n,
            archive_bytes(archive) == bv,
            bv == bytes@,
            zip_entry_count(bv) == Some(n as nat),
            forall|k: nat| k < i ==> #[trigger] zip_entry(bv, k) is Some,
            files@.map_values(|f: NativeFile| file_view(f)) == kept_entries(
                Seq::new(i as nat, |k: int| zip_entry(bv, k as nat)->Some_0),
            ),
            forall|k: int| 0 <= k < files@.len() ==> extractable(#[trigger] files@[k].name@),
        decreases n - i,
    {
        let entry = match read_entry(&mut archive, i) {
            Ok(e) => e,
            Err(e) => {
                assert(zip_entry(bv, i as nat) is None);
                assert(!(forall|k: nat| k < n ==> #[trigger] zip_entry(bv, k) is Some));
                assert(zip_entries_of(bv) is None);
                return Err(ExtractError::UnreadableEntry(i, zip_error_text(&e)));
            },
        };
        let ghost before = files@;
        proof {
            let s = Seq::new(i as nat + 1, |k: int| zip_entry(bv, k as nat)->Some_0);
            assert(s.drop_last() =~= Seq::new(i as nat, |k: int| zip_entry(bv, k as nat)->Some_0));
            assert(s.last() == (entry.name@, entry.data@));
        }
        if should_extract(entry.name.as_str(), entry.is_dir) {
            let ghost ev = (entry.name@, entry.data@);
            files.push(NativeFile { name: entry.name, data: entry.data });
            assert(files@.map_values(|f: NativeFile| file_view(f)) =~= before.map_values(
                |f: NativeFile| file_view(f),
            ).push(ev));
        }
        i = i + 1;
    }
    assert(Seq::new(n as nat, |k: int| zip_entry(bv, k as nat)->Some_0) =~= zip_entries_of(
        bv,
    )->Some_0);
    Ok(files)
}

/// One step of rebuilding the natives directory.
#[derive(Debug)]
pub enum DirOp {
    /// Remove the directory with everything in it and create it empty.
    Reset,
    /// Write a file, replacing one of the same name.
    Write(NativeFile),
}

/// The directory, as a map from file name to contents, after one step.
pub open spec fn apply_op(d: Map<Seq<char>, Seq<u8>>, op: DirOp) -> Map<Seq<char>, Seq<u8>> {
    match op {
        DirOp::Reset => Map::empty(),
        DirOp::Write(f) => d.insert(f.name@, f.data@),
    }
}

/// The directory after the steps `ops`, in order.
pub open spec fn apply_ops(d: Map<Seq<char>, Seq<u8>>, ops: Seq<DirOp>) -> Map<Seq<char>, Seq<u8>>
    decreases ops.len(),
{
    if ops.len() == 0 {
        d
    } else {
        apply_op(apply_ops(d, ops.drop_last()), ops.last())
    }
}

/// An extraction pass: a reset followed by writes only.
pub open spec fn is_extraction_pass(ops: Seq<DirOp>) -> bool {
    &&& ops.len() >= 1
    &&& ops[0] is Reset
    &&& forall|k: int| 1 <= k < ops.len() ==> #[trigger] ops[k] is Write
}

/// The files the writes of `ops` write, name and contents, in order.
pub open spec fn written_files(ops: Seq<DirOp>) -> Seq<(Seq<char>, Seq<u8>)>
    decreases ops.len(),
{
    if ops.len() == 0 {
        Seq::empty()
    } else {
        written_files(ops.drop_last()) + match ops.last() {
            DirOp::Write(f) => seq![file_view(f)],
            DirOp::Reset => Seq::empty(),
        }
    }
}

/// The names the writes of `ops` use, in order.
pub open spec fn written_names(ops: Seq<DirOp>) -> Seq<Seq<char>> {
    written_files(ops).map_values(|p: (Seq<char>, Seq<u8>)| p.0)
}

/// The files the archives contribute, archive after archive; `None` where
/// one of them cannot be read.
pub open spec fn archives_files(archives: Seq<Vec<u8>>) -> Option<Seq<(Seq<char>, Seq<u8>)>>
    decreases archives.len(),
{
    if archives.len() == 0 {
        Some(Seq::empty())
    } else {
        match (archives_files(archives.drop_last()), zip_entries_of(archives.last()@)) {
            (Some(s), Some(es)) => Some(s + kept_entries(es)),
            _ => None,
        }
    }
}

proof fn lemma_archives_files_fail(archives: Seq<Vec<u8>>, j: int)
    requires
        0 <= j < archives.len(),
        zip_entries_of(archives[j]@) is None,
    ensures
        archives_files(archives) is None,
    decreases archives.len(),
{
    if j < archives.len() - 1 {
        let d = archives.drop_last();
        assert(d[j] == archives[j]);
        lemma_archives_files_fail(d, j);
    }
}

/// The steps that rebuild the natives directory from the native archives:
/// a reset, then the extractable entries of each archive in turn. Fails
/// exactly where one archive cannot be read; with no archive it is the reset
/// alone.
pub fn plan_extraction(archives: &Vec<Vec<u8>>) -> (r: Result<Vec<DirOp>, ExtractError>)
    ensures
        r is Ok <==> archives_files(archives@) is Some,
        archives@.len() == 0 ==> (r matches Ok(ops) && ops@.len() == 1 && ops@[0] is Reset),
        r matches Ok(ops) ==> is_extraction_pass(ops@),
        r matches Ok(ops) ==> written_files(ops@) == archives_files(archives@)->Some_0,
        r matches Ok(ops) ==> ops@.len() == 1 + written_files(ops@).len(),
        r matches Ok(ops) ==> forall|k: int|
            1 <= k < ops@.len() ==> (#[trigger] ops@[k] matches DirOp::Write(f) && extractable(
                f.name@,
            )),
{
    let mut ops: Vec<DirOp> = Vec::new();
    ops.push(DirOp::Reset);
    assert(written_files(ops@) =~= Seq::<(Seq<char>, Seq<u8>)>::empty()) by {
        assert(ops@.drop_last() =~= Seq::<DirOp>::empty());
        reveal_with_fuel(written_files, 2);
    }
    assert(archives@.subrange(0, 0) =~= Seq::<Vec<u8>>::empty());
    let mut j: usize = 0;
    while j < archives.len()
        invariant
            0 <= j <= archives@.len(),
            is_extraction_pass(ops@),
            archives_files(archives@.subrange(0, j as int)) == Some(written_files(ops@)),
            ops@.len() == 1 + written_files(ops@).len(),
            forall|k: int|
                1 <= k < ops@.len() ==> (#[trigger] ops@[k] matches DirOp::Write(f) && extractable(
                    f.name@,
                )),
        decreases archives@.len() - j,
    {
        proof {
            let s = archives@.subrange(0, j as int + 1);
            assert(s.drop_last() =~= archives@.subrange(0, j as int));
            assert(s.last() == archives@[j as int]);
        }
        let files = extract_archive(&archives[j]);
        let mut files = match files {
            Ok(f) => f,
            Err(e) => {
                proof {
                    lemma_archives_files_fail(archives@, j as int);
                }
                return Err(e);
            },
        };
        let ghost base = written_files(ops@);
        let ghost fviews = files@.map_values(|f: NativeFile| file_view(f));
        let mut t: usize = 0;
        let ghost all = files@;
        let total = files.len();
        while files.len() > 0
            invariant
                all.len() == total,
                is_extraction_pass(ops@),
                all.len() == t + files@.len(),
                files@ == all.subrange(t as int, all.len() as int),
                fviews == all.map_values(|f: NativeFile| file_view(f)),
                forall|k: int| 0 <= k < all.len() ==> extractable(#[trigger] all[k].name@),
                written_files(ops@) == base + fviews.subrange(0, t as int),
                ops@.len() == 1 + written_files(ops@).len(),
                forall|k: int|
                    1 <= k < ops@.len() ==> (#[trigger] ops@[k] matches DirOp::Write(f)
                        && extractable(f.name@)),
            decreases files@.len(),
        {
            let f = files.remove(0);
            let ghost before = ops@;
            ops.push(DirOp::Write(f));
            proof {
                assert(ops@.drop_last() =~= before);
                assert(all[t as int] == f);
                assert(fviews.subrange(0, t as int + 1) =~= fviews.subrange(0, t as int).push(
                    file_view(f),
                ));
                assert(files@ =~= all.subrange(t as int + 1, all.len() as int));
            }
            t = t + 1;
        }
        proof {
            assert(fviews.subrange(0, t as int) =~= fviews);
        }
        j = j + 1;
    }
    assert(archives@.subrange(0, archives@.len() as int) =~= archives@);
    Ok(ops)
}

proof fn lemma_pass_forgets_prior(d: Map<Seq<char>, Seq<u8>>, ops: Seq<DirOp>, n: int)
    requires
        is_extraction_pass(ops),
        1 <= n <= ops.len(),
    ensures
        apply_ops(d, ops.subrange(0, n)) == apply_ops(Map::empty(), ops.subrange(0, n)),
        forall|name: Seq<char>| #[trigger]
            apply_ops(d, ops.subrange(0, n)).contains_key(name) ==> written_names(
                ops.subrange(0, n),
            ).contains(name),
    decreases n,
{
    let s = ops.subrange(0, n);
    if n == 1 {
        assert(s.drop_last() =~= Seq::<DirOp>::empty());
        assert(apply_ops(d, s) =~= Map::empty());
        assert(apply_ops(Map::empty(), s) =~= Map::empty());
    } else {
        lemma_pass_forgets_prior(d, ops, n - 1);
        assert(s.drop_last() =~= ops.subrange(0, n - 1));
        assert(s.last() == ops[n - 1]);
        assert(ops[n - 1] is Write);
        let w = written_names(ops.subrange(0, n - 1));
        assert forall|name: Seq<char>| #[trigger]
            apply_ops(d, s).contains_key(name) implies written_names(s).contains(name) by {
            if let DirOp::Write(f) = ops[n - 1] {
                assert(written_files(s) == written_files(ops.subrange(0, n - 1)).push(file_view(f)));
                assert(written_names(s) =~= w.push(f.name@));
                if name != f.name@ {
                    let i = choose|i: int| 0 <= i < w.len() && w[i] == name;
                    assert(written_names(s)[i] == name);
                } else {
                    assert(written_names(s)[w.len() as int] == name);
                }
            }
        }
    }
}

/// Running an extraction pass leaves only what that pass writes: the result
/// does not depend on what the directory held before, not even on a
/// previous pass, and every file in it is one the pass wrote.
pub proof fn lemma_extraction_clears_prior(
    d: Map<Seq<char>, Seq<u8>>,
    first: Seq<DirOp>,
    second: Seq<DirOp>,
)
    requires
        is_extraction_pass(first),
        is_extraction_pass(second),
    ensures
        apply_ops(apply_ops(d, first), second) == apply_ops(Map::empty(), second),
        forall|name: Seq<char>| #[trigger]
            apply_ops(apply_ops(d, first), second).contains_key(name) ==> written_names(
                second,
            ).contains(name),
{
    let d1 = apply_ops(d, first);
    lemma_pass_forgets_prior(d1, second, second.len() as int);
    assert(second.subrange(0, second.len() as int) =~= second);
}

} // verus!
