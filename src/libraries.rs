use vstd::prelude::*;
use crate::model::{Artifact, Library};
use crate::platform::{PlatformKey, os_key_spec, get_os_key};
use crate::rules::{library_allowed, rules_view, is_library_allowed};

verus! {

/// The value stored under `key` in a key/value table: the first pair with that
/// key.
pub open spec fn table_get<T>(t: Seq<(String, T)>, key: Seq<char>) -> Option<T>
    decreases t.len(),
{
    if t.len() == 0 {
        None
    } else if t[0].0@ == key {
        Some(t[0].1)
    } else {
        table_get(t.drop_first(), key)
    }
}

/// The native archive a library declares for `p`: its `natives` table names a
/// classifier for `p`'s key, and its classifier table holds that classifier.
pub open spec fn native_artifact_spec(lib: Library, p: PlatformKey) -> Option<Artifact> {
    match lib.natives {
        None => None,
        Some(natives) => match table_get(natives@, os_key_spec(p)) {
            None => None,
            Some(ck) => match lib.classifiers {
                None => None,
                Some(cls) => table_get(cls@, ck@),
            },
        },
    }
}

pub open spec fn opt_seq<T>(o: Option<T>) -> Seq<T> {
    match o {
        None => Seq::empty(),
        Some(x) => seq![x],
    }
}

/// Files one library contributes on `p`: nothing when its rules exclude `p`;
/// otherwise its main artifact, if any, then its native archive, if any.
pub open spec fn library_downloads_spec(lib: Library, p: PlatformKey) -> Seq<Artifact> {
    if library_allowed(rules_view(lib.rules), p) {
        opt_seq(lib.artifact) + opt_seq(native_artifact_spec(lib, p))
    } else {
        Seq::empty()
    }
}

/// Files a library list contributes on `p`, library by library.
pub open spec fn plan_downloads_spec(libs: Seq<Library>, p: PlatformKey) -> Seq<Artifact>
    decreases libs.len(),
{
    if libs.len() == 0 {
        Seq::empty()
    } else {
        plan_downloads_spec(libs.drop_last(), p) + library_downloads_spec(libs.last(), p)
    }
}

/// Native archives to unpack on `p`: the native archive of each eligible
/// library that declares one, in library order.
pub open spec fn native_archives_spec(libs: Seq<Library>, p: PlatformKey) -> Seq<Artifact>
    decreases libs.len(),
{
    if libs.len() == 0 {
        Seq::empty()
    } else {
        let lib = libs.last();
        native_archives_spec(libs.drop_last(), p) + if library_allowed(rules_view(lib.rules), p) {
            opt_seq(native_artifact_spec(lib, p))
        } else {
            Seq::empty()
        }
    }
}

/// A copy of `a`.
pub fn copy_artifact(a: &Artifact) -> (r: Artifact)
    ensures
        r == *a,
{
    Artifact { url: a.url.clone(), path: a.path.clone() }
}

/// Looks `key` up in a classifier table.
pub fn classifier_get(t: &Vec<(String, Artifact)>, key: &String) -> (r: Option<Artifact>)
    ensures
        r == table_get(t@, key@),
{
    let mut i: usize = 0;
    assert(t@.subrange(0, t@.len() as int) =~= t@);
    while i < t.len()
        invariant
            0 <= i <= t@.len(),
            table_get(t@, key@) == table_get(t@.subrange(i as int, t@.len() as int), key@),
        decreases t@.len() - i,
    {
        let ghost rest = t@.subrange(i as int, t@.len() as int);
        assert(rest.drop_first() =~= t@.subrange(i as int + 1, t@.len() as int));
        if t[i].0 == *key {
            return Some(copy_artifact(&t[i].1));
        }
        i = i + 1;
    }
    None
}

/// Looks `key` up in a `natives` table.
pub fn natives_get(t: &Vec<(String, String)>, key: &String) -> (r: Option<String>)
    ensures
        r == table_get(t@, key@),
{
    let mut i: usize = 0;
    assert(t@.subrange(0, t@.len() as int) =~= t@);
    while i < t.len()
        invariant
            0 <= i <= t@.len(),
            table_get(t@, key@) == table_get(t@.subrange(i as int, t@.len() as int), key@),
        decreases t@.len() - i,
    {
        let ghost rest = t@.subrange(i as int, t@.len() as int);
        assert(rest.drop_first() =~= t@.subrange(i as int + 1, t@.len() as int));
        if t[i].0 == *key {
            return Some(t[i].1.clone());
        }
        i = i + 1;
    }
    None
}

/// The native archive `lib` declares for `p`, whatever its rules say.
pub fn native_artifact(lib: &Library, p: PlatformKey) -> (r: Option<Artifact>)
    ensures
        r == native_artifact_spec(*lib, p),
{
    match &lib.natives {
        None => None,
        Some(natives) => {
            let key = get_os_key(p);
            match natives_get(natives, &key) {
                None => None,
                Some(ck) => match &lib.classifiers {
                    None => None,
                    Some(cls) => classifier_get(cls, &ck),
                },
            }
        },
    }
}

/// The files `lib` contributes on `p`.
pub fn library_downloads(lib: &Library, p: PlatformKey) -> (r: Vec<Artifact>)
    ensures
        r@ == library_downloads_spec(*lib, p),
{
    let mut r: Vec<Artifact> = Vec::new();
    if is_library_allowed(&lib.rules, p) {
        match &lib.artifact {
            Some(a) => r.push(copy_artifact(a)),
            None => {},
        }
        let ghost first = r@;
        match native_artifact(lib, p) {
            Some(a) => r.push(a),
            None => {},
        }
        assert(r@ =~= first + opt_seq(native_artifact_spec(*lib, p)));
        assert(first =~= opt_seq(lib.artifact));
    }
    assert(r@ =~= library_downloads_spec(*lib, p));
    r
}

/// Every file the libraries contribute on `p`, in library order. Libraries
/// that share an artifact path share its storage; the list keeps both.
pub fn plan_library_downloads(libs: &Vec<Library>, p: PlatformKey) -> (r: Vec<Artifact>)
    ensures
        r@ == plan_downloads_spec(libs@, p),
{
    let mut r: Vec<Artifact> = Vec::new();
    let mut i: usize = 0;
    while i < libs.len()
        invariant
            0 <= i <= libs@.len(),
            r@ == plan_downloads_spec(libs@.subrange(0, i as int), p),
        decreases libs@.len() - i,
    {
        let mut more = library_downloads(&libs[i], p);
        r.append(&mut more);
        proof {
            let s = libs@.subrange(0, i as int + 1);
            assert(s.drop_last() =~= libs@.subrange(0, i as int));
            assert(s.last() == libs@[i as int]);
        }
        i = i + 1;
    }
    assert(libs@.subrange(0, libs@.len() as int) =~= libs@);
    r
}

/// The native archives to unpack on `p`, in library order.
pub fn plan_native_archives(libs: &Vec<Library>, p: PlatformKey) -> (r: Vec<Artifact>)
    ensures
        r@ == native_archives_spec(libs@, p),
{
    let mut r: Vec<Artifact> = Vec::new();
    let mut i: usize = 0;
    while i < libs.len()
        invariant
            0 <= i <= libs@.len(),
            r@ == native_archives_spec(libs@.subrange(0, i as int), p),
        decreases libs@.len() - i,
    {
        let ghost before = r@;
        if is_library_allowed(&libs[i].rules, p) {
            match native_artifact(&libs[i], p) {
                Some(a) => r.push(a),
                None => {},
            }
        }
        proof {
            let s = libs@.subrange(0, i as int + 1);
            assert(s.drop_last() =~= libs@.subrange(0, i as int));
            assert(s.last() == libs@[i as int]);
            let lib = libs@[i as int];
            let extra = if library_allowed(rules_view(lib.rules), p) {
                opt_seq(native_artifact_spec(lib, p))
            } else {
                Seq::empty()
            };
            assert(r@ =~= before + extra);
        }
        i = i + 1;
    }
    assert(libs@.subrange(0, libs@.len() as int) =~= libs@);
    r
}

/// A file name whose extension is `jar`: it ends in `.jar` with a non-empty
/// stem before it (a bare `.jar` is a hidden file without extension).
pub open spec fn is_jar_name(name: Seq<char>) -> bool {
    name.len() > 4 && name.subrange(name.len() - 4, name.len() as int) == ".jar"@
}

/// Whether `file_name` names a jar to put on the class path.
pub fn is_jar_file_name(file_name: &str) -> (b: bool)
    ensures
        b == is_jar_name(file_name@),
{
    let n = file_name.unicode_len();
    if n <= 4 {
        return false;
    }
    let tail = String::from_str(file_name.substring_char(n - 4, n));
    let jar = String::from_str(".jar");
    tail == jar
}

/// Eligibility is decided the same way for downloading and for unpacking:
/// every native archive that extraction opens is one the download plan
/// fetches.
pub proof fn lemma_native_archives_are_downloaded(libs: Seq<Library>, p: PlatformKey)
    ensures
        forall|k: int|
            0 <= k < native_archives_spec(libs, p).len() ==> plan_downloads_spec(libs, p).contains(
                #[trigger] native_archives_spec(libs, p)[k],
            ),
    decreases libs.len(),
{
    if libs.len() > 0 {
        let d = libs.drop_last();
        let lib = libs.last();
        lemma_native_archives_are_downloaded(d, p);
        let prev = plan_downloads_spec(d, p);
        let plan = plan_downloads_spec(libs, p);
        let archives = native_archives_spec(libs, p);
        let prev_nat = native_archives_spec(d, p);
        assert forall|k: int| 0 <= k < archives.len() implies plan.contains(#[trigger] archives[k]) by {
            if k < prev_nat.len() {
                assert(archives[k] == prev_nat[k]);
                let i = choose|i: int| 0 <= i < prev.len() && prev[i] == prev_nat[k];
                assert(plan[i] == prev[i]);
            } else {
                let own = library_downloads_spec(lib, p);
                let a = native_artifact_spec(lib, p).unwrap();
                assert(archives[k] == a);
                assert(own.last() == a);
                assert(plan[plan.len() - 1] == a);
            }
        }
    }
}

} // verus!
