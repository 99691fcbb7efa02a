use vstd::prelude::*;

verus! {

/// A destination is satisfied when it exists with a non-zero length; anything
/// else (absent, or an empty placeholder) is fetched again.
pub open spec fn fetch_needed_for(exists: bool, len: nat) -> bool {
    !(exists && len > 0)
}

/// The same decision over the destination's contents (`None`: absent).
pub open spec fn fetch_needed_spec(dest: Option<Seq<u8>>) -> bool {
    match dest {
        None => fetch_needed_for(false, 0),
        Some(b) => fetch_needed_for(true, b.len()),
    }
}

/// The destination after one download-if-absent with `payload` as the body
/// the server would send.
pub open spec fn after_fetch(dest: Option<Seq<u8>>, payload: Seq<u8>) -> Option<Seq<u8>> {
    if fetch_needed_spec(dest) {
        Some(payload)
    } else {
        dest
    }
}

/// Network transfers one download-if-absent performs.
pub open spec fn transfers(dest: Option<Seq<u8>>) -> nat {
    if fetch_needed_spec(dest) {
        1
    } else {
        0
    }
}

/// Whether a destination that `exists` with `len` bytes must be fetched.
pub fn fetch_needed(exists: bool, len: u64) -> (b: bool)
    ensures
        b == fetch_needed_for(exists, len as nat),
{
    !(exists && len > 0)
}

/// Fetching twice performs at most one transfer (exactly one where the
/// destination was absent), and the second call leaves the destination as the
/// first one left it, provided the body fetched is not empty.
pub proof fn lemma_fetch_idempotent(dest: Option<Seq<u8>>, first: Seq<u8>, second: Seq<u8>)
    requires
        first.len() > 0,
    ensures
        transfers(after_fetch(dest, first)) == 0,
        after_fetch(after_fetch(dest, first), second) == after_fetch(dest, first),
        dest is None ==> transfers(dest) + transfers(after_fetch(dest, first)) == 1,
{
}

/// An existing zero-length destination counts as absent: it is fetched and
/// overwritten.
pub proof fn lemma_empty_destination_refetched(payload: Seq<u8>)
    ensures
        transfers(Some(Seq::<u8>::empty())) == 1,
        after_fetch(Some(Seq::<u8>::empty()), payload) == Some(payload),
{
}

} // verus!
