use vstd::prelude::*;

verus! {

/// The operating system an install is prepared for.
#[derive(Clone, Copy, Debug, PartialEq, Eq, Structural)]
pub enum PlatformKey {
    Windows,
    MacOS,
    Linux,
}

/// The key manifests use for a platform in `os.name` conditions and in
/// `natives` tables.
pub open spec fn os_key_spec(p: PlatformKey) -> Seq<char> {
    match p {
        PlatformKey::Windows => "windows"@,
        PlatformKey::MacOS => "osx"@,
        PlatformKey::Linux => "linux"@,
    }
}

/// The separator placed between class path entries on a platform.
pub open spec fn classpath_separator_spec(p: PlatformKey) -> Seq<char> {
    match p {
        PlatformKey::Windows => ";"@,
        _ => ":"@,
    }
}

/// Manifest key of `p`.
pub fn get_os_key(p: PlatformKey) -> (r: String)
    ensures
        r@ == os_key_spec(p),
{
    match p {
        PlatformKey::Windows => String::from_str("windows"),
        PlatformKey::MacOS => String::from_str("osx"),
        PlatformKey::Linux => String::from_str("linux"),
    }
}

/// Class path separator of `p`.
pub fn get_classpath_separator(p: PlatformKey) -> (r: String)
    ensures
        r@ == classpath_separator_spec(p),
{
    match p {
        PlatformKey::Windows => String::from_str(";"),
        _ => String::from_str(":"),
    }
}

} // verus!
