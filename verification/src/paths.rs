//! Paths of the files and directories the toolbox uses.
use vstd::prelude::*;

use vstd::slice::slice_to_vec;
use vstd::utf8::encode_utf8;

use crate::text::owned;

verus! {

/// The separator of path components, `/`.
pub open spec fn separator() -> u8 {
    47u8
}

/// `base` with the relative component `comp` appended (as `Path::join` does):
/// a separator is added unless `base` is empty or already ends with one.
/// Paths are byte strings, as the operating system gives them.
pub open spec fn join_path(base: Seq<u8>, comp: Seq<u8>) -> Seq<u8> {
    if base.len() == 0 || base.last() == separator() {
        base + comp
    } else {
        base.push(separator()) + comp
    }
}

/// Appends the relative component `comp` (a name of the toolbox's own, so
/// UTF-8) to the path `base`.
pub fn path_join(base: &[u8], comp: &str) -> (r: Vec<u8>)
    ensures
        r@ == join_path(base@, encode_utf8(comp@)),
{
    let mut r = slice_to_vec(base);
    let n = base.len();
    if n > 0 && base[n - 1] != 47u8 {
        r.push(47u8);
    }
    let c = comp.as_bytes();
    let ghost start = r@;
    let mut i: usize = 0;
    while i < c.len()
        invariant
            i <= c@.len(),
            r@ == start + c@.take(i as int),
        decreases c@.len() - i,
    {
        r.push(c[i]);
        assert(c@.take(i + 1) =~= c@.take(i as int).push(c@[i as int]));
        i = i + 1;
    }
    assert(c@.take(c@.len() as int) =~= c@);
    r
}

/// The home directory of the user, from `dirs::home_dir` (on Linux `$HOME`, else
/// the password database), as the bytes of its path (`OsString::into_encoded_bytes`:
/// on Unix the path's own bytes); absent when it is unknown. Nothing is stated of
/// the result: it comes from the environment.
#[verifier::external_body]
pub(crate) fn home_dir() -> (r: Option<Vec<u8>>) {
    match dirs::home_dir() {
        Some(p) => Some(p.into_os_string().into_encoded_bytes()),
        None => None,
    }
}

/// The message when the home directory is unknown.
pub open spec fn no_home_message() -> Seq<char> {
    "Cannot find home directory"@
}

/// The directory that holds the credentials file, under `home`.
pub open spec fn config_dir_spec(home: Seq<u8>) -> Seq<u8> {
    join_path(join_path(home, encode_utf8(".config"@)), encode_utf8("deck-toolbox"@))
}

/// The credentials file in the directory of [`config_dir_spec`].
pub open spec fn password_file_spec(home: Seq<u8>) -> Seq<u8> {
    join_path(config_dir_spec(home), encode_utf8(".credentials"@))
}

/// The directory that the credentials file goes in, under the home directory.
pub fn config_dir_in(home: &[u8]) -> (r: Vec<u8>)
    ensures
        r@ == config_dir_spec(home@),
{
    let a = path_join(home, ".config");
    path_join(a.as_slice(), "deck-toolbox")
}

/// The credentials file, or the message when the home directory is unknown.
pub fn password_file_in(home: Option<Vec<u8>>) -> (r: Result<Vec<u8>, String>)
    ensures
        match home {
            Some(h) => r matches Ok(p) && p@ == password_file_spec(h@),
            None => r matches Err(e) && e@ == no_home_message(),
        },
{
    match home {
        Some(h) => {
            let d = config_dir_in(h.as_slice());
            Ok(path_join(d.as_slice(), ".credentials"))
        },
        None => Err(owned("Cannot find home directory")),
    }
}

/// The credentials file of the current user. Where the home directory comes
/// from is not stated: only the shape of the result.
pub fn password_file() -> (r: Result<Vec<u8>, String>)
    ensures
        match r {
            Ok(p) => exists|h: Seq<u8>| p@ == password_file_spec(h),
            Err(e) => e@ == no_home_message(),
        },
{
    let home = home_dir();
    let ghost h = home;
    let r = password_file_in(home);
    proof {
        if let Some(h) = h {
            assert(r->Ok_0@ == password_file_spec(h@));
        }
    }
    r
}

/// The directory on the host that scripts are copied to before running, under
/// `home` (it must be readable from outside the Flatpak sandbox).
pub open spec fn script_cache_dir_spec(home: Seq<u8>) -> Seq<u8> {
    join_path(
        join_path(join_path(home, encode_utf8(".cache"@)), encode_utf8("deck-toolbox"@)),
        encode_utf8("scripts"@),
    )
}

/// The script cache directory under `home`.
pub fn script_cache_dir_in(home: &[u8]) -> (r: Vec<u8>)
    ensures
        r@ == script_cache_dir_spec(home@),
{
    let a = path_join(home, ".cache");
    let b = path_join(a.as_slice(), "deck-toolbox");
    path_join(b.as_slice(), "scripts")
}

/// The script cache directory of the current user, or the message when the home
/// directory is unknown.
pub fn script_cache_dir() -> (r: Result<Vec<u8>, String>)
    ensures
        match r {
            Ok(p) => exists|h: Seq<u8>| p@ == script_cache_dir_spec(h),
            Err(e) => e@ == no_home_message(),
        },
{
    match home_dir() {
        Some(h) => {
            let d = script_cache_dir_in(h.as_slice());
            assert(d@ == script_cache_dir_spec(h@));
            Ok(d)
        },
        None => Err(owned("Cannot find home directory")),
    }
}

/// The directory that holds Steam's backup folders, under `home`.
pub open spec fn steam_share_dir_spec(home: Seq<u8>) -> Seq<u8> {
    join_path(join_path(home, encode_utf8(".local"@)), encode_utf8("share"@))
}

/// The directory that holds Steam's backup folders under `home`.
pub fn steam_share_dir_in(home: &[u8]) -> (r: Vec<u8>)
    ensures
        r@ == steam_share_dir_spec(home@),
{
    let a = path_join(home, ".local");
    path_join(a.as_slice(), "share")
}

/// The directory that holds Steam's backup folders for the current user, or the
/// message when the home directory is unknown.
pub fn steam_share_dir() -> (r: Result<Vec<u8>, String>)
    ensures
        match r {
            Ok(p) => exists|h: Seq<u8>| p@ == steam_share_dir_spec(h),
            Err(e) => e@ == no_home_message(),
        },
{
    match home_dir() {
        Some(h) => {
            let d = steam_share_dir_in(h.as_slice());
            assert(d@ == steam_share_dir_spec(h@));
            Ok(d)
        },
        None => Err(owned("Cannot find home directory")),
    }
}

} // verus!
