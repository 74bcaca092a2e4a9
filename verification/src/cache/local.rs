//! The layout of the local cache: `<cache>/build/<prefix>/` holds one zip
//! archive per framework.
use vstd::prelude::*;
use vstd::string::*;

use crate::text::opt_view;

verus! {

/// Tilde expansion: a path that is `~` or starts with `~/` gets `home` in
/// place of its `~` when there is a home directory; any other path stays as it is.
pub open spec fn tilde_spec(path: Seq<char>, home: Option<Seq<char>>) -> Seq<char> {
    if path.len() > 0 && path[0] == '~' && (path.len() == 1 || path[1] == '/') {
        match home {
            Some(h) => h + path.skip(1),
            None => path,
        }
    } else {
        path
    }
}

/// Tilde expansion, case by case: `~` alone becomes the home directory; a
/// path that starts with `~/` becomes the home directory followed by the rest
/// of the path from its slash; without a home directory, or for any path that
/// neither is `~` nor starts with `~/`, the path stays as it is.
pub proof fn lemma_tilde_cases(path: Seq<char>, home: Option<Seq<char>>)
    ensures
        path =~= seq!['~'] ==> tilde_spec(path, home) == match home {
            Some(h) => h,
            None => path,
        },
        path.len() >= 2 && path[0] == '~' && path[1] == '/' ==> tilde_spec(path, home) == match home {
            Some(h) => h + path.subrange(1, path.len() as int),
            None => path,
        },
        !(path.len() > 0 && path[0] == '~' && (path.len() == 1 || path[1] == '/')) ==> tilde_spec(
            path,
            home,
        ) == path,
{
    if path =~= seq!['~'] {
        if let Some(h) = home {
            assert(h + path.skip(1) =~= h);
        }
    }
    if path.len() >= 2 && path[0] == '~' && path[1] == '/' {
        assert(path.skip(1) =~= path.subrange(1, path.len() as int));
    }
}

/// Calls `dirs::home_dir` and gives the directory as text (`Path::display`).
/// The answer comes from the environment (`$HOME`, else the user database),
/// so nothing is stated of it.
#[verifier::external_body]
fn home_dir() -> (r: Option<String>) {
    match dirs::home_dir() {
        Some(p) => Some(p.display().to_string()),
        None => None,
    }
}

/// Calls `shellexpand::tilde_with_context` with `home` as the home directory.
/// Claimed, as its source shows on targets other than Windows: `~` alone or a
/// leading `~/` has its `~` replaced by `home` when there is one; any other
/// path, and any path when there is no home, comes back unchanged.
/// Platform: this holds on Unix targets (macOS, Linux), which the tool is for.
/// On Windows the function also expands a leading `~\`, which this contract
/// does not say.
#[verifier::external_body]
fn tilde_with_home(path: &str, home: Option<&str>) -> (r: String)
    ensures
        r@ == tilde_spec(path@, opt_view(home)),
{
    shellexpand::tilde_with_context(path, || home).into_owned()
}

/// `path` with a leading `~` expanded to `home`.
pub fn expand_tilde(path: &str, home: Option<&str>) -> (r: String)
    ensures
        r@ == tilde_spec(path@, opt_view(home)),
{
    tilde_with_home(path, home)
}

/// The local cache directory of a Punfile, with a leading `~` expanded to the
/// current user's home directory. Which home directory that is depends on the
/// environment; a path without a leading `~` is kept as it is.
pub fn expand_local_cache(local: &str) -> (r: String)
    ensures
        exists|home: Option<Seq<char>>| r@ == tilde_spec(local@, home),
        !(local@.len() > 0 && local@[0] == '~' && (local@.len() == 1 || local@[1] == '/'))
            ==> r@ == local@,
{
    let home = home_dir();
    let r = match &home {
        Some(h) => expand_tilde(local, Some(h.as_str())),
        None => expand_tilde(local, None),
    };
    proof {
        let h = match &home {
            Some(h) => Some(h@),
            None => None,
        };
        assert(r@ == tilde_spec(local@, h));
    }
    r
}

/// `<cache_dir>/build/<prefix>`: the directory that holds the archives of a prefix.
pub open spec fn build_dir_spec(cache_dir: Seq<char>, prefix: Seq<char>) -> Seq<char> {
    cache_dir + "/build/"@ + prefix
}

/// `<name>.xcframework`: the directory of a framework in the output folder and in an archive.
pub open spec fn framework_dir_spec(name: Seq<char>) -> Seq<char> {
    name + ".xcframework"@
}

/// `<cache_dir>/build/<prefix>/<name>.xcframework.zip`: where a download looks
/// for the archive of the framework `name`.
pub open spec fn download_archive_spec(cache_dir: Seq<char>, prefix: Seq<char>, name: Seq<char>) -> Seq<
    char,
> {
    build_dir_spec(cache_dir, prefix) + "/"@ + name + ".xcframework.zip"@
}

/// `<cache_dir>/build/<prefix>/<dir>.zip`: where an upload writes the archive
/// of the scanned framework directory `dir`.
pub open spec fn upload_archive_spec(cache_dir: Seq<char>, prefix: Seq<char>, dir: Seq<char>) -> Seq<
    char,
> {
    build_dir_spec(cache_dir, prefix) + "/"@ + dir + ".zip"@
}

/// `<output>/<name>.xcframework`: where a framework is extracted to.
pub open spec fn output_framework_spec(output: Seq<char>, name: Seq<char>) -> Seq<char> {
    output + "/"@ + framework_dir_spec(name)
}

/// The directory that holds the archives of `prefix` under the cache directory.
pub fn cache_build_dir(cache_dir: &str, prefix: &str) -> (r: String)
    ensures
        r@ == build_dir_spec(cache_dir@, prefix@),
{
    let mut r = cache_dir.to_owned();
    r.append("/build/");
    r.append(prefix);
    r
}

/// `<name>.xcframework`.
pub fn framework_dir_name(name: &str) -> (r: String)
    ensures
        r@ == framework_dir_spec(name@),
{
    let mut r = name.to_owned();
    r.append(".xcframework");
    r
}

/// The archive that a download of the framework `name` looks for.
pub fn download_archive_path(cache_dir: &str, prefix: &str, name: &str) -> (r: String)
    ensures
        r@ == download_archive_spec(cache_dir@, prefix@, name@),
{
    let mut r = cache_build_dir(cache_dir, prefix);
    r.append("/");
    r.append(name);
    r.append(".xcframework.zip");
    r
}

/// The archive that an upload of the framework directory `dir` writes.
pub fn upload_archive_path(cache_dir: &str, prefix: &str, dir: &str) -> (r: String)
    ensures
        r@ == upload_archive_spec(cache_dir@, prefix@, dir@),
{
    let mut r = cache_build_dir(cache_dir, prefix);
    r.append("/");
    r.append(dir);
    r.append(".zip");
    r
}

/// Where the framework `name` is extracted to in the output folder.
pub fn output_framework_path(output: &str, name: &str) -> (r: String)
    ensures
        r@ == output_framework_spec(output@, name@),
{
    let mut r = output.to_owned();
    r.append("/");
    r.append(name);
    r.append(".xcframework");
    r
}

} // verus!
