//! Uploading: which scanned framework directories a run uploads, and for each,
//! its version, its archive, its bucket directory, and whether it is zipped first.
use vstd::prelude::*;
use vstd::string::*;

use crate::cache::local::{upload_archive_path, upload_archive_spec};
use crate::cache::s3::{bucket_dir, bucket_dir_spec};
use crate::punfile::data::{models, PunFile, Repository, RepositoryModel};
use crate::text::{before_first, contains_seq, contains_str, join_slash, prefix_before, slash_join, views};

verus! {

/// The first of `dirs` whose name contains `dep`.
pub open spec fn first_containing(dirs: Seq<Seq<char>>, dep: Seq<char>) -> Option<Seq<char>>
    decreases dirs.len(),
{
    if dirs.len() == 0 {
        None
    } else if first_containing(dirs.drop_last(), dep) is Some {
        first_containing(dirs.drop_last(), dep)
    } else if contains_seq(dirs.last(), dep) {
        Some(dirs.last())
    } else {
        None
    }
}

/// For each requested dependency in turn, the first directory whose name contains it.
pub open spec fn requested_dirs(dirs: Seq<Seq<char>>, requested: Seq<Seq<char>>) -> Seq<Seq<char>>
    decreases requested.len(),
{
    if requested.len() == 0 {
        Seq::empty()
    } else {
        let acc = requested_dirs(dirs, requested.drop_last());
        match first_containing(dirs, requested.last()) {
            Some(d) => acc.push(d),
            None => acc,
        }
    }
}

/// The requested dependencies that no directory name contains, in order.
pub open spec fn unmatched_requests(dirs: Seq<Seq<char>>, requested: Seq<Seq<char>>) -> Seq<Seq<char>>
    decreases requested.len(),
{
    if requested.len() == 0 {
        Seq::empty()
    } else {
        let acc = unmatched_requests(dirs, requested.drop_last());
        match first_containing(dirs, requested.last()) {
            Some(_) => acc,
            None => acc.push(requested.last()),
        }
    }
}

/// The directories that an upload works on: all scanned ones when no
/// dependency is requested, else the first match of each requested one.
pub open spec fn upload_selection_spec(dirs: Seq<Seq<char>>, requested: Seq<Seq<char>>) -> Seq<Seq<char>> {
    if requested.len() == 0 {
        dirs
    } else {
        requested_dirs(dirs, requested)
    }
}

proof fn lemma_first_containing_prefix(dirs: Seq<Seq<char>>, dep: Seq<char>, k: int)
    requires
        0 <= k <= dirs.len(),
        first_containing(dirs.take(k), dep) is Some,
    ensures
        first_containing(dirs, dep) == first_containing(dirs.take(k), dep),
    decreases dirs.len() - k,
{
    if k < dirs.len() {
        assert(dirs.take(k + 1).drop_last() =~= dirs.take(k));
        lemma_first_containing_prefix(dirs, dep, k + 1);
    } else {
        assert(dirs.take(k) =~= dirs);
    }
}

/// The first of `dirs` whose name contains `dep`.
fn find_containing<'a>(dirs: &'a Vec<String>, dep: &str) -> (r: Option<&'a String>)
    ensures
        match r {
            Some(d) => first_containing(views(dirs@), dep@) == Some(d@),
            None => first_containing(views(dirs@), dep@) is None,
        },
{
    let n = dirs.len();
    let mut i: usize = 0;
    while i < n
        invariant
            n == dirs@.len(),
            i <= n,
            first_containing(views(dirs@).take(i as int), dep@) is None,
        decreases n - i,
    {
        proof {
            assert(views(dirs@).take(i + 1).drop_last() =~= views(dirs@).take(i as int));
        }
        if contains_str(dirs[i].as_str(), dep) {
            proof {
                lemma_first_containing_prefix(views(dirs@), dep@, (i + 1) as int);
            }
            return Some(&dirs[i]);
        }
        i = i + 1;
    }
    proof {
        assert(views(dirs@).take(n as int) =~= views(dirs@));
    }
    None
}

/// The directories that an upload works on, and the requested dependencies
/// that no scanned directory matches (reported to the user, then skipped).
pub fn select_uploads(dirs: &Vec<String>, requested: &Vec<String>) -> (r: (Vec<String>, Vec<String>))
    ensures
        views(r.0@) == upload_selection_spec(views(dirs@), views(requested@)),
        views(r.1@) == (if requested@.len() == 0 {
            Seq::<Seq<char>>::empty()
        } else {
            unmatched_requests(views(dirs@), views(requested@))
        }),
{
    let mut selected: Vec<String> = Vec::new();
    let mut unmatched: Vec<String> = Vec::new();
    let n = requested.len();
    if n == 0 {
        let m = dirs.len();
        let mut j: usize = 0;
        proof {
            assert(views(selected@) =~= views(dirs@).take(0));
        }
        while j < m
            invariant
                m == dirs@.len(),
                j <= m,
                views(selected@) == views(dirs@).take(j as int),
            decreases m - j,
        {
            let d = dirs[j].clone();
            proof {
                assert(views(selected@.push(d)) =~= views(selected@).push(d@));
                assert(views(dirs@).take(j + 1) =~= views(dirs@).take(j as int).push(d@));
            }
            selected.push(d);
            j = j + 1;
        }
        proof {
            assert(views(dirs@).take(m as int) =~= views(dirs@));
            assert(views(requested@) =~= Seq::<Seq<char>>::empty());
            assert(views(unmatched@) =~= Seq::<Seq<char>>::empty());
        }
        return (selected, unmatched);
    }
    let mut i: usize = 0;
    proof {
        assert(views(requested@).take(0) =~= Seq::<Seq<char>>::empty());
        assert(views(selected@) =~= Seq::<Seq<char>>::empty());
        assert(views(unmatched@) =~= Seq::<Seq<char>>::empty());
    }
    while i < n
        invariant
            n == requested@.len(),
            i <= n,
            views(selected@) == requested_dirs(views(dirs@), views(requested@).take(i as int)),
            views(unmatched@) == unmatched_requests(views(dirs@), views(requested@).take(i as int)),
        decreases n - i,
    {
        proof {
            assert(views(requested@).take(i + 1).drop_last() =~= views(requested@).take(i as int));
            assert(views(requested@).take(i + 1).last() == requested@[i as int]@);
        }
        match find_containing(dirs, requested[i].as_str()) {
            Some(d) => {
                let d = d.clone();
                proof {
                    assert(views(selected@.push(d)) =~= views(selected@).push(d@));
                }
                selected.push(d);
            },
            None => {
                let q = requested[i].clone();
                proof {
                    assert(views(unmatched@.push(q)) =~= views(unmatched@).push(q@));
                }
                unmatched.push(q);
            },
        }
        i = i + 1;
    }
    proof {
        assert(views(requested@).take(n as int) =~= views(requested@));
    }
    (selected, unmatched)
}

/// The key of a framework directory that its Punfile entry is found by: the
/// directory's name up to its first `.` (`Alamofire` for `Alamofire.xcframework`).
pub fn framework_key(dir: &str) -> (r: String)
    ensures
        r@ == before_first(dir@, '.'),
{
    prefix_before(dir, '.')
}

/// The first framework of the Punfile whose name contains `key`.
pub open spec fn first_named(frameworks: Seq<RepositoryModel>, key: Seq<char>) -> Option<
    RepositoryModel,
>
    decreases frameworks.len(),
{
    if frameworks.len() == 0 {
        None
    } else if first_named(frameworks.drop_last(), key) is Some {
        first_named(frameworks.drop_last(), key)
    } else if contains_seq(frameworks.last().name, key) {
        Some(frameworks.last())
    } else {
        None
    }
}

/// The version that a directory is uploaded under: that of the first framework
/// whose name contains the key, empty when there is none.
pub open spec fn version_spec(frameworks: Seq<RepositoryModel>, key: Seq<char>) -> Seq<char> {
    match first_named(frameworks, key) {
        Some(r) => r.version,
        None => ""@,
    }
}

proof fn lemma_first_named_prefix(frameworks: Seq<RepositoryModel>, key: Seq<char>, k: int)
    requires
        0 <= k <= frameworks.len(),
        first_named(frameworks.take(k), key) is Some,
    ensures
        first_named(frameworks, key) == first_named(frameworks.take(k), key),
    decreases frameworks.len() - k,
{
    if k < frameworks.len() {
        assert(frameworks.take(k + 1).drop_last() =~= frameworks.take(k));
        lemma_first_named_prefix(frameworks, key, k + 1);
    } else {
        assert(frameworks.take(k) =~= frameworks);
    }
}

/// The version of the first framework whose name contains `key`, or an empty string.
pub fn version_for(frameworks: &Vec<Repository>, key: &str) -> (r: String)
    ensures
        r@ == version_spec(models(frameworks@), key@),
{
    let n = frameworks.len();
    let mut i: usize = 0;
    while i < n
        invariant
            n == frameworks@.len(),
            i <= n,
            first_named(models(frameworks@).take(i as int), key@) is None,
        decreases n - i,
    {
        proof {
            assert(models(frameworks@).take(i + 1).drop_last() =~= models(frameworks@).take(
                i as int,
            ));
        }
        if contains_str(frameworks[i].name.as_str(), key) {
            proof {
                lemma_first_named_prefix(models(frameworks@), key@, (i + 1) as int);
            }
            return frameworks[i].version.clone();
        }
        i = i + 1;
    }
    proof {
        assert(models(frameworks@).take(n as int) =~= models(frameworks@));
        reveal_strlit("");
    }
    let empty = String::new();
    proof {
        assert(empty@ =~= ""@);
    }
    empty
}

/// What an upload does with one framework directory.
#[derive(Debug, PartialEq, Eq, Clone, Copy)]
pub enum UploadAction {
    /// Zip the directory into the local archive, then upload the archive.
    ZipAndUpload,
    /// The archive is in the local cache already: upload it as it is.
    UploadOnly,
}

/// An upload zips the directory unless its archive exists and the local cache is not ignored.
pub open spec fn upload_action_spec(ignore_local: bool, archive_exists: bool) -> UploadAction {
    if ignore_local || !archive_exists {
        UploadAction::ZipAndUpload
    } else {
        UploadAction::UploadOnly
    }
}

/// Decides what an upload does with one framework directory.
pub fn upload_action(ignore_local: bool, archive_exists: bool) -> (r: UploadAction)
    ensures
        r == upload_action_spec(ignore_local, archive_exists),
{
    if ignore_local || !archive_exists {
        UploadAction::ZipAndUpload
    } else {
        UploadAction::UploadOnly
    }
}

/// The search for a directory finds the earliest one whose name contains the
/// request, and nothing when no name contains it.
proof fn lemma_first_containing_is_earliest(dirs: Seq<Seq<char>>, dep: Seq<char>)
    ensures
        forall|j: int|
            0 <= j < dirs.len() && contains_seq(#[trigger] dirs[j], dep) && (forall|k: int|
                0 <= k < j ==> !contains_seq(dirs[k], dep)) ==> first_containing(dirs, dep)
                == Some(dirs[j]),
        (forall|j: int| 0 <= j < dirs.len() ==> !contains_seq(#[trigger] dirs[j], dep))
            ==> first_containing(dirs, dep) is None,
    decreases dirs.len(),
{
    if dirs.len() > 0 {
        let rest = dirs.drop_last();
        lemma_first_containing_is_earliest(rest, dep);
        assert forall|j: int|
            0 <= j < dirs.len() && contains_seq(#[trigger] dirs[j], dep) && (forall|k: int|
                0 <= k < j ==> !contains_seq(dirs[k], dep)) implies first_containing(dirs, dep)
            == Some(dirs[j]) by {
            if j < dirs.len() - 1 {
                assert(rest[j] == dirs[j]);
                assert forall|k: int| 0 <= k < j implies !contains_seq(rest[k], dep) by {
                    assert(rest[k] == dirs[k]);
                }
            } else {
                assert forall|k: int| 0 <= k < rest.len() implies !contains_seq(#[trigger] rest[k], dep) by {
                    assert(rest[k] == dirs[k]);
                }
            }
        }
        if forall|j: int| 0 <= j < dirs.len() ==> !contains_seq(#[trigger] dirs[j], dep) {
            assert forall|k: int| 0 <= k < rest.len() implies !contains_seq(#[trigger] rest[k], dep) by {
                assert(rest[k] == dirs[k]);
            }
            assert(!contains_seq(dirs[dirs.len() - 1], dep));
        }
    }
}

/// Without requests, an upload works on every scanned directory, in order.
pub proof fn lemma_upload_no_request_selects_all(dirs: Seq<Seq<char>>)
    ensures
        upload_selection_spec(dirs, Seq::empty()) == dirs,
        unmatched_requests(dirs, Seq::empty()) == Seq::<Seq<char>>::empty(),
{
}

/// One more request, when the directory at `j` is the earliest scanned one
/// whose name contains it: that directory is added to the selection, and the
/// request is not reported.
pub proof fn lemma_request_selects_earliest_dir(
    dirs: Seq<Seq<char>>,
    requested: Seq<Seq<char>>,
    dep: Seq<char>,
    j: int,
)
    requires
        0 <= j < dirs.len(),
        contains_seq(dirs[j], dep),
        forall|k: int| 0 <= k < j ==> !contains_seq(dirs[k], dep),
    ensures
        upload_selection_spec(dirs, requested.push(dep)) == requested_dirs(dirs, requested).push(
            dirs[j],
        ),
        unmatched_requests(dirs, requested.push(dep)) == unmatched_requests(dirs, requested),
{
    lemma_first_containing_is_earliest(dirs, dep);
    assert(requested.push(dep).drop_last() =~= requested);
}

/// One more request that no scanned directory name contains: the selection is
/// unchanged, and the request is reported as unmatched.
pub proof fn lemma_request_without_dir(dirs: Seq<Seq<char>>, requested: Seq<Seq<char>>, dep: Seq<char>)
    requires
        forall|k: int| 0 <= k < dirs.len() ==> !contains_seq(#[trigger] dirs[k], dep),
    ensures
        upload_selection_spec(dirs, requested.push(dep)) == requested_dirs(dirs, requested),
        unmatched_requests(dirs, requested.push(dep)) == unmatched_requests(dirs, requested).push(
            dep,
        ),
{
    lemma_first_containing_is_earliest(dirs, dep);
    assert(requested.push(dep).drop_last() =~= requested);
}

/// The search for a framework finds the earliest one whose name contains the
/// key, and nothing when no name contains it.
proof fn lemma_first_named_is_earliest(frameworks: Seq<RepositoryModel>, key: Seq<char>)
    ensures
        forall|j: int|
            0 <= j < frameworks.len() && contains_seq(#[trigger] frameworks[j].name, key) && (
            forall|k: int| 0 <= k < j ==> !contains_seq(frameworks[k].name, key))
                ==> first_named(frameworks, key) == Some(frameworks[j]),
        (forall|j: int| 0 <= j < frameworks.len() ==> !contains_seq(#[trigger] frameworks[j].name, key))
            ==> first_named(frameworks, key) is None,
    decreases frameworks.len(),
{
    if frameworks.len() > 0 {
        let rest = frameworks.drop_last();
        lemma_first_named_is_earliest(rest, key);
        assert forall|j: int|
            0 <= j < frameworks.len() && contains_seq(#[trigger] frameworks[j].name, key) && (
            forall|k: int| 0 <= k < j ==> !contains_seq(frameworks[k].name, key))
                implies first_named(frameworks, key) == Some(frameworks[j]) by {
            if j < frameworks.len() - 1 {
                assert(rest[j] == frameworks[j]);
                assert forall|k: int| 0 <= k < j implies !contains_seq(rest[k].name, key) by {
                    assert(rest[k] == frameworks[k]);
                }
            } else {
                assert forall|k: int| 0 <= k < rest.len() implies !contains_seq(
                    #[trigger] rest[k].name,
                    key,
                ) by {
                    assert(rest[k] == frameworks[k]);
                }
            }
        }
        if forall|j: int| 0 <= j < frameworks.len() ==> !contains_seq(#[trigger] frameworks[j].name, key) {
            assert forall|k: int| 0 <= k < rest.len() implies !contains_seq(
                #[trigger] rest[k].name,
                key,
            ) by {
                assert(rest[k] == frameworks[k]);
            }
            assert(!contains_seq(frameworks[frameworks.len() - 1].name, key));
        }
    }
}

/// The version of an upload is that of the earliest framework of the Punfile
/// whose name contains the key.
pub proof fn lemma_version_of_earliest_named(frameworks: Seq<RepositoryModel>, key: Seq<char>, j: int)
    requires
        0 <= j < frameworks.len(),
        contains_seq(frameworks[j].name, key),
        forall|k: int| 0 <= k < j ==> !contains_seq(frameworks[k].name, key),
    ensures
        version_spec(frameworks, key) == frameworks[j].version,
{
    lemma_first_named_is_earliest(frameworks, key);
}

/// When no framework of the Punfile has a name containing the key, an upload
/// has no version: the version is empty.
pub proof fn lemma_version_absent_is_empty(frameworks: Seq<RepositoryModel>, key: Seq<char>)
    requires
        forall|k: int| 0 <= k < frameworks.len() ==> !contains_seq(#[trigger] frameworks[k].name, key),
    ensures
        version_spec(frameworks, key).len() == 0,
{
    lemma_first_named_is_earliest(frameworks, key);
    reveal_strlit("");
}

/// An upload sends the archive as it is only when the archive exists and the
/// local cache is not ignored; in every other case it zips the directory first.
pub proof fn lemma_upload_only_when_cached(ignore_local: bool, archive_exists: bool)
    ensures
        (upload_action_spec(ignore_local, archive_exists) == UploadAction::UploadOnly) <==> (
        !ignore_local && archive_exists),
        (upload_action_spec(ignore_local, archive_exists) == UploadAction::ZipAndUpload) <==> (
        ignore_local || !archive_exists),
{
}

/// `--ignore-local`: the directory is zipped again from the output folder,
/// whether or not its archive is in the local cache.
pub proof fn lemma_ignore_local_zips(archive_exists: bool)
    ensures
        upload_action_spec(true, archive_exists) == UploadAction::ZipAndUpload,
{
}

/// The version, paths and bucket directory that an upload of one framework directory works with.
#[derive(Debug, PartialEq, Eq)]
pub struct UploadJob {
    /// The version of the framework's Punfile entry; empty when it has none.
    pub version: String,
    /// The framework directory in the output folder.
    pub source_dir: String,
    /// The local archive.
    pub archive: String,
    /// The bucket directory that the archive is uploaded to.
    pub bucket_prefix: String,
}

/// The version, paths and bucket directory of an upload of the scanned
/// directory `dir`, with the Punfile and the expanded local cache directory.
pub fn plan_upload(dir: &str, punfile: &PunFile, cache_dir: &str) -> (r: UploadJob)
    ensures
        r.version@ == version_spec(models(punfile.frameworks@), before_first(dir@, '.')),
        r.source_dir@ == slash_join(punfile.configuration.output@, dir@),
        r.archive@ == upload_archive_spec(cache_dir@, punfile.configuration.prefix@, dir@),
        r.bucket_prefix@ == bucket_dir_spec(punfile.configuration.prefix@, r.version@),
{
    let key = framework_key(dir);
    let version = version_for(&punfile.frameworks, key.as_str());
    let source_dir = join_slash(punfile.configuration.output.as_str(), dir);
    let archive = upload_archive_path(cache_dir, punfile.configuration.prefix.as_str(), dir);
    let bucket_prefix = bucket_dir(punfile.configuration.prefix.as_str(), version.as_str());
    UploadJob { version, source_dir, archive, bucket_prefix }
}

/// The line that reports a framework directory found for upload, with its
/// version when it has one.
pub open spec fn found_report_spec(output: Seq<char>, dir: Seq<char>, version: Seq<char>) -> Seq<char> {
    if version.len() == 0 {
        "Found "@ + slash_join(output, dir)
    } else {
        "Found "@ + slash_join(output, dir) + " @version "@ + version
    }
}

/// The line that reports a framework directory found for upload.
pub fn found_report(output: &str, dir: &str, version: &str) -> (r: String)
    ensures
        r@ == found_report_spec(output@, dir@, version@),
{
    let mut r = String::from_str("Found ");
    let path = join_slash(output, dir);
    r.append(path.as_str());
    if !version.is_empty() {
        r.append(" @version ");
        r.append(version);
    }
    r
}

/// The line that reports a framework directory whose archive is in the local cache already.
pub fn already_zipped_report(dir: &str) -> (r: String)
    ensures
        r@ == "Already zipped "@ + dir@,
{
    let mut r = String::from_str("Already zipped ");
    r.append(dir);
    r
}

/// The line that reports a requested dependency that no scanned directory matches.
pub fn unmatched_request_report(dep: &str) -> (r: String)
    ensures
        r@ == dep@ + " is not a dependency"@,
{
    let mut r = dep.to_owned();
    r.append(" is not a dependency");
    r
}

} // verus!
