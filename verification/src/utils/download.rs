//! Downloading: which frameworks a run fetches, and for each, whether it is
//! fetched from the bucket, extracted from the local cache, or left alone.
use vstd::prelude::*;
use vstd::string::*;

use crate::cache::local::{
    download_archive_path, download_archive_spec, framework_dir_name, framework_dir_spec,
    output_framework_path, output_framework_spec,
};
use crate::cache::s3::{bucket_dir, bucket_dir_spec};
use crate::punfile::data::{
    lemma_models_push, models, Configuration, Repository, RepositoryModel,
};
use crate::text::{str_eq, views};

verus! {

/// The first framework of `frameworks` that belongs to the dependency `dep`.
pub open spec fn first_of_dependency(frameworks: Seq<RepositoryModel>, dep: Seq<char>) -> Option<
    RepositoryModel,
>
    decreases frameworks.len(),
{
    if frameworks.len() == 0 {
        None
    } else if first_of_dependency(frameworks.drop_last(), dep) is Some {
        first_of_dependency(frameworks.drop_last(), dep)
    } else if frameworks.last().repo_name == dep {
        Some(frameworks.last())
    } else {
        None
    }
}

/// For each requested dependency in turn, the first of its frameworks, when it has one.
pub open spec fn requested_frameworks(frameworks: Seq<RepositoryModel>, requested: Seq<Seq<char>>) -> Seq<
    RepositoryModel,
>
    decreases requested.len(),
{
    if requested.len() == 0 {
        Seq::empty()
    } else {
        let acc = requested_frameworks(frameworks, requested.drop_last());
        match first_of_dependency(frameworks, requested.last()) {
            Some(r) => acc.push(r),
            None => acc,
        }
    }
}

/// The requested dependencies that no framework of the Punfile belongs to, in order.
pub open spec fn unknown_dependencies(frameworks: Seq<RepositoryModel>, requested: Seq<Seq<char>>) -> Seq<
    Seq<char>,
>
    decreases requested.len(),
{
    if requested.len() == 0 {
        Seq::empty()
    } else {
        let acc = unknown_dependencies(frameworks, requested.drop_last());
        match first_of_dependency(frameworks, requested.last()) {
            Some(_) => acc,
            None => acc.push(requested.last()),
        }
    }
}

/// The frameworks that a download works on: all of the Punfile's when no
/// dependency is requested, else the first framework of each requested dependency.
pub open spec fn download_selection_spec(frameworks: Seq<RepositoryModel>, requested: Seq<Seq<char>>) -> Seq<
    RepositoryModel,
> {
    if requested.len() == 0 {
        frameworks
    } else {
        requested_frameworks(frameworks, requested)
    }
}

/// The first framework of `frameworks` that belongs to the dependency `dep`.
fn find_dependency<'a>(frameworks: &'a Vec<Repository>, dep: &str) -> (r: Option<&'a Repository>)
    ensures
        match r {
            Some(f) => first_of_dependency(models(frameworks@), dep@) == Some(f@),
            None => first_of_dependency(models(frameworks@), dep@) is None,
        },
{
    let n = frameworks.len();
    let mut i: usize = 0;
    while i < n
        invariant
            n == frameworks@.len(),
            i <= n,
            first_of_dependency(models(frameworks@).take(i as int), dep@) is None,
        decreases n - i,
    {
        proof {
            assert(models(frameworks@).take(i + 1).drop_last() =~= models(frameworks@).take(
                i as int,
            ));
        }
        if str_eq(frameworks[i].repo_name.as_str(), dep) {
            proof {
                lemma_first_of_prefix(models(frameworks@), dep@, (i + 1) as int);
            }
            return Some(&frameworks[i]);
        }
        i = i + 1;
    }
    proof {
        assert(models(frameworks@).take(n as int) =~= models(frameworks@));
    }
    None
}

proof fn lemma_first_of_prefix(frameworks: Seq<RepositoryModel>, dep: Seq<char>, k: int)
    requires
        0 <= k <= frameworks.len(),
        first_of_dependency(frameworks.take(k), dep) is Some,
    ensures
        first_of_dependency(frameworks, dep) == first_of_dependency(frameworks.take(k), dep),
    decreases frameworks.len() - k,
{
    if k < frameworks.len() {
        assert(frameworks.take(k + 1).drop_last() =~= frameworks.take(k));
        lemma_first_of_prefix(frameworks, dep, k + 1);
    } else {
        assert(frameworks.take(k) =~= frameworks);
    }
}

/// The frameworks that a download works on, and the requested dependencies
/// that are not in the Punfile (reported to the user, then skipped).
pub fn select_frameworks(frameworks: &Vec<Repository>, requested: &Vec<String>) -> (r: (
    Vec<Repository>,
    Vec<String>,
))
    ensures
        models(r.0@) == download_selection_spec(models(frameworks@), views(requested@)),
        views(r.1@) == unknown_dependencies(models(frameworks@), views(requested@)),
{
    let mut selected: Vec<Repository> = Vec::new();
    let mut unknown: Vec<String> = Vec::new();
    let n = requested.len();
    if n == 0 {
        let m = frameworks.len();
        let mut j: usize = 0;
        while j < m
            invariant
                m == frameworks@.len(),
                j <= m,
                models(selected@) == models(frameworks@).take(j as int),
            decreases m - j,
        {
            let f = frameworks[j].duplicate();
            proof {
                lemma_models_push(selected@, f);
                assert(models(frameworks@).take(j + 1) =~= models(frameworks@).take(j as int).push(
                    f@,
                ));
            }
            selected.push(f);
            j = j + 1;
        }
        proof {
            assert(models(frameworks@).take(m as int) =~= models(frameworks@));
            assert(views(requested@) =~= Seq::<Seq<char>>::empty());
            assert(views(unknown@) =~= Seq::<Seq<char>>::empty());
        }
        return (selected, unknown);
    }
    let mut i: usize = 0;
    proof {
        assert(views(requested@).take(0) =~= Seq::<Seq<char>>::empty());
        assert(models(selected@) =~= Seq::<RepositoryModel>::empty());
        assert(views(unknown@) =~= Seq::<Seq<char>>::empty());
    }
    while i < n
        invariant
            n == requested@.len(),
            i <= n,
            models(selected@) == requested_frameworks(
                models(frameworks@),
                views(requested@).take(i as int),
            ),
            views(unknown@) == unknown_dependencies(
                models(frameworks@),
                views(requested@).take(i as int),
            ),
        decreases n - i,
    {
        proof {
            assert(views(requested@).take(i + 1).drop_last() =~= views(requested@).take(i as int));
            assert(views(requested@).take(i + 1).last() == requested@[i as int]@);
        }
        match find_dependency(frameworks, requested[i].as_str()) {
            Some(f) => {
                let f = f.duplicate();
                proof {
                    lemma_models_push(selected@, f);
                }
                selected.push(f);
            },
            None => {
                let d = requested[i].clone();
                proof {
                    assert(views(unknown@.push(d)) =~= views(unknown@).push(d@));
                }
                unknown.push(d);
            },
        }
        i = i + 1;
    }
    proof {
        assert(views(requested@).take(n as int) =~= views(requested@));
    }
    (selected, unknown)
}

/// Why a framework is (re)built from elsewhere: its file is missing, or the
/// run was told to ignore it.
#[derive(Debug, PartialEq, Eq, Clone, Copy)]
pub enum FetchReason {
    NotFound,
    Ignored,
}

/// What a download does with one framework.
#[derive(Debug, PartialEq, Eq, Clone, Copy)]
pub enum DownloadAction {
    /// Fetch the archive from the bucket into the local cache, then extract it
    /// into the output folder if it arrived. The reason is about the local archive.
    Fetch(FetchReason),
    /// Extract the local archive into the output folder. The reason is about
    /// the framework's directory in the output folder.
    Extract(FetchReason),
    /// The framework is in the local cache and in the output folder already.
    AlreadyDownloaded,
}

/// The action of a download, from what is on disk and what the run ignores:
/// without a usable local archive it is fetched; with one, it is extracted
/// unless the framework is in the output folder already.
pub open spec fn download_action_spec(
    archive_exists: bool,
    ignore_local: bool,
    output_exists: bool,
    ignore_output: bool,
) -> DownloadAction {
    if !archive_exists || ignore_local {
        DownloadAction::Fetch(if !archive_exists { FetchReason::NotFound } else { FetchReason::Ignored })
    } else if !output_exists || ignore_output {
        DownloadAction::Extract(if !output_exists { FetchReason::NotFound } else { FetchReason::Ignored })
    } else {
        DownloadAction::AlreadyDownloaded
    }
}

/// Decides what a download does with one framework. `output_exists` is only
/// read when the local archive exists and is not ignored.
pub fn download_action(
    archive_exists: bool,
    ignore_local: bool,
    output_exists: bool,
    ignore_output: bool,
) -> (r: DownloadAction)
    ensures
        r == download_action_spec(archive_exists, ignore_local, output_exists, ignore_output),
{
    if !archive_exists || ignore_local {
        if !archive_exists {
            DownloadAction::Fetch(FetchReason::NotFound)
        } else {
            DownloadAction::Fetch(FetchReason::Ignored)
        }
    } else if !output_exists || ignore_output {
        if !output_exists {
            DownloadAction::Extract(FetchReason::NotFound)
        } else {
            DownloadAction::Extract(FetchReason::Ignored)
        }
    } else {
        DownloadAction::AlreadyDownloaded
    }
}

/// The paths and bucket directory that a download of one framework works with.
#[derive(Debug, PartialEq, Eq)]
pub struct DownloadJob {
    /// `<name>.xcframework`: the directory that the archive is extracted to, under the output folder.
    pub framework_dir: String,
    /// The local archive.
    pub archive: String,
    /// The framework's directory in the output folder.
    pub output_framework: String,
    /// The bucket directory that the archive is fetched from.
    pub bucket_prefix: String,
}

/// The paths and bucket directory of a download of the framework `framework`,
/// with the Punfile's configuration and the expanded local cache directory.
/// The bucket directory is the one an upload of the framework writes to:
/// `<prefix>`, or `<prefix>/<version>` for a versioned framework; the version
/// never comes before the prefix.
pub fn plan_download(framework: &Repository, configuration: &Configuration, cache_dir: &str) -> (r:
    DownloadJob)
    ensures
        r.framework_dir@ == framework_dir_spec(framework.name@),
        r.archive@ == download_archive_spec(
            cache_dir@,
            configuration.prefix@,
            framework.name@,
        ),
        r.output_framework@ == output_framework_spec(configuration.output@, framework.name@),
        r.bucket_prefix@ == bucket_dir_spec(configuration.prefix@, framework.version@),
{
    DownloadJob {
        framework_dir: framework_dir_name(framework.name.as_str()),
        archive: download_archive_path(
            cache_dir,
            configuration.prefix.as_str(),
            framework.name.as_str(),
        ),
        output_framework: output_framework_path(
            configuration.output.as_str(),
            framework.name.as_str(),
        ),
        bucket_prefix: bucket_dir(configuration.prefix.as_str(), framework.version.as_str()),
    }
}

/// What a download does, case by case: a missing local archive is fetched
/// (reason: not found), whatever the output folder holds; an ignored one is
/// fetched again (reason: ignored); a usable archive is extracted when the
/// framework's directory is missing (not found) or ignored (ignored); and the
/// framework is left alone only when both are there and neither is ignored.
pub proof fn lemma_download_action_cases(
    archive_exists: bool,
    ignore_local: bool,
    output_exists: bool,
    ignore_output: bool,
)
    ensures
        !archive_exists ==> download_action_spec(
            archive_exists,
            ignore_local,
            output_exists,
            ignore_output,
        ) == DownloadAction::Fetch(FetchReason::NotFound),
        archive_exists && ignore_local ==> download_action_spec(
            archive_exists,
            ignore_local,
            output_exists,
            ignore_output,
        ) == DownloadAction::Fetch(FetchReason::Ignored),
        archive_exists && !ignore_local && !output_exists ==> download_action_spec(
            archive_exists,
            ignore_local,
            output_exists,
            ignore_output,
        ) == DownloadAction::Extract(FetchReason::NotFound),
        archive_exists && !ignore_local && output_exists && ignore_output ==> download_action_spec(
            archive_exists,
            ignore_local,
            output_exists,
            ignore_output,
        ) == DownloadAction::Extract(FetchReason::Ignored),
        archive_exists && !ignore_local && output_exists && !ignore_output ==> download_action_spec(
            archive_exists,
            ignore_local,
            output_exists,
            ignore_output,
        ) == DownloadAction::AlreadyDownloaded,
{
}

/// `--ignore-local`: the framework is fetched from the bucket whatever is on disk.
pub proof fn lemma_ignore_local_fetches(archive_exists: bool, output_exists: bool, ignore_output: bool)
    ensures
        download_action_spec(archive_exists, true, output_exists, ignore_output) is Fetch,
{
}

/// `--ignore-output`: a framework whose local archive is used is extracted
/// again, even when it is in the output folder already.
pub proof fn lemma_ignore_output_extracts(output_exists: bool)
    ensures
        download_action_spec(true, false, output_exists, true) is Extract,
{
}

/// A framework is left alone only when its archive and its output directory
/// both exist and neither is ignored.
pub proof fn lemma_left_alone_only_when_present(
    archive_exists: bool,
    ignore_local: bool,
    output_exists: bool,
    ignore_output: bool,
)
    ensures
        download_action_spec(archive_exists, ignore_local, output_exists, ignore_output)
            == DownloadAction::AlreadyDownloaded <==> (archive_exists && !ignore_local
            && output_exists && !ignore_output),
{
}

/// The line that reports what a download does with a framework.
pub open spec fn download_report_spec(action: DownloadAction, job: DownloadJob) -> Seq<char> {
    match action {
        DownloadAction::Fetch(FetchReason::NotFound) => "Not found "@ + job.archive@,
        DownloadAction::Fetch(FetchReason::Ignored) => "Ignoring "@ + job.archive@,
        DownloadAction::Extract(FetchReason::NotFound) => "Not found "@ + job.output_framework@,
        DownloadAction::Extract(FetchReason::Ignored) => "Ignoring "@ + job.output_framework@,
        DownloadAction::AlreadyDownloaded => "Already downloaded "@ + job.archive@,
    }
}

/// The line that reports what a download does with a framework: the file
/// that is missing or ignored, or the archive that is there already.
pub fn download_report(action: DownloadAction, job: &DownloadJob) -> (r: String)
    ensures
        r@ == download_report_spec(action, *job),
{
    let (mut r, path) = match action {
        DownloadAction::Fetch(FetchReason::NotFound) => (String::from_str("Not found "), &job.archive),
        DownloadAction::Fetch(FetchReason::Ignored) => (String::from_str("Ignoring "), &job.archive),
        DownloadAction::Extract(FetchReason::NotFound) => (
            String::from_str("Not found "),
            &job.output_framework,
        ),
        DownloadAction::Extract(FetchReason::Ignored) => (
            String::from_str("Ignoring "),
            &job.output_framework,
        ),
        DownloadAction::AlreadyDownloaded => (
            String::from_str("Already downloaded "),
            &job.archive,
        ),
    };
    r.append(path.as_str());
    r
}

/// The line that reports a requested dependency that is not in the Punfile.
pub fn unknown_dependency_report(dep: &str) -> (r: String)
    ensures
        r@ == dep@ + " is not a dependency in the Punfile."@,
{
    let mut r = dep.to_owned();
    r.append(" is not a dependency in the Punfile.");
    r
}

/// The search for a dependency finds the earliest framework of that
/// dependency, and nothing when the Punfile has none.
proof fn lemma_first_of_dependency_is_earliest(frameworks: Seq<RepositoryModel>, dep: Seq<char>)
    ensures
        forall|j: int|
            0 <= j < frameworks.len() && (#[trigger] frameworks[j]).repo_name == dep && (forall|k: int|
                0 <= k < j ==> frameworks[k].repo_name != dep) ==> first_of_dependency(
                frameworks,
                dep,
            ) == Some(frameworks[j]),
        (forall|j: int| 0 <= j < frameworks.len() ==> (#[trigger] frameworks[j]).repo_name != dep)
            ==> first_of_dependency(frameworks, dep) is None,
    decreases frameworks.len(),
{
    if frameworks.len() > 0 {
        let rest = frameworks.drop_last();
        lemma_first_of_dependency_is_earliest(rest, dep);
        assert forall|j: int|
            0 <= j < frameworks.len() && (#[trigger] frameworks[j]).repo_name == dep && (forall|k: int|
                0 <= k < j ==> frameworks[k].repo_name != dep) implies first_of_dependency(
            frameworks,
            dep,
        ) == Some(frameworks[j]) by {
            if j < frameworks.len() - 1 {
                assert(rest[j] == frameworks[j]);
                assert forall|k: int| 0 <= k < j implies rest[k].repo_name != dep by {
                    assert(rest[k] == frameworks[k]);
                }
            } else {
                assert forall|k: int| 0 <= k < rest.len() implies (#[trigger] rest[k]).repo_name
                    != dep by {
                    assert(rest[k] == frameworks[k]);
                }
            }
        }
        if forall|j: int| 0 <= j < frameworks.len() ==> (#[trigger] frameworks[j]).repo_name != dep {
            assert forall|k: int| 0 <= k < rest.len() implies (#[trigger] rest[k]).repo_name != dep by {
                assert(rest[k] == frameworks[k]);
            }
            assert(frameworks[frameworks.len() - 1].repo_name != dep);
        }
    }
}

/// One more requested dependency, when the framework at `j` is the earliest of
/// that dependency in the Punfile: that framework is added to the selection,
/// and the dependency is not reported.
pub proof fn lemma_request_selects_earliest_framework(
    frameworks: Seq<RepositoryModel>,
    requested: Seq<Seq<char>>,
    dep: Seq<char>,
    j: int,
)
    requires
        0 <= j < frameworks.len(),
        frameworks[j].repo_name == dep,
        forall|k: int| 0 <= k < j ==> frameworks[k].repo_name != dep,
    ensures
        download_selection_spec(frameworks, requested.push(dep)) == requested_frameworks(
            frameworks,
            requested,
        ).push(frameworks[j]),
        unknown_dependencies(frameworks, requested.push(dep)) == unknown_dependencies(
            frameworks,
            requested,
        ),
{
    lemma_first_of_dependency_is_earliest(frameworks, dep);
    assert(requested.push(dep).drop_last() =~= requested);
}

/// One more requested dependency that no framework of the Punfile belongs to:
/// the selection is unchanged, and the dependency is reported as unknown.
pub proof fn lemma_request_without_framework(
    frameworks: Seq<RepositoryModel>,
    requested: Seq<Seq<char>>,
    dep: Seq<char>,
)
    requires
        forall|k: int| 0 <= k < frameworks.len() ==> (#[trigger] frameworks[k]).repo_name != dep,
    ensures
        download_selection_spec(frameworks, requested.push(dep)) == requested_frameworks(
            frameworks,
            requested,
        ),
        unknown_dependencies(frameworks, requested.push(dep)) == unknown_dependencies(
            frameworks,
            requested,
        ).push(dep),
{
    lemma_first_of_dependency_is_earliest(frameworks, dep);
    assert(requested.push(dep).drop_last() =~= requested);
}

/// With no dependency requested, a download works on every framework of the
/// Punfile, in order, and reports none as unknown.
pub proof fn lemma_no_request_selects_all(frameworks: Seq<RepositoryModel>)
    ensures
        download_selection_spec(frameworks, Seq::empty()) == frameworks,
        unknown_dependencies(frameworks, Seq::empty()) == Seq::<Seq<char>>::empty(),
{
}

/// Every requested dependency is either served by one framework or reported
/// as unknown, and every framework served is a framework of the Punfile
/// that belongs to a requested dependency.
pub proof fn lemma_requests_accounted(frameworks: Seq<RepositoryModel>, requested: Seq<Seq<char>>)
    ensures
        requested_frameworks(frameworks, requested).len() + unknown_dependencies(
            frameworks,
            requested,
        ).len() == requested.len(),
        forall|i: int|
            0 <= i < requested_frameworks(frameworks, requested).len() ==> {
                &&& frameworks.contains(#[trigger] requested_frameworks(frameworks, requested)[i])
                &&& requested.contains(requested_frameworks(frameworks, requested)[i].repo_name)
            },
    decreases requested.len(),
{
    if requested.len() > 0 {
        let rest = requested.drop_last();
        lemma_requests_accounted(frameworks, rest);
        lemma_first_of_is_member(frameworks, requested.last());
        let sel = requested_frameworks(frameworks, requested);
        let prev = requested_frameworks(frameworks, rest);
        assert forall|i: int| 0 <= i < sel.len() implies {
            &&& frameworks.contains(#[trigger] sel[i])
            &&& requested.contains(sel[i].repo_name)
        } by {
            if i < prev.len() {
                assert(sel[i] == prev[i]);
                let k = choose|k: int| 0 <= k < rest.len() && rest[k] == prev[i].repo_name;
                assert(requested[k] == rest[k]);
            } else {
                assert(requested[requested.len() - 1] == requested.last());
            }
        }
    }
}

proof fn lemma_first_of_is_member(frameworks: Seq<RepositoryModel>, dep: Seq<char>)
    ensures
        first_of_dependency(frameworks, dep) matches Some(r) ==> frameworks.contains(r)
            && r.repo_name == dep,
    decreases frameworks.len(),
{
    if frameworks.len() > 0 {
        lemma_first_of_is_member(frameworks.drop_last(), dep);
        if first_of_dependency(frameworks.drop_last(), dep) is Some {
            let r = first_of_dependency(frameworks.drop_last(), dep).unwrap();
            let k = choose|k: int| 0 <= k < frameworks.drop_last().len() && frameworks.drop_last()[k] == r;
            assert(frameworks[k] == r);
        } else {
            assert(frameworks[frameworks.len() - 1] == frameworks.last());
        }
    }
}

} // verus!
