//! What an upload stores and what a download looks for, side by side.
use vstd::prelude::*;

use crate::cache::local::{
    build_dir_spec, download_archive_spec, framework_dir_spec, upload_archive_spec,
};
use crate::cache::s3::{bucket_dir_spec, object_key_spec};
use crate::punfile::data::RepositoryModel;
use crate::text::{
    before_first, free_of, lemma_before_first_of_concat, lemma_last_segment_of_join, last_segment,
    slash_join,
};
use crate::utils::upload::{first_named, version_spec};

verus! {

/// A download looks for the archive of a framework at the very path where an
/// upload of the framework's directory (`<name>.xcframework`) writes it.
pub proof fn lemma_archive_paths_agree(cache_dir: Seq<char>, prefix: Seq<char>, name: Seq<char>)
    ensures
        download_archive_spec(cache_dir, prefix, name) == upload_archive_spec(
            cache_dir,
            prefix,
            framework_dir_spec(name),
        ),
{
    reveal_strlit(".xcframework.zip");
    reveal_strlit(".xcframework");
    reveal_strlit(".zip");
    assert(download_archive_spec(cache_dir, prefix, name) =~= upload_archive_spec(
        cache_dir,
        prefix,
        framework_dir_spec(name),
    ));
}

/// The file name of a framework's archive is `<name>.xcframework.zip`.
pub proof fn lemma_archive_file_name(cache_dir: Seq<char>, prefix: Seq<char>, name: Seq<char>)
    requires
        free_of(name, '/'),
    ensures
        last_segment(download_archive_spec(cache_dir, prefix, name)) == name + ".xcframework.zip"@,
{
    reveal_strlit(".xcframework.zip");
    reveal_strlit("/");
    let file = name + ".xcframework.zip"@;
    assert(free_of(file, '/')) by {
        assert forall|j: int| 0 <= j < file.len() implies file[j] != '/' by {
            if j >= name.len() {
                assert(file[j] == ".xcframework.zip"@[j - name.len()]);
            }
        }
    }
    assert(download_archive_spec(cache_dir, prefix, name) =~= slash_join(
        build_dir_spec(cache_dir, prefix),
        file,
    ));
    lemma_last_segment_of_join(build_dir_spec(cache_dir, prefix), file);
}

/// What an upload stores is what a download fetches, on disk and in the
/// bucket: for every framework whose name holds no slash, the download looks
/// for the local archive where the upload writes it, and fetches the bucket
/// key that the upload stores it under, which is
/// `<prefix>/<name>.xcframework.zip` without a version and
/// `<prefix>/<version>/<name>.xcframework.zip` with one.
pub proof fn lemma_upload_then_download(
    cache_dir: Seq<char>,
    prefix: Seq<char>,
    name: Seq<char>,
    version: Seq<char>,
)
    requires
        free_of(name, '/'),
    ensures
        download_archive_spec(cache_dir, prefix, name) == upload_archive_spec(
            cache_dir,
            prefix,
            framework_dir_spec(name),
        ),
        object_key_spec(
            download_archive_spec(cache_dir, prefix, name),
            bucket_dir_spec(prefix, version),
        ) == object_key_spec(
            upload_archive_spec(cache_dir, prefix, framework_dir_spec(name)),
            bucket_dir_spec(prefix, version),
        ),
        object_key_spec(
            download_archive_spec(cache_dir, prefix, name),
            bucket_dir_spec(prefix, version),
        ) == slash_join(bucket_dir_spec(prefix, version), name + ".xcframework.zip"@),
{
    lemma_archive_paths_agree(cache_dir, prefix, name);
    lemma_archive_file_name(cache_dir, prefix, name);
}

/// The bucket key of a framework's archive, written out: the prefix, then the
/// version when there is one, then `<name>.xcframework.zip`, all separated by
/// slashes. The prefix always comes first.
pub proof fn lemma_bucket_key_layout(
    cache_dir: Seq<char>,
    prefix: Seq<char>,
    name: Seq<char>,
    version: Seq<char>,
)
    requires
        free_of(name, '/'),
    ensures
        version.len() == 0 ==> object_key_spec(
            download_archive_spec(cache_dir, prefix, name),
            bucket_dir_spec(prefix, version),
        ) == prefix + seq!['/'] + name + ".xcframework.zip"@,
        version.len() > 0 ==> object_key_spec(
            download_archive_spec(cache_dir, prefix, name),
            bucket_dir_spec(prefix, version),
        ) == prefix + seq!['/'] + version + seq!['/'] + name + ".xcframework.zip"@,
{
    lemma_archive_file_name(cache_dir, prefix, name);
    let file = name + ".xcframework.zip"@;
    if version.len() == 0 {
        assert(slash_join(prefix, file) =~= prefix + seq!['/'] + name + ".xcframework.zip"@);
    } else {
        assert(slash_join(slash_join(prefix, version), file) =~= prefix + seq!['/'] + version
            + seq!['/'] + name + ".xcframework.zip"@);
    }
}

/// The plans of one framework agree. Say the Punfile lists `f`, and `f` is
/// the first framework whose name contains `f.name` (so no earlier framework's
/// name contains it), and the name holds neither `/` nor `.`. Then an upload
/// of the directory `<name>.xcframework` (`plan_upload`) finds `f`'s version,
/// and a download of `f` (`plan_download`) looks for the local archive where
/// the upload writes it and fetches the bucket key that the upload stores.
pub proof fn lemma_planned_keys_agree(
    cache_dir: Seq<char>,
    prefix: Seq<char>,
    frameworks: Seq<RepositoryModel>,
    f: RepositoryModel,
)
    requires
        first_named(frameworks, f.name) == Some(f),
        free_of(f.name, '/'),
        free_of(f.name, '.'),
    ensures
        version_spec(frameworks, before_first(framework_dir_spec(f.name), '.')) == f.version,
        upload_archive_spec(cache_dir, prefix, framework_dir_spec(f.name)) == download_archive_spec(
            cache_dir,
            prefix,
            f.name,
        ),
        object_key_spec(
            upload_archive_spec(cache_dir, prefix, framework_dir_spec(f.name)),
            bucket_dir_spec(
                prefix,
                version_spec(frameworks, before_first(framework_dir_spec(f.name), '.')),
            ),
        ) == object_key_spec(
            download_archive_spec(cache_dir, prefix, f.name),
            bucket_dir_spec(prefix, f.version),
        ),
{
    reveal_strlit(".xcframework");
    lemma_before_first_of_concat(f.name, ".xcframework"@, '.');
    lemma_upload_then_download(cache_dir, prefix, f.name, f.version);
}

} // verus!
