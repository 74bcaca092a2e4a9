//! Keys of archives in the S3 bucket.
use vstd::prelude::*;

use crate::text::{join_slash, last_path_segment, last_segment, slash_join};

verus! {

/// The key of an archive in the bucket: the directory `prefix`, a slash, then
/// the file name of the local archive (what follows its last slash).
pub open spec fn object_key_spec(filename: Seq<char>, prefix: Seq<char>) -> Seq<char> {
    slash_join(prefix, last_segment(filename))
}

/// The bucket directory of a framework, for uploads and downloads alike: the
/// cache prefix, followed by `/<version>` when the framework has a version.
/// The prefix is the bucket directory that archives are kept under, and a
/// download reads from the very directory an upload writes to (prefix first,
/// then version), so that the cache gives back what was stored in it.
pub open spec fn bucket_dir_spec(cache_prefix: Seq<char>, version: Seq<char>) -> Seq<char> {
    if version.len() == 0 {
        cache_prefix
    } else {
        slash_join(cache_prefix, version)
    }
}

/// The key under which the archive `filename` is stored in the bucket directory `prefix`.
pub fn object_key(filename: &str, prefix: &str) -> (r: String)
    ensures
        r@ == object_key_spec(filename@, prefix@),
{
    let name = last_path_segment(filename);
    join_slash(prefix, name.as_str())
}

/// The bucket directory of a framework with the given version.
pub fn bucket_dir(cache_prefix: &str, version: &str) -> (r: String)
    ensures
        r@ == bucket_dir_spec(cache_prefix@, version@),
{
    if version.is_empty() {
        cache_prefix.to_owned()
    } else {
        join_slash(cache_prefix, version)
    }
}

} // verus!
