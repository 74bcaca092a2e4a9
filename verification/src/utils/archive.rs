//! Zipping a framework directory and unzipping an archive: what is done with
//! each entry, and where an extracted entry goes.
use vstd::prelude::*;

use crate::text::{join_slash, slash_join};

verus! {

/// What zipping does with one entry of the directory tree being archived.
#[derive(Debug, PartialEq, Eq, Clone, Copy)]
pub enum ZipEntryAction {
    /// Store the file's contents under its path relative to the root.
    AddFile,
    /// Store a directory entry under its path relative to the root.
    AddDirectory,
    /// The root itself: nothing is stored for it.
    Skip,
}

/// Files are stored; directories are stored as such, except the root, whose
/// path relative to the root is empty.
pub open spec fn zip_entry_action_spec(is_file: bool, relative_name: Seq<char>) -> ZipEntryAction {
    if is_file {
        ZipEntryAction::AddFile
    } else if relative_name.len() != 0 {
        ZipEntryAction::AddDirectory
    } else {
        ZipEntryAction::Skip
    }
}

/// Every file is stored with its contents; a directory other than the root is
/// stored as a directory entry; only the root (empty relative path, not a
/// file) is skipped.
pub proof fn lemma_zip_entry_cases(is_file: bool, relative_name: Seq<char>)
    ensures
        is_file ==> zip_entry_action_spec(is_file, relative_name) == ZipEntryAction::AddFile,
        !is_file && relative_name.len() > 0 ==> zip_entry_action_spec(is_file, relative_name)
            == ZipEntryAction::AddDirectory,
        !is_file && relative_name.len() == 0 ==> zip_entry_action_spec(is_file, relative_name)
            == ZipEntryAction::Skip,
{
}

/// Decides what zipping does with one entry, from whether it is a file and
/// its path relative to the root of the archive.
pub fn zip_entry_action(is_file: bool, relative_name: &str) -> (r: ZipEntryAction)
    ensures
        r == zip_entry_action_spec(is_file, relative_name@),
{
    if is_file {
        ZipEntryAction::AddFile
    } else if !relative_name.is_empty() {
        ZipEntryAction::AddDirectory
    } else {
        ZipEntryAction::Skip
    }
}

/// An archive entry whose name ends with `/` is a directory.
pub fn is_directory_entry(name: &str) -> (r: bool)
    ensures
        r == (name@.len() > 0 && name@.last() == '/'),
{
    crate::text::ends_with_char(name, '/')
}

/// `<root>/<dest>/<relative>`: where an extracted entry goes.
pub open spec fn extraction_path_spec(root: Seq<char>, dest: Seq<char>, relative: Seq<char>) -> Seq<
    char,
> {
    slash_join(slash_join(root, dest), relative)
}

/// Where the archive entry `relative` is extracted to: under `dest` in the folder `root`.
pub fn extraction_path(root: &str, dest: &str, relative: &str) -> (r: String)
    ensures
        r@ == extraction_path_spec(root@, dest@, relative@),
{
    let base = join_slash(root, dest);
    join_slash(base.as_str(), relative)
}

} // verus!
