//! Scanning the output folder for built `.xcframework` directories.
use vstd::prelude::*;

use crate::text::{contains_seq, contains_str, last_path_segment, last_segment, views};

verus! {

/// One entry of the output folder: its path and whether it is a directory.
#[derive(Debug, PartialEq, Eq)]
pub struct ScannedEntry {
    pub path: String,
    pub is_dir: bool,
}

/// An entry is a built framework when it is a directory whose path contains `xcframework`.
pub open spec fn is_framework_entry(e: ScannedEntry) -> bool {
    e.is_dir && contains_seq(e.path@, "xcframework"@)
}

/// The names (last path segments) of the framework entries, in the order of `entries`.
pub open spec fn framework_names_spec(entries: Seq<ScannedEntry>) -> Seq<Seq<char>>
    decreases entries.len(),
{
    if entries.len() == 0 {
        Seq::empty()
    } else {
        let acc = framework_names_spec(entries.drop_last());
        if is_framework_entry(entries.last()) {
            acc.push(last_segment(entries.last().path@))
        } else {
            acc
        }
    }
}

/// The names of the built frameworks among the entries of the output folder, in order.
pub fn select_xcframeworks(entries: &Vec<ScannedEntry>) -> (r: Vec<String>)
    ensures
        views(r@) == framework_names_spec(entries@),
{
    let mut names: Vec<String> = Vec::new();
    let n = entries.len();
    let mut i: usize = 0;
    proof {
        assert(entries@.take(0) =~= Seq::<ScannedEntry>::empty());
        assert(views(names@) =~= Seq::<Seq<char>>::empty());
    }
    while i < n
        invariant
            n == entries@.len(),
            i <= n,
            views(names@) == framework_names_spec(entries@.take(i as int)),
        decreases n - i,
    {
        proof {
            assert(entries@.take(i + 1).drop_last() =~= entries@.take(i as int));
        }
        let e = &entries[i];
        if e.is_dir && contains_str(e.path.as_str(), "xcframework") {
            let name = last_path_segment(e.path.as_str());
            proof {
                assert(views(names@.push(name)) =~= views(names@).push(name@));
            }
            names.push(name);
        }
        i = i + 1;
    }
    proof {
        assert(entries@.take(n as int) =~= entries@);
    }
    names
}

/// Scanning one more entry: its name (the last segment of its path) is added
/// exactly when it is a directory whose path contains `xcframework`; the
/// names found before it are kept, in order. No entries give no names.
pub proof fn lemma_scan_next_entry(entries: Seq<ScannedEntry>, e: ScannedEntry)
    ensures
        framework_names_spec(Seq::empty()) == Seq::<Seq<char>>::empty(),
        e.is_dir && contains_seq(e.path@, "xcframework"@) ==> framework_names_spec(entries.push(e))
            == framework_names_spec(entries).push(last_segment(e.path@)),
        !(e.is_dir && contains_seq(e.path@, "xcframework"@)) ==> framework_names_spec(
            entries.push(e),
        ) == framework_names_spec(entries),
{
    assert(entries.push(e).drop_last() =~= entries);
}

/// `name` is the last path segment of a framework entry of `entries`.
pub open spec fn named_entry(entries: Seq<ScannedEntry>, name: Seq<char>) -> bool {
    exists|k: int|
        0 <= k < entries.len() && is_framework_entry(#[trigger] entries[k]) && name == last_segment(
            entries[k].path@,
        )
}

/// Every name found is the last path segment of a directory of the output
/// folder whose path contains `xcframework`.
pub proof fn lemma_names_are_frameworks(entries: Seq<ScannedEntry>)
    ensures
        forall|i: int|
            0 <= i < framework_names_spec(entries).len() ==> named_entry(
                entries,
                #[trigger] framework_names_spec(entries)[i],
            ),
    decreases entries.len(),
{
    if entries.len() > 0 {
        let rest = entries.drop_last();
        lemma_names_are_frameworks(rest);
        let names = framework_names_spec(entries);
        let prev = framework_names_spec(rest);
        assert forall|i: int| 0 <= i < names.len() implies named_entry(entries, #[trigger] names[i]) by {
            if i < prev.len() {
                assert(named_entry(rest, prev[i]));
                let k = choose|k: int|
                    0 <= k < rest.len() && is_framework_entry(#[trigger] rest[k]) && prev[i]
                        == last_segment(rest[k].path@);
                assert(entries[k] == rest[k]);
                assert(names[i] == prev[i]);
            } else {
                let k = entries.len() - 1;
                assert(entries[k] == entries.last());
            }
        }
    }
}

} // verus!
