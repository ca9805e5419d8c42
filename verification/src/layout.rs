//! Where the things of an installation are: the address of the source
//! archive of a version, and the places below the target directory.

use vstd::prelude::*;
use vstd::string::{StrSliceExecFns, StringExecFns};

verus! {

/// The address of the source archive of `version`.
pub open spec fn archive_url_of(version: Seq<char>) -> Seq<char> {
    "https://github.com/cmus/cmus/archive/refs/tags/"@ + version + ".zip"@
}

/// The file below `target_path` that the source archive of `version` is
/// written to.
pub open spec fn archive_path_of(target_path: Seq<char>, version: Seq<char>) -> Seq<char> {
    target_path + "/cmus-"@ + version + ".zip"@
}

/// The name of the directory that the source archive of `version` unpacks to.
pub open spec fn source_dir_name_of(version: Seq<char>) -> Seq<char> {
    "cmus-"@ + version
}

/// The path of `child` below `base`: the two joined by one `/`, which is left
/// out where `base` is empty or ends in one already.
pub open spec fn joined(base: Seq<char>, child: Seq<char>) -> Seq<char> {
    if base.len() == 0 {
        child
    } else if base.last() == '/' {
        base + child
    } else {
        base + seq!['/'] + child
    }
}

/// The address of the source archive of `version`.
pub fn archive_url(version: &str) -> (url: String)
    ensures
        url@ == archive_url_of(version@),
{
    "https://github.com/cmus/cmus/archive/refs/tags/".to_owned().concat(version).concat(".zip")
}

/// The file below `target_path` that the source archive of `version` is
/// written to.
pub fn archive_path(target_path: &str, version: &str) -> (path: String)
    ensures
        path@ == archive_path_of(target_path@, version@),
{
    target_path.to_owned().concat("/cmus-").concat(version).concat(".zip")
}

/// The name of the directory that the source archive of `version` unpacks to.
pub fn source_dir_name(version: &str) -> (name: String)
    ensures
        name@ == source_dir_name_of(version@),
{
    "cmus-".to_owned().concat(version)
}

/// The path of `child` below `base`.
pub fn join_path(base: &str, child: &str) -> (path: String)
    ensures
        path@ == joined(base@, child@),
{
    let len: usize = base.unicode_len();
    if len == 0 {
        child.to_owned()
    } else if base.get_char(len - 1) == '/' {
        base.to_owned().concat(child)
    } else {
        proof {
            reveal_strlit("/");
        }
        base.to_owned().concat("/").concat(child)
    }
}

} // verus!
