//! Validation of the command-line inputs: the repository name's form, and
//! the local folder the caller points at.

use vstd::prelude::*;
use crate::git::slash_count;
use crate::git::count_slashes;
use crate::paths::concat_str;
use vstd::string::StringExecFns;

verus! {

/// Accepts exactly the strings of the `username/repo` form — one
/// separator — and hands them back unchanged.
pub fn validate_repo_format(repo: &str) -> (r: Result<String, String>)
    ensures
        (r is Ok) <==> slash_count(repo@) == 1,
        r matches Ok(s) ==> s@ == repo@,
        r matches Err(e) ==> e@ == "Repository must be in the format 'username/repo'"@,
{
    if count_slashes(repo) == 1 {
        Ok(repo.to_owned())
    } else {
        Err("Repository must be in the format 'username/repo'".to_owned())
    }
}

/// Accepts a folder that was found to exist, handing the path back; an
/// absent folder is rejected with a message naming it.
pub fn validate_folder_path(path: &str, exists: bool) -> (r: Result<String, String>)
    ensures
        exists ==> (r matches Ok(p) && p@ == path@),
        !exists ==> (r matches Err(e) && e@ == "Folder path '"@ + path@ + "' does not exist"@),
{
    if exists {
        Ok(path.to_owned())
    } else {
        let mut m = concat_str("Folder path '", path);
        m.append("' does not exist");
        Err(m)
    }
}

} // verus!
