//! Repositories named as `username/repo`: parsing that form, and the
//! clone address and cache folder a repository maps to.

use vstd::prelude::*;
use vstd::string::StrSliceExecFns;
use crate::paths::concat_str;
use crate::paths::join_paths;
use crate::paths::path_join;

verus! {

/// How many separators a repository string holds.
pub open spec fn slash_count(s: Seq<char>) -> nat
    decreases s.len(),
{
    if s.len() == 0 {
        0
    } else {
        slash_count(s.drop_last()) + if s.last() == '/' {
            1nat
        } else {
            0nat
        }
    }
}

/// Counts the separators of a string.
pub fn count_slashes(s: &str) -> (r: usize)
    ensures
        r == slash_count(s@),
{
    let n = s.unicode_len();
    let mut count: usize = 0;
    let mut i: usize = 0;
    proof {
        assert(s@.take(0) =~= Seq::<char>::empty());
    }
    while i < n
        invariant
            i <= n,
            n == s@.len(),
            count <= i,
            count == slash_count(s@.take(i as int)),
        decreases n - i,
    {
        proof {
            assert(s@.take(i + 1 as int).drop_last() =~= s@.take(i as int));
            assert(s@.take(i + 1 as int).last() == s@[i as int]);
        }
        if s.get_char(i) == '/' {
            count = count + 1;
        }
        i = i + 1;
    }
    proof {
        assert(s@.take(n as int) =~= s@);
    }
    count
}

/// A string with a separator somewhere holds at least one.
proof fn lemma_slash_exists(s: Seq<char>)
    requires
        slash_count(s) != 0,
    ensures
        exists|k: int| 0 <= k < s.len() && s[k] == '/',
    decreases s.len(),
{
    if s.len() > 0 {
        if s.last() == '/' {
            assert(s[s.len() - 1] == '/');
        } else {
            lemma_slash_exists(s.drop_last());
            let k = choose|k: int| 0 <= k < s.drop_last().len() && s.drop_last()[k] == '/';
            assert(s[k] == '/');
        }
    }
}

/// A repository string that is not of the `username/repo` form.
#[derive(Debug)]
pub enum GitError {
    InvalidFormat,
}

/// A repository on the hosting service, named by owner and name.
pub struct GitRepo {
    pub username: String,
    pub repo_name: String,
}

impl GitRepo {
    /// Parses `username/repo`: accepted exactly when the string holds one
    /// separator, which splits it into the two parts.
    pub fn from_string(repo_string: &str) -> (r: Result<GitRepo, GitError>)
        ensures
            (r is Ok) <==> slash_count(repo_string@) == 1,
            r matches Ok(g) ==> repo_string@ == join_paths(g.username@, g.repo_name@),
    {
        let n = repo_string.unicode_len();
        if count_slashes(repo_string) != 1 {
            return Err(GitError::InvalidFormat);
        }
        proof {
            lemma_slash_exists(repo_string@);
        }
        let mut k: usize = 0;
        while repo_string.get_char(k) != '/'
            invariant
                k < n,
                n == repo_string@.len(),
                exists|l: int| k <= l < n && repo_string@[l] == '/',
            decreases n - k,
        {
            proof {
                let l = choose|l: int| k <= l < n && repo_string@[l] == '/';
                assert(l > k);
            }
            k = k + 1;
        }
        let username = repo_string.substring_char(0, k).to_owned();
        let repo_name = repo_string.substring_char(k + 1, n).to_owned();
        proof {
            assert(repo_string@ =~= join_paths(username@, repo_name@));
        }
        Ok(GitRepo { username, repo_name })
    }

    /// The address the repository is cloned from.
    pub fn clone_url(&self) -> (r: String)
        ensures
            r@ == "https://github.com/"@ + self.username@ + "/"@ + self.repo_name@ + ".git"@,
    {
        let a = concat_str("https://github.com/", self.username.as_str());
        let b = concat_str(a.as_str(), "/");
        let c = concat_str(b.as_str(), self.repo_name.as_str());
        let d = concat_str(c.as_str(), ".git");
        proof {
            assert(d@ =~= "https://github.com/"@ + self.username@ + "/"@ + self.repo_name@
                + ".git"@);
        }
        d
    }

    /// The folder the repository's clone lives in inside the cache.
    pub fn folder_name(&self) -> (r: String)
        ensures
            r@ == self.username@ + "_"@ + self.repo_name@,
    {
        let a = concat_str(self.username.as_str(), "_");
        let b = concat_str(a.as_str(), self.repo_name.as_str());
        proof {
            assert(b@ =~= self.username@ + "_"@ + self.repo_name@);
        }
        b
    }
}

/// Where clones are cached: a fixed spot under the platform cache
/// directory, when one is known.
pub fn clone_cache_dir() -> (r: Option<String>)
    ensures
        r matches Some(p) ==> exists|cache: Seq<char>|
            p@ == join_paths(join_paths(cache, "dotty"@), "clone"@),
{
    match crate::backup::cache_dir_path() {
        Some(cache) => {
            let p = path_join(path_join(cache.as_str(), "dotty").as_str(), "clone");
            proof {
                assert(p@ == join_paths(join_paths(cache@, "dotty"@), "clone"@));
            }
            Some(p)
        },
        None => None,
    }
}

} // verus!
