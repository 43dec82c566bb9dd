//! The backup manager: before the synchronizer overwrites anything under
//! the home directory, the old content is planned into a timestamped
//! session under the backup store, preserving each path's location
//! relative to home, so a snapshot can be restored verbatim.

use vstd::prelude::*;
use crate::fsmodel::ActionModel;
use crate::fsmodel::FileAction;
use crate::fsmodel::FsModel;
use crate::fsmodel::lemma_join_injective;
use crate::paths::is_under;
use crate::paths::join_paths;
use crate::paths::path_join;
use crate::paths::strip_prefix_dir;
use crate::plans::plan_file_copy;
use crate::plans::plan_tree_copy;
use crate::plans::tree_plan;

verus! {

/// A destination that cannot be backed up because it does not lie under
/// the home directory.
#[derive(Debug)]
pub struct PathError {
    pub path: String,
}

/// Why a backup session could not be set up.
#[derive(Debug)]
pub enum BackupError {
    CacheDirUnavailable,
}

/// What the backup-store cleanup does.
pub enum CleanAction {
    /// The store does not exist: nothing to do.
    NoStore,
    /// Delete the whole store, all past sessions included.
    RemoveStore { path: String },
}

/// The backup store: all sessions of all past runs live here.
pub open spec fn backup_store_root(cache: Seq<char>) -> Seq<char> {
    join_paths(join_paths(cache, "dotty"@), "dotty_backups"@)
}

/// One run's session directory inside the store.
pub open spec fn backup_session_root(cache: Seq<char>, timestamp: Seq<char>) -> Seq<char> {
    join_paths(backup_store_root(cache), timestamp)
}

/// The plan that snapshots an existing destination: the file itself, or
/// every file of the tree, copied to the same home-relative location under
/// the session root.
pub open spec fn backup_plan(
    path: Seq<char>,
    home: Seq<char>,
    session_root: Seq<char>,
    is_dir: bool,
    files: Seq<Seq<char>>,
) -> Seq<ActionModel> {
    let rel = path.skip(home.len() + 1 as int);
    let target = join_paths(session_root, rel);
    if is_dir {
        tree_plan(path, target, files, Seq::empty(), false)
    } else {
        seq![ActionModel::Copy { src: path, dst: target }]
    }
}

/// Law: two runs with different timestamps write to different session
/// directories — backup sessions accumulate and are never merged.
pub proof fn lemma_sessions_distinct(cache: Seq<char>, t1: Seq<char>, t2: Seq<char>)
    requires
        t1 != t2,
    ensures
        backup_session_root(cache, t1) != backup_session_root(cache, t2),
{
    lemma_join_injective(backup_store_root(cache), t1, t2);
}

/// What the cleanup leaves of the files: with no store, everything; with a
/// store removed, every file at or under the store path is gone and every
/// other file is untouched.
pub open spec fn apply_clean(fs: FsModel, a: CleanAction) -> FsModel {
    match a {
        CleanAction::NoStore => fs,
        CleanAction::RemoveStore { path } => Map::new(
            |p: Seq<char>| fs.contains_key(p) && p != path@ && !is_under(path@, p),
            |p: Seq<char>| fs[p],
        ),
    }
}

/// Relies on dirs::cache_dir: the platform cache directory, when the
/// platform defines one.
#[verifier::external_body]
pub(crate) fn cache_dir_path() -> (r: Option<String>) {
    match dirs::cache_dir() {
        Some(p) => Some(p.to_string_lossy().into_owned()),
        None => None,
    }
}

/// Relies on chrono::Local::now and its formatting: a sortable
/// date-and-time string for the present moment.
#[verifier::external_body]
fn now_timestamp() -> (r: String) {
    chrono::Local::now().format("%Y%m%d_%H%M%S").to_string()
}

/// One run's backup session.
pub struct BackupManager {
    pub backup_dir: String,
    pub timestamp: String,
}

impl BackupManager {
    /// The session for a given store location and timestamp.
    pub fn with_root(cache_dir: &str, timestamp: &str) -> (r: BackupManager)
        ensures
            r.backup_dir@ == backup_session_root(cache_dir@, timestamp@),
            r.timestamp@ == timestamp@,
    {
        let store = path_join(path_join(cache_dir, "dotty").as_str(), "dotty_backups");
        let dir = path_join(store.as_str(), timestamp);
        BackupManager { backup_dir: dir, timestamp: timestamp.to_owned() }
    }

    /// A fresh session under the platform cache directory, stamped with the
    /// present moment; fails only when no cache directory is known.
    pub fn new() -> (r: Result<BackupManager, BackupError>)
        ensures
            r matches Ok(m) ==> exists|cache: Seq<char>, ts: Seq<char>|
                m.backup_dir@ == backup_session_root(cache, ts) && m.timestamp@ == ts,
    {
        let cache = match cache_dir_path() {
            Some(c) => c,
            None => {
                return Err(BackupError::CacheDirUnavailable);
            },
        };
        let ts = now_timestamp();
        let m = Self::with_root(cache.as_str(), ts.as_str());
        proof {
            assert(m.backup_dir@ == backup_session_root(cache@, ts@));
        }
        Ok(m)
    }

    /// Where this session's snapshots go.
    pub fn get_backup_dir(&self) -> (r: &String)
        ensures
            r@ == self.backup_dir@,
    {
        &self.backup_dir
    }

    /// Plans the snapshot of a destination that is about to be overwritten:
    /// nothing when the destination does not exist; otherwise its content,
    /// at its home-relative path under the session root. Fails exactly when
    /// an existing destination does not lie under the home directory.
    pub fn backup_if_exists(
        &self,
        path: &str,
        path_exists: bool,
        is_dir: bool,
        dir_files: &Vec<String>,
        home: &str,
    ) -> (r: Result<(bool, Vec<FileAction>), PathError>)
        ensures
            !path_exists ==> (r matches Ok((taken, v)) && taken == false && v@.len() == 0),
            path_exists ==> ((r is Ok) <==> is_under(home@, path@)),
            r matches Err(e) ==> e.path@ == path@,
            path_exists && is_under(home@, path@) ==> (r matches Ok((taken, v)) && taken == true
                && v.deep_view() == backup_plan(
                path@,
                home@,
                self.backup_dir@,
                is_dir,
                dir_files.deep_view(),
            )),
    {
        if !path_exists {
            let empty: Vec<FileAction> = Vec::new();
            return Ok((false, empty));
        }
        let rel = match strip_prefix_dir(path, home) {
            Some(rel) => rel,
            None => {
                return Err(PathError { path: path.to_owned() });
            },
        };
        proof {
            assert(rel@ =~= path@.skip(home@.len() + 1 as int));
        }
        let target = path_join(self.backup_dir.as_str(), rel.as_str());
        if is_dir {
            let empty: Vec<String> = Vec::new();
            let actions = plan_tree_copy(path, target.as_str(), dir_files, &empty, false);
            proof {
                assert(empty.deep_view() =~= Seq::<Seq<char>>::empty());
            }
            Ok((true, actions))
        } else {
            let actions = plan_file_copy(path, target.as_str(), true, false);
            proof {
                assert(actions.deep_view() =~= backup_plan(
                    path@,
                    home@,
                    self.backup_dir@,
                    is_dir,
                    dir_files.deep_view(),
                ));
            }
            Ok((true, actions))
        }
    }

    /// Decides the cleanup of the whole backup store: a no-op when the
    /// store does not exist, otherwise the removal of the store path with
    /// every past session under it.
    pub fn clean_backups(cache_dir: &str, store_exists: bool) -> (r: CleanAction)
        ensures
            !store_exists ==> r is NoStore,
            store_exists ==> (r matches CleanAction::RemoveStore { path } && path@
                == backup_store_root(cache_dir@)),
    {
        if !store_exists {
            CleanAction::NoStore
        } else {
            let store = path_join(path_join(cache_dir, "dotty").as_str(), "dotty_backups");
            CleanAction::RemoveStore { path: store }
        }
    }
}

/// Law: cleaning an absent store changes nothing; after cleaning a present
/// store, neither the store path nor anything under it exists, and every
/// file elsewhere is untouched.
pub proof fn lemma_clean_effect(fs: FsModel, a: CleanAction)
    ensures
        a is NoStore ==> apply_clean(fs, a) == fs,
        a matches CleanAction::RemoveStore { path } ==> {
            &&& !apply_clean(fs, a).contains_key(path@)
            &&& forall|p: Seq<char>| is_under(path@, p) ==> !apply_clean(fs, a).contains_key(p)
            &&& forall|p: Seq<char>|
                p != path@ && !is_under(path@, p) ==> apply_clean(fs, a).contains_key(p)
                    == fs.contains_key(p) && (fs.contains_key(p) ==> apply_clean(fs, a)[p] == fs[p])
        },
{
}

} // verus!
