//! The file synchronizer: turns each resolved mapping, together with what
//! was observed on disk, into the actions that deploy it — backup first,
//! then copy — isolating each mapping's failures from the rest of the run.

use vstd::prelude::*;
use crate::backup::BackupManager;
use crate::backup::PathError;
use crate::backup::backup_plan;
use crate::config::DottyConfig;
use crate::config::FileMapping;
use crate::config::flat_files;
use crate::config::spec_skip_existing;
use crate::fsmodel::ActionModel;
use crate::fsmodel::FileAction;
use crate::paths::expand_tilde;
use crate::paths::is_under;
use crate::paths::join_paths;
use crate::paths::path_join;
use crate::paths::tilde_expanded;
use crate::plans::file_plan;
use crate::plans::plan_file_copy;
use crate::plans::plan_tree_copy;
use crate::plans::tree_plan;
use vstd::string::StrSliceExecFns;

verus! {

/// What the run observed on disk about one mapping before planning it.
pub struct MappingObservation {
    /// Whether the source path exists under the deployment root.
    pub source_exists: bool,
    /// Whether that source is a directory.
    pub source_is_dir: bool,
    /// The relative paths of the files under the source tree, in walk
    /// order, when the source is a directory.
    pub source_files: Vec<String>,
    /// Whether the resolved destination exists.
    pub dest_exists: bool,
    /// Whether that destination is a directory.
    pub dest_is_dir: bool,
    /// The relative paths of the files under the destination tree, when
    /// the destination is a directory.
    pub dest_files: Vec<String>,
    /// The relative paths under the destination whose target file already
    /// exists, for the skip-existing policy.
    pub existing_targets: Vec<String>,
}

/// How one mapping fares: skipped for a missing source, skipped because
/// its destination cannot be backed up, or deployed with its plan.
pub enum MappingOutcome {
    /// The declared source is absent: the mapping is reported and skipped.
    SourceMissing,
    /// The destination exists but cannot be backed up: the mapping is
    /// reported and skipped, and no overwrite is attempted.
    BackupRefused { err: PathError },
    /// Deploy: run the backup actions, then the copy actions.
    Deploy { backed_up: bool, backup: Vec<FileAction>, copy: Vec<FileAction> },
}

/// A source string with its leading separators removed.
pub open spec fn trim_slashes(s: Seq<char>) -> Seq<char>
    decreases s.len(),
{
    if s.len() > 0 && s[0] == '/' {
        trim_slashes(s.skip(1))
    } else {
        s
    }
}

/// Removes the leading separators of a source string.
pub fn trim_leading_slashes(s: &str) -> (r: String)
    ensures
        r@ == trim_slashes(s@),
{
    let n = s.unicode_len();
    let mut i: usize = 0;
    proof {
        assert(s@.skip(0) =~= s@);
    }
    while i < n && s.get_char(i) == '/'
        invariant
            i <= n,
            n == s@.len(),
            trim_slashes(s@) == trim_slashes(s@.skip(i as int)),
        decreases n - i,
    {
        proof {
            assert(s@.skip(i as int)[0] == s@[i as int]);
            assert(s@.skip(i as int).skip(1) =~= s@.skip(i + 1 as int));
        }
        i = i + 1;
    }
    proof {
        if i < n {
            assert(s@.skip(i as int)[0] == s@[i as int]);
        } else {
            assert(s@.skip(n as int) =~= Seq::<char>::empty());
        }
        assert(trim_slashes(s@.skip(i as int)) == s@.skip(i as int));
    }
    let r = s.substring_char(i, n);
    proof {
        assert(r@ =~= s@.skip(i as int));
    }
    r.to_owned()
}

/// The copy phase of one mapping's plan: for a directory source, ensure
/// the destination directory and copy the tree; for a file source, copy
/// the one file under the skip-existing policy.
pub open spec fn mapping_copy_plan(
    source_path: Seq<char>,
    dest: Seq<char>,
    ob: MappingObservation,
    skip: bool,
) -> Seq<ActionModel> {
    if ob.source_is_dir {
        seq![ActionModel::EnsureDir { path: dest }] + tree_plan(
            source_path,
            dest,
            ob.source_files.deep_view(),
            ob.existing_targets.deep_view(),
            skip,
        )
    } else {
        file_plan(source_path, dest, ob.dest_exists, skip)
    }
}

/// What the synchronizer owes one mapping: with an absent source, a
/// report; with a destination that exists outside home, a refusal and no
/// overwrite; otherwise a deployment whose backup covers the existing
/// destination and whose copy phase follows the skip-existing policy.
pub open spec fn outcome_matches(
    repo: Seq<char>,
    home: Seq<char>,
    session_root: Seq<char>,
    skip: bool,
    m: FileMapping,
    ob: MappingObservation,
    out: MappingOutcome,
) -> bool {
    let source_path = join_paths(repo, trim_slashes(m.source@));
    let dest = tilde_expanded(m.destination@, home);
    if !ob.source_exists {
        out is SourceMissing
    } else if ob.dest_exists && !is_under(home, dest) {
        out matches MappingOutcome::BackupRefused { err } && err.path@ == dest
    } else {
        out matches MappingOutcome::Deploy { backed_up, backup, copy } && backed_up
            == ob.dest_exists && backup.deep_view() == (if ob.dest_exists {
            backup_plan(dest, home, session_root, ob.dest_is_dir, ob.dest_files.deep_view())
        } else {
            Seq::<ActionModel>::empty()
        }) && copy.deep_view() == mapping_copy_plan(source_path, dest, ob, skip)
    }
}

/// Plans the deployment of every resolved mapping, in resolver order, one
/// outcome per mapping; a mapping that fails never stops the ones after it.
pub fn copy_files(
    repo_path: &str,
    config: &DottyConfig,
    home: &str,
    backup_manager: &BackupManager,
    observations: &Vec<MappingObservation>,
) -> (r: Vec<MappingOutcome>)
    requires
        observations@.len() == flat_files(config.packages@).len(),
    ensures
        r@.len() == flat_files(config.packages@).len(),
        forall|i: int|
            0 <= i < r@.len() ==> outcome_matches(
                repo_path@,
                home@,
                backup_manager.backup_dir@,
                spec_skip_existing(config),
                flat_files(config.packages@)[i],
                observations@[i],
                #[trigger] r@[i],
            ),
{
    let mappings = config.get_all_file_mappings();
    let skip = config.should_skip_existing();
    let mut out: Vec<MappingOutcome> = Vec::new();
    let n = mappings.len();
    let mut i: usize = 0;
    while i < n
        invariant
            i <= n,
            n == mappings@.len(),
            mappings@ == flat_files(config.packages@),
            observations@.len() == n,
            skip == spec_skip_existing(config),
            out@.len() == i,
            forall|j: int|
                0 <= j < i ==> outcome_matches(
                    repo_path@,
                    home@,
                    backup_manager.backup_dir@,
                    skip,
                    mappings@[j],
                    observations@[j],
                    #[trigger] out@[j],
                ),
        decreases n - i,
    {
        let mapping = &mappings[i];
        let ob = &observations[i];
        let trimmed = trim_leading_slashes(mapping.source.as_str());
        let source_path = path_join(repo_path, trimmed.as_str());
        let dest = expand_tilde(mapping.destination.as_str(), home);
        if !ob.source_exists {
            out.push(MappingOutcome::SourceMissing);
        } else {
            let backed = if ob.dest_exists {
                backup_manager.backup_if_exists(
                    dest.as_str(),
                    true,
                    ob.dest_is_dir,
                    &ob.dest_files,
                    home,
                )
            } else {
                let empty: Vec<FileAction> = Vec::new();
                proof {
                    assert(empty.deep_view() =~= Seq::<ActionModel>::empty());
                }
                Ok((false, empty))
            };
            match backed {
                Err(err) => {
                    out.push(MappingOutcome::BackupRefused { err });
                },
                Ok((backed_up, backup)) => {
                    let copy = if ob.source_is_dir {
                        let mut plan: Vec<FileAction> = Vec::new();
                        plan.push(FileAction::EnsureDir { path: dest.clone() });
                        let mut tree = plan_tree_copy(
                            source_path.as_str(),
                            dest.as_str(),
                            &ob.source_files,
                            &ob.existing_targets,
                            skip,
                        );
                        let ghost head = plan.deep_view();
                        let ghost tail = tree.deep_view();
                        plan.append(&mut tree);
                        proof {
                            assert(plan.deep_view() =~= head + tail);
                            assert(head =~= seq![
                                ActionModel::EnsureDir { path: tilde_expanded(mapping.destination@, home@) },
                            ]);
                        }
                        plan
                    } else {
                        plan_file_copy(source_path.as_str(), dest.as_str(), ob.dest_exists, skip)
                    };
                    out.push(MappingOutcome::Deploy { backed_up, backup, copy });
                },
            }
        }
        i = i + 1;
    }
    out
}

} // verus!
