//! Building the copy plans the synchronizer and the backup manager share:
//! one file, or a whole tree file by file, under an overwrite-or-skip
//! policy — and the laws those plans obey.

use vstd::prelude::*;
use crate::fsmodel::ActionModel;
use crate::fsmodel::FileAction;
use crate::fsmodel::FsModel;
use crate::fsmodel::action_writes;
use crate::fsmodel::apply_actions;
use crate::fsmodel::lemma_copies_land;
use crate::fsmodel::lemma_join_bases_distinct;
use crate::fsmodel::lemma_join_injective;
use crate::fsmodel::lemma_plan_idempotent;
use crate::fsmodel::lemma_untouched;
use crate::fsmodel::plan_writes;
use crate::paths::is_prefix_of;
use crate::paths::join_paths;
use crate::paths::path_join;
use crate::paths::str_eq;

verus! {

/// Whether `x` occurs in `s`.
pub open spec fn contains_str(s: Seq<Seq<char>>, x: Seq<char>) -> bool {
    exists|i: int| 0 <= i < s.len() && s[i] == x
}

/// The plan for one file: skip it when the policy says so and the target
/// already exists, otherwise copy it over the target.
pub open spec fn file_plan(src: Seq<char>, dst: Seq<char>, dst_exists: bool, skip: bool) -> Seq<
    ActionModel,
> {
    if skip && dst_exists {
        seq![ActionModel::Skip { dst }]
    } else {
        seq![ActionModel::Copy { src, dst }]
    }
}

/// The step a tree copy takes for the relative path `f`.
pub open spec fn tree_step(
    src_root: Seq<char>,
    dst_root: Seq<char>,
    f: Seq<char>,
    existing: Seq<Seq<char>>,
    skip: bool,
) -> ActionModel {
    if skip && contains_str(existing, f) {
        ActionModel::Skip { dst: join_paths(dst_root, f) }
    } else {
        ActionModel::Copy { src: join_paths(src_root, f), dst: join_paths(dst_root, f) }
    }
}

/// The plan for a tree: one step per relative path, in listing order.
pub open spec fn tree_plan(
    src_root: Seq<char>,
    dst_root: Seq<char>,
    files: Seq<Seq<char>>,
    existing: Seq<Seq<char>>,
    skip: bool,
) -> Seq<ActionModel>
    decreases files.len(),
{
    if files.len() == 0 {
        Seq::empty()
    } else {
        tree_plan(src_root, dst_root, files.drop_last(), existing, skip).push(
            tree_step(src_root, dst_root, files.last(), existing, skip),
        )
    }
}

/// The tree plan has one step per listed file, in order.
pub proof fn lemma_tree_plan_index(
    src_root: Seq<char>,
    dst_root: Seq<char>,
    files: Seq<Seq<char>>,
    existing: Seq<Seq<char>>,
    skip: bool,
)
    ensures
        tree_plan(src_root, dst_root, files, existing, skip).len() == files.len(),
        forall|i: int|
            0 <= i < files.len() ==> tree_plan(src_root, dst_root, files, existing, skip)[i]
                == tree_step(src_root, dst_root, #[trigger] files[i], existing, skip),
    decreases files.len(),
{
    if files.len() > 0 {
        lemma_tree_plan_index(src_root, dst_root, files.drop_last(), existing, skip);
        let sub = tree_plan(src_root, dst_root, files.drop_last(), existing, skip);
        let p = tree_plan(src_root, dst_root, files, existing, skip);
        assert forall|i: int| 0 <= i < files.len() implies p[i] == tree_step(
            src_root,
            dst_root,
            #[trigger] files[i],
            existing,
            skip,
        ) by {
            if i < files.len() - 1 {
                assert(files.drop_last()[i] == files[i]);
                assert(p[i] == sub[i]);
            } else {
                assert(files.last() == files[i]);
            }
        }
    }
}

/// Whether `x` occurs in the vector, by characters.
pub fn vec_contains_str(v: &Vec<String>, x: &str) -> (r: bool)
    ensures
        r == contains_str(v.deep_view(), x@),
{
    let n = v.len();
    let mut i: usize = 0;
    while i < n
        invariant
            i <= n,
            n == v.len(),
            forall|j: int| 0 <= j < i ==> v.deep_view()[j] != x@,
        decreases n - i,
    {
        if str_eq(v[i].as_str(), x) {
            assert(v.deep_view()[i as int] == x@);
            return true;
        }
        i = i + 1;
    }
    false
}

/// Builds the plan for one file under the skip-existing policy.
pub fn plan_file_copy(src: &str, dst: &str, dst_exists: bool, skip: bool) -> (r: Vec<FileAction>)
    ensures
        r.deep_view() == file_plan(src@, dst@, dst_exists, skip),
{
    let mut out: Vec<FileAction> = Vec::new();
    if skip && dst_exists {
        out.push(FileAction::SkipFile { dst: dst.to_owned() });
    } else {
        out.push(FileAction::CopyFile { src: src.to_owned(), dst: dst.to_owned() });
    }
    proof {
        assert(out.deep_view() =~= file_plan(src@, dst@, dst_exists, skip));
    }
    out
}

/// Builds the plan that copies the listed files of a source tree to the
/// matching paths under a destination root, skipping the ones that already
/// exist when the policy says so.
pub fn plan_tree_copy(
    src_root: &str,
    dst_root: &str,
    files: &Vec<String>,
    existing: &Vec<String>,
    skip: bool,
) -> (r: Vec<FileAction>)
    ensures
        r.deep_view() == tree_plan(src_root@, dst_root@, files.deep_view(), existing.deep_view(), skip),
{
    let mut out: Vec<FileAction> = Vec::new();
    let n = files.len();
    let mut i: usize = 0;
    while i < n
        invariant
            i <= n,
            n == files.len(),
            out.deep_view() == tree_plan(
                src_root@,
                dst_root@,
                files.deep_view().take(i as int),
                existing.deep_view(),
                skip,
            ),
        decreases n - i,
    {
        let f = &files[i];
        if skip && vec_contains_str(existing, f.as_str()) {
            out.push(FileAction::SkipFile { dst: path_join(dst_root, f.as_str()) });
        } else {
            out.push(
                FileAction::CopyFile {
                    src: path_join(src_root, f.as_str()),
                    dst: path_join(dst_root, f.as_str()),
                },
            );
        }
        proof {
            let dv = files.deep_view();
            assert(dv.take(i + 1 as int).drop_last() =~= dv.take(i as int));
            assert(dv.take(i + 1 as int).last() == dv[i as int]);
            assert(out.deep_view() =~= tree_plan(
                src_root@,
                dst_root@,
                dv.take(i + 1 as int),
                existing.deep_view(),
                skip,
            ));
        }
        i = i + 1;
    }
    proof {
        assert(files.deep_view().take(n as int) =~= files.deep_view());
    }
    out
}

/// No two of the listed relative paths are the same.
pub open spec fn distinct_strs(files: Seq<Seq<char>>) -> bool {
    forall|i: int, j: int| 0 <= i < j < files.len() ==> files[i] != files[j]
}

/// The two roots name disjoint trees: closed with a separator, neither is
/// a prefix of the other.
pub open spec fn roots_disjoint(a: Seq<char>, b: Seq<char>) -> bool {
    !is_prefix_of(a + seq!['/'], b + seq!['/']) && !is_prefix_of(b + seq!['/'], a + seq!['/'])
}

/// Every listed file exists under the source root.
pub open spec fn tree_sources_present(fs: FsModel, src_root: Seq<char>, files: Seq<Seq<char>>) -> bool {
    forall|i: int| 0 <= i < files.len() ==> fs.contains_key(join_paths(src_root, #[trigger] files[i]))
}

/// Law: with skip-existing off and an unchanged source tree, running the
/// synchronizer's copy plan a second time over its own result changes no
/// file — destinations are byte-identical after both runs.
pub proof fn lemma_sync_idempotent(
    fs: FsModel,
    src_root: Seq<char>,
    dst_root: Seq<char>,
    files: Seq<Seq<char>>,
    existing: Seq<Seq<char>>,
)
    requires
        roots_disjoint(src_root, dst_root),
        distinct_strs(files),
        tree_sources_present(fs, src_root, files),
    ensures
        ({
            let p = tree_plan(src_root, dst_root, files, existing, false);
            apply_actions(apply_actions(fs, p), p) == apply_actions(fs, p)
        }),
{
    let p = tree_plan(src_root, dst_root, files, existing, false);
    lemma_tree_plan_index(src_root, dst_root, files, existing, false);
    assert forall|i: int| 0 <= i < p.len() implies (#[trigger] p[i]) is Copy && fs.contains_key(
        p[i]->Copy_src,
    ) by {
        assert(p[i] == tree_step(src_root, dst_root, files[i], existing, false));
        assert(fs.contains_key(join_paths(src_root, files[i])));
    }
    assert forall|i: int, j: int|
        0 <= i < p.len() && 0 <= j < p.len() implies (#[trigger] p[i])->Copy_src != (
    #[trigger] p[j])->Copy_dst by {
        lemma_join_bases_distinct(src_root, files[i], dst_root, files[j]);
    }
    assert forall|i: int, j: int| 0 <= i < j < p.len() implies (#[trigger] p[i])->Copy_dst != (
    #[trigger] p[j])->Copy_dst by {
        lemma_join_injective(dst_root, files[i], files[j]);
    }
    lemma_plan_idempotent(fs, p);
}

/// Law: with skip-existing on, a tree copy leaves every already-present
/// destination file's content untouched.
pub proof fn lemma_skip_existing_preserves(
    fs: FsModel,
    src_root: Seq<char>,
    dst_root: Seq<char>,
    files: Seq<Seq<char>>,
    existing: Seq<Seq<char>>,
    f: Seq<char>,
)
    requires
        contains_str(existing, f),
    ensures
        ({
            let fs1 = apply_actions(fs, tree_plan(src_root, dst_root, files, existing, true));
            &&& fs1.contains_key(join_paths(dst_root, f)) == fs.contains_key(
                join_paths(dst_root, f),
            )
            &&& fs.contains_key(join_paths(dst_root, f)) ==> fs1[join_paths(dst_root, f)]
                == fs[join_paths(dst_root, f)]
        }),
{
    let p = tree_plan(src_root, dst_root, files, existing, true);
    let target = join_paths(dst_root, f);
    lemma_tree_plan_index(src_root, dst_root, files, existing, true);
    assert(!plan_writes(p, target)) by {
        if plan_writes(p, target) {
            let i = choose|i: int| 0 <= i < p.len() && action_writes(#[trigger] p[i], target);
            assert(p[i] == tree_step(src_root, dst_root, files[i], existing, true));
            assert(!contains_str(existing, files[i]));
            assert(files[i] != f);
            lemma_join_injective(dst_root, files[i], f);
        }
    }
    lemma_untouched(fs, p, target);
}

/// Law: a plan of copies between disjoint trees lands every listed file's
/// content at its target — in particular, a backup plan makes the old
/// content of each destination file recoverable under the backup root.
pub proof fn lemma_tree_copy_lands(
    fs: FsModel,
    src_root: Seq<char>,
    dst_root: Seq<char>,
    files: Seq<Seq<char>>,
    existing: Seq<Seq<char>>,
)
    requires
        roots_disjoint(src_root, dst_root),
        distinct_strs(files),
        tree_sources_present(fs, src_root, files),
    ensures
        ({
            let fs1 = apply_actions(fs, tree_plan(src_root, dst_root, files, existing, false));
            forall|i: int|
                0 <= i < files.len() ==> fs1.contains_key(
                    join_paths(dst_root, #[trigger] files[i]),
                ) && fs1[join_paths(dst_root, files[i])] == fs[join_paths(src_root, files[i])]
        }),
{
    let p = tree_plan(src_root, dst_root, files, existing, false);
    lemma_tree_plan_index(src_root, dst_root, files, existing, false);
    assert forall|i: int| 0 <= i < p.len() implies (#[trigger] p[i]) is Copy && fs.contains_key(
        p[i]->Copy_src,
    ) by {
        assert(p[i] == tree_step(src_root, dst_root, files[i], existing, false));
        assert(fs.contains_key(join_paths(src_root, files[i])));
    }
    assert forall|i: int, j: int|
        0 <= i < p.len() && 0 <= j < p.len() implies (#[trigger] p[i])->Copy_src != (
    #[trigger] p[j])->Copy_dst by {
        lemma_join_bases_distinct(src_root, files[i], dst_root, files[j]);
    }
    assert forall|i: int, j: int| 0 <= i < j < p.len() implies (#[trigger] p[i])->Copy_dst != (
    #[trigger] p[j])->Copy_dst by {
        lemma_join_injective(dst_root, files[i], files[j]);
    }
    lemma_copies_land(fs, p);
    let fs1 = apply_actions(fs, p);
    assert forall|i: int| 0 <= i < files.len() implies fs1.contains_key(
        join_paths(dst_root, #[trigger] files[i]),
    ) && fs1[join_paths(dst_root, files[i])] == fs[join_paths(src_root, files[i])] by {
        assert(p[i]->Copy_dst == join_paths(dst_root, files[i]));
        assert(p[i]->Copy_src == join_paths(src_root, files[i]));
    }
}

/// Law: backup, then overwrite. When a backup of the destination tree into
/// a disjoint backup target runs before the copy phase, the pre-run content
/// of every destination file is recoverable under the backup target after
/// the whole plan has run, whatever the copy phase wrote.
pub proof fn lemma_backup_then_copy_recoverable(
    fs: FsModel,
    dest_root: Seq<char>,
    backup_target: Seq<char>,
    files_dest: Seq<Seq<char>>,
    src_root: Seq<char>,
    files_src: Seq<Seq<char>>,
    existing: Seq<Seq<char>>,
    skip: bool,
)
    requires
        roots_disjoint(dest_root, backup_target),
        distinct_strs(files_dest),
        tree_sources_present(fs, dest_root, files_dest),
    ensures
        ({
            let b = tree_plan(dest_root, backup_target, files_dest, Seq::empty(), false);
            let c = tree_plan(src_root, dest_root, files_src, existing, skip);
            let fs1 = apply_actions(fs, b + c);
            forall|i: int|
                0 <= i < files_dest.len() ==> fs1.contains_key(
                    join_paths(backup_target, #[trigger] files_dest[i]),
                ) && fs1[join_paths(backup_target, files_dest[i])] == fs[join_paths(
                    dest_root,
                    files_dest[i],
                )]
        }),
{
    let b = tree_plan(dest_root, backup_target, files_dest, Seq::empty(), false);
    let c = tree_plan(src_root, dest_root, files_src, existing, skip);
    crate::fsmodel::lemma_apply_concat(fs, b, c);
    let fsb = apply_actions(fs, b);
    lemma_tree_copy_lands(fs, dest_root, backup_target, files_dest, Seq::empty());
    lemma_tree_plan_index(src_root, dest_root, files_src, existing, skip);
    assert forall|i: int| 0 <= i < files_dest.len() implies apply_actions(fsb, c).contains_key(
        join_paths(backup_target, #[trigger] files_dest[i]),
    ) && apply_actions(fsb, c)[join_paths(backup_target, files_dest[i])] == fs[join_paths(
        dest_root,
        files_dest[i],
    )] by {
        let kept = join_paths(backup_target, files_dest[i]);
        assert(!plan_writes(c, kept)) by {
            if plan_writes(c, kept) {
                let j = choose|j: int| 0 <= j < c.len() && action_writes(#[trigger] c[j], kept);
                assert(c[j] == tree_step(src_root, dest_root, files_src[j], existing, skip));
                lemma_join_bases_distinct(dest_root, files_src[j], backup_target, files_dest[i]);
            }
        }
        lemma_untouched(fsb, c, kept);
    }
}

/// Law: backup, then overwrite, for a single-file destination. The old
/// content of an existing destination file is recoverable at the backup
/// target after the snapshot and the copy have both run.
pub proof fn lemma_backup_then_file_copy_recoverable(
    fs: FsModel,
    dest: Seq<char>,
    backup_target: Seq<char>,
    src: Seq<char>,
    skip: bool,
)
    requires
        fs.contains_key(dest),
        dest != backup_target,
    ensures
        ({
            let b = seq![ActionModel::Copy { src: dest, dst: backup_target }];
            let c = file_plan(src, dest, true, skip);
            let fs1 = apply_actions(fs, b + c);
            fs1.contains_key(backup_target) && fs1[backup_target] == fs[dest]
        }),
{
    let b = seq![ActionModel::Copy { src: dest, dst: backup_target }];
    let c = file_plan(src, dest, true, skip);
    crate::fsmodel::lemma_apply_concat(fs, b, c);
    reveal_with_fuel(crate::fsmodel::apply_actions, 3);
    let fsb = apply_actions(fs, b);
    assert(b[0] == (ActionModel::Copy { src: dest, dst: backup_target }));
    assert(b.skip(1) =~= Seq::<ActionModel>::empty());
    assert(fsb == fs.insert(backup_target, fs[dest]));
    assert(!plan_writes(c, backup_target)) by {
        if plan_writes(c, backup_target) {
            let j = choose|j: int| 0 <= j < c.len() && action_writes(#[trigger] c[j], backup_target);
        }
    }
    lemma_untouched(fsb, c, backup_target);
}

} // verus!
