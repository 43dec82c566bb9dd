//! The mathematical model of the filesystem the engine acts on: a map from
//! file paths to file contents, and the effect of the actions a deployment
//! plan is made of.
//!
//! Directories are implicit: an `EnsureDir` action changes no file content,
//! and copying a file creates whatever parents its target needs.

use vstd::prelude::*;
use crate::paths::is_prefix_of;
use crate::paths::join_paths;

verus! {

/// The files on disk: each path maps to that file's bytes.
pub type FsModel = Map<Seq<char>, Seq<u8>>;

/// One step of a deployment plan.
#[derive(Debug)]
pub enum FileAction {
    /// Copy the file at `src` to `dst`, overwriting `dst`, creating parent
    /// directories as needed.
    CopyFile { src: String, dst: String },
    /// Leave the already-present file at `dst` untouched.
    SkipFile { dst: String },
    /// Create the directory `path` and its ancestors if absent.
    EnsureDir { path: String },
}

/// A plan step, at the level of the model.
pub ghost enum ActionModel {
    Copy { src: Seq<char>, dst: Seq<char> },
    Skip { dst: Seq<char> },
    EnsureDir { path: Seq<char> },
}

impl View for FileAction {
    type V = ActionModel;

    open spec fn view(&self) -> ActionModel {
        match self {
            FileAction::CopyFile { src, dst } => ActionModel::Copy { src: src@, dst: dst@ },
            FileAction::SkipFile { dst } => ActionModel::Skip { dst: dst@ },
            FileAction::EnsureDir { path } => ActionModel::EnsureDir { path: path@ },
        }
    }
}

impl DeepView for FileAction {
    type V = ActionModel;

    open spec fn deep_view(&self) -> ActionModel {
        self.view()
    }
}

/// What one action does to the files: a copy whose source exists rewrites
/// the target; everything else leaves the files as they are.
pub open spec fn apply_action(fs: FsModel, a: ActionModel) -> FsModel {
    match a {
        ActionModel::Copy { src, dst } => if fs.contains_key(src) {
            fs.insert(dst, fs[src])
        } else {
            fs
        },
        ActionModel::Skip { .. } => fs,
        ActionModel::EnsureDir { .. } => fs,
    }
}

/// The files after a plan has run, action by action in order.
pub open spec fn apply_actions(fs: FsModel, s: Seq<ActionModel>) -> FsModel
    decreases s.len(),
{
    if s.len() == 0 {
        fs
    } else {
        apply_actions(apply_action(fs, s[0]), s.skip(1))
    }
}

/// Whether the action may write the path `p`.
pub open spec fn action_writes(a: ActionModel, p: Seq<char>) -> bool {
    match a {
        ActionModel::Copy { dst, .. } => dst == p,
        _ => false,
    }
}

/// Whether any action of the plan may write the path `p`.
pub open spec fn plan_writes(s: Seq<ActionModel>, p: Seq<char>) -> bool {
    exists|i: int| 0 <= i < s.len() && action_writes(#[trigger] s[i], p)
}

/// A path no action of the plan writes is unchanged by the plan.
pub proof fn lemma_untouched(fs: FsModel, s: Seq<ActionModel>, p: Seq<char>)
    requires
        !plan_writes(s, p),
    ensures
        apply_actions(fs, s).contains_key(p) == fs.contains_key(p),
        fs.contains_key(p) ==> apply_actions(fs, s)[p] == fs[p],
    decreases s.len(),
{
    if s.len() > 0 {
        assert(!action_writes(s[0], p));
        assert(!plan_writes(s.skip(1), p)) by {
            if plan_writes(s.skip(1), p) {
                let i = choose|i: int|
                    0 <= i < s.skip(1).len() && action_writes(#[trigger] s.skip(1)[i], p);
                assert(s.skip(1)[i] == s[i + 1]);
                assert(action_writes(s[i + 1], p));
            }
        }
        lemma_untouched(apply_action(fs, s[0]), s.skip(1), p);
    }
}

/// A plan made only of copies whose sources exist, are never themselves
/// overwritten, and whose targets are all distinct, lands every source's
/// content at its target.
pub proof fn lemma_copies_land(fs: FsModel, s: Seq<ActionModel>)
    requires
        forall|i: int| 0 <= i < s.len() ==> (#[trigger] s[i]) is Copy,
        forall|i: int| 0 <= i < s.len() ==> fs.contains_key((#[trigger] s[i])->Copy_src),
        forall|i: int, j: int|
            0 <= i < s.len() && 0 <= j < s.len() ==> (#[trigger] s[i])->Copy_src != (
            #[trigger] s[j])->Copy_dst,
        forall|i: int, j: int|
            0 <= i < j < s.len() ==> (#[trigger] s[i])->Copy_dst != (#[trigger] s[j])->Copy_dst,
    ensures
        forall|i: int|
            0 <= i < s.len() ==> apply_actions(fs, s).contains_key((#[trigger] s[i])->Copy_dst)
                && apply_actions(fs, s)[s[i]->Copy_dst] == fs[s[i]->Copy_src],
    decreases s.len(),
{
    if s.len() > 0 {
        let src0 = s[0]->Copy_src;
        let dst0 = s[0]->Copy_dst;
        let fs1 = apply_action(fs, s[0]);
        assert(fs1 == fs.insert(dst0, fs[src0]));
        let rest = s.skip(1);
        assert forall|i: int| 0 <= i < rest.len() implies (#[trigger] rest[i]) == s[i + 1] by {}
        assert forall|i: int| 0 <= i < rest.len() implies fs1.contains_key(
            (#[trigger] rest[i])->Copy_src,
        ) by {
            assert(s[i + 1]->Copy_src != dst0);
        }
        lemma_copies_land(fs1, rest);
        // The first copy's target is written once and never again.
        assert(!plan_writes(rest, dst0)) by {
            if plan_writes(rest, dst0) {
                let i = choose|i: int|
                    0 <= i < rest.len() && action_writes(#[trigger] rest[i], dst0);
                assert(s[i + 1]->Copy_dst == dst0);
            }
        }
        lemma_untouched(fs1, rest, dst0);
        assert forall|i: int|
            0 <= i < s.len() implies apply_actions(fs, s).contains_key(
            (#[trigger] s[i])->Copy_dst,
        ) && apply_actions(fs, s)[s[i]->Copy_dst] == fs[s[i]->Copy_src] by {
            if i > 0 {
                assert(rest[i - 1] == s[i]);
                assert(fs1[s[i]->Copy_src] == fs[s[i]->Copy_src]) by {
                    assert(s[i]->Copy_src != dst0);
                }
            }
        }
    }
}

/// A plan whose copies would all rewrite a file with its own current
/// content changes nothing.
pub proof fn lemma_apply_stable(fs: FsModel, s: Seq<ActionModel>)
    requires
        forall|i: int|
            0 <= i < s.len() && (#[trigger] s[i]) is Copy ==> fs.contains_key(s[i]->Copy_src)
                && fs.contains_key(s[i]->Copy_dst) && fs[s[i]->Copy_src] == fs[s[i]->Copy_dst],
    ensures
        apply_actions(fs, s) == fs,
    decreases s.len(),
{
    if s.len() > 0 {
        let fs1 = apply_action(fs, s[0]);
        assert(fs1 =~= fs);
        assert forall|i: int| 0 <= i < s.skip(1).len() implies (#[trigger] s.skip(1)[i]) == s[i
            + 1] by {}
        lemma_apply_stable(fs, s.skip(1));
    }
}

/// Law: a plan of copies with untouched sources and distinct targets is
/// idempotent — running it a second time over its own result changes no
/// file.
pub proof fn lemma_plan_idempotent(fs: FsModel, s: Seq<ActionModel>)
    requires
        forall|i: int| 0 <= i < s.len() ==> (#[trigger] s[i]) is Copy,
        forall|i: int| 0 <= i < s.len() ==> fs.contains_key((#[trigger] s[i])->Copy_src),
        forall|i: int, j: int|
            0 <= i < s.len() && 0 <= j < s.len() ==> (#[trigger] s[i])->Copy_src != (
            #[trigger] s[j])->Copy_dst,
        forall|i: int, j: int|
            0 <= i < j < s.len() ==> (#[trigger] s[i])->Copy_dst != (#[trigger] s[j])->Copy_dst,
    ensures
        apply_actions(apply_actions(fs, s), s) == apply_actions(fs, s),
{
    let fs1 = apply_actions(fs, s);
    lemma_copies_land(fs, s);
    assert forall|i: int| 0 <= i < s.len() && (#[trigger] s[i]) is Copy implies fs1.contains_key(
        s[i]->Copy_src,
    ) && fs1.contains_key(s[i]->Copy_dst) && fs1[s[i]->Copy_src] == fs1[s[i]->Copy_dst] by {
        assert(!plan_writes(s, s[i]->Copy_src)) by {
            if plan_writes(s, s[i]->Copy_src) {
                let j = choose|j: int|
                    0 <= j < s.len() && action_writes(#[trigger] s[j], s[i]->Copy_src);
                assert(s[i]->Copy_src == s[j]->Copy_dst);
            }
        }
        lemma_untouched(fs, s, s[i]->Copy_src);
    }
    lemma_apply_stable(fs1, s);
}

/// Appending one action to a plan applies it after the rest.
pub proof fn lemma_apply_snoc(fs: FsModel, s: Seq<ActionModel>, a: ActionModel)
    ensures
        apply_actions(fs, s.push(a)) == apply_action(apply_actions(fs, s), a),
    decreases s.len(),
{
    reveal_with_fuel(apply_actions, 3);
    if s.len() == 0 {
        assert(s.push(a)[0] == a);
        assert(s.push(a).skip(1) =~= Seq::<ActionModel>::empty());
    } else {
        let fs1 = apply_action(fs, s[0]);
        assert(s.push(a)[0] == s[0]);
        assert(s.push(a).skip(1) =~= s.skip(1).push(a));
        assert(apply_actions(fs, s.push(a)) == apply_actions(fs1, s.skip(1).push(a)));
        lemma_apply_snoc(fs1, s.skip(1), a);
        assert(apply_actions(fs, s) == apply_actions(fs1, s.skip(1)));
    }
}

/// Running one plan after another runs their concatenation.
pub proof fn lemma_apply_concat(fs: FsModel, s1: Seq<ActionModel>, s2: Seq<ActionModel>)
    ensures
        apply_actions(fs, s1 + s2) == apply_actions(apply_actions(fs, s1), s2),
    decreases s1.len(),
{
    reveal_with_fuel(apply_actions, 3);
    if s1.len() == 0 {
        assert(s1 + s2 =~= s2);
    } else {
        let fs1 = apply_action(fs, s1[0]);
        assert((s1 + s2)[0] == s1[0]);
        assert((s1 + s2).skip(1) =~= s1.skip(1) + s2);
        assert(apply_actions(fs, s1 + s2) == apply_actions(fs1, s1.skip(1) + s2));
        lemma_apply_concat(fs1, s1.skip(1), s2);
    }
}

/// Two joined paths differ when their bases, each closed with a separator,
/// are not prefixes of one another.
pub proof fn lemma_join_bases_distinct(a: Seq<char>, ra: Seq<char>, b: Seq<char>, rb: Seq<char>)
    requires
        !is_prefix_of(a + seq!['/'], b + seq!['/']),
        !is_prefix_of(b + seq!['/'], a + seq!['/']),
    ensures
        join_paths(a, ra) != join_paths(b, rb),
{
    let ac = a + seq!['/'];
    let bc = b + seq!['/'];
    if join_paths(a, ra) == join_paths(b, rb) {
        if ac.len() <= bc.len() {
            assert(bc.subrange(0, ac.len() as int) =~= ac) by {
                assert forall|k: int| 0 <= k < ac.len() implies bc[k] == ac[k] by {
                    assert((ac + ra)[k] == ac[k]);
                    assert((bc + rb)[k] == bc[k]);
                }
            }
        } else {
            assert(ac.subrange(0, bc.len() as int) =~= bc) by {
                assert forall|k: int| 0 <= k < bc.len() implies ac[k] == bc[k] by {
                    assert((ac + ra)[k] == ac[k]);
                    assert((bc + rb)[k] == bc[k]);
                }
            }
        }
    }
}

/// Joining distinct remainders under one base gives distinct paths.
pub proof fn lemma_join_injective(base: Seq<char>, r1: Seq<char>, r2: Seq<char>)
    requires
        r1 != r2,
    ensures
        join_paths(base, r1) != join_paths(base, r2),
{
    if join_paths(base, r1) == join_paths(base, r2) {
        let off = base.len() + 1;
        assert(join_paths(base, r1).len() == base.len() + 1 + r1.len());
        assert(join_paths(base, r2).len() == base.len() + 1 + r2.len());
        assert(r1.len() == r2.len());
        assert(r1 =~= r2) by {
            assert forall|k: int| 0 <= k < r1.len() implies r1[k] == r2[k] by {
                assert(join_paths(base, r1)[off + k] == r1[k]);
                assert(join_paths(base, r2)[off + k] == r2[k]);
            }
        }
    }
}

/// One file of an in-memory filesystem.
pub struct FsFile {
    pub path: String,
    pub data: Vec<u8>,
}

/// An in-memory filesystem: the executable form of the model, for running
/// plans without touching a disk. A later entry for a path supersedes an
/// earlier one.
pub struct FsState {
    pub files: Vec<FsFile>,
}

/// The model an entry list denotes.
pub open spec fn files_model(s: Seq<FsFile>) -> FsModel
    decreases s.len(),
{
    if s.len() == 0 {
        Map::empty()
    } else {
        files_model(s.drop_last()).insert(s.last().path@, s.last().data@)
    }
}

/// Copies a byte vector.
fn clone_bytes(v: &Vec<u8>) -> (r: Vec<u8>)
    ensures
        r@ == v@,
{
    let mut out: Vec<u8> = Vec::new();
    let n = v.len();
    let mut i: usize = 0;
    while i < n
        invariant
            i <= n,
            n == v@.len(),
            out@ == v@.take(i as int),
        decreases n - i,
    {
        out.push(v[i]);
        proof {
            assert(v@.take(i + 1 as int) =~= v@.take(i as int).push(v@[i as int]));
        }
        i = i + 1;
    }
    proof {
        assert(v@.take(n as int) =~= v@);
    }
    out
}

impl FsState {
    /// The files this state holds.
    pub open spec fn model(&self) -> FsModel {
        files_model(self.files@)
    }

    /// An empty filesystem.
    pub fn new() -> (r: FsState)
        ensures
            r.model() == Map::<Seq<char>, Seq<u8>>::empty(),
    {
        FsState { files: Vec::new() }
    }

    /// Creates or overwrites the file at `path`.
    pub fn write(&mut self, path: String, data: Vec<u8>)
        ensures
            final(self).model() == old(self).model().insert(path@, data@),
    {
        let ghost before = self.files@;
        self.files.push(FsFile { path, data });
        proof {
            assert(self.files@.drop_last() =~= before);
        }
    }

    /// The content of the file at `path`, if it exists.
    pub fn read(&self, path: &str) -> (r: Option<&Vec<u8>>)
        ensures
            match r {
                Some(d) => self.model().contains_key(path@) && d@ == self.model()[path@],
                None => !self.model().contains_key(path@),
            },
    {
        let n = self.files.len();
        let mut i: usize = n;
        proof {
            assert(self.files@.take(n as int) =~= self.files@);
        }
        while i > 0
            invariant
                i <= n,
                n == self.files@.len(),
                files_model(self.files@).contains_key(path@) == files_model(
                    self.files@.take(i as int),
                ).contains_key(path@),
                files_model(self.files@).contains_key(path@) ==> files_model(self.files@)[path@]
                    == files_model(self.files@.take(i as int))[path@],
            decreases i,
        {
            let entry = &self.files[i - 1];
            if crate::paths::str_eq(entry.path.as_str(), path) {
                proof {
                    let taken = self.files@.take(i as int);
                    assert(taken.last() == self.files@[i - 1]);
                    assert(files_model(taken) == files_model(taken.drop_last()).insert(
                        entry.path@,
                        entry.data@,
                    ));
                }
                return Some(&entry.data);
            }
            proof {
                let taken = self.files@.take(i as int);
                assert(taken.drop_last() =~= self.files@.take(i - 1 as int));
                assert(files_model(taken) == files_model(taken.drop_last()).insert(
                    taken.last().path@,
                    taken.last().data@,
                ));
            }
            i = i - 1;
        }
        proof {
            assert(self.files@.take(0) =~= Seq::<FsFile>::empty());
        }
        None
    }

    /// Whether a file exists at `path`.
    pub fn file_exists(&self, path: &str) -> (r: bool)
        ensures
            r == self.model().contains_key(path@),
    {
        match self.read(path) {
            Some(_) => true,
            None => false,
        }
    }

    /// Runs one action.
    pub fn apply_one(&mut self, a: &FileAction)
        ensures
            final(self).model() == apply_action(old(self).model(), a@),
    {
        match a {
            FileAction::CopyFile { src, dst } => {
                let data = match self.read(src.as_str()) {
                    Some(d) => Some(clone_bytes(d)),
                    None => None,
                };
                match data {
                    Some(d) => {
                        self.write(dst.clone(), d);
                    },
                    None => {},
                }
            },
            FileAction::SkipFile { .. } => {},
            FileAction::EnsureDir { .. } => {},
        }
    }

    /// Runs a whole plan, action by action in order.
    pub fn apply_all(&mut self, actions: &Vec<FileAction>)
        ensures
            final(self).model() == apply_actions(old(self).model(), actions.deep_view()),
    {
        let n = actions.len();
        let mut i: usize = 0;
        while i < n
            invariant
                i <= n,
                n == actions@.len(),
                self.model() == apply_actions(old(self).model(), actions.deep_view().take(i as int)),
            decreases n - i,
        {
            self.apply_one(&actions[i]);
            proof {
                let dv = actions.deep_view();
                lemma_apply_snoc(old(self).model(), dv.take(i as int), dv[i as int]);
                assert(dv.take(i + 1 as int) =~= dv.take(i as int).push(dv[i as int]));
                assert(actions@[i as int]@ == dv[i as int]);
            }
            i = i + 1;
        }
        proof {
            assert(actions.deep_view().take(n as int) =~= actions.deep_view());
        }
    }
}

} // verus!
