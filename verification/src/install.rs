//! Package installation: partitioning the configured packages by origin,
//! the command batches that install each partition in order with
//! all-or-nothing abort on the first failure, and the run-level plan that
//! refuses to start when helper-based packages have no helper.

use vstd::prelude::*;
use crate::config::DottyConfig;
use crate::config::Package;
use crate::paths::str_eq;
use crate::system::AURHelper;

verus! {

/// One subprocess invocation of an installation run.
pub enum InstallAction {
    /// Authenticate for elevated privileges, once for the whole batch.
    Authenticate,
    /// Install one package from the primary repository.
    InstallNative { name: String },
    /// Install one package through the helper.
    InstallViaHelper { helper: AURHelper, name: String },
    /// Install the base toolchain a helper's build needs.
    InstallBaseDevel,
    /// Clone a helper's build recipe and build and install it.
    CloneAndInstall { name: String, url: String },
}

/// One invocation, at the level of the model.
pub ghost enum InstallStep {
    Authenticate,
    Native { name: Seq<char> },
    ViaHelper { helper: AURHelper, name: Seq<char> },
    BaseDevel,
    CloneInstall { name: Seq<char>, url: Seq<char> },
}

impl View for InstallAction {
    type V = InstallStep;

    open spec fn view(&self) -> InstallStep {
        match self {
            InstallAction::Authenticate => InstallStep::Authenticate,
            InstallAction::InstallNative { name } => InstallStep::Native { name: name@ },
            InstallAction::InstallViaHelper { helper, name } => InstallStep::ViaHelper {
                helper: *helper,
                name: name@,
            },
            InstallAction::InstallBaseDevel => InstallStep::BaseDevel,
            InstallAction::CloneAndInstall { name, url } => InstallStep::CloneInstall {
                name: name@,
                url: url@,
            },
        }
    }
}

impl DeepView for InstallAction {
    type V = InstallStep;

    open spec fn deep_view(&self) -> InstallStep {
        self.view()
    }
}

/// Why an installation run cannot be planned.
#[derive(Debug)]
pub enum InstallError {
    /// Helper-based packages are declared and no helper is available.
    HelperUnavailable,
    /// The named program is not one of the helpers this tool can install.
    UnsupportedHelper { name: String },
}

/// A batch of install actions, run in order, aborted for good by the
/// first failure.
pub struct CommandBatch {
    pub actions: Vec<InstallAction>,
    pub next: usize,
    pub failed: Option<usize>,
}

impl CommandBatch {
    /// A batch is well formed when its cursor is within bounds and, once
    /// an action has failed, the cursor stands frozen on it.
    pub open spec fn wf(&self) -> bool {
        &&& self.next <= self.actions@.len()
        &&& match self.failed {
            Some(i) => i < self.actions@.len() && self.next == i,
            None => true,
        }
    }

    /// The batch still has an action to run.
    pub open spec fn running(&self) -> bool {
        self.failed is None && self.next < self.actions@.len()
    }

    /// Every action of the batch ran and succeeded.
    pub open spec fn succeeded(&self) -> bool {
        self.failed is None && self.next == self.actions@.len()
    }

    /// A fresh batch over the given actions.
    pub fn new(actions: Vec<InstallAction>) -> (r: CommandBatch)
        ensures
            r.actions == actions,
            r.next == 0,
            r.failed is None,
            r.wf(),
    {
        CommandBatch { actions, next: 0, failed: None }
    }

    /// The action to run now: the one under the cursor while the batch is
    /// running, nothing once it has finished or failed.
    pub fn current(&self) -> (r: Option<&InstallAction>)
        requires
            self.wf(),
        ensures
            self.running() ==> (r matches Some(a) && a == self.actions@[self.next as int]),
            !self.running() ==> r is None,
    {
        match self.failed {
            Some(_) => None,
            None => {
                if self.next < self.actions.len() {
                    Some(&self.actions[self.next])
                } else {
                    None
                }
            },
        }
    }

    /// Records the current action's outcome: success moves to the next
    /// action; failure halts the batch on this one for good — no later
    /// action is ever attempted.
    pub fn step(&mut self, ok: bool)
        requires
            old(self).wf(),
            old(self).running(),
        ensures
            final(self).wf(),
            final(self).actions == old(self).actions,
            ok ==> final(self).next == old(self).next + 1 && final(self).failed is None,
            !ok ==> final(self).failed == Some(old(self).next) && final(self).next == old(
                self,
            ).next && !final(self).running(),
    {
        if ok {
            let bound = self.actions.len();
            assert(self.next < bound);
            self.next = self.next + 1;
        } else {
            self.failed = Some(self.next);
        }
    }
}

/// The names of the primary-repository packages, in declaration order.
pub open spec fn native_names(s: Seq<Package>) -> Seq<Seq<char>>
    decreases s.len(),
{
    if s.len() == 0 {
        Seq::empty()
    } else if !s.last().is_aur {
        native_names(s.drop_last()).push(s.last().name@)
    } else {
        native_names(s.drop_last())
    }
}

/// The names of the helper-based packages, in declaration order.
pub open spec fn aur_names(s: Seq<Package>) -> Seq<Seq<char>>
    decreases s.len(),
{
    if s.len() == 0 {
        Seq::empty()
    } else if s.last().is_aur {
        aur_names(s.drop_last()).push(s.last().name@)
    } else {
        aur_names(s.drop_last())
    }
}

/// Splits the configured packages into the primary-repository group and
/// the helper-based group, each in its original relative order.
pub fn partition_packages(config: &DottyConfig) -> (r: (Vec<String>, Vec<String>))
    ensures
        r.0.deep_view() == native_names(config.packages@),
        r.1.deep_view() == aur_names(config.packages@),
{
    let mut native: Vec<String> = Vec::new();
    let mut aur: Vec<String> = Vec::new();
    let n = config.packages.len();
    let mut i: usize = 0;
    while i < n
        invariant
            i <= n,
            n == config.packages@.len(),
            native.deep_view() == native_names(config.packages@.take(i as int)),
            aur.deep_view() == aur_names(config.packages@.take(i as int)),
        decreases n - i,
    {
        let p = &config.packages[i];
        if p.is_aur {
            aur.push(p.name.clone());
        } else {
            native.push(p.name.clone());
        }
        proof {
            let taken = config.packages@.take(i + 1 as int);
            assert(taken.drop_last() =~= config.packages@.take(i as int));
            assert(taken.last() == config.packages@[i as int]);
            assert(native.deep_view() =~= native_names(taken));
            assert(aur.deep_view() =~= aur_names(taken));
        }
        i = i + 1;
    }
    proof {
        assert(config.packages@.take(n as int) =~= config.packages@);
    }
    (native, aur)
}

/// One primary-repository install per name, in order.
pub open spec fn native_installs(names: Seq<Seq<char>>) -> Seq<InstallStep>
    decreases names.len(),
{
    if names.len() == 0 {
        Seq::empty()
    } else {
        native_installs(names.drop_last()).push(InstallStep::Native { name: names.last() })
    }
}

/// The batch that installs the primary-repository packages: authenticate
/// once, then each package in order.
pub open spec fn native_batch(names: Seq<Seq<char>>) -> Seq<InstallStep> {
    seq![InstallStep::Authenticate] + native_installs(names)
}

/// The batch that installs the helper-based packages, each through the
/// helper, in order.
pub open spec fn aur_batch(helper: AURHelper, names: Seq<Seq<char>>) -> Seq<InstallStep>
    decreases names.len(),
{
    if names.len() == 0 {
        Seq::empty()
    } else {
        aur_batch(helper, names.drop_last()).push(
            InstallStep::ViaHelper { helper, name: names.last() },
        )
    }
}

/// The fresh batch for the primary-repository packages: one
/// authentication, then one install per package, in the given order.
pub fn install_packages(packages: &Vec<String>) -> (r: CommandBatch)
    ensures
        r.actions.deep_view() == native_batch(packages.deep_view()),
        r.next == 0,
        r.failed is None,
        r.wf(),
{
    let mut actions: Vec<InstallAction> = Vec::new();
    actions.push(InstallAction::Authenticate);
    let n = packages.len();
    let mut i: usize = 0;
    while i < n
        invariant
            i <= n,
            n == packages@.len(),
            actions.deep_view() == native_batch(packages.deep_view().take(i as int)),
        decreases n - i,
    {
        let name = packages[i].clone();
        proof {
            assert(name@ == packages.deep_view()[i as int]);
        }
        let ghost pre = actions.deep_view();
        actions.push(InstallAction::InstallNative { name });
        proof {
            let dv = packages.deep_view();
            let taken = dv.take(i + 1 as int);
            let step = InstallStep::Native { name: dv[i as int] };
            assert(taken.drop_last() =~= dv.take(i as int));
            assert(taken.last() == dv[i as int]);
            assert(native_installs(taken) == native_installs(dv.take(i as int)).push(step));
            assert(actions.deep_view() =~= pre.push(step));
            assert(pre.push(step) =~= native_batch(taken));
        }
        i = i + 1;
    }
    proof {
        assert(packages.deep_view().take(n as int) =~= packages.deep_view());
    }
    CommandBatch::new(actions)
}

/// The fresh batch for the helper-based packages; refused exactly when
/// packages are present and there is no helper to install them with.
pub fn install_aur_packages(helper: AURHelper, packages: &Vec<String>) -> (r: Result<
    CommandBatch,
    InstallError,
>)
    ensures
        (r is Err) <==> (helper is NoHelper && packages@.len() > 0),
        r matches Err(e) ==> e is HelperUnavailable,
        r matches Ok(b) ==> b.actions.deep_view() == aur_batch(helper, packages.deep_view())
            && b.next == 0 && b.failed is None && b.wf(),
{
    if packages.len() > 0 && matches!(helper, AURHelper::NoHelper) {
        return Err(InstallError::HelperUnavailable);
    }
    let mut actions: Vec<InstallAction> = Vec::new();
    let n = packages.len();
    let mut i: usize = 0;
    while i < n
        invariant
            i <= n,
            n == packages@.len(),
            actions.deep_view() == aur_batch(helper, packages.deep_view().take(i as int)),
        decreases n - i,
    {
        actions.push(InstallAction::InstallViaHelper { helper, name: packages[i].clone() });
        proof {
            let taken = packages.deep_view().take(i + 1 as int);
            assert(taken.drop_last() =~= packages.deep_view().take(i as int));
            assert(taken.last() == packages.deep_view()[i as int]);
            assert(actions.deep_view() =~~= aur_batch(helper, taken));
        }
        i = i + 1;
    }
    proof {
        assert(packages.deep_view().take(n as int) =~= packages.deep_view());
    }
    Ok(CommandBatch::new(actions))
}

/// The fresh batch that installs a helper itself: the base toolchain
/// first, then clone its build recipe and build and install it; refused
/// for a name this tool does not know.
pub fn install_aur_helper(package: &str) -> (r: Result<CommandBatch, InstallError>)
    ensures
        (r is Ok) <==> (package@ == "paru"@ || package@ == "yay"@),
        r matches Err(e) ==> (e matches InstallError::UnsupportedHelper { name } && name@
            == package@),
        r matches Ok(b) ==> b.next == 0 && b.failed is None && b.wf()
            && b.actions.deep_view().len() == 2 && b.actions.deep_view()[0]
            == InstallStep::BaseDevel && b.actions.deep_view()[1] == (InstallStep::CloneInstall {
            name: package@,
            url: if package@ == "paru"@ {
                "https://aur.archlinux.org/paru.git"@
            } else {
                "https://aur.archlinux.org/yay.git"@
            },
        }),
{
    let url: &str = if str_eq(package, "paru") {
        "https://aur.archlinux.org/paru.git"
    } else if str_eq(package, "yay") {
        "https://aur.archlinux.org/yay.git"
    } else {
        return Err(InstallError::UnsupportedHelper { name: package.to_owned() });
    };
    let mut actions: Vec<InstallAction> = Vec::new();
    actions.push(InstallAction::InstallBaseDevel);
    actions.push(InstallAction::CloneAndInstall { name: package.to_owned(), url: url.to_owned() });
    Ok(CommandBatch::new(actions))
}

/// The whole run's installation plan: the primary batch (when primary
/// packages exist), and the helper batch. Refused, before anything could
/// run, exactly when helper-based packages are declared and no helper is
/// available.
pub fn plan_install_run(config: &DottyConfig, helper: AURHelper) -> (r: Result<
    (CommandBatch, CommandBatch),
    InstallError,
>)
    ensures
        (r is Err) <==> (helper is NoHelper && aur_names(config.packages@).len() > 0),
        r matches Err(e) ==> e is HelperUnavailable,
        r matches Ok(b) ==> {
            &&& b.0.actions.deep_view() == (if native_names(config.packages@).len() > 0 {
                native_batch(native_names(config.packages@))
            } else {
                Seq::<InstallStep>::empty()
            })
            &&& b.1.actions.deep_view() == aur_batch(helper, aur_names(config.packages@))
            &&& b.0.next == 0 && b.0.failed is None && b.0.wf()
            &&& b.1.next == 0 && b.1.failed is None && b.1.wf()
        },
{
    let (native, aur) = partition_packages(config);
    let aur_result = install_aur_packages(helper, &aur);
    let aur_b = match aur_result {
        Ok(b) => b,
        Err(e) => {
            return Err(e);
        },
    };
    let native_b = if native.len() > 0 {
        install_packages(&native)
    } else {
        let empty: Vec<InstallAction> = Vec::new();
        proof {
            assert(empty.deep_view() =~= Seq::<InstallStep>::empty());
        }
        CommandBatch::new(empty)
    };
    Ok((native_b, aur_b))
}

/// A reply to a yes-or-no prompt that explicitly says no, in any letter
/// case.
pub open spec fn negative_answer(s: Seq<char>) -> bool {
    ||| s == "n"@
    ||| s == "N"@
    ||| s == "no"@
    ||| s == "No"@
    ||| s == "nO"@
    ||| s == "NO"@
}

/// Reads the user's trimmed reply to a confirmation prompt: anything but
/// an explicit no is affirmative.
pub fn confirmation_accepts(answer: &str) -> (r: bool)
    ensures
        r == !negative_answer(answer@),
{
    let no = str_eq(answer, "n") || str_eq(answer, "N") || str_eq(answer, "no") || str_eq(
        answer,
        "No",
    ) || str_eq(answer, "nO") || str_eq(answer, "NO");
    !no
}

} // verus!
