//! Helper programs for packages outside the primary repository: which
//! helpers exist, how one is detected, and the resolution states a run
//! moves through when none is installed yet.

use vstd::prelude::*;

verus! {

/// The helper programs a run can use, or none.
#[derive(Clone, Copy, Debug, PartialEq, Eq, Structural)]
pub enum AURHelper {
    Paru,
    Yay,
    NoHelper,
}

impl AURHelper {
    /// The helper's executable name, when there is a helper.
    pub fn command(&self) -> (r: Option<&'static str>)
        ensures
            match self {
                AURHelper::Paru => r matches Some(c) && c@ == "paru"@,
                AURHelper::Yay => r matches Some(c) && c@ == "yay"@,
                AURHelper::NoHelper => r is None,
            },
    {
        match self {
            AURHelper::Paru => Some("paru"),
            AURHelper::Yay => Some("yay"),
            AURHelper::NoHelper => None,
        }
    }

    /// Whether this is the preferred helper.
    pub fn is_preferred(&self) -> (r: bool)
        ensures
            r == (self is Paru),
    {
        matches!(self, AURHelper::Paru)
    }

    /// A line describing the helper.
    pub fn description(&self) -> (r: &'static str)
        ensures
            match self {
                AURHelper::Paru => r@ == "Paru (Feature-rich AUR helper written in Rust)"@,
                AURHelper::Yay => r@ == "Yay (Yet Another Yogurt - AUR Helper written in Go)"@,
                AURHelper::NoHelper => r@ == "None"@,
            },
    {
        match self {
            AURHelper::Paru => "Paru (Feature-rich AUR helper written in Rust)",
            AURHelper::Yay => "Yay (Yet Another Yogurt - AUR Helper written in Go)",
            AURHelper::NoHelper => "None",
        }
    }
}

/// The helper detection owes its callers: the preferred helper when its
/// command is present, the fallback when only that one is, none otherwise.
pub open spec fn detected_helper(has_paru: bool, has_yay: bool) -> AURHelper {
    if has_paru {
        AURHelper::Paru
    } else if has_yay {
        AURHelper::Yay
    } else {
        AURHelper::NoHelper
    }
}

/// Picks the available helper, preferring the first, from what a probe of
/// the environment found.
pub fn detect_aur_helper(has_paru: bool, has_yay: bool) -> (r: AURHelper)
    ensures
        r == detected_helper(has_paru, has_yay),
{
    if has_paru {
        AURHelper::Paru
    } else if has_yay {
        AURHelper::Yay
    } else {
        AURHelper::NoHelper
    }
}

/// The states helper resolution moves through in one run.
#[derive(Clone, Copy, Debug, PartialEq, Eq, Structural)]
pub enum HelperResolution {
    /// Nothing probed yet.
    Unknown,
    /// A helper was found on the system.
    Detected(AURHelper),
    /// No helper is present.
    NotFound,
    /// The user chose a helper to install.
    InstallRequested(AURHelper),
    /// The chosen helper was installed and is now available.
    Installed(AURHelper),
    /// The chosen helper's installation failed.
    InstallFailed,
    /// The user declined to install a helper.
    Declined,
}

impl HelperResolution {
    /// What detection concludes: a helper, or none present.
    pub fn from_detection(found: AURHelper) -> (r: HelperResolution)
        ensures
            found is NoHelper ==> r is NotFound,
            !(found is NoHelper) ==> r == HelperResolution::Detected(found),
    {
        match found {
            AURHelper::NoHelper => HelperResolution::NotFound,
            h => HelperResolution::Detected(h),
        }
    }

    /// The transition the user's choice makes from `NotFound`: a chosen
    /// helper is requested for installation; declining settles the run
    /// without a helper.
    pub fn choose_install(&self, choice: Option<AURHelper>) -> (r: HelperResolution)
        requires
            self is NotFound,
        ensures
            choice matches Some(h) ==> r == HelperResolution::InstallRequested(h),
            choice is None ==> r is Declined,
    {
        match choice {
            Some(h) => HelperResolution::InstallRequested(h),
            None => HelperResolution::Declined,
        }
    }

    /// The transition the installation's outcome makes from
    /// `InstallRequested`.
    pub fn install_result(&self, ok: bool) -> (r: HelperResolution)
        requires
            self matches HelperResolution::InstallRequested(_),
        ensures
            ok ==> (self matches HelperResolution::InstallRequested(h) && r
                == HelperResolution::Installed(*h)),
            !ok ==> r is InstallFailed,
    {
        match self {
            HelperResolution::InstallRequested(h) => {
                if ok {
                    HelperResolution::Installed(*h)
                } else {
                    HelperResolution::InstallFailed
                }
            },
            _ => HelperResolution::InstallFailed,
        }
    }

    /// The helper this resolution makes available, if any: one that was
    /// detected, or one that was installed during the run.
    pub fn available(&self) -> (r: AURHelper)
        ensures
            self matches HelperResolution::Detected(h) ==> r == h,
            self matches HelperResolution::Installed(h) ==> r == h,
            !(self matches HelperResolution::Detected(_)) && !(self
                matches HelperResolution::Installed(_)) ==> r is NoHelper,
    {
        match self {
            HelperResolution::Detected(h) => *h,
            HelperResolution::Installed(h) => *h,
            _ => AURHelper::NoHelper,
        }
    }
}

/// The helper a numbered reply chooses when none was found: the first for
/// `1`, the second for `2`, none for anything else.
pub open spec fn chosen_helper(answer: Seq<char>) -> Option<AURHelper> {
    if answer == "1"@ {
        Some(AURHelper::Paru)
    } else if answer == "2"@ {
        Some(AURHelper::Yay)
    } else {
        None
    }
}

/// Reads the user's trimmed reply to the helper-installation prompt.
pub fn interpret_helper_choice(answer: &str) -> (r: Option<AURHelper>)
    ensures
        r == chosen_helper(answer@),
{
    if crate::paths::str_eq(answer, "1") {
        Some(AURHelper::Paru)
    } else if crate::paths::str_eq(answer, "2") {
        Some(AURHelper::Yay)
    } else {
        None
    }
}

} // verus!
