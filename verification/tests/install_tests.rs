use dotty::config::DottyConfig;
use dotty::config::Package;
use dotty::install::CommandBatch;
use dotty::install::InstallAction;
use dotty::install::InstallError;
use dotty::install::confirmation_accepts;
use dotty::install::install_aur_helper;
use dotty::install::install_aur_packages;
use dotty::install::install_packages;
use dotty::install::partition_packages;
use dotty::install::plan_install_run;
use dotty::system::AURHelper;
use dotty::system::HelperResolution;
use dotty::system::detect_aur_helper;
use dotty::system::interpret_helper_choice;

fn package(name: &str, is_aur: bool) -> Package {
    Package { name: String::from(name), is_aur, files: Vec::new() }
}

fn names(batch: &CommandBatch) -> Vec<String> {
    batch
        .actions
        .iter()
        .filter_map(|a| match a {
            InstallAction::InstallNative { name } => Some(name.clone()),
            InstallAction::InstallViaHelper { name, .. } => Some(name.clone()),
            _ => None,
        })
        .collect()
}

#[test]
fn native_batch_authenticates_once_then_installs_in_order() {
    let batch = install_packages(&vec![String::from("vim"), String::from("git")]);
    assert_eq!(batch.actions.len(), 3);
    assert!(matches!(batch.actions[0], InstallAction::Authenticate));
    assert_eq!(names(&batch), vec![String::from("vim"), String::from("git")]);
}

#[test]
fn batch_advances_on_success_and_finishes() {
    let mut batch = install_packages(&vec![String::from("vim")]);
    assert!(batch.current().is_some());
    batch.step(true);
    batch.step(true);
    assert_eq!(batch.next, 2);
    assert!(batch.failed.is_none());
    assert!(batch.current().is_none());
}

#[test]
fn first_failure_aborts_the_batch() {
    let mut batch = install_packages(&vec![String::from("vim"), String::from("git")]);
    batch.step(true);
    batch.step(false);
    assert_eq!(batch.failed, Some(1));
    assert!(batch.current().is_none());
    match &batch.actions[1] {
        InstallAction::InstallNative { name } => assert_eq!(name, "vim"),
        _ => panic!("expected the first package's install to be the failed action"),
    }
}

#[test]
fn aur_batch_requires_a_helper() {
    let err = install_aur_packages(AURHelper::NoHelper, &vec![String::from("paru-bin")]);
    assert!(matches!(err, Err(InstallError::HelperUnavailable)));
    let ok = install_aur_packages(AURHelper::NoHelper, &Vec::new());
    assert!(ok.is_ok());
}

#[test]
fn aur_batch_installs_each_package_through_the_helper() {
    let batch = install_aur_packages(AURHelper::Yay, &vec![
        String::from("a"),
        String::from("b"),
    ])
    .unwrap();
    assert_eq!(batch.actions.len(), 2);
    match &batch.actions[0] {
        InstallAction::InstallViaHelper { helper, name } => {
            assert_eq!(*helper, AURHelper::Yay);
            assert_eq!(name, "a");
        },
        _ => panic!("expected a helper install"),
    }
}

#[test]
fn helper_install_clones_the_right_recipe() {
    let batch = install_aur_helper("paru").unwrap();
    assert_eq!(batch.actions.len(), 2);
    assert!(matches!(batch.actions[0], InstallAction::InstallBaseDevel));
    match &batch.actions[1] {
        InstallAction::CloneAndInstall { name, url } => {
            assert_eq!(name, "paru");
            assert_eq!(url, "https://aur.archlinux.org/paru.git");
        },
        _ => panic!("expected the clone-and-install step"),
    }
    let yay = install_aur_helper("yay").unwrap();
    match &yay.actions[1] {
        InstallAction::CloneAndInstall { url, .. } => {
            assert_eq!(url, "https://aur.archlinux.org/yay.git");
        },
        _ => panic!("expected the clone-and-install step"),
    }
}

#[test]
fn unknown_helper_is_refused() {
    match install_aur_helper("pamac") {
        Err(InstallError::UnsupportedHelper { name }) => assert_eq!(name, "pamac"),
        _ => panic!("expected the unknown helper to be refused"),
    }
}

#[test]
fn partition_keeps_each_groups_order() {
    let config = DottyConfig {
        packages: vec![
            package("a", false),
            package("b", true),
            package("c", false),
            package("d", true),
        ],
        settings: None,
    };
    let (native, aur) = partition_packages(&config);
    assert_eq!(native, vec![String::from("a"), String::from("c")]);
    assert_eq!(aur, vec![String::from("b"), String::from("d")]);
}

#[test]
fn declined_helper_stops_the_run_before_any_install() {
    let config = DottyConfig {
        packages: vec![package("aur-only", true)],
        settings: None,
    };
    let detected = detect_aur_helper(false, false);
    assert_eq!(detected, AURHelper::NoHelper);
    let resolution = HelperResolution::from_detection(detected);
    assert_eq!(resolution, HelperResolution::NotFound);
    let declined = resolution.choose_install(interpret_helper_choice("3"));
    assert_eq!(declined, HelperResolution::Declined);
    let plan = plan_install_run(&config, declined.available());
    assert!(matches!(plan, Err(InstallError::HelperUnavailable)));
}

#[test]
fn resolved_helper_lets_the_run_plan_both_groups() {
    let config = DottyConfig {
        packages: vec![package("vim", false), package("paru-bin", true)],
        settings: None,
    };
    let (native, aur) = plan_install_run(&config, AURHelper::Paru).unwrap();
    assert_eq!(native.actions.len(), 2);
    assert_eq!(aur.actions.len(), 1);
}

#[test]
fn run_without_native_packages_skips_authentication() {
    let config = DottyConfig { packages: vec![package("p", true)], settings: None };
    let (native, aur) = plan_install_run(&config, AURHelper::Yay).unwrap();
    assert!(native.actions.is_empty());
    assert_eq!(aur.actions.len(), 1);
}

#[test]
fn helper_resolution_reaches_installed_on_success() {
    let requested = HelperResolution::NotFound.choose_install(Some(AURHelper::Paru));
    assert_eq!(requested, HelperResolution::InstallRequested(AURHelper::Paru));
    assert_eq!(requested.install_result(true), HelperResolution::Installed(AURHelper::Paru));
    assert_eq!(requested.install_result(false), HelperResolution::InstallFailed);
    assert_eq!(HelperResolution::Installed(AURHelper::Paru).available(), AURHelper::Paru);
    assert_eq!(HelperResolution::InstallFailed.available(), AURHelper::NoHelper);
}

#[test]
fn detection_prefers_the_first_helper() {
    assert_eq!(detect_aur_helper(true, true), AURHelper::Paru);
    assert_eq!(detect_aur_helper(false, true), AURHelper::Yay);
    assert_eq!(detect_aur_helper(true, false), AURHelper::Paru);
}

#[test]
fn helper_commands_and_descriptions() {
    assert_eq!(AURHelper::Paru.command(), Some("paru"));
    assert_eq!(AURHelper::Yay.command(), Some("yay"));
    assert_eq!(AURHelper::NoHelper.command(), None);
    assert!(AURHelper::Paru.is_preferred());
    assert!(!AURHelper::Yay.is_preferred());
    assert_eq!(AURHelper::Paru.description(), "Paru (Feature-rich AUR helper written in Rust)");
    assert_eq!(AURHelper::Yay.description(), "Yay (Yet Another Yogurt - AUR Helper written in Go)");
    assert_eq!(AURHelper::NoHelper.description(), "None");
}

#[test]
fn numbered_choice_picks_a_helper() {
    assert_eq!(interpret_helper_choice("1"), Some(AURHelper::Paru));
    assert_eq!(interpret_helper_choice("2"), Some(AURHelper::Yay));
    assert_eq!(interpret_helper_choice("3"), None);
    assert_eq!(interpret_helper_choice(""), None);
}

#[test]
fn only_an_explicit_no_declines() {
    assert!(!confirmation_accepts("n"));
    assert!(!confirmation_accepts("no"));
    assert!(!confirmation_accepts("NO"));
    assert!(!confirmation_accepts("No"));
    assert!(confirmation_accepts(""));
    assert!(confirmation_accepts("y"));
    assert!(confirmation_accepts("yes"));
    assert!(confirmation_accepts("anything"));
}
