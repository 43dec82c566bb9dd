use dotty::backup::BackupManager;
use dotty::config::DottyConfig;
use dotty::config::FileMapping;
use dotty::config::Package;
use dotty::config::Settings;
use dotty::fsmodel::FileAction;
use dotty::fsmodel::FsState;
use dotty::sync::MappingObservation;
use dotty::sync::MappingOutcome;
use dotty::sync::copy_files;
use dotty::sync::trim_leading_slashes;

fn one_mapping_config(src: &str, dst: &str, skip_existing: bool) -> DottyConfig {
    DottyConfig {
        packages: vec![Package {
            name: String::from("foo"),
            is_aur: false,
            files: vec![FileMapping {
                source: String::from(src),
                destination: String::from(dst),
            }],
        }],
        settings: Some(Settings { skip_existing }),
    }
}

fn file_observation(source_exists: bool, dest_exists: bool) -> MappingObservation {
    MappingObservation {
        source_exists,
        source_is_dir: false,
        source_files: Vec::new(),
        dest_exists,
        dest_is_dir: false,
        dest_files: Vec::new(),
        existing_targets: Vec::new(),
    }
}

fn session() -> BackupManager {
    BackupManager::with_root("/home/user/.cache", "20240101_120000")
}

fn run_outcome(
    config: &DottyConfig,
    ob: MappingObservation,
    fs: &mut FsState,
) -> MappingOutcome {
    let manager = session();
    let mut outcomes = copy_files("/repo", config, "/home/user", &manager, &vec![ob]);
    assert_eq!(outcomes.len(), 1);
    let outcome = outcomes.remove(0);
    if let MappingOutcome::Deploy { backup, copy, .. } = &outcome {
        fs.apply_all(backup);
        fs.apply_all(copy);
    }
    outcome
}

#[test]
fn fresh_destination_gets_source_content_and_no_backup() {
    let config = one_mapping_config("foo.conf", "~/.config/foo.conf", false);
    let mut fs = FsState::new();
    fs.write(String::from("/repo/foo.conf"), vec![1, 2, 3]);
    let outcome = run_outcome(&config, file_observation(true, false), &mut fs);
    match &outcome {
        MappingOutcome::Deploy { backed_up, backup, .. } => {
            assert!(!backed_up);
            assert!(backup.is_empty());
        },
        _ => panic!("expected a deployment"),
    }
    assert_eq!(fs.read("/home/user/.config/foo.conf"), Some(&vec![1, 2, 3]));
    let backup_path = "/home/user/.cache/dotty/dotty_backups/20240101_120000/.config/foo.conf";
    assert_eq!(fs.read(backup_path), None);
}

#[test]
fn preexisting_destination_is_backed_up_then_overwritten() {
    let config = one_mapping_config("foo.conf", "~/.config/foo.conf", false);
    let mut fs = FsState::new();
    fs.write(String::from("/repo/foo.conf"), vec![1, 2, 3]);
    fs.write(String::from("/home/user/.config/foo.conf"), vec![9, 9]);
    let outcome = run_outcome(&config, file_observation(true, true), &mut fs);
    match &outcome {
        MappingOutcome::Deploy { backed_up, .. } => assert!(*backed_up),
        _ => panic!("expected a deployment"),
    }
    let backup_path = "/home/user/.cache/dotty/dotty_backups/20240101_120000/.config/foo.conf";
    assert_eq!(fs.read(backup_path), Some(&vec![9, 9]));
    assert_eq!(fs.read("/home/user/.config/foo.conf"), Some(&vec![1, 2, 3]));
}

#[test]
fn missing_source_is_reported_and_changes_nothing() {
    let config = one_mapping_config("foo.conf", "~/.config/foo.conf", false);
    let mut fs = FsState::new();
    fs.write(String::from("/home/user/.config/foo.conf"), vec![9, 9]);
    let outcome = run_outcome(&config, file_observation(false, true), &mut fs);
    assert!(matches!(outcome, MappingOutcome::SourceMissing));
    assert_eq!(fs.read("/home/user/.config/foo.conf"), Some(&vec![9, 9]));
}

#[test]
fn destination_outside_home_refuses_backup_and_overwrite() {
    let config = one_mapping_config("foo.conf", "/etc/foo.conf", false);
    let mut fs = FsState::new();
    fs.write(String::from("/repo/foo.conf"), vec![1]);
    fs.write(String::from("/etc/foo.conf"), vec![9]);
    let outcome = run_outcome(&config, file_observation(true, true), &mut fs);
    match &outcome {
        MappingOutcome::BackupRefused { err } => assert_eq!(err.path, "/etc/foo.conf"),
        _ => panic!("expected the backup to be refused"),
    }
    assert_eq!(fs.read("/etc/foo.conf"), Some(&vec![9]));
}

#[test]
fn second_run_is_idempotent_and_uses_a_fresh_session() {
    let config = one_mapping_config("conf", "~/.config/app", false);
    let ob = MappingObservation {
        source_exists: true,
        source_is_dir: true,
        source_files: vec![String::from("a.txt"), String::from("sub/b.txt")],
        dest_exists: false,
        dest_is_dir: false,
        dest_files: Vec::new(),
        existing_targets: Vec::new(),
    };
    let mut fs = FsState::new();
    fs.write(String::from("/repo/conf/a.txt"), vec![1]);
    fs.write(String::from("/repo/conf/sub/b.txt"), vec![2]);
    let first = session();
    let outcomes = copy_files("/repo", &config, "/home/user", &first, &vec![ob]);
    let (backup, copy) = match &outcomes[0] {
        MappingOutcome::Deploy { backup, copy, .. } => (backup, copy),
        _ => panic!("expected a deployment"),
    };
    fs.apply_all(backup);
    fs.apply_all(copy);
    assert_eq!(fs.read("/home/user/.config/app/a.txt"), Some(&vec![1]));
    assert_eq!(fs.read("/home/user/.config/app/sub/b.txt"), Some(&vec![2]));

    // The second run sees the now-populated destination and backs it up
    // into a new session; the destinations stay byte-identical.
    let second = BackupManager::with_root("/home/user/.cache", "20240101_130000");
    assert_ne!(first.get_backup_dir().as_str(), second.get_backup_dir().as_str());
    let ob2 = MappingObservation {
        source_exists: true,
        source_is_dir: true,
        source_files: vec![String::from("a.txt"), String::from("sub/b.txt")],
        dest_exists: true,
        dest_is_dir: true,
        dest_files: vec![String::from("a.txt"), String::from("sub/b.txt")],
        existing_targets: vec![String::from("a.txt"), String::from("sub/b.txt")],
    };
    let outcomes2 = copy_files("/repo", &config, "/home/user", &second, &vec![ob2]);
    let (backup2, copy2) = match &outcomes2[0] {
        MappingOutcome::Deploy { backed_up, backup, copy } => {
            assert!(*backed_up);
            (backup, copy)
        },
        _ => panic!("expected a deployment"),
    };
    fs.apply_all(backup2);
    fs.apply_all(copy2);
    assert_eq!(fs.read("/home/user/.config/app/a.txt"), Some(&vec![1]));
    assert_eq!(fs.read("/home/user/.config/app/sub/b.txt"), Some(&vec![2]));
    let in_second_session =
        "/home/user/.cache/dotty/dotty_backups/20240101_130000/.config/app/a.txt";
    assert_eq!(fs.read(in_second_session), Some(&vec![1]));
}

#[test]
fn skip_existing_leaves_present_files_untouched() {
    let config = one_mapping_config("conf", "~/.config/app", true);
    let ob = MappingObservation {
        source_exists: true,
        source_is_dir: true,
        source_files: vec![String::from("a.txt"), String::from("b.txt")],
        dest_exists: true,
        dest_is_dir: true,
        dest_files: vec![String::from("a.txt")],
        existing_targets: vec![String::from("a.txt")],
    };
    let mut fs = FsState::new();
    fs.write(String::from("/repo/conf/a.txt"), vec![1]);
    fs.write(String::from("/repo/conf/b.txt"), vec![2]);
    fs.write(String::from("/home/user/.config/app/a.txt"), vec![9]);
    let manager = session();
    let outcomes = copy_files("/repo", &config, "/home/user", &manager, &vec![ob]);
    match &outcomes[0] {
        MappingOutcome::Deploy { backup, copy, .. } => {
            fs.apply_all(backup);
            fs.apply_all(copy);
            assert!(copy.iter().any(|a| matches!(a, FileAction::SkipFile { .. })));
        },
        _ => panic!("expected a deployment"),
    }
    // The present file is skipped, not overwritten; the absent one arrives.
    assert_eq!(fs.read("/home/user/.config/app/a.txt"), Some(&vec![9]));
    assert_eq!(fs.read("/home/user/.config/app/b.txt"), Some(&vec![2]));
}

#[test]
fn tilde_destinations_resolve_into_home() {
    // A leading tilde alone, or followed by a separator, reaches into the
    // home directory; a tilde naming another user stays as it is.
    for (dest, resolved) in [
        ("~", "/home/user"),
        ("~/.config/x", "/home/user/.config/x"),
        ("~user/conf", "~user/conf"),
        ("/abs/path", "/abs/path"),
    ] {
        let config = one_mapping_config("src.conf", dest, false);
        let manager = session();
        let outcomes = copy_files(
            "/repo",
            &config,
            "/home/user",
            &manager,
            &vec![file_observation(true, false)],
        );
        match &outcomes[0] {
            MappingOutcome::Deploy { copy, .. } => match &copy[0] {
                FileAction::CopyFile { dst, .. } => assert_eq!(dst, resolved),
                _ => panic!("expected a copy"),
            },
            _ => panic!("expected a deployment"),
        }
    }
}

#[test]
fn source_paths_lose_leading_separators() {
    assert_eq!(trim_leading_slashes("/etc/conf"), "etc/conf");
    assert_eq!(trim_leading_slashes("///x"), "x");
    assert_eq!(trim_leading_slashes("plain"), "plain");
    assert_eq!(trim_leading_slashes(""), "");
}
