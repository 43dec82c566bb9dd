use dotty::backup::BackupManager;
use dotty::backup::CleanAction;
use dotty::fsmodel::FileAction;
use dotty::git::GitRepo;
use dotty::git::clone_cache_dir;
use dotty::git::count_slashes;
use dotty::paths::path_join;
use dotty::paths::str_eq;
use dotty::paths::str_has_prefix;
use dotty::paths::strip_prefix_dir;
use dotty::spinner::Spinner;
use dotty::validation::validate_folder_path;
use dotty::validation::validate_repo_format;

#[test]
fn repo_string_splits_at_the_separator() {
    let repo = GitRepo::from_string("neox1de/dotfiles").unwrap();
    assert_eq!(repo.username, "neox1de");
    assert_eq!(repo.repo_name, "dotfiles");
}

#[test]
fn repo_string_needs_exactly_one_separator() {
    assert!(GitRepo::from_string("nodash").is_err());
    assert!(GitRepo::from_string("a/b/c").is_err());
    assert!(GitRepo::from_string("").is_err());
    assert!(GitRepo::from_string("a/").is_ok());
    assert!(GitRepo::from_string("/b").is_ok());
}

#[test]
fn clone_url_names_the_hosting_service() {
    let repo = GitRepo::from_string("user/repo").unwrap();
    assert_eq!(repo.clone_url(), "https://github.com/user/repo.git");
}

#[test]
fn folder_name_joins_owner_and_name() {
    let repo = GitRepo::from_string("user/repo").unwrap();
    assert_eq!(repo.folder_name(), "user_repo");
}

#[test]
fn slash_counting() {
    assert_eq!(count_slashes(""), 0);
    assert_eq!(count_slashes("a/b"), 1);
    assert_eq!(count_slashes("a//b"), 2);
}

#[test]
fn repo_format_validation() {
    assert_eq!(validate_repo_format("user/repo").unwrap(), "user/repo");
    assert_eq!(
        validate_repo_format("userrepo").unwrap_err(),
        "Repository must be in the format 'username/repo'"
    );
    assert!(validate_repo_format("a/b/c").is_err());
}

#[test]
fn folder_path_validation() {
    assert_eq!(validate_folder_path("/tmp/dots", true).unwrap(), "/tmp/dots");
    assert_eq!(
        validate_folder_path("/nowhere", false).unwrap_err(),
        "Folder path '/nowhere' does not exist"
    );
}

#[test]
fn session_root_lives_under_the_store() {
    let m = BackupManager::with_root("/home/u/.cache", "20240101_000000");
    assert_eq!(
        m.get_backup_dir().as_str(),
        "/home/u/.cache/dotty/dotty_backups/20240101_000000"
    );
}

#[test]
fn fresh_session_is_timestamped_under_the_store() {
    let m = BackupManager::new().unwrap();
    assert!(m.get_backup_dir().contains("dotty_backups"));
    assert!(m.get_backup_dir().ends_with(&m.timestamp));
}

#[test]
fn absent_destination_needs_no_backup() {
    let m = BackupManager::with_root("/c", "t");
    let (taken, actions) = m
        .backup_if_exists("/home/u/.x", false, false, &Vec::new(), "/home/u")
        .unwrap();
    assert!(!taken);
    assert!(actions.is_empty());
}

#[test]
fn existing_file_is_snapshotted_at_its_home_relative_path() {
    let m = BackupManager::with_root("/c", "t");
    let (taken, actions) = m
        .backup_if_exists("/home/u/.x", true, false, &Vec::new(), "/home/u")
        .unwrap();
    assert!(taken);
    assert_eq!(actions.len(), 1);
    match &actions[0] {
        FileAction::CopyFile { src, dst } => {
            assert_eq!(src, "/home/u/.x");
            assert_eq!(dst, "/c/dotty/dotty_backups/t/.x");
        },
        _ => panic!("expected one copy"),
    }
}

#[test]
fn destination_outside_home_cannot_be_backed_up() {
    let m = BackupManager::with_root("/c", "t");
    let err = m
        .backup_if_exists("/etc/x", true, false, &Vec::new(), "/home/u")
        .unwrap_err();
    assert_eq!(err.path, "/etc/x");
}

#[test]
fn cleanup_is_a_noop_without_a_store() {
    assert!(matches!(
        BackupManager::clean_backups("/home/u/.cache", false),
        CleanAction::NoStore
    ));
}

#[test]
fn cleanup_removes_the_whole_store() {
    match BackupManager::clean_backups("/home/u/.cache", true) {
        CleanAction::RemoveStore { path } => {
            assert_eq!(path, "/home/u/.cache/dotty/dotty_backups");
        },
        _ => panic!("expected the store removal"),
    }
}

#[test]
fn path_helpers() {
    assert_eq!(path_join("/a", "b"), "/a/b");
    assert!(str_eq("same", "same"));
    assert!(!str_eq("same", "Same"));
    assert!(str_has_prefix("/home/u/.x", "/home/u"));
    assert!(!str_has_prefix("/home/u", "/home/user"));
    assert_eq!(strip_prefix_dir("/home/u/.x", "/home/u").unwrap(), ".x");
    assert_eq!(strip_prefix_dir("/etc/x", "/home/u"), None);
    assert_eq!(strip_prefix_dir("/home/user/.x", "/home/u"), None);
}

#[test]
fn clone_cache_is_a_fixed_spot_under_the_cache() {
    if let Some(p) = clone_cache_dir() {
        assert!(p.ends_with("/dotty/clone"));
    }
}

#[test]
fn spinner_cycles_through_its_frames() {
    let mut s = Spinner::new("Cloning repository...");
    assert_eq!(s.message, "Cloning repository...");
    assert_eq!(s.current_frame, 0);
    s.advance();
    assert_eq!(s.current_frame, 1);
    for _ in 0..9 {
        s.advance();
    }
    assert_eq!(s.current_frame, 0);
}
