use dotty::config::ConfigError;
use dotty::config::DottyConfig;
use dotty::config::FileMapping;
use dotty::config::Package;
use dotty::config::Settings;

fn mapping(src: &str, dst: &str) -> FileMapping {
    FileMapping { source: String::from(src), destination: String::from(dst) }
}

fn package(name: &str, is_aur: bool, files: Vec<FileMapping>) -> Package {
    Package { name: String::from(name), is_aur, files }
}

#[test]
fn validate_accepts_wellformed_config() {
    let config = DottyConfig {
        packages: vec![
            package("vim", false, vec![mapping("vimrc", "~/.vimrc")]),
            package("paru-bin", true, vec![]),
        ],
        settings: None,
    };
    assert!(config.validate().is_ok());
}

#[test]
fn validate_accepts_empty_config() {
    let config = DottyConfig { packages: Vec::new(), settings: None };
    assert!(config.validate().is_ok());
}

#[test]
fn validate_rejects_empty_package_name() {
    let config = DottyConfig { packages: vec![package("", false, vec![])], settings: None };
    assert!(matches!(config.validate(), Err(ConfigError::EmptyPackageName)));
}

#[test]
fn validate_rejects_empty_source() {
    let config = DottyConfig {
        packages: vec![package("vim", false, vec![mapping("", "~/.vimrc")])],
        settings: None,
    };
    match config.validate() {
        Err(ConfigError::EmptySourcePath { package }) => assert_eq!(package, "vim"),
        _ => panic!("expected the empty source to be rejected"),
    }
}

#[test]
fn validate_rejects_empty_destination() {
    let config = DottyConfig {
        packages: vec![package("vim", false, vec![mapping("vimrc", "")])],
        settings: None,
    };
    match config.validate() {
        Err(ConfigError::EmptyDestinationPath { package }) => assert_eq!(package, "vim"),
        _ => panic!("expected the empty destination to be rejected"),
    }
}

#[test]
fn validate_reports_first_violation() {
    let config = DottyConfig {
        packages: vec![
            package("good", false, vec![mapping("a", "b")]),
            package("bad", false, vec![mapping("c", "")]),
            package("", false, vec![]),
        ],
        settings: None,
    };
    match config.validate() {
        Err(ConfigError::EmptyDestinationPath { package }) => assert_eq!(package, "bad"),
        _ => panic!("expected the first ill-formed package to be reported"),
    }
}

#[test]
fn rejection_messages_name_the_package() {
    assert_eq!(ConfigError::EmptyPackageName.message(), "Package name cannot be empty");
    assert_eq!(
        ConfigError::EmptySourcePath { package: String::from("vim") }.message(),
        "Source path cannot be empty for package vim"
    );
    assert_eq!(
        ConfigError::EmptyDestinationPath { package: String::from("vim") }.message(),
        "Destination path cannot be empty for package vim"
    );
}

#[test]
fn resolver_length_is_sum_of_file_counts() {
    let config = DottyConfig {
        packages: vec![
            package("a", false, vec![mapping("a1", "~/a1"), mapping("a2", "~/a2")]),
            package("b", true, vec![]),
            package("c", false, vec![mapping("c1", "~/c1")]),
        ],
        settings: None,
    };
    let all = config.get_all_file_mappings();
    assert_eq!(all.len(), 3);
}

#[test]
fn resolver_keeps_package_then_file_order() {
    let config = DottyConfig {
        packages: vec![
            package("a", false, vec![mapping("a1", "~/a1"), mapping("a2", "~/a2")]),
            package("c", false, vec![mapping("c1", "~/c1")]),
        ],
        settings: None,
    };
    let all = config.get_all_file_mappings();
    assert_eq!(all[0].source, "a1");
    assert_eq!(all[1].source, "a2");
    assert_eq!(all[2].source, "c1");
    assert_eq!(all[2].destination, "~/c1");
}

#[test]
fn skip_existing_defaults_to_false() {
    let config = DottyConfig { packages: Vec::new(), settings: None };
    assert!(!config.should_skip_existing());
}

#[test]
fn skip_existing_follows_settings() {
    let on = DottyConfig {
        packages: Vec::new(),
        settings: Some(Settings { skip_existing: true }),
    };
    assert!(on.should_skip_existing());
    let off = DottyConfig {
        packages: Vec::new(),
        settings: Some(Settings { skip_existing: false }),
    };
    assert!(!off.should_skip_existing());
}
