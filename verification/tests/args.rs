use copykitty::{
    ArgumentError, Arguments, Comparison, ComparisonStrategy, CopyConfig, Directory,
    DirectoryParser, LoggingLevel, effective_thread_count,
};

#[test]
fn a_missing_path_is_accepted_as_directory_argument() {
    let parser = Directory::value_parser();
    let parsed = parser.parse_ref(String::from("new_dir"), false, false).unwrap();
    assert_eq!(parsed.0, "new_dir");
}

#[test]
fn an_existing_directory_is_accepted() {
    let parser = DirectoryParser;
    let parsed = parser.parse_ref(String::from("root"), true, true).unwrap();
    assert_eq!(parsed.0, "root");
}

#[test]
fn an_existing_file_is_refused_as_directory_argument() {
    let parser = DirectoryParser;
    let refused = parser.parse_ref(String::from("a.txt"), true, false);
    assert_eq!(refused.unwrap_err(), ArgumentError::NotADirectory);
}

#[test]
fn each_strategy_argument_selects_its_engine_strategy() {
    assert_eq!(Comparison::from(ComparisonStrategy::Off), Comparison::Off);
    assert_eq!(Comparison::from(ComparisonStrategy::Exists), Comparison::Exists);
    assert_eq!(Comparison::from(ComparisonStrategy::Date), Comparison::Date);
}

#[test]
fn arguments_become_the_engine_configuration() {
    let arguments = Arguments {
        source: Directory(String::from("root")),
        destination: Directory(String::from("root2")),
        threads: Some(4),
        follow_symlinks: true,
        comparison: ComparisonStrategy::Exists,
        disable_copy_metadata: true,
        level: LoggingLevel::Debug,
    };
    let config = arguments.to_config();
    assert_eq!(config.thread_count, Some(4));
    assert!(config.follow_symlinks);
    assert_eq!(config.comparison, Comparison::Exists);
    assert!(!config.preserve_metadata);
}

#[test]
fn the_default_configuration_compares_dates_and_preserves_metadata() {
    let config = CopyConfig::default();
    assert_eq!(config.thread_count, None);
    assert!(!config.follow_symlinks);
    assert_eq!(config.comparison, Comparison::Date);
    assert!(config.preserve_metadata);
}

#[test]
fn an_explicit_worker_count_is_used_as_given() {
    assert_eq!(effective_thread_count(Some(3)), 3);
}

#[test]
fn the_default_worker_count_is_at_least_one() {
    assert!(effective_thread_count(None) >= 1);
}
