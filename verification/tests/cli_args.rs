use gallery_sorter::cli::{should_run_interactive_for_args, Cli};
use gallery_sorter::config::{ClassificationRule, Config, FileOperation, MonthFormat, ProcessingMode};

fn base_cli() -> Cli {
    Cli {
        config: None,
        input: None,
        output: None,
        mode: None,
        classify: None,
        month_format: None,
        classify_by_type: false,
        operation: None,
        no_deduplicate: false,
        state_file: None,
        threads: None,
        large_file_mb: None,
        dry_run: false,
        unify_filenames: false,
        preserve_standard_names: false,
        unmodified_list: None,
        verbose: false,
        json_log: false,
        interactive: false,
    }
}

fn file_config() -> Config {
    Config {
        input_dirs: vec!["D:/config_input".to_string()],
        output_dir: "D:/config_output".to_string(),
        processing_mode: ProcessingMode::Supplement,
        classification: ClassificationRule::Year,
        month_format: MonthFormat::Combined,
        classify_by_type: true,
        operation: FileOperation::Move,
        deduplicate: true,
        state_file: Some("D:/config_state.json".to_string()),
        threads: 4,
        large_file_threshold: 64 * 1024 * 1024,
        dry_run: false,
        verbose: false,
        ..Default::default()
    }
}

#[test]
fn test_to_config_no_classify_forces_year_month() {
    let cli = base_cli();
    let config = cli.to_config();

    assert_eq!(config.classification, ClassificationRule::YearMonth);
    assert_eq!(config.processing_mode, ProcessingMode::Incremental);
    assert!(config.deduplicate);
}

#[test]
fn test_to_config_classify_preserved_when_provided() {
    let mut cli = base_cli();
    cli.classify = Some(ClassificationRule::Year);
    let config = cli.to_config();

    assert_eq!(config.classification, ClassificationRule::Year);
}

#[test]
fn test_to_config_maps_all_cli_fields() {
    let mut cli = base_cli();
    cli.input = Some(vec!["D:/in1".to_string(), "D:/in2".to_string()]);
    cli.output = Some("D:/out".to_string());
    cli.mode = Some(ProcessingMode::Full);
    cli.month_format = Some(MonthFormat::Combined);
    cli.classify_by_type = true;
    cli.operation = Some(FileOperation::Hardlink);
    cli.no_deduplicate = true;
    cli.state_file = Some("D:/state.json".to_string());
    cli.threads = Some(8);
    cli.large_file_mb = Some(200);
    cli.dry_run = true;
    cli.verbose = true;

    let config = cli.to_config();

    assert_eq!(config.input_dirs, vec!["D:/in1".to_string(), "D:/in2".to_string()]);
    assert_eq!(config.output_dir, "D:/out".to_string());
    assert_eq!(config.processing_mode, ProcessingMode::Full);
    assert_eq!(config.month_format, MonthFormat::Combined);
    assert!(config.classify_by_type);
    assert_eq!(config.operation, FileOperation::Hardlink);
    assert!(!config.deduplicate);
    assert_eq!(config.state_file, Some("D:/state.json".to_string()));
    assert_eq!(config.threads, 8);
    assert_eq!(config.large_file_threshold, 200 * 1024 * 1024);
    assert!(config.dry_run);
    assert!(config.verbose);
}

#[test]
fn test_merge_with_config_file_values_inherited_without_cli_override() {
    let cli = base_cli();
    let config = cli.merge_with_config(file_config());

    assert_eq!(config.input_dirs, vec!["D:/config_input".to_string()]);
    assert_eq!(config.output_dir, "D:/config_output".to_string());
    assert_eq!(config.processing_mode, ProcessingMode::Supplement);
    assert_eq!(config.classification, ClassificationRule::Year);
    assert_eq!(config.month_format, MonthFormat::Combined);
    assert!(config.classify_by_type);
    assert_eq!(config.operation, FileOperation::Move);
    assert_eq!(config.state_file, Some("D:/config_state.json".to_string()));
    assert_eq!(config.threads, 4);
    assert_eq!(config.large_file_threshold, 64 * 1024 * 1024);
}

#[test]
fn test_merge_with_config_cli_overrides_file_values() {
    let mut cli = base_cli();
    cli.input = Some(vec!["D:/cli_input".to_string()]);
    cli.output = Some("D:/cli_output".to_string());
    cli.mode = Some(ProcessingMode::Full);
    cli.classify = Some(ClassificationRule::Unclassified);
    cli.month_format = Some(MonthFormat::Nested);
    cli.operation = Some(FileOperation::Copy);
    cli.no_deduplicate = true;
    cli.state_file = Some("D:/cli_state.json".to_string());
    cli.threads = Some(2);
    cli.large_file_mb = Some(10);
    cli.dry_run = true;
    cli.verbose = true;

    let config = cli.merge_with_config(file_config());

    assert_eq!(config.input_dirs, vec!["D:/cli_input".to_string()]);
    assert_eq!(config.output_dir, "D:/cli_output".to_string());
    assert_eq!(config.processing_mode, ProcessingMode::Full);
    assert_eq!(config.classification, ClassificationRule::Unclassified);
    assert_eq!(config.month_format, MonthFormat::Nested);
    assert_eq!(config.operation, FileOperation::Copy);
    assert!(!config.deduplicate);
    assert_eq!(config.state_file, Some("D:/cli_state.json".to_string()));
    assert_eq!(config.threads, 2);
    assert_eq!(config.large_file_threshold, 10 * 1024 * 1024);
    assert!(config.dry_run);
    assert!(config.verbose);
}

#[test]
fn test_merge_with_config_no_classify_preserves_file_classification() {
    let cli = base_cli();
    let config = Config {
        classification: ClassificationRule::Unclassified,
        ..Default::default()
    };

    let merged = cli.merge_with_config(config);

    assert_eq!(merged.classification, ClassificationRule::Unclassified);
}

#[test]
fn test_apply_overrides_does_not_touch_classification_without_flag() {
    let cli = base_cli();
    let mut config = Config {
        classification: ClassificationRule::Year,
        ..Default::default()
    };

    cli.apply_overrides(&mut config);

    assert_eq!(config.classification, ClassificationRule::Year);
}

#[test]
fn test_unify_filenames_flag_maps_to_config() {
    let mut cli = base_cli();
    cli.unify_filenames = true;
    cli.unmodified_list = Some("D:/reports/unmodified.txt".to_string());

    let config = cli.to_config();

    assert!(config.unify_filenames);
    assert_eq!(config.unmodified_list_file, Some("D:/reports/unmodified.txt".to_string()));
}

#[test]
fn test_config_name_uses_file_stem() {
    let mut cli = base_cli();
    cli.config = Some("D:/Configs/my_album.toml".to_string());

    assert_eq!(cli.config_name(), Some("my_album".to_string()));
}

#[test]
fn test_should_run_interactive_no_args_returns_true() {
    let args = vec!["gallery-sorter".to_string()];
    assert!(should_run_interactive_for_args(&args));
}

#[test]
fn test_should_run_interactive_with_args_returns_false() {
    let args = vec!["gallery-sorter".to_string(), "--input".to_string(), "D:/photos".to_string()];
    assert!(!should_run_interactive_for_args(&args));
}

#[test]
fn test_should_run_interactive_with_dash_i_flag() {
    let args = vec!["gallery-sorter".to_string(), "-i".to_string()];
    assert!(should_run_interactive_for_args(&args));
}

#[test]
fn test_should_run_interactive_with_long_flag() {
    let args = vec!["gallery-sorter".to_string(), "--interactive".to_string()];
    assert!(should_run_interactive_for_args(&args));
}

#[test]
fn test_should_run_interactive_flag_with_other_args() {
    let args = vec![
        "gallery-sorter".to_string(),
        "--input".to_string(),
        "D:/photos".to_string(),
        "-i".to_string(),
    ];
    assert!(should_run_interactive_for_args(&args));
}

#[test]
fn test_should_run_interactive_flag_last_position() {
    let args = vec![
        "gallery-sorter".to_string(),
        "--output".to_string(),
        "D:/sorted".to_string(),
        "--interactive".to_string(),
    ];
    assert!(should_run_interactive_for_args(&args));
}

#[test]
fn no_flags_leave_a_file_configuration_unchanged() {
    let cli = base_cli();
    let merged = cli.merge_with_config(file_config());
    let original = file_config();
    assert_eq!(merged.input_dirs, original.input_dirs);
    assert_eq!(merged.output_dir, original.output_dir);
    assert_eq!(merged.deduplicate, original.deduplicate);
    assert_eq!(merged.dry_run, original.dry_run);
    assert_eq!(merged.verbose, original.verbose);
    assert_eq!(merged.unify_filenames, original.unify_filenames);
    assert_eq!(merged.classify_by_type, original.classify_by_type);
}

#[test]
fn switches_only_turn_settings_on() {
    let cli = base_cli();
    let config = Config { dry_run: true, verbose: true, classify_by_type: true, ..Default::default() };
    let merged = cli.merge_with_config(config);
    assert!(merged.dry_run);
    assert!(merged.verbose);
    assert!(merged.classify_by_type);
}

#[test]
fn dash_i_as_program_name_does_not_count() {
    let args = vec!["-i".to_string(), "--input".to_string(), "x".to_string()];
    assert!(!should_run_interactive_for_args(&args));
}
