use gallery_sorter::cli::{
    config_path_candidates, get_log_path, interactive_log_path, load_config, resolve_config_path, validate_config, Cli,
    ConfigCheckError,
};
use gallery_sorter::config::{ClassificationRule, Config};

fn base_cli() -> Cli {
    Cli {
        config: None,
        input: None,
        output: None,
        mode: None,
        classify: None,
        month_format: None,
        classify_by_type: false,
        operation: None,
        no_deduplicate: false,
        state_file: None,
        threads: None,
        large_file_mb: None,
        dry_run: false,
        unify_filenames: false,
        preserve_standard_names: false,
        unmodified_list: None,
        verbose: false,
        json_log: false,
        interactive: false,
    }
}

fn valid_file_config() -> Config {
    Config {
        input_dirs: vec!["D:/photos".to_string()],
        output_dir: "D:/sorted".to_string(),
        classification: ClassificationRule::Year,
        ..Default::default()
    }
}

#[test]
fn test_resolve_config_path_direct_file() {
    let dir = "/tmp/app";
    let path = "/tmp/app/config.toml";
    let existing = vec![path.to_string()];

    let resolved = resolve_config_path(dir, path, &existing);

    assert_eq!(resolved, path);
}

#[test]
fn test_resolve_config_path_adds_toml_extension() {
    let dir = "/tmp/app";
    let with_extension = "/tmp/app/config.toml";
    let existing = vec![with_extension.to_string()];

    let resolved = resolve_config_path(dir, "/tmp/app/config", &existing);

    assert_eq!(resolved, with_extension);
}

#[test]
fn test_resolve_config_path_shorthand_in_config_dir() {
    let dir = "/tmp/app";
    let in_config_dir = "/tmp/app/Config/my_album.toml";
    let existing = vec![in_config_dir.to_string()];

    let resolved = resolve_config_path(dir, "my_album", &existing);

    assert_eq!(resolved, in_config_dir);
}

#[test]
fn test_resolve_config_path_missing_returns_input() {
    let dir = "/tmp/app";
    let missing = "/tmp/app/missing.toml";

    let resolved = resolve_config_path(dir, missing, &Vec::new());

    assert_eq!(resolved, missing);
}

#[test]
fn config_candidates_in_order() {
    let c = config_path_candidates("/opt/gs", "album");
    assert_eq!(c, vec!["album".to_string(), "album.toml".to_string(), "/opt/gs/Config/album.toml".to_string()]);
    let c = config_path_candidates("/opt/gs", "/etc/gs/album.toml");
    assert_eq!(
        c,
        vec!["/etc/gs/album.toml".to_string(), "/etc/gs/album.toml".to_string(), "/opt/gs/Config/album.toml".to_string()]
    );
}

#[test]
fn test_load_config_with_file_merges_and_returns_path() {
    let mut cli = base_cli();
    cli.config = Some("/tmp/app/config.toml".to_string());
    cli.output = Some("D:/cli_out".to_string());

    let (config, path) =
        load_config(&cli, Some(("/tmp/app/config.toml".to_string(), Ok(valid_file_config())))).unwrap();

    assert_eq!(path, Some("/tmp/app/config.toml".to_string()));
    assert_eq!(config.input_dirs, vec!["D:/photos".to_string()]);
    assert_eq!(config.output_dir, "D:/cli_out".to_string());
    assert_eq!(config.classification, ClassificationRule::Year);
}

#[test]
fn test_load_config_without_file_returns_defaults_and_none() {
    let mut cli = base_cli();
    cli.input = Some(vec!["D:/photos".to_string()]);
    cli.output = Some("D:/sorted".to_string());

    let (config, path) = load_config(&cli, None).unwrap();

    assert_eq!(path, None);

    assert_eq!(config.input_dirs, vec!["D:/photos".to_string()]);
    assert_eq!(config.classification, ClassificationRule::YearMonth);
}

#[test]
fn test_load_config_empty_input_dirs_errors() {
    let mut cli = base_cli();
    cli.config = Some("/tmp/app/config.toml".to_string());

    let err = load_config(&cli, Some(("/tmp/app/config.toml".to_string(), Ok(Config::default())))).unwrap_err();
    assert!(matches!(err, ConfigCheckError::NoInputDirs));
}

#[test]
fn an_unreadable_configuration_file_is_refused_with_its_message() {
    let mut cli = base_cli();
    cli.config = Some("broken".to_string());
    cli.input = Some(vec!["D:/photos".to_string()]);
    let err = load_config(&cli, Some(("/tmp/app/Config/broken.toml".to_string(), Err("bad toml".to_string()))))
        .unwrap_err();
    match err {
        ConfigCheckError::FileUnreadable { message } => assert_eq!(message, "bad toml"),
        other => panic!("unexpected error {other:?}"),
    }
    // Without --config no file is consulted.
    let (config, path) = load_config(&base_cli_with_input(), Some(("x".to_string(), Err("ignored".to_string())))).unwrap();
    assert_eq!(path, None);
    assert_eq!(config.input_dirs, vec!["D:/photos".to_string()]);
}

fn base_cli_with_input() -> Cli {
    let mut cli = base_cli();
    cli.input = Some(vec!["D:/photos".to_string()]);
    cli
}

#[test]
fn test_validate_config_output_inside_input_errors() {
    let config = Config {
        input_dirs: vec!["/tmp/work/photos".to_string()],
        output_dir: "/tmp/work/photos/sorted".to_string(),
        ..Default::default()
    };

    let err = validate_config(&config).unwrap_err();
    match err {
        ConfigCheckError::OutputInsideInput { output_dir, input_dir } => {
            assert!(output_dir.contains("sorted") && input_dir.contains("photos"));
        }
        other => panic!("unexpected error: {other:?}"),
    }
}

#[test]
fn test_validate_config_valid_config_ok() {
    let config = Config {
        input_dirs: vec!["/tmp/work/photos".to_string()],
        output_dir: "/tmp/work/sorted".to_string(),
        ..Default::default()
    };

    assert!(validate_config(&config).is_ok());
}

#[test]
fn validate_names_the_first_enclosing_input() {
    let config = Config {
        input_dirs: vec!["/a/b".to_string(), "/a".to_string(), "/x".to_string()],
        output_dir: "/a/b/c".to_string(),
        ..Default::default()
    };
    match validate_config(&config) {
        Err(ConfigCheckError::OutputInsideInput { input_dir, .. }) => assert_eq!(input_dir, "/a/b"),
        other => panic!("unexpected result: {other:?}"),
    }
    let sibling = Config {
        input_dirs: vec!["/a/b".to_string()],
        output_dir: "/a/bc".to_string(),
        ..Default::default()
    };
    assert!(validate_config(&sibling).is_ok());
}

#[test]
fn log_paths() {
    let mut cli = base_cli();
    assert_eq!(get_log_path("/opt/gs", &cli, "20240115_143000"), "/opt/gs/Log/CLIRun_20240115_143000.log");
    cli.config = Some("D:/Configs/my_album.toml".to_string());
    assert_eq!(
        get_log_path("/opt/gs", &cli, "20240115_143000"),
        "/opt/gs/Log/my_album/my_album_20240115_143000.log"
    );
    assert_eq!(interactive_log_path("/opt/gs", "20240115_143000"), "/opt/gs/Log/Interactive_20240115_143000.log");
}

#[test]
fn preserve_standard_names_flag_only_turns_the_setting_on() {
    let mut cli = base_cli();
    cli.preserve_standard_names = true;
    let merged = cli.merge_with_config(valid_file_config());
    assert!(merged.preserve_standard_names);

    let file = Config { preserve_standard_names: true, ..valid_file_config() };
    let kept = base_cli().merge_with_config(file);
    assert!(kept.preserve_standard_names);
}

#[test]
fn flags_cannot_change_exclusions_or_extension_lists() {
    let file = Config {
        exclude_dirs: vec![".sync".to_string()],
        image_extensions: vec!["jpg".to_string()],
        ..valid_file_config()
    };
    let mut cli = base_cli();
    cli.input = Some(vec!["D:/other".to_string()]);
    cli.output = Some("D:/elsewhere".to_string());
    cli.dry_run = true;
    let merged = cli.merge_with_config(file);
    assert_eq!(merged.exclude_dirs, vec![".sync".to_string()]);
    assert_eq!(merged.image_extensions, vec!["jpg".to_string()]);
    assert_eq!(merged.video_extensions, Config::default().video_extensions);
    assert_eq!(merged.input_dirs, vec!["D:/other".to_string()]);
}
