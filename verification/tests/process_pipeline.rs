use std::collections::HashSet;

use gallery_sorter::config::{ClassificationRule, Config, FileType, MonthFormat, ProcessingMode};
use gallery_sorter::process::{
    build_base_destination_path, destination_file_name, duplicate_result, filename_priority_score, is_excluded_dir,
    newest_processed, process_single_file, relative_to_output, reserve_destinations, resolve_filename_conflict, score_fits, takes_reservation, watermark_replaces,
    resolve_filename_conflict_with, select_files_to_process, select_media_files, should_list_as_unmodified,
    sort_by_priority, unmodified_list_to_write, unmodified_results, watermark_decision, watermark_keeps, ConflictError, FileFacts, FileResult,
    FileStep, ProcessingStats, ProcessingStatus, WatermarkDecision,
};
use gallery_sorter::path::{path_starts_with_str, same_path_str};
use gallery_sorter::time::{ExtractedTime, TimeSource, Timestamp};

fn ts(year: i32, month: u32, day: u32) -> Timestamp {
    Timestamp { year, month, day, hour: 14, minute: 30, second: 0, nanosecond: 0 }
}

fn exif_time(t: Timestamp) -> ExtractedTime {
    ExtractedTime { timestamp: t, source: TimeSource::Exif, has_millis: false }
}

fn facts(source: &str, hash: Option<u64>) -> FileFacts {
    FileFacts {
        source: source.to_string(),
        content_hash: hash,
        in_target: false,
        already_processed: None,
        time: None,
        state_duplicate: None,
        reserved_dest: None,
        dest_exists: None,
        dest_hash: None,
        free_dest: None,
        operation: None,
    }
}

#[test]
fn test_processing_stats() {
    let mut stats = ProcessingStats::new();
    for _ in 0..5 {
        stats.record(ProcessingStatus::Success);
    }
    stats.add_skipped(2);
    stats.record(ProcessingStatus::Duplicate);
    stats.record(ProcessingStatus::Failed);

    let summary = stats.summary();
    assert!(summary.contains("Processed: 5"));
    assert!(summary.contains("Skipped: 2"));
    assert!(summary.contains("Duplicates: 1"));
    assert!(summary.contains("Failed: 1"));
    assert_eq!(summary, "Total: 0, Processed: 5, Skipped: 2, Duplicates: 1, Failed: 1");
}

#[test]
fn test_filename_priority_score() {
    let clean = "IMG_20251006_180519.jpg";
    let copy_cn = "IMG_20251006_180519 - 副本.jpg";
    let copy_suffix1 = "IMG_20251006_180519_1.jpg";
    let copy_suffix2 = "IMG_20251006_180527_2.jpg";
    let copy_space = "IMG_20251007_151359 1.jpg";
    let copy_paren = "IMG_20251006_180519(1).jpg";

    let score_clean = filename_priority_score(clean);
    assert!(score_clean < filename_priority_score(copy_cn));
    assert!(score_clean < filename_priority_score(copy_suffix1));
    assert!(score_clean < filename_priority_score(copy_suffix2));
    assert!(score_clean < filename_priority_score(copy_space));
    assert!(score_clean < filename_priority_score(copy_paren));
}

#[test]
fn priority_scores_exactly() {
    assert_eq!(filename_priority_score("IMG_20251006_180519.jpg"), 19 + 1000);
    assert_eq!(filename_priority_score("IMG_20251006_180519 - 副本.jpg"), 19 + 3 + 6 + 1000);
    assert_eq!(filename_priority_score("IMG_20251006_180519_1.jpg"), 21 + 1000);
    assert_eq!(filename_priority_score("clean.jpg"), 5);
    assert_eq!(filename_priority_score("photo copy.jpg"), 10 + 1000);
    assert_eq!(filename_priority_score("/"), u32::MAX);
}

#[test]
fn test_filename_priority_sorting() {
    let files = vec![
        "IMG_20251006_180519 - 副本.jpg".to_string(),
        "IMG_20251006_180519.jpg".to_string(),
        "IMG_20251006_180527_2.jpg".to_string(),
        "IMG_20251006_180527.jpg".to_string(),
        "IMG_20251006_180527_1.jpg".to_string(),
    ];

    let files = sort_by_priority(files);

    assert_eq!(files[0], "IMG_20251006_180519.jpg");
    assert_eq!(files[1], "IMG_20251006_180527.jpg");
}

#[test]
fn sorting_keeps_scan_order_among_equal_scores() {
    let files = vec!["b/x1.jpg".to_string(), "a/y2.jpg".to_string(), "c/z.jpg".to_string()];
    assert_eq!(
        sort_by_priority(files),
        vec!["c/z.jpg".to_string(), "b/x1.jpg".to_string(), "a/y2.jpg".to_string()]
    );
}

#[test]
fn media_files_are_filtered_then_sorted() {
    let config = Config::default();
    let found = vec!["d/notes.txt".to_string(), "d/b_1.JPG".to_string(), "d/a.mp4".to_string(), "d/README".to_string()];
    assert_eq!(select_media_files(&config, found), vec!["d/a.mp4".to_string(), "d/b_1.JPG".to_string()]);
}

#[test]
fn one_file_is_kept_per_content_hash() {
    let paths = vec![
        "in/IMG_1_1.jpg".to_string(),
        "in/IMG_1.jpg".to_string(),
        "in/other.jpg".to_string(),
        "in/nohash.jpg".to_string(),
        "in/IMG_1 copy.jpg".to_string(),
    ];
    let hashes = vec![Some(7), Some(7), Some(9), None, Some(7)];
    let keep = select_files_to_process(&paths, &hashes);
    assert_eq!(keep, vec![false, true, true, true, false]);
}

#[test]
fn equal_scores_keep_the_first_of_a_group() {
    let paths = vec!["a/x.jpg".to_string(), "b/y.jpg".to_string()];
    let keep = select_files_to_process(&paths, &vec![Some(1), Some(1)]);
    assert_eq!(keep, vec![true, false]);
}

#[test]
fn test_resolve_filename_conflict_with_occupied_target() {
    let target = "/tmp/out/20240115_143000.jpg";
    let on_disk: HashSet<String> = HashSet::new();

    let occupied = vec![target.to_string()];
    let resolved = resolve_filename_conflict_with(target, &occupied, |p: &str| on_disk.contains(p)).unwrap();
    assert_eq!(resolved, "/tmp/out/20240115_143000_1.jpg");

    let resolved = resolve_filename_conflict_with(target, &Vec::new(), |p: &str| on_disk.contains(p)).unwrap();
    assert_eq!(resolved, target);

    let mut on_disk = HashSet::new();
    on_disk.insert(target.to_string());
    let resolved = resolve_filename_conflict_with(target, &Vec::new(), |p: &str| on_disk.contains(p)).unwrap();
    assert_eq!(resolved, "/tmp/out/20240115_143000_1.jpg");
}

#[test]
fn conflict_resolution_counts_up_and_gives_up() {
    let taken: HashSet<String> =
        ["/o/a.jpg", "/o/a_1.jpg", "/o/a_2.jpg"].iter().map(|s| s.to_string()).collect();
    assert_eq!(resolve_filename_conflict("/o/a.jpg", |p: &str| taken.contains(p)).unwrap(), "/o/a_3.jpg");
    assert_eq!(resolve_filename_conflict("/o/noext", |_p: &str| false).unwrap(), "/o/noext");
    assert_eq!(resolve_filename_conflict("/o/noext", |p: &str| p == "/o/noext").unwrap(), "/o/noext_1");
    assert_eq!(resolve_filename_conflict("/o/a.jpg", |_p: &str| true), Err(ConflictError::Exhausted));
    assert_eq!(resolve_filename_conflict("/", |_p: &str| true), Err(ConflictError::InvalidFilename));
}

#[test]
fn destinations_follow_the_classification() {
    let t = exif_time(ts(2024, 3, 9));
    let mut config = Config { output_dir: "/out".to_string(), ..Default::default() };

    config.classification = ClassificationRule::Unclassified;
    assert_eq!(build_base_destination_path("/in/a.jpg", &t, &config, &[]).unwrap(), "/out/a.jpg");

    config.classification = ClassificationRule::Year;
    assert_eq!(build_base_destination_path("/in/a.jpg", &t, &config, &[]).unwrap(), "/out/2024/a.jpg");

    config.classification = ClassificationRule::YearMonth;
    config.month_format = MonthFormat::Nested;
    assert_eq!(build_base_destination_path("/in/a.jpg", &t, &config, &[]).unwrap(), "/out/2024/03/a.jpg");

    config.month_format = MonthFormat::Combined;
    config.classify_by_type = true;
    assert_eq!(build_base_destination_path("/in/a.jpg", &t, &config, &[]).unwrap(), "/out/2024-03/Photos/a.jpg");
    assert_eq!(build_base_destination_path("/in/a.arw", &t, &config, &[]).unwrap(), "/out/2024-03/Photos/Raw/a.arw");
    assert_eq!(build_base_destination_path("/in/a.mov", &t, &config, &[]).unwrap(), "/out/2024-03/Videos/a.mov");
    assert_eq!(build_base_destination_path("/in/a.txt", &t, &config, &[]).unwrap(), "/out/2024-03/a.txt");

    assert!(build_base_destination_path("/", &t, &config, &[]).is_err());
    assert_eq!(FileType::Raw.folder_name(), "Raw");
}

#[test]
fn unified_destination_names() {
    let t = exif_time(ts(2024, 1, 15));
    let config = Config { output_dir: "/out".to_string(), unify_filenames: true, ..Default::default() };
    assert_eq!(destination_file_name("/in/DSC_1.jpg", &t, &config, &[]), "IMG_20240115_143000.jpg");
    let from_name = ExtractedTime { source: TimeSource::Filename, ..t };
    assert_eq!(destination_file_name("/in/DSC_1.jpg", &from_name, &config, &[]), "DSC_1.jpg");
    let keep = Config { preserve_standard_names: true, ..Config { unify_filenames: true, ..Default::default() } };
    assert_eq!(destination_file_name("/in/VID_20200101_010101.mp4", &t, &keep, &[]), "VID_20200101_010101.mp4");
}

#[test]
fn unmodified_list_selection() {
    let config = Config { unify_filenames: true, ..Default::default() };
    let results = vec![
        FileResult { source: "a".into(), destination: None, time_info: None, status: ProcessingStatus::Failed, error: Some("x".into()) },
        FileResult {
            source: "b".into(),
            destination: Some("o/b".into()),
            time_info: Some(ExtractedTime { timestamp: ts(2024, 1, 1), source: TimeSource::FileSystem, has_millis: false }),
            status: ProcessingStatus::Success,
            error: None,
        },
        FileResult {
            source: "c".into(),
            destination: Some("o/c".into()),
            time_info: Some(exif_time(ts(2024, 1, 1))),
            status: ProcessingStatus::DryRun,
            error: None,
        },
        FileResult { source: "d".into(), destination: None, time_info: None, status: ProcessingStatus::Skipped, error: None },
    ];
    assert!(should_list_as_unmodified(&results[0], &config));
    assert!(!should_list_as_unmodified(&results[0], &Config::default()));
    assert_eq!(unmodified_results(&results, &config), vec!["a".to_string(), "b".to_string()]);

    assert_eq!(unmodified_list_to_write(&results, &config), Some(vec!["a".to_string(), "b".to_string()]));
    let dry = Config { unify_filenames: true, dry_run: true, ..Default::default() };
    assert_eq!(unmodified_list_to_write(&results, &dry), None);
    assert_eq!(unmodified_list_to_write(&results, &Config::default()), None);
    let nothing_listed = vec![FileResult {
        source: "d".into(),
        destination: None,
        time_info: None,
        status: ProcessingStatus::Skipped,
        error: None,
    }];
    assert_eq!(unmodified_list_to_write(&nothing_listed, &config), None);
}

#[test]
fn excluded_directories() {
    let config = Config { exclude_dirs: vec!["/data/skip".to_string(), "cache".to_string()], ..Default::default() };
    assert!(is_excluded_dir("/data/skip/x.jpg", &config));
    assert!(!is_excluded_dir("/data/skipped/x.jpg", &config));
    assert!(is_excluded_dir("/home/a/cache/b.jpg", &config));
    assert!(!is_excluded_dir("/home/a/caches/b.jpg", &config));
    assert!(!is_excluded_dir("/anything", &Config::default()));
}

#[test]
fn a_new_file_walks_through_the_steps() {
    let config = Config {
        output_dir: "/out".to_string(),
        processing_mode: ProcessingMode::Incremental,
        classification: ClassificationRule::Year,
        ..Default::default()
    };
    let mut f = facts("/in/a.jpg", Some(5));
    assert!(matches!(process_single_file(&config, &[], &f), FileStep::CheckProcessed));
    f.already_processed = Some(false);
    assert!(matches!(process_single_file(&config, &[], &f), FileStep::ExtractTime));
    f.time = Some(Ok(exif_time(ts(2024, 1, 1))));
    assert!(matches!(process_single_file(&config, &[], &f), FileStep::LookUpStateDuplicate(5)));
    f.state_duplicate = Some(None);
    match process_single_file(&config, &[], &f) {
        FileStep::CheckDestination(d) => assert_eq!(d, "/out/2024/a.jpg"),
        other => panic!("unexpected step {other:?}"),
    }
    f.dest_exists = Some(true);
    assert!(matches!(process_single_file(&config, &[], &f), FileStep::HashDestination(_)));
    f.dest_hash = Some(Some(6));
    assert!(matches!(process_single_file(&config, &[], &f), FileStep::FindFreeDestination(_)));
    f.free_dest = Some(Ok("/out/2024/a_1.jpg".to_string()));
    assert!(matches!(process_single_file(&config, &[], &f), FileStep::Perform(_)));
    f.operation = Some(Ok(()));
    match process_single_file(&config, &[], &f) {
        FileStep::Done { result, record } => {
            assert_eq!(result.status, ProcessingStatus::Success);
            assert_eq!(result.destination.as_deref(), Some("/out/2024/a_1.jpg"));
            assert!(record);
        }
        other => panic!("unexpected step {other:?}"),
    }
}

#[test]
fn identical_destinations_by_mode() {
    let full = Config { output_dir: "/out".to_string(), processing_mode: ProcessingMode::Full, classification: ClassificationRule::Unclassified, ..Default::default() };
    let mut f = facts("/in/a.jpg", Some(5));
    f.time = Some(Ok(exif_time(ts(2024, 1, 1))));
    f.dest_exists = Some(true);
    f.dest_hash = Some(Some(5));
    match process_single_file(&full, &[], &f) {
        FileStep::Done { result, record } => {
            assert_eq!(result.status, ProcessingStatus::Success);
            assert!(!record);
        }
        other => panic!("unexpected step {other:?}"),
    }
    let supplement = Config { processing_mode: ProcessingMode::Supplement, ..full };
    match process_single_file(&supplement, &[], &f) {
        FileStep::Done { result, .. } => assert_eq!(result.status, ProcessingStatus::Skipped),
        other => panic!("unexpected step {other:?}"),
    }
    f.in_target = true;
    match process_single_file(&supplement, &[], &f) {
        FileStep::Done { result, .. } => {
            assert_eq!(result.status, ProcessingStatus::Skipped);
            assert!(result.destination.is_none());
        }
        other => panic!("unexpected step {other:?}"),
    }
}

#[test]
fn failures_and_dry_runs() {
    let config = Config { output_dir: "/out".to_string(), processing_mode: ProcessingMode::Full, dry_run: true, ..Default::default() };
    let mut f = facts("/in/a.jpg", None);
    f.time = Some(Err("no time".to_string()));
    match process_single_file(&config, &[], &f) {
        FileStep::Done { result, .. } => {
            assert_eq!(result.status, ProcessingStatus::Failed);
            assert_eq!(result.error.as_deref(), Some("no time"));
        }
        other => panic!("unexpected step {other:?}"),
    }
    f.time = Some(Ok(exif_time(ts(2024, 1, 1))));
    f.dest_exists = Some(false);
    match process_single_file(&config, &[], &f) {
        FileStep::Done { result, record } => {
            assert_eq!(result.status, ProcessingStatus::DryRun);
            assert!(record);
        }
        other => panic!("unexpected step {other:?}"),
    }
}

#[test]
fn duplicates_point_at_their_kept_copy() {
    let r = duplicate_result("in/b.jpg", None, Some("in/a.jpg".to_string()));
    assert_eq!(r.status, ProcessingStatus::Duplicate);
    assert_eq!(r.destination.as_deref(), Some("in/a.jpg"));
    let r = duplicate_result("in/b.jpg", Some("out/a.jpg".to_string()), Some("in/a.jpg".to_string()));
    assert_eq!(r.destination.as_deref(), Some("out/a.jpg"));
}

#[test]
fn the_newest_processed_file_moves_the_watermark() {
    let mk = |s: &str, t: Timestamp, status: ProcessingStatus| FileResult {
        source: s.into(),
        destination: Some(format!("/out/{s}")),
        time_info: Some(exif_time(t)),
        status,
        error: None,
    };
    let results = vec![
        mk("a", ts(2024, 1, 1), ProcessingStatus::Success),
        mk("b", ts(2024, 5, 1), ProcessingStatus::Failed),
        mk("c", ts(2024, 3, 1), ProcessingStatus::DryRun),
        mk("d", ts(2024, 3, 1), ProcessingStatus::Success),
    ];
    assert_eq!(newest_processed(&results), Some(2));
    assert_eq!(newest_processed(&Vec::new()), None);
    assert_eq!(relative_to_output("/out/2024/03/c.jpg", "/out"), "2024/03/c.jpg");
    assert_eq!(relative_to_output("/elsewhere/c.jpg", "/out"), "/elsewhere/c.jpg");
}

#[test]
fn watermark_decisions() {
    let inc = Config { processing_mode: ProcessingMode::Incremental, ..Default::default() };
    let settings = Some((inc.classification, inc.month_format));
    assert_eq!(watermark_decision(&Config { processing_mode: ProcessingMode::Full, ..Default::default() }, settings, None), WatermarkDecision::NotUsed);
    assert_eq!(watermark_decision(&inc, None, None), WatermarkDecision::Rescan);
    assert_eq!(watermark_decision(&inc, Some((ClassificationRule::Year, MonthFormat::Combined)), None), WatermarkDecision::Rescan);
    assert_eq!(watermark_decision(&inc, settings, None), WatermarkDecision::CheckNewest);
    assert_eq!(watermark_decision(&inc, settings, Some(false)), WatermarkDecision::Rescan);
    assert_eq!(watermark_decision(&inc, settings, Some(true)), WatermarkDecision::Keep);
    assert!(watermark_keeps(&Some(ts(2024, 1, 2)), &ts(2024, 1, 1)));
    assert!(!watermark_keeps(&Some(ts(2024, 1, 1)), &ts(2024, 1, 1)));
    assert!(watermark_keeps(&None, &ts(2024, 1, 1)));
}

#[test]
fn reserved_destinations_are_distinct() {
    let bases = vec!["/o/IMG_1.jpg".to_string(), "/o/IMG_1.jpg".to_string(), "/o/x.jpg".to_string(), "/o/IMG_1.jpg".to_string()];
    let r = reserve_destinations(&bases);
    let got: Vec<String> = r.into_iter().map(|x| x.unwrap()).collect();
    assert_eq!(got, vec!["/o/IMG_1.jpg", "/o/IMG_1_1.jpg", "/o/x.jpg", "/o/IMG_1_2.jpg"]);

    // A base that is already some earlier file's numbered variant moves on.
    let bases = vec!["/o/a.jpg".to_string(), "/o/a_1.jpg".to_string(), "/o/a.jpg".to_string()];
    let got: Vec<String> = reserve_destinations(&bases).into_iter().map(|x| x.unwrap()).collect();
    assert_eq!(got, vec!["/o/a.jpg", "/o/a_1.jpg", "/o/a_2.jpg"]);

    // A claimed path without a stem cannot be numbered.
    let bases = vec!["/o/..".to_string(), "/o/..".to_string()];
    let r = reserve_destinations(&bases);
    assert_eq!(r[0], Ok("/o/..".to_string()));
    assert_eq!(r[1], Err(ConflictError::InvalidFilename));
}

#[test]
fn a_reserved_destination_replaces_the_built_one() {
    let config = Config { output_dir: "/out".to_string(), processing_mode: ProcessingMode::Full, ..Default::default() };
    let mut f = facts("/in/a.jpg", None);
    f.time = Some(Ok(exif_time(ts(2024, 1, 1))));
    f.reserved_dest = Some("/out/IMG_20240101_143000_1.jpg".to_string());
    match process_single_file(&config, &[], &f) {
        FileStep::CheckDestination(d) => assert_eq!(d, "/out/IMG_20240101_143000_1.jpg"),
        other => panic!("unexpected step {other:?}"),
    }
}

#[test]
fn a_destination_on_disk_is_never_returned() {
    let on_disk = ["/o/a.jpg", "/o/a_1.jpg"];
    let r = resolve_filename_conflict("/o/a.jpg", |p: &str| on_disk.contains(&p));
    assert_eq!(r, Ok("/o/a_2.jpg".to_string()));
    let r = resolve_filename_conflict_with("/o/b.jpg", &vec!["/o/b_1.jpg".to_string()], |p: &str| p == "/o/b.jpg");
    assert_eq!(r, Ok("/o/b_2.jpg".to_string()));
    assert_eq!(resolve_filename_conflict("/o/c.jpg", |_p: &str| false), Ok("/o/c.jpg".to_string()));
}

#[test]
fn decisions_around_the_run() {
    assert!(score_fits("/in/IMG_0001.jpg"));
    assert!(score_fits("/"));

    let unify = Config { unify_filenames: true, ..Default::default() };
    assert!(takes_reservation(&unify, true));
    assert!(!takes_reservation(&unify, false));
    assert!(!takes_reservation(&Config::default(), true));

    assert!(watermark_replaces(&None, &ts(2024, 1, 1)));
    assert!(watermark_replaces(&Some(ts(2023, 1, 1)), &ts(2024, 1, 1)));
    assert!(!watermark_replaces(&Some(ts(2024, 1, 1)), &ts(2024, 1, 1)));
}

#[test]
fn a_leading_dot_component_is_kept_and_inner_ones_dropped() {
    assert!(path_starts_with_str("./a/b", "./a"));
    assert!(!path_starts_with_str("./a/b", "a"));
    assert!(path_starts_with_str("a/./b", "a/b"));
    assert!(same_path_str("a//b/", "a/b"));
    assert!(!same_path_str("./a", "a"));
    assert!(same_path_str("/./a", "/a"));
    // A backslash is an ordinary character, as on Unix.
    assert!(!same_path_str("a\\b", "a/b"));
}
