use std::cell::RefCell;

use gallery_sorter::config::Config;
use gallery_sorter::rename::{
    rename_list_to_write,
    build_unified_filename, is_already_unified, is_dynamic_photo, is_standard_name, jpeg_has_motion_photo_marker,
    plan_action, run_planned_renames, settle_rename, settle_without_rename, standard_name_prefix, unmodified_list_content,
    unmodified_sources, unmodified_temp_path, PlannedAction, RenameResult, RenameStats, RenameStatus,
};
use gallery_sorter::time::{ExtractedTime, TimeSource, Timestamp};

fn dt() -> ExtractedTime {
    ExtractedTime {
        timestamp: Timestamp { year: 2024, month: 1, day: 15, hour: 14, minute: 30, second: 0, nanosecond: 0 },
        source: TimeSource::Exif,
        has_millis: false,
    }
}

fn xmp_motion_jpeg() -> Vec<u8> {
    let xmp_payload = b"http://ns.adobe.com/xap/1.0/\0<rdf><MicroVideoOffset>1234</MicroVideoOffset></rdf>";
    let mut bytes = Vec::new();
    bytes.extend_from_slice(&[0xFF, 0xD8]);
    bytes.extend_from_slice(&[0xFF, 0xE1]);
    bytes.extend_from_slice(&((xmp_payload.len() + 2) as u16).to_be_bytes());
    bytes.extend_from_slice(xmp_payload);
    bytes.extend_from_slice(&[0xFF, 0xD9]);
    bytes
}

#[test]
fn test_build_unified_filename() {
    let config = Config::default();

    let target = build_unified_filename("/photos/DSC_0001.jpg", &dt(), &config, &[]).unwrap();
    assert_eq!(target, "/photos/IMG_20240115_143000.jpg");

    let target = build_unified_filename("/photos/DSC_0001.mp4", &dt(), &config, &[]).unwrap();
    assert_eq!(target, "/photos/VID_20240115_143000.mp4");

    let target = build_unified_filename("/photos/DSC_0001.arw", &dt(), &config, &[]).unwrap();
    assert_eq!(target, "/photos/IMG_20240115_143000.arw");

    let target = build_unified_filename("/photos/MVIMG_20240115_143000_HDR.jpg", &dt(), &config, &[]).unwrap();
    assert_eq!(target, "/photos/MVIMG_20240115_143000.jpg");

    let target = build_unified_filename("/photos/IMG_20240115_143000.JPG", &dt(), &config, &[]).unwrap();
    assert_eq!(target, "/photos/IMG_20240115_143000.JPG");

    let target = build_unified_filename("/photos/IMG_20240115_143000", &dt(), &config, &[]).unwrap();
    assert_eq!(target, "/photos/IMG_20240115_143000");
}

#[test]
fn test_is_already_unified() {
    let config = Config::default();

    assert!(is_already_unified("/photos/IMG_20240115_143000.jpg", &dt(), &config, &[]));
    assert!(!is_already_unified("/photos/20240115_143000.jpg", &dt(), &config, &[]));
}

#[test]
fn test_standard_name_prefix() {
    let config = Config::default();

    assert_eq!(standard_name_prefix("/photos/photo.jpg", &config, &[]), "IMG");
    assert_eq!(standard_name_prefix("/photos/photo.arw", &config, &[]), "IMG");
    assert_eq!(standard_name_prefix("/photos/video.mp4", &config, &[]), "VID");
    assert_eq!(standard_name_prefix("/photos/MVIMG_20240115_143000.jpg", &config, &[]), "MVIMG");
}

#[test]
fn test_is_dynamic_photo_detects_filename_and_xmp_marker() {
    assert!(is_dynamic_photo("/tmp/MVIMG_20240115_143000_HDR.jpg", b"irrelevant"));
    assert!(is_dynamic_photo("/tmp/PXL_20240115_143000.jpg", &xmp_motion_jpeg()));
    assert!(!is_dynamic_photo("/tmp/DSC_0001.jpg", b"not a jpeg"));
    assert!(!is_dynamic_photo("/tmp/missing.jpg", &[]));
}

#[test]
fn test_is_standard_name() {
    assert!(is_standard_name("/photos/MVIMG_20240115_143000.jpg"));
    assert!(is_standard_name("/photos/IMG_20240115_143000.jpg"));
    assert!(is_standard_name("/photos/VID_20240115_143000.mp4"));

    assert!(is_standard_name("/photos/IMG_20240115_143000_HDR.jpg"));
    assert!(is_standard_name("/photos/IMG_20240115_143000_1.jpg"));
    assert!(is_standard_name("/photos/MVIMG_20240115_143000-edit.jpg"));

    assert!(is_standard_name("/photos/img_20240115_143000.jpg"));

    assert!(!is_standard_name("/photos/20240115_143000.jpg"));
    assert!(!is_standard_name("/photos/IMG_20240115.jpg"));
    assert!(!is_standard_name("/photos/IMG_2024015_143000.jpg"));
    assert!(!is_standard_name("/photos/IMG_20240115_14300.jpg"));
    assert!(!is_standard_name("/photos/MYIMG_20240115_143000.jpg"));
    assert!(!is_standard_name("/photos/IMGX_20240115_143000.jpg"));
    assert!(!is_standard_name("/photos/VIDEO_20240115_143000.mp4"));
    assert!(!is_standard_name("/photos/photo.jpg"));
}

#[test]
fn motion_marker_scan_stops_at_image_data() {
    let mut bytes = vec![0xFF, 0xD8, 0xFF, 0xDA, 0x00, 0x04, 0x00, 0x00];
    let marker = xmp_motion_jpeg();
    bytes.extend_from_slice(&marker[2..]);
    assert!(!jpeg_has_motion_photo_marker(&bytes));
    assert!(jpeg_has_motion_photo_marker(&marker));
    assert!(!jpeg_has_motion_photo_marker(&[0xFF, 0xD8]));
    assert!(!jpeg_has_motion_photo_marker(&marker[1..]));
}

#[test]
fn motion_marker_ignores_case_and_skips_fill_and_standalone_markers() {
    let payload = b"http://ns.adobe.com/xap/1.0/\0<x:MotionPhoto>1</x:MotionPhoto>";
    let mut bytes = vec![0xFF, 0xD8, 0xFF, 0xFF, 0xD0];
    bytes.extend_from_slice(&[0xFF, 0xE0, 0x00, 0x04, 0x12, 0x34]);
    bytes.extend_from_slice(&[0xFF, 0xE1]);
    bytes.extend_from_slice(&((payload.len() + 2) as u16).to_be_bytes());
    bytes.extend_from_slice(payload);
    assert!(jpeg_has_motion_photo_marker(&bytes));

    let plain = b"http://ns.adobe.com/xap/1.0/\0<rdf></rdf>";
    let mut other = vec![0xFF, 0xD8, 0xFF, 0xE1];
    other.extend_from_slice(&((plain.len() + 2) as u16).to_be_bytes());
    other.extend_from_slice(plain);
    assert!(!jpeg_has_motion_photo_marker(&other));

    let truncated = vec![0xFF, 0xD8, 0xFF, 0xE1, 0x00, 0x40, 0x01];
    assert!(!jpeg_has_motion_photo_marker(&truncated));
}

#[test]
fn planning_a_rename() {
    let config = Config::default();
    assert!(matches!(plan_action("/p/a.jpg", &config, &[], true, Some(dt())), PlannedAction::Cancelled));
    assert!(matches!(plan_action("/p/a.jpg", &config, &[], false, None), PlannedAction::NoMetadata));
    assert!(matches!(
        plan_action("/p/IMG_20240115_143000.jpg", &config, &[], false, Some(dt())),
        PlannedAction::AlreadyUnified
    ));
    match plan_action("/p/a.jpg", &config, &[], false, Some(dt())) {
        PlannedAction::Rename(target) => assert_eq!(target, "/p/IMG_20240115_143000.jpg"),
        other => panic!("unexpected plan: {other:?}"),
    }
    let preserving = Config { preserve_standard_names: true, ..Default::default() };
    assert!(matches!(
        plan_action("/p/IMG_20240101_000000_HDR.jpg", &preserving, &[], false, Some(dt())),
        PlannedAction::Preserved
    ));
}

#[test]
fn settling_outcomes_and_counting_them() {
    let r = settle_rename("/p/a.jpg", Ok("/p/IMG_1.jpg".to_string()), None);
    assert_eq!(r.status, RenameStatus::DryRun);
    let r2 = settle_rename("/p/a.jpg", Ok("/p/IMG_1.jpg".to_string()), Some(Err("denied".to_string())));
    assert_eq!(r2.status, RenameStatus::Failed);
    assert_eq!(r2.error.as_deref(), Some("denied"));
    let r3 = settle_without_rename("/p/b.jpg", &PlannedAction::NoMetadata, false).unwrap();
    assert_eq!(r3.status, RenameStatus::NoMetadata);
    assert!(settle_without_rename("/p/b.jpg", &PlannedAction::Rename("/p/x.jpg".to_string()), false).is_none());

    let mut stats = RenameStats::new();
    for s in [RenameStatus::DryRun, RenameStatus::Failed, RenameStatus::NoMetadata, RenameStatus::Cancelled] {
        stats.record(s);
    }
    stats.total_files = 4;
    assert_eq!(stats.handled, 3);
    assert_eq!(
        stats.summary(),
        "Total: 4, Renamed: 1, Preserved: 0, Already unified: 0, No metadata: 1, Failed: 1"
    );

    let results: Vec<RenameResult> = vec![r, r2, r3];
    let sources = unmodified_sources(&results);
    assert_eq!(sources, vec!["/p/a.jpg".to_string(), "/p/b.jpg".to_string()]);
    assert_eq!(unmodified_list_content(&sources), "/p/a.jpg\n/p/b.jpg\n");
    assert_eq!(unmodified_temp_path("/out/unmodified_files.txt"), "/out/unmodified_files.txt.tmp");

    assert_eq!(rename_list_to_write(&results, false), Some(vec!["/p/a.jpg".to_string(), "/p/b.jpg".to_string()]));
    assert_eq!(rename_list_to_write(&results, true), None);
    assert_eq!(rename_list_to_write(&Vec::new(), false), None);
}

#[test]
fn planned_renames_never_share_a_target() {
    let planned = vec![
        ("/p/a.jpg".to_string(), PlannedAction::Rename("/p/IMG_1.jpg".to_string())),
        ("/p/b.jpg".to_string(), PlannedAction::Rename("/p/IMG_1.jpg".to_string())),
        ("/p/c.jpg".to_string(), PlannedAction::NoMetadata),
        ("/p/d.jpg".to_string(), PlannedAction::Rename("/p/IMG_2.jpg".to_string())),
    ];
    let renamed = RefCell::new(Vec::new());
    let mut stats = RenameStats::new();
    let results = run_planned_renames(
        planned,
        false,
        || false,
        |p: &str| p == "/p/IMG_2.jpg",
        |from: &str, to: &str| {
            renamed.borrow_mut().push((from.to_string(), to.to_string()));
            if from == "/p/d.jpg" { Err("denied".to_string()) } else { Ok(()) }
        },
        &mut stats,
    );
    let dests: Vec<Option<String>> = results.iter().map(|r| r.destination.clone()).collect();
    assert_eq!(
        dests,
        vec![
            Some("/p/IMG_1.jpg".to_string()),
            Some("/p/IMG_1_1.jpg".to_string()),
            None,
            Some("/p/IMG_2_1.jpg".to_string()),
        ]
    );
    let statuses: Vec<RenameStatus> = results.iter().map(|r| r.status).collect();
    assert_eq!(statuses, vec![RenameStatus::Renamed, RenameStatus::Renamed, RenameStatus::NoMetadata, RenameStatus::Failed]);
    assert_eq!(renamed.borrow().len(), 3);
    assert_eq!((stats.handled, stats.renamed, stats.no_metadata, stats.failed), (4, 2, 1, 1));
}

#[test]
fn a_dry_run_claims_targets_without_renaming() {
    let planned = vec![
        ("/p/a.jpg".to_string(), PlannedAction::Rename("/p/IMG_1.jpg".to_string())),
        ("/p/b.jpg".to_string(), PlannedAction::Rename("/p/IMG_1.jpg".to_string())),
    ];
    let mut stats = RenameStats::new();
    let results = run_planned_renames(planned, true, || false, |_p: &str| false, |_a: &str, _b: &str| -> Result<(), String> {
        panic!("no rename in a dry run")
    }, &mut stats);
    assert_eq!(results[0].status, RenameStatus::DryRun);
    assert_eq!(results[1].destination.as_deref(), Some("/p/IMG_1_1.jpg"));
    let cancelled = run_planned_renames(
        vec![("/p/a.jpg".to_string(), PlannedAction::Preserved)],
        false,
        || true,
        |_p: &str| false,
        |_a: &str, _b: &str| Ok(()),
        &mut stats,
    );
    assert_eq!(cancelled[0].status, RenameStatus::Cancelled);
}

#[test]
fn milliseconds_are_kept_in_the_unified_name() {
    let config = Config::default();
    let t = ExtractedTime {
        timestamp: Timestamp { year: 2024, month: 1, day: 15, hour: 14, minute: 30, second: 0, nanosecond: 123_000_000 },
        source: TimeSource::Exif,
        has_millis: true,
    };
    assert_eq!(build_unified_filename("/photos/DSC_0001.jpg", &t, &config, &[]).unwrap(), "/photos/IMG_20240115_143000123.jpg");
    let whole = ExtractedTime { timestamp: Timestamp { nanosecond: 0, ..t.timestamp }, ..t };
    assert_eq!(build_unified_filename("/photos/DSC_0001.jpg", &whole, &config, &[]).unwrap(), "/photos/IMG_20240115_143000000.jpg");
    let invalid = ExtractedTime { timestamp: Timestamp { month: 13, ..t.timestamp }, ..t };
    assert_eq!(build_unified_filename("/photos/DSC_0001.jpg", &invalid, &config, &[]), None);
}
